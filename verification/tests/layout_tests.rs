use gpui_style_hot_reload::json::{parse_json, Json, LoadError};
use gpui_style_hot_reload::my_layout_data::{
    add_button_by_json, add_div_by_json, add_fn_by_json, add_label_by_json,
    add_text_input_by_json, load_layout, render, set_attributes, set_children, Element,
    FieldValue, Issue, MethodValue, Owner,
};
use gpui_style_hot_reload::my_style_data::{load_styles, MyStyleData, Style, StyleMap};

fn owner() -> Owner {
    let styles = load_styles(br##"{"box": {"bg_color": "#102030", "width": 12.5}}"##).unwrap();
    let mut o = Owner::new(styles, Json::Null);
    o.fields.insert("title".to_string(), FieldValue::SharedText("Hello".to_string()));
    o.fields.insert("plain".to_string(), FieldValue::PlainText("World".to_string()));
    o.fields.insert("input".to_string(), FieldValue::InputState);
    o.fields.insert("progress".to_string(), FieldValue::Other);
    o.handlers.insert("on_save".to_string(), MethodValue::ClickHandler);
    o.handlers.insert("make_list".to_string(), MethodValue::Other);
    o.handlers.insert("nothing".to_string(), MethodValue::Nothing);
    o.builders.insert("make_list".to_string(), MethodValue::ElementBuilder);
    o.builders.insert("on_save".to_string(), MethodValue::Other);
    o.builders.insert("nothing".to_string(), MethodValue::Nothing);
    o
}

fn doc(text: &str) -> Json {
    parse_json(text).unwrap()
}

fn empty_div() -> Element {
    Element::Div { style: Style::new(), children: vec![] }
}

#[test]
fn div_with_text_and_label_children() {
    let d = doc(r#"{"type":"div","children":["hi", {"type":"label","label":"x"}]}"#);
    let mut log = Vec::new();
    let el = add_div_by_json(&d, &owner(), &mut log);
    match el {
        Element::Div { children, .. } => {
            assert_eq!(children.len(), 2);
            assert_eq!(children[0], Element::Label { text: "hi".to_string(), style: Style::new() });
            match &children[1] {
                Element::Label { text, .. } => assert_eq!(text, "x"),
                other => panic!("not a label: {:?}", other),
            }
        }
        other => panic!("not a container: {:?}", other),
    }
    assert_eq!(log, vec![]);
}

#[test]
fn button_without_id_is_still_a_button() {
    let d = doc(r#"{"type":"button","label":"Save","on_click":"on_save"}"#);
    let mut log = Vec::new();
    let el = add_button_by_json(&d, &owner(), &mut log);
    match el {
        Element::Button { id, label, on_click, .. } => {
            assert_eq!(id, "");
            assert_eq!(label, None);
            assert_eq!(on_click, None);
        }
        other => panic!("not a button: {:?}", other),
    }
    assert_eq!(log, vec![Issue::MissingButtonId]);
}

#[test]
fn button_with_handler() {
    let d = doc(r#"{"type":"button","id":"b1","label":"Save","on_click":"on_save","class":"box"}"#);
    let mut log = Vec::new();
    let el = render(&d, &owner(), &mut log);
    match el {
        Element::Button { id, label, on_click, style } => {
            assert_eq!(id, "b1");
            assert_eq!(label, Some("Save".to_string()));
            assert_eq!(on_click, Some("on_save".to_string()));
            assert_eq!(style.bg_color, Some("#102030".to_string()));
        }
        other => panic!("not a button: {:?}", other),
    }
    assert_eq!(log, vec![]);
}

#[test]
fn button_handler_failures_leave_it_inert() {
    let o = owner();
    for (name, issue) in [
        ("missing", Issue::MethodNotFound),
        ("nothing", Issue::MethodGaveNothing),
        ("make_list", Issue::MethodWrongType),
    ] {
        let d = doc(&format!(r#"{{"id":"b","on_click":"{}"}}"#, name));
        let mut log = Vec::new();
        match add_button_by_json(&d, &o, &mut log) {
            Element::Button { id, on_click, .. } => {
                assert_eq!(id, "b");
                assert_eq!(on_click, None);
            }
            other => panic!("not a button: {:?}", other),
        }
        assert_eq!(log, vec![issue]);
    }
}

#[test]
fn label_text_sources() {
    let o = owner();
    let cases = [
        (r#"{"bind":"title","label":"lit"}"#, "Hello", vec![]),
        (r#"{"bind":"plain","label":"lit"}"#, "World", vec![]),
        (r#"{"bind":"progress","label":"lit"}"#, "", vec![Issue::InvalidLabelType]),
        (r#"{"bind":"absent","label":"lit"}"#, "lit", vec![]),
        (r#"{"label":"lit"}"#, "lit", vec![]),
        (r#"{}"#, "", vec![Issue::MissingLabelText]),
    ];
    for (text, want, issues) in cases {
        let mut log = Vec::new();
        match add_label_by_json(&doc(text), &o, &mut log) {
            Element::Label { text, .. } => assert_eq!(text, want),
            other => panic!("not a label: {:?}", other),
        }
        assert_eq!(log, issues);
    }
}

#[test]
fn text_input_needs_an_input_state() {
    let o = owner();
    let mut log = Vec::new();
    let el = add_text_input_by_json(&doc(r#"{"bind":"input"}"#), &o, &mut log);
    assert_eq!(el, Element::TextInput { bind: "input".to_string(), style: Style::new() });
    assert_eq!(log, vec![]);
    let cases = [
        (r#"{"bind":"title"}"#, Issue::FieldWrongType),
        (r#"{"bind":"absent"}"#, Issue::FieldNotFound),
        (r#"{}"#, Issue::MissingBind),
        (r#"[1]"#, Issue::NotAnObject),
    ];
    for (text, issue) in cases {
        let mut log = Vec::new();
        assert_eq!(add_text_input_by_json(&doc(text), &o, &mut log), empty_div());
        assert_eq!(log, vec![issue]);
    }
}

#[test]
fn fn_node_splices_a_builder() {
    let o = owner();
    let mut log = Vec::new();
    let el = add_fn_by_json(&doc(r#"{"type":"fn","name":"make_list"}"#), &o, &mut log);
    assert_eq!(el, Element::Custom { name: "make_list".to_string() });
    assert_eq!(log, vec![]);
    let cases = [
        (r#"{"name":"on_save"}"#, Issue::MethodWrongType),
        (r#"{"name":"nothing"}"#, Issue::MethodGaveNothing),
        (r#"{"name":"absent"}"#, Issue::MethodNotFound),
        (r#"{}"#, Issue::MissingFnName),
    ];
    for (text, issue) in cases {
        let mut log = Vec::new();
        assert_eq!(add_fn_by_json(&doc(text), &o, &mut log), empty_div());
        assert_eq!(log, vec![issue]);
    }
}

#[test]
fn unknown_kind_and_bad_children() {
    let d = doc(r#"{"children":[{"type":"slider"}, 7, {"children":["a"]}, null]}"#);
    let mut log = Vec::new();
    let el = add_div_by_json(&d, &owner(), &mut log);
    let inner = Element::Div {
        style: Style::new(),
        children: vec![Element::Label { text: "a".to_string(), style: Style::new() }],
    };
    assert_eq!(el, Element::Div { style: Style::new(), children: vec![empty_div(), inner] });
    assert_eq!(log, vec![Issue::UnknownElement, Issue::BadChild, Issue::BadChild]);
}

#[test]
fn class_then_inline_style() {
    let d = doc(r##"{"class":"box nope","style":{"bg_color":"#ffffff","gap":3}}"##);
    let mut log = Vec::new();
    match add_div_by_json(&d, &owner(), &mut log) {
        Element::Div { style, .. } => {
            assert_eq!(style.bg_color, Some("#ffffff".to_string()));
            assert_eq!(style.gap, Some("3".to_string()));
            assert_eq!(
                style.width,
                Some(gpui_style_hot_reload::my_style_data::Length::Px("12.5".to_string()))
            );
        }
        other => panic!("not a container: {:?}", other),
    }
    assert_eq!(log, vec![]);
    let bad = doc(r#"{"class":"box","style":{"colour":"red"}}"#);
    let mut log = Vec::new();
    match add_div_by_json(&bad, &owner(), &mut log) {
        Element::Div { style, .. } => assert_eq!(style.bg_color, Some("#102030".to_string())),
        other => panic!("not a container: {:?}", other),
    }
    assert_eq!(log, vec![Issue::WrongStyle]);
}

#[test]
fn owner_renders_its_layout() {
    let mut o = owner();
    o.layout_data = load_layout(br#"{"children":[{"type":"label","bind":"title"}]}"#).unwrap();
    let mut log = Vec::new();
    match o.render(&mut log) {
        Element::Div { children, .. } => {
            assert_eq!(children.len(), 1);
            match &children[0] {
                Element::Label { text, .. } => assert_eq!(text, "Hello"),
                other => panic!("not a label: {:?}", other),
            }
        }
        other => panic!("not a container: {:?}", other),
    }
    assert_eq!(log, vec![]);
}

#[test]
fn layout_that_is_not_json() {
    assert_eq!(load_layout(b"{\"type\": "), Err(LoadError::Syntax));
    assert_eq!(load_layout(b"\xff\xfe"), Err(LoadError::Syntax));
    assert_eq!(
        load_layout(b"[1.5, \"a\", true, null]"),
        Ok(Json::List(vec![
            Json::Number("1.5".to_string()),
            Json::Text("a".to_string()),
            Json::Bool(true),
            Json::Null,
        ]))
    );
    assert_eq!(
        load_layout(b"{\"b\": 1, \"a\": -2}"),
        Ok(Json::Object(vec![
            ("a".to_string(), Json::Number("-2".to_string())),
            ("b".to_string(), Json::Number("1".to_string())),
        ]))
    );
    let _ = MyStyleData { style_map: StyleMap::new() };
}

#[test]
fn one_name_as_handler_and_as_builder() {
    let mut o = owner();
    o.handlers.insert("both".to_string(), MethodValue::ClickHandler);
    o.builders.insert("both".to_string(), MethodValue::ElementBuilder);
    let d = doc(
        r#"{"children":[{"type":"button","id":"b","on_click":"both"},{"type":"fn","name":"both"}]}"#,
    );
    let mut log = Vec::new();
    match add_div_by_json(&d, &o, &mut log) {
        Element::Div { children, .. } => {
            assert_eq!(children.len(), 2);
            match &children[0] {
                Element::Button { on_click, .. } => assert_eq!(on_click, &Some("both".to_string())),
                other => panic!("not a button: {:?}", other),
            }
            assert_eq!(children[1], Element::Custom { name: "both".to_string() });
        }
        other => panic!("not a container: {:?}", other),
    }
    assert_eq!(log, vec![]);
}

#[test]
fn children_are_appended_after_what_is_there() {
    let o = owner();
    let d = doc(r#"{"children":["a", {"type":"label","label":"b"}, 1, "c"]}"#);
    let first = Element::Custom { name: "kept".to_string() };
    let mut log = Vec::new();
    let children = set_children(vec![first], &d, &o, &mut log);
    assert_eq!(children.len(), 4);
    assert_eq!(children[0], Element::Custom { name: "kept".to_string() });
    assert_eq!(children[1], Element::Label { text: "a".to_string(), style: Style::new() });
    match &children[2] {
        Element::Label { text, .. } => assert_eq!(text, "b"),
        other => panic!("not a label: {:?}", other),
    }
    assert_eq!(children[3], Element::Label { text: "c".to_string(), style: Style::new() });
    assert_eq!(log, vec![Issue::BadChild]);
    let mut log = Vec::new();
    assert_eq!(set_children(vec![], &Json::Null, &o, &mut log), vec![]);
    assert_eq!(log, vec![Issue::NotAnObject]);
}

#[test]
fn attributes_are_classes_then_inline_style() {
    let o = owner();
    let d = doc(r##"{"class":"box","style":{"width":7}}"##);
    let mut log = Vec::new();
    let mut start = Style::new();
    start.gap = Some("1".to_string());
    let style = set_attributes(start, &d, &o, &mut log);
    assert_eq!(style.gap, Some("1".to_string()));
    assert_eq!(style.bg_color, Some("#102030".to_string()));
    assert_eq!(
        style.width,
        Some(gpui_style_hot_reload::my_style_data::Length::Px("7".to_string()))
    );
    assert_eq!(log, vec![]);
}
