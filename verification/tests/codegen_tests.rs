use gpui_style_hot_reload::json::{parse_json, Json};
use gpui_style_hot_reload::my_layout_data::load_layout;
use gpui_style_hot_reload::pjson_to_rust_helper::{pjson_to_rust_code, to_pascal_case};

#[test]
fn pascal_case_of_snake_case() {
    assert_eq!(to_pascal_case("my_text_input"), "MyTextInput");
    assert_eq!(to_pascal_case("div"), "Div");
    assert_eq!(to_pascal_case(""), "");
    assert_eq!(to_pascal_case("__a__b_"), "AB");
    assert_eq!(to_pascal_case("already_Upper"), "AlreadyUpper");
    assert_eq!(to_pascal_case("ßeta"), "SSeta");
}

#[test]
fn test_pjson_to_rust_code() {
    let content = br##"{
        "type": "div",
        "class": "div1",
        "children": [
            {"type": "div", "class": "div2", "children": [
                {"type": "label", "bind": "text", "class": "label"},
                {"type": "button", "id": "btn1", "class": "btn1", "label": "btn1",
                 "on_click": "btn1_click"}
            ]},
            {"type": "div", "class": "div3", "children": [
                {"type": "text_input", "bind": "my_input_state", "class": "textinput"},
                {"type": "fn", "name": "create_some_elements"}
            ]},
            "Styles and layouts can be hot-loaded."
        ]
    }"##;
    let json_value = load_layout(content).unwrap();
    let rust_code = pjson_to_rust_code(&json_value);

    println!("{}", rust_code)
}

#[test]
fn code_for_a_small_document() {
    let doc = parse_json(
        r##"{"class":"root","children":[
            "say \"hi\"",
            {"type":"label","label":"a\tb","style":{"gap":2,"bg_color":"#fff"}},
            {"type":"button","id":"go","label":"Go","on_click":"run"},
            {"type":"text_input"},
            {"type":"fn","name":"rows","class":"list"},
            {"type":"slider"},
            3
        ]}"##,
    )
    .unwrap();
    let want = concat_lines(&[
        "    div().class(\"root\", ld)",
        "        .child(label::Label::new(\"say \\\"hi\\\"\"))",
        "        .child(label::Label::new(\"a\\tb\")    .apply_style_rule(&/* style rule */ serde_json::from_value(json!({\"bg_color\":\"#fff\",\"gap\":2})).unwrap())",
        "",
        ")",
        "        .child(button::Button::new(\"go\").label(\"Go\").on_click(self.run())",
        ")",
        "        .child(input::TextInput::new(/* missing bind */)",
        ")",
        "        .child((self.rows())(self, cx).class(\"list\", ld)",
        ")",
        "        .child(// Unsupported element type: slider",
        "div() // fallback",
        "",
        ")    ",
        "",
    ]);
    assert_eq!(pjson_to_rust_code(&doc), want);
}

fn concat_lines(lines: &[&str]) -> String {
    lines.join("\n")
}

#[test]
fn code_for_what_is_no_object() {
    assert_eq!(
        pjson_to_rust_code(&Json::List(vec![])),
        "    // Invalid element format: expected object\n"
    );
    assert_eq!(pjson_to_rust_code(&Json::Object(vec![])), "    div()    \n");
}

#[test]
fn compact_text_of_a_tree() {
    let doc = parse_json(r#" { "b" : [1, 2.50, -3e2, "x\ny", null, true, {}], "a" : "é\"" } "#)
        .unwrap();
    assert_eq!(doc.to_text(), "{\"a\":\"é\\\"\",\"b\":[1,2.5,-300.0,\"x\\ny\",null,true,{}]}");
    assert_eq!(Json::List(vec![]).to_text(), "[]");
    assert_eq!(Json::Bool(false).to_text(), "false");
}
