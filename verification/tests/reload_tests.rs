use gpui_style_hot_reload::json::{Json, LoadError};
use gpui_style_hot_reload::my_layout_data::{Owner, SetMyLayoutData};
use gpui_style_hot_reload::my_style_data::{
    decode_rule, known_property, load_styles, MyStyleData, SetMyStyleData, StylableElement,
    Style, StyleMap, StyleRule,
};
use gpui_style_hot_reload::reload::{
    apply_layout_reload, apply_style_reload, document_path, event_matches, reload_layout,
    reload_styles, ReloadAction,
};

fn fresh() -> Owner {
    Owner::new(MyStyleData { style_map: StyleMap::new() }, Json::Null)
}

#[test]
fn startup_path_falls_back_two_levels_up() {
    assert_eq!(document_path("styles.pjson", true), "styles.pjson");
    assert_eq!(document_path("styles.pjson", false), "../../styles.pjson");
    assert_eq!(document_path("", false), "../../");
}

#[test]
fn event_paths_are_compared_with_the_watched_path() {
    let watched = Some("/tmp/a.pjson".to_string());
    assert!(event_matches(&watched, &vec![Some("/tmp/b".to_string()), watched.clone()]));
    assert!(!event_matches(&watched, &vec![Some("/tmp/b".to_string()), None]));
    assert!(!event_matches(&watched, &vec![]));
    assert!(event_matches(&None, &vec![None]));
    assert!(!event_matches(&None, &vec![Some("/tmp/a.pjson".to_string())]));
}

#[test]
fn invalid_styles_after_valid_ones_change_nothing() {
    let mut o = fresh();
    let first = reload_styles(&mut o, br##"{"a": {"bg_color": "#010203"}}"##);
    assert_eq!(first, ReloadAction::Rerender);
    let before = Style::new().class("a", o.get_style_data());
    assert_eq!(before.bg_color, Some("#010203".to_string()));

    let second = reload_styles(&mut o, br##"{"a": {"bg_color": "#040506""##);
    assert_eq!(second, ReloadAction::Keep(LoadError::Syntax));
    assert_eq!(Style::new().class("a", o.get_style_data()), before);

    let third = reload_styles(&mut o, br##"{"a": {"bg_colour": "#040506"}}"##);
    assert_eq!(third, ReloadAction::Keep(LoadError::UnknownField));
    assert_eq!(Style::new().class("a", o.get_style_data()), before);

    let fourth = reload_styles(&mut o, br##"{"a": {"bg_color": "#040506"}}"##);
    assert_eq!(fourth, ReloadAction::Rerender);
    assert_eq!(
        Style::new().class("a", o.get_style_data()).bg_color,
        Some("#040506".to_string())
    );
}

#[test]
fn layout_reload_replaces_or_keeps() {
    let mut o = fresh();
    assert_eq!(reload_layout(&mut o, b"{\"type\":\"div\"}"), ReloadAction::Rerender);
    let want = Json::Object(vec![("type".to_string(), Json::Text("div".to_string()))]);
    assert_eq!(o.layout_data, want);
    assert_eq!(reload_layout(&mut o, b"{\"type\":"), ReloadAction::Keep(LoadError::Syntax));
    assert_eq!(o.layout_data, want);
    assert_eq!(apply_layout_reload(&mut o, Ok(Json::Bool(true))), ReloadAction::Rerender);
    assert_eq!(o.layout_data, Json::Bool(true));
    o.set_layout_data(Json::Null);
    assert_eq!(o.layout_data, Json::Null);
}

#[test]
fn outcome_of_a_load_is_put_into_force() {
    let mut o = fresh();
    let mut map = StyleMap::new();
    map.insert("x".to_string(), StyleRule { gap: Some("1".to_string()), ..StyleRule::default() });
    let data = MyStyleData { style_map: map };
    assert_eq!(apply_style_reload(&mut o, Ok(data.clone())), ReloadAction::Rerender);
    assert_eq!(o.get_style_data(), &data);
    assert_eq!(
        apply_style_reload(&mut o, Err(LoadError::WrongType)),
        ReloadAction::Keep(LoadError::WrongType)
    );
    assert_eq!(o.get_style_data(), &data);
    o.set_style_data(MyStyleData { style_map: StyleMap::new() });
    assert_eq!(o.get_style_data().style_map.get("x"), None);
}

#[test]
fn style_documents_are_read_strictly() {
    let ok = load_styles(
        br##"{"a": {"size_full": true, "margin": 10, "margin_left": 2.5, "rounded": null},
              "b": {}}"##,
    )
    .unwrap();
    let a = ok.style_map.get("a").unwrap();
    assert_eq!(a.size_full, Some(true));
    assert_eq!(a.margin, Some("10".to_string()));
    assert_eq!(a.margin_left, Some("2.5".to_string()));
    assert_eq!(a.rounded, None);
    assert_eq!(ok.style_map.get("b"), Some(&StyleRule::default()));
    assert_eq!(ok.style_map.get("c"), None);

    assert_eq!(load_styles(b"{\"a\": "), Err(LoadError::Syntax));
    assert_eq!(load_styles(b"[]"), Err(LoadError::NotAnObject));
    assert_eq!(load_styles(b"{\"a\": 3}"), Err(LoadError::NotAnObject));
    assert_eq!(load_styles(b"{\"a\": {\"colour\": \"red\"}}"), Err(LoadError::UnknownField));
    assert_eq!(load_styles(b"{\"a\": {\"margin\": \"10\"}}"), Err(LoadError::WrongType));
    assert_eq!(load_styles(b"{\"a\": {\"bg_color\": 10}}"), Err(LoadError::WrongType));
    assert_eq!(load_styles(b"{\"a\": {\"size_full\": 1}}"), Err(LoadError::WrongType));
    assert_eq!(
        load_styles(b"{\"a\": {\"margin\": \"10\", \"colour\": 1}}"),
        Err(LoadError::UnknownField)
    );
}

#[test]
fn rule_properties_by_name() {
    assert!(known_property("size_full"));
    assert!(known_property("padding_bottom"));
    assert!(known_property("gap"));
    assert!(!known_property("Gap"));
    assert!(!known_property(""));
    assert_eq!(decode_rule(&Json::Null), Err(LoadError::NotAnObject));
    assert_eq!(decode_rule(&Json::Object(vec![])), Ok(StyleRule::default()));
    let twice = Json::Object(vec![
        ("gap".to_string(), Json::Number("1".to_string())),
        ("gap".to_string(), Json::Number("2".to_string())),
    ]);
    assert_eq!(decode_rule(&twice).unwrap().gap, Some("2".to_string()));
}
