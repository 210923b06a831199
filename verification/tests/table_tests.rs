use gpui_style_hot_reload::json::{parse_json, parse_json_bytes, Json, LoadError};
use gpui_style_hot_reload::my_layout_data::referenced_names;
use gpui_style_hot_reload::table::{last_position, NameTable};
use gpui_style_hot_reload::text::{split_on_char, str_eq};

#[test]
fn a_name_stands_for_its_last_value() {
    let mut t: NameTable<u32> = NameTable::new();
    assert_eq!(t.get("a"), None);
    t.insert("a".to_string(), 1);
    t.insert("b".to_string(), 2);
    t.insert("a".to_string(), 3);
    assert_eq!(t.get("a"), Some(&3));
    assert_eq!(t.get("b"), Some(&2));
    assert_eq!(t.get("c"), None);
    assert_eq!(t.entries.len(), 2);
    let twice = vec![("k".to_string(), 'x'), ("j".to_string(), 'y'), ("k".to_string(), 'z')];
    assert_eq!(last_position(&twice, "k"), Some(2));
    assert_eq!(last_position(&twice, "j"), Some(1));
    assert_eq!(last_position(&twice, "i"), None);
}

#[test]
fn splitting_keeps_empty_pieces() {
    assert_eq!(split_on_char("a b", ' '), vec!["a", "b"]);
    assert_eq!(split_on_char("", ' '), vec![""]);
    assert_eq!(split_on_char(" a  b ", ' '), vec!["", "a", "", "b", ""]);
    assert_eq!(split_on_char("héllo_wörld", '_'), vec!["héllo", "wörld"]);
    assert!(str_eq("abc", "abc"));
    assert!(!str_eq("abc", "abd"));
    assert!(!str_eq("abc", "ab"));
}

#[test]
fn bytes_that_are_not_utf8_are_replaced() {
    assert_eq!(parse_json_bytes(b"\"a\xffb\""), Ok(Json::Text("a\u{fffd}b".to_string())));
    assert_eq!(parse_json_bytes(b"\xff"), Err(LoadError::Syntax));
    assert_eq!(parse_json("  null "), Ok(Json::Null));
    assert_eq!(parse_json(""), Err(LoadError::Syntax));
}

#[test]
fn members_and_strings_of_a_tree() {
    let doc = parse_json(r#"{"id": "x", "n": 1, "inner": {"id": "y"}}"#).unwrap();
    assert_eq!(doc.get_str("id"), Some("x"));
    assert_eq!(doc.get_str("n"), None);
    assert_eq!(doc.get_str("absent"), None);
    assert_eq!(doc.get("n"), Some(&Json::Number("1".to_string())));
    assert_eq!(doc.get("inner").unwrap().get_str("id"), Some("y"));
    assert_eq!(Json::Null.get("id"), None);
    assert_eq!(Json::Text("t".to_string()).as_str(), Some("t"));
    assert_eq!(Json::Bool(true).as_str(), None);
}

#[test]
fn names_that_rendering_asks_for() {
    let doc = parse_json(
        r#"{"bind": "root", "name": "root_fn", "children": [
            {"type": "label", "bind": "title", "on_click": "no", "name": "no"},
            "text",
            {"children": [
                {"type": "text_input", "bind": "input"},
                {"type": "button", "id": "b", "on_click": "save", "bind": "no"},
                {"type": "fn", "name": "rows", "children": [{"type": "label", "bind": "no"}]}
            ]},
            {"type": "label", "bind": 3},
            {"type": "button", "on_click": "without_id"},
            {"type": "button", "id": "c", "on_click": "load", "children": "none"},
            {"type": "slider", "bind": "no", "name": "no"}
        ]}"#,
    )
    .unwrap();
    assert_eq!(referenced_names(&doc, "div", "bind"), vec!["title", "input"]);
    assert_eq!(referenced_names(&doc, "div", "on_click"), vec!["save", "load"]);
    assert_eq!(referenced_names(&doc, "div", "name"), vec!["rows"]);
    assert_eq!(referenced_names(&doc, "label", "bind"), vec!["root"]);
    assert_eq!(referenced_names(&doc, "text_input", "bind"), vec!["root"]);
    assert_eq!(referenced_names(&doc, "fn", "name"), vec!["root_fn"]);
    assert_eq!(referenced_names(&doc, "fn", "bind"), Vec::<String>::new());
    assert_eq!(referenced_names(&doc, "button", "on_click"), Vec::<String>::new());
    assert_eq!(referenced_names(&Json::Null, "div", "bind"), Vec::<String>::new());
    let button = parse_json(r#"{"id": "x", "on_click": "go"}"#).unwrap();
    assert_eq!(referenced_names(&button, "button", "on_click"), vec!["go"]);
    assert_eq!(referenced_names(&button, "div", "on_click"), Vec::<String>::new());
}
