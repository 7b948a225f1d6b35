use std::sync::Arc;

use heats::json::JsonValue;
use heats::source::{value_to_string, DmenuItem};

fn item(line: &str) -> DmenuItem {
    DmenuItem::parse_line(line).expect("a menu item")
}

#[test]
fn null_data_gives_empty_string() {
    let it = DmenuItem {
        title: "T".to_string(),
        subtitle: None,
        icon_path: None,
        data: Some(Arc::new(JsonValue::Null)),
    };
    assert_eq!(it.get_field("data"), "");
}

#[test]
fn scalar_fields() {
    let it = item(r#"{"title":"Safari","subtitle":"/Applications/Safari.app"}"#);
    assert_eq!(it.get_field("title"), "Safari");
    assert_eq!(it.get_field("subtitle"), "/Applications/Safari.app");
    assert_eq!(it.get_field("icon_path"), "");
}

#[test]
fn data_scalars_render_canonically() {
    assert_eq!(item(r#"{"title":"t","data":"x y"}"#).get_field("data"), "x y");
    assert_eq!(item(r#"{"title":"t","data":42}"#).get_field("data"), "42");
    assert_eq!(item(r#"{"title":"t","data":-7}"#).get_field("data"), "-7");
    assert_eq!(item(r#"{"title":"t","data":true}"#).get_field("data"), "true");
    assert_eq!(item(r#"{"title":"t","data":false}"#).get_field("data"), "false");
}

#[test]
fn data_structures_render_as_compact_json() {
    let it = item(r#"{"title":"t","data":{"b":[1, 2],"a":"x"}}"#);
    assert_eq!(it.get_field("data"), r#"{"a":"x","b":[1,2]}"#);
}

#[test]
fn dotted_path_walks_into_data() {
    let it = item(r#"{"title":"t","data":{"path":"/A.app","w":{"pid":123,"name":"n"}}}"#);
    assert_eq!(it.get_field("data.path"), "/A.app");
    assert_eq!(it.get_field("data.w.pid"), "123");
    assert_eq!(it.get_field("data.w"), r#"{"name":"n","pid":123}"#);
    assert_eq!(it.get_field("data.missing"), "");
    assert_eq!(it.get_field("data.w.pid.deeper"), "");
    assert_eq!(it.get_field("data.path.x"), "");
}

#[test]
fn other_paths_fall_back_to_title() {
    let it = item(r#"{"title":"Title","data":{"a":1}}"#);
    assert_eq!(it.get_field("name"), "Title");
    assert_eq!(it.get_field("database"), "Title");
    assert_eq!(it.get_field(""), "Title");
    let no_data = item(r#"{"title":"Title"}"#);
    assert_eq!(no_data.get_field("data"), "Title");
    assert_eq!(no_data.get_field("data.a"), "Title");
}

#[test]
fn json_null_data_is_empty() {
    let it = item(r#"{"title":"Title","data":null}"#);
    assert_eq!(it.data.as_deref(), Some(&JsonValue::Null));
    assert_eq!(it.get_field("data"), "");
    assert_eq!(it.get_field("data.x"), "");
}

#[test]
fn parse_line_accepts_items_only() {
    assert!(DmenuItem::parse_line("not json").is_none());
    assert!(DmenuItem::parse_line("").is_none());
    assert!(DmenuItem::parse_line("[1,2]").is_none());
    assert!(DmenuItem::parse_line(r#"{"subtitle":"no title"}"#).is_none());
    assert!(DmenuItem::parse_line(r#"{"title":5}"#).is_none());
    assert!(DmenuItem::parse_line(r#"{"title":"t","subtitle":5}"#).is_none());
    let it = DmenuItem::parse_line(r#"{"title":"t","subtitle":null,"icon_path":"/i.png","extra":1}"#).unwrap();
    assert_eq!(it.title, "t");
    assert_eq!(it.subtitle, None);
    assert_eq!(it.icon_path, Some("/i.png".to_string()));
}

#[test]
fn parse_json_and_render() {
    let v = JsonValue::parse(r#"{"k":[true,null,1.5]}"#).unwrap();
    assert_eq!(value_to_string(&v), r#"{"k":[true,null,1.5]}"#);
    assert!(JsonValue::parse("{").is_none());
    assert_eq!(v.to_text(), r#"{"k":[true,null,1.5]}"#);
    assert_eq!(JsonValue::parse("12").unwrap(), JsonValue::Number("12".to_string()));
    let s = JsonValue::parse(r#""a\"b""#).unwrap();
    assert_eq!(value_to_string(&s), "a\"b");
}

#[test]
fn duplicate_keeps_item() {
    let it = item(r#"{"title":"t","subtitle":"s","data":{"x":1}}"#);
    let copy = it.duplicate();
    assert_eq!(copy.title, "t");
    assert_eq!(copy.subtitle.as_deref(), Some("s"));
    assert_eq!(copy.get_field("data.x"), "1");
}
