use heats::providers::{AppEntry, WindowEntry};
use heats::source::DmenuItem;

#[test]
fn bundle_paths_become_entries() {
    let e = AppEntry::from_path("/Applications/Safari.app").unwrap();
    assert_eq!(e.name, "Safari");
    assert_eq!(e.path, "/Applications/Safari.app");
    let e = AppEntry::from_path("/Applications/Utilities/a.b.app").unwrap();
    assert_eq!(e.name, "a.b");
    assert!(AppEntry::from_path("/Applications/.app").is_none());
    assert!(AppEntry::from_path("/Applications/Notes.txt").is_none());
    assert!(AppEntry::from_path("/Applications.app/x").is_none());
    assert_eq!(AppEntry::from_path("Local.app").unwrap().name, "Local");
}

#[test]
fn application_item_line() {
    let e = AppEntry { name: "Safari".to_string(), path: "/A/Safari.app".to_string() };
    let line = e.to_json().to_text();
    let item = DmenuItem::parse_line(&line).unwrap();
    assert_eq!(item.title, "Safari");
    assert_eq!(item.subtitle.as_deref(), Some("/A/Safari.app"));
    assert_eq!(item.icon_path.as_deref(), Some("/A/Safari.app"));
    assert_eq!(item.get_field("data.path"), "/A/Safari.app");
}

#[test]
fn window_item_line() {
    let w = WindowEntry {
        owner: "Terminal".to_string(),
        title: "zsh".to_string(),
        pid: 4242,
        wid: -17,
        bundle_path: None,
    };
    let item = DmenuItem::parse_line(&w.to_json().to_text()).unwrap();
    assert_eq!(item.title, "Terminal");
    assert_eq!(item.subtitle.as_deref(), Some("zsh"));
    assert_eq!(item.icon_path, None);
    assert_eq!(item.get_field("data.pid"), "4242");
    assert_eq!(item.get_field("data.wid"), "-17");
    let w = WindowEntry { bundle_path: Some("/T.app".to_string()), pid: i64::MIN, ..w };
    let item = DmenuItem::parse_line(&w.to_json().to_text()).unwrap();
    assert_eq!(item.icon_path.as_deref(), Some("/T.app"));
    assert_eq!(item.get_field("data.pid"), "-9223372036854775808");
}
