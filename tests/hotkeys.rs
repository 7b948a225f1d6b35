use heats::hotkey::{parse_code, parse_hotkey_str, KeyCode, Modifiers};

fn mods(super_key: bool, control: bool, alt: bool, shift: bool) -> Modifiers {
    Modifiers { super_key, control, alt, shift }
}

#[test]
fn default_hotkeys() {
    assert_eq!(parse_hotkey_str("Cmd+Semicolon"), (mods(true, false, false, false), KeyCode::Semicolon));
    assert_eq!(parse_hotkey_str("Cmd+Quote"), (mods(true, false, false, false), KeyCode::Quote));
}

#[test]
fn modifier_names_and_spaces() {
    assert_eq!(
        parse_hotkey_str(" ctrl + Option+SHIFT+Meta+k"),
        (mods(true, true, true, true), KeyCode::Letter('k'))
    );
    assert_eq!(parse_hotkey_str("Hyper+Alt+7"), (mods(false, false, true, false), KeyCode::Digit('7')));
    assert_eq!(parse_hotkey_str("Space"), (mods(false, false, false, false), KeyCode::Space));
}

#[test]
fn key_names() {
    assert_eq!(parse_code("Return"), KeyCode::Enter);
    assert_eq!(parse_code("enter"), KeyCode::Enter);
    assert_eq!(parse_code("Tab"), KeyCode::Tab);
    assert_eq!(parse_code(";"), KeyCode::Semicolon);
    assert_eq!(parse_code("'"), KeyCode::Quote);
    assert_eq!(parse_code(" "), KeyCode::Space);
    assert_eq!(parse_code("Z"), KeyCode::Letter('z'));
    assert_eq!(parse_code("F13"), KeyCode::Semicolon);
    assert_eq!(parse_code(""), KeyCode::Semicolon);
}
