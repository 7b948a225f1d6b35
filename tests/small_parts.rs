use heats::calc::{calc_result_line, intlit_to_float};
use heats::paths::{decimal, icns_path, parse_pid, pid_path, runtime_dir, socket_path};
use heats::registry::{ApplicationsSource, SourceRegistry, WindowsSource};
use heats::source::SourceItem;

#[test]
fn integer_literals_become_floats() {
    assert_eq!(intlit_to_float("1/3"), "1.0/3.0");
    assert_eq!(intlit_to_float("3.14"), "3.14");
    assert_eq!(intlit_to_float("10+2.5*x2"), "10.0+2.5*x2.0");
    assert_eq!(intlit_to_float("1."), "1.0.");
    assert_eq!(intlit_to_float(".5"), ".5.0");
    assert_eq!(intlit_to_float(""), "");
    assert_eq!(intlit_to_float("é+1"), "é+1.0");
}

#[test]
fn calculator_line() {
    assert_eq!(calc_result_line("42", "42"), None);
    assert_eq!(
        calc_result_line("1+1", "2").unwrap(),
        "{\"data\":\"2\",\"subtitle\":\"Copy to clipboard\",\"title\":\"= 2\"}"
    );
}

#[test]
fn runtime_paths() {
    assert_eq!(decimal(0), "0");
    assert_eq!(decimal(501), "501");
    assert_eq!(decimal(u32::MAX as u64), "4294967295");
    assert_eq!(decimal(u64::MAX), "18446744073709551615");
    assert_eq!(runtime_dir(None, 501), "/tmp/xdg-runtime-501");
    assert_eq!(runtime_dir(Some("/run/user/1000".to_string()), 7), "/run/user/1000");
    assert_eq!(socket_path("/run/user/1000"), "/run/user/1000/heats.sock");
    assert_eq!(socket_path("/run/user/1000/"), "/run/user/1000/heats.sock");
    assert_eq!(pid_path("/tmp/x"), "/tmp/x/heats.pid");
    assert_eq!(pid_path(""), "heats.pid");
}

fn source_item(source: &str) -> SourceItem {
    SourceItem {
        id: None,
        title: "t".to_string(),
        subtitle: None,
        exec_path: "/p".to_string(),
        source_name: source.to_string(),
        icon: None,
    }
}

#[test]
fn registry_finds_owning_source() {
    let reg = SourceRegistry::new();
    assert_eq!(ApplicationsSource::new().name(), "applications");
    assert_eq!(WindowsSource::new().name(), "windows");
    assert_eq!(reg.execute(&source_item("applications")), Ok(0));
    assert_eq!(reg.execute(&source_item("windows")), Ok(1));
    assert_eq!(reg.execute(&source_item("dmenu")), Err("No source found for: dmenu".to_string()));
}

#[test]
fn pid_files() {
    assert_eq!(parse_pid("1234\n"), Some(1234));
    assert_eq!(parse_pid("  +42  "), Some(42));
    assert_eq!(parse_pid("4294967295"), Some(u32::MAX));
    assert_eq!(parse_pid("4294967296"), None);
    assert_eq!(parse_pid("99999999999999999999"), None);
    assert_eq!(parse_pid(""), None);
    assert_eq!(parse_pid("+"), None);
    assert_eq!(parse_pid("-1"), None);
    assert_eq!(parse_pid("12a"), None);
}

#[test]
fn bundle_icon_paths() {
    assert_eq!(icns_path("/A/Safari.app", "AppIcon"), "/A/Safari.app/Contents/Resources/AppIcon.icns");
    assert_eq!(icns_path("/A/Safari.app/", "AppIcon.icns"), "/A/Safari.app/Contents/Resources/AppIcon.icns");
    assert_eq!(icns_path("X.app", ".icns"), "X.app/Contents/Resources/.icns");
    assert_eq!(icns_path("X.app", "icns"), "X.app/Contents/Resources/icns.icns");
}
