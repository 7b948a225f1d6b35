use heats::cache::SourceCache;
use heats::command::{
    evaluator_invocation, evaluator_items, execute_action, parse_output, provider_items, run_action,
    source_invocation, LoadedItem,
};
use heats::config::{default_field, EvaluatorConfig, InputMode, ProviderConfig};
use heats::source::{DmenuItem, IconData};

fn strings(v: &[&str]) -> Vec<String> {
    v.iter().map(|s| s.to_string()).collect()
}

fn items(names: &[&str], provider: &str) -> Vec<LoadedItem> {
    let ds = names
        .iter()
        .map(|n| (DmenuItem::parse_line(&format!("{{\"title\":\"{n}\",\"data\":\"{n}-d\"}}")).unwrap(), None))
        .collect();
    provider_items(provider, ds)
}

#[test]
fn staleness_threshold_is_inclusive() {
    let mut c = SourceCache::new();
    c.put("apps".to_string(), items(&["a"], "apps"), 1_000);
    assert!(!c.is_stale("apps", 500, 1_499));
    assert!(c.is_stale("apps", 500, 1_500));
    assert!(c.is_stale("apps", 500, 9_999));
    assert!(c.is_stale("other", 500, 0));
    assert!(!c.is_stale("apps", 1, 900));
    assert!(c.is_stale("apps", 0, 900));
}

#[test]
fn cache_entries_are_replaced_whole() {
    let mut c = SourceCache::new();
    assert!(c.get("apps").is_none());
    c.put("apps".to_string(), items(&["a", "b"], "apps"), 10);
    c.put("wins".to_string(), items(&["w"], "wins"), 20);
    c.put("apps".to_string(), items(&["c"], "apps"), 30);
    let got = c.get("apps").unwrap();
    assert_eq!(got.len(), 1);
    assert_eq!(got[0].item.title, "c");
    assert_eq!(c.last_updated("apps"), Some(30));
    assert_eq!(c.last_updated("wins"), Some(20));
    assert_eq!(c.get("wins").unwrap()[0].item.title, "w");
}

#[test]
fn output_lines_that_fail_to_parse_are_dropped() {
    let out = parse_output(&strings(&[
        "{\"title\":\"one\"}",
        "",
        "garbage",
        "   ",
        "{\"title\":\"two\",\"data\":{\"pid\":3}}",
    ]));
    assert_eq!(out.len(), 2);
    assert_eq!(out[0].title, "one");
    assert_eq!(out[1].get_field("data.pid"), "3");
}

#[test]
fn provider_items_carry_provider_and_data() {
    let d = DmenuItem::parse_line("{\"title\":\"Safari\",\"subtitle\":\"s\",\"data\":{\"path\":\"/S.app\"}}").unwrap();
    let li = provider_items("open-apps", vec![(d, Some(IconData::Text("x".to_string())))]);
    assert_eq!(li.len(), 1);
    assert_eq!(li[0].provider_name, "open-apps");
    assert_eq!(li[0].item.source_name, "open-apps");
    assert_eq!(li[0].item.exec_path, "{\"path\":\"/S.app\"}");
    assert_eq!(li[0].item.subtitle.as_deref(), Some("s"));
    assert_eq!(li[0].item.id, None);
    assert!(matches!(li[0].item.icon, Some(IconData::Text(ref t)) if t == "x"));
}

#[test]
fn evaluator_items_are_tagged() {
    let d = DmenuItem::parse_line("{\"title\":\"= 2\",\"data\":\"2\"}").unwrap();
    let li = evaluator_items("calculator", vec![d]);
    assert_eq!(li[0].item.source_name, "eval:calculator");
    assert_eq!(li[0].provider_name, "calculator");
    assert_eq!(li[0].item.exec_path, "2");
    assert!(li[0].item.icon.is_none());
}

#[test]
fn invocations() {
    assert!(source_invocation(&Vec::new()).is_none());
    let s = source_invocation(&strings(&["heats-list-apps", "--all"])).unwrap();
    assert_eq!(s.program, "heats-list-apps");
    assert_eq!(s.args, vec!["--all"]);
    assert!(s.stdin.is_none());

    let mut ev = EvaluatorConfig {
        source: strings(&["heats-eval-calc"]),
        input: InputMode::Stdin,
        action: strings(&["pbcopy"]),
        action_input: InputMode::Stdin,
        field: default_field(),
    };
    let e = evaluator_invocation(&ev, "1+1").unwrap();
    assert!(e.args.is_empty());
    assert_eq!(e.stdin.as_deref(), Some("1+1\n"));
    ev.input = InputMode::Arg;
    let e = evaluator_invocation(&ev, "1+1").unwrap();
    assert_eq!(e.args, vec!["1+1"]);
    assert!(e.stdin.is_none());

    let d = DmenuItem::parse_line("{\"title\":\"= 2\",\"data\":\"2\"}").unwrap();
    let a = run_action(&ev, &d).unwrap();
    assert_eq!(a.program, "pbcopy");
    assert!(a.args.is_empty());
    assert_eq!(a.stdin.as_deref(), Some("2"));

    let p = ProviderConfig {
        source: strings(&["heats-list-apps"]),
        action: strings(&["open", "-a"]),
        field: "data.path".to_string(),
        cache_interval: None,
    };
    let d = DmenuItem::parse_line("{\"title\":\"S\",\"data\":{\"path\":\"/S.app\"}}").unwrap();
    let a = execute_action(&p, &d).unwrap();
    assert_eq!(a.program, "open");
    assert_eq!(a.args, vec!["-a", "/S.app"]);
    assert!(a.stdin.is_none());
    let empty = ProviderConfig { source: Vec::new(), action: Vec::new(), field: default_field(), cache_interval: None };
    assert!(execute_action(&empty, &d).is_none());
}

#[test]
fn default_field_is_data() {
    assert_eq!(default_field(), "data");
    assert_eq!(InputMode::default(), InputMode::Stdin);
}
