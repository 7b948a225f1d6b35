use heats::command::{provider_items, LoadedItem};
use heats::config::{EvaluatorConfig, InputMode, ModeConfig, ProviderConfig, Settings};
use heats::matcher::Matcher;
use heats::session::{ranked_rows, Action, Coordinator, HotkeyMessage, MAX_RESULTS};
use heats::source::{DmenuItem, SourceItem};

fn strings(v: &[&str]) -> Vec<String> {
    v.iter().map(|s| s.to_string()).collect()
}

fn provider(source: &str, action: &[&str], field: &str, interval: Option<u64>) -> ProviderConfig {
    ProviderConfig { source: strings(&[source]), action: strings(action), field: field.to_string(), cache_interval: interval }
}

fn settings() -> Settings {
    Settings {
        modes: vec![
            ModeConfig {
                name: "launcher".to_string(),
                hotkey: "Cmd+Semicolon".to_string(),
                providers: strings(&["apps", "wins"]),
                evaluators: strings(&["calculator"]),
            },
            ModeConfig {
                name: "apps-only".to_string(),
                hotkey: "Cmd+Quote".to_string(),
                providers: strings(&["apps"]),
                evaluators: Vec::new(),
            },
        ],
        providers: vec![
            ("apps".to_string(), provider("heats-list-apps", &["open", "-a"], "data.path", Some(60))),
            ("wins".to_string(), provider("heats-list-windows", &["heats-focus-window"], "data.pid", None)),
        ],
        evaluators: vec![(
            "calculator".to_string(),
            EvaluatorConfig {
                source: strings(&["heats-eval-calc"]),
                input: InputMode::Stdin,
                action: strings(&["pbcopy"]),
                action_input: InputMode::Stdin,
                field: "data".to_string(),
            },
        )],
    }
}

fn loaded(provider_name: &str, lines: &[&str]) -> Vec<LoadedItem> {
    provider_items(provider_name, lines.iter().map(|l| (DmenuItem::parse_line(l).unwrap(), None)).collect())
}

fn dmenu_items(titles: &[&str]) -> Vec<SourceItem> {
    titles
        .iter()
        .enumerate()
        .map(|(i, t)| SourceItem {
            id: Some(i),
            title: t.to_string(),
            subtitle: None,
            exec_path: String::new(),
            source_name: "dmenu".to_string(),
            icon: None,
        })
        .collect()
}

fn hotkey(mode: &str) -> HotkeyMessage {
    HotkeyMessage { mode_name: mode.to_string() }
}

fn replies(acts: &[Action]) -> Vec<(u64, Option<usize>)> {
    acts.iter()
        .filter_map(|a| match a {
            Action::Reply { ticket, selection } => Some((*ticket, *selection)),
            _ => None,
        })
        .collect()
}

fn loads(acts: &[Action]) -> Vec<Vec<String>> {
    acts.iter()
        .filter_map(|a| match a {
            Action::LoadProviders(names) => Some(names.clone()),
            _ => None,
        })
        .collect()
}

#[test]
fn startup_fills_caching_providers() {
    let (c, acts) = Coordinator::new(settings());
    assert!(!c.is_visible());
    assert_eq!(acts.len(), 1);
    assert!(matches!(&acts[0], Action::RefreshCache(n) if n == "apps"));
    assert_eq!(c.min_cache_interval(), Some(60));
}

#[test]
fn preempted_external_session_is_cancelled_once() {
    let (mut c, _) = Coordinator::new(settings());
    let acts = c.on_dmenu_session(1, dmenu_items(&["a", "b"]));
    assert!(replies(&acts).is_empty());
    assert!(c.is_visible());
    let acts = c.on_dmenu_session(2, dmenu_items(&["x", "y", "z"]));
    assert_eq!(replies(&acts), vec![(1, None)]);
    let acts = c.on_select(2);
    assert_eq!(replies(&acts), vec![(2, Some(2))]);
    assert!(!c.is_visible());
    let acts = c.on_dismiss();
    assert!(replies(&acts).is_empty());
    let acts = c.on_select(0);
    assert!(replies(&acts).is_empty());
}

#[test]
fn hotkey_and_window_close_cancel_external_session() {
    let (mut c, _) = Coordinator::new(settings());
    c.on_dmenu_session(5, dmenu_items(&["a"]));
    let acts = c.on_hotkey(&hotkey("launcher"));
    assert_eq!(replies(&acts), vec![(5, None)]);
    assert!(!c.is_visible());
    c.on_dmenu_session(6, dmenu_items(&["a"]));
    let acts = c.on_window_closed();
    assert_eq!(replies(&acts), vec![(6, None)]);
    let acts = c.on_window_closed();
    assert!(replies(&acts).is_empty());
}

#[test]
fn external_selection_past_the_rows_is_a_cancellation() {
    let (mut c, _) = Coordinator::new(settings());
    c.on_dmenu_session(9, dmenu_items(&["a"]));
    let acts = c.on_select(4);
    assert_eq!(replies(&acts), vec![(9, None)]);
}

#[test]
fn stale_evaluator_results_are_discarded() {
    let (mut c, _) = Coordinator::new(settings());
    c.on_hotkey(&hotkey("launcher"));
    let a1 = c.on_query_changed("1".to_string());
    let a2 = c.on_query_changed("1+1".to_string());
    let (g1, g2) = match (&a1[0], &a2[0]) {
        (Action::RunEvaluators { generation: g1, .. }, Action::RunEvaluators { generation: g2, query, evaluators }) => {
            assert_eq!(query, "1+1");
            assert_eq!(evaluators, &vec!["calculator".to_string()]);
            (*g1, *g2)
        }
        _ => panic!("expected evaluator runs"),
    };
    assert!(g1 < g2);
    c.on_eval_results(g2, loaded("calculator", &["{\"title\":\"= 2\",\"data\":\"2\"}"]));
    c.on_eval_results(g1, loaded("calculator", &["{\"title\":\"= 1\",\"data\":\"1\"}"]));
    let shown = c.display_items();
    assert_eq!(shown[0].title, "= 2");
    let acts = c.on_query_changed(String::new());
    assert!(acts.is_empty());
    assert!(c.display_items().iter().all(|i| i.title != "= 2"));
}

#[test]
fn cached_provider_survives_hide_and_reopen() {
    let (mut c, _) = Coordinator::new(settings());
    c.on_cache_updated("apps".to_string(), loaded("apps", &["{\"title\":\"Safari\",\"data\":{\"path\":\"/S.app\"}}"]), 0);
    let acts = c.on_hotkey(&hotkey("apps-only"));
    assert!(loads(&acts).is_empty());
    assert_eq!(c.display_items().len(), 1);
    c.on_dismiss();
    assert!(!c.is_visible());
    let acts = c.on_hotkey(&hotkey("apps-only"));
    assert!(loads(&acts).is_empty());
    let shown = c.display_items();
    assert_eq!(shown.len(), 1);
    assert_eq!(shown[0].title, "Safari");
}

#[test]
fn uncached_providers_load_and_merge() {
    let (mut c, _) = Coordinator::new(settings());
    c.on_cache_updated("apps".to_string(), loaded("apps", &["{\"title\":\"Safari\"}"]), 0);
    let acts = c.on_hotkey(&hotkey("launcher"));
    assert_eq!(loads(&acts), vec![vec!["wins".to_string()]]);
    c.on_items_loaded(loaded("wins", &["{\"title\":\"Term\",\"data\":{\"pid\":42}}"]));
    let titles: Vec<String> = c.display_items().into_iter().map(|i| i.title).collect();
    assert_eq!(titles, vec!["Safari", "Term"]);
    let acts = c.on_select(1);
    let run = acts.iter().find_map(|a| match a {
        Action::Run(inv) => Some(inv),
        _ => None,
    });
    let inv = run.expect("an action");
    assert_eq!(inv.program, "heats-focus-window");
    assert_eq!(inv.args, vec!["42"]);
}

#[test]
fn nothing_cached_means_loaded_items_replace() {
    let (mut c, _) = Coordinator::new(settings());
    let acts = c.on_hotkey(&hotkey("launcher"));
    assert_eq!(loads(&acts), vec![vec!["apps".to_string(), "wins".to_string()]]);
    c.on_items_loaded(loaded("apps", &["{\"title\":\"A\"}"]));
    assert_eq!(c.display_items().len(), 1);
    let acts = c.on_hotkey(&hotkey("launcher"));
    assert!(acts.iter().any(|a| matches!(a, Action::Hide)));
    c.on_items_loaded(loaded("apps", &["{\"title\":\"late\"}"]));
    assert_eq!(c.display_items().len(), 1);
    let acts = c.on_hotkey(&hotkey("launcher"));
    assert_eq!(loads(&acts), vec![vec!["apps".to_string(), "wins".to_string()]]);
    assert!(c.display_items().is_empty());
}

#[test]
fn unknown_mode_shows_nothing() {
    let (mut c, _) = Coordinator::new(settings());
    let acts = c.on_hotkey(&hotkey("nope"));
    assert!(acts.is_empty());
    assert!(!c.is_visible());
}

#[test]
fn refresh_asks_for_stale_caches_only() {
    let (mut c, _) = Coordinator::new(settings());
    let acts = c.on_cache_refresh(1_000);
    assert!(matches!(&acts[..], [Action::RefreshCache(n)] if n == "apps"));
    c.on_cache_updated("apps".to_string(), Vec::new(), 1_000);
    assert!(c.on_cache_refresh(60_999).is_empty());
    assert_eq!(c.on_cache_refresh(61_000).len(), 1);
}

#[test]
fn evaluator_row_runs_evaluator_action() {
    let (mut c, _) = Coordinator::new(settings());
    c.on_hotkey(&hotkey("launcher"));
    let acts = c.on_query_changed("1+1".to_string());
    let g = match &acts[0] {
        Action::RunEvaluators { generation, .. } => *generation,
        _ => panic!("expected an evaluator run"),
    };
    c.on_eval_results(g, loaded("calculator", &["{\"title\":\"= 2\",\"data\":\"2\"}"]));
    c.move_down();
    c.move_up();
    let acts = c.on_execute();
    let inv = acts
        .iter()
        .find_map(|a| match a {
            Action::Run(inv) => Some(inv),
            _ => None,
        })
        .expect("an action");
    assert_eq!(inv.program, "pbcopy");
    assert_eq!(inv.stdin.as_deref(), Some("2"));
}

#[test]
fn matcher_ranks_titles() {
    let mut m = Matcher::new();
    m.set_items(&vec!["apple".to_string(), "banana".to_string(), "cherry".to_string()]);
    assert!(m.query_is_empty());
    m.update_query("ban");
    assert!(!m.query_is_empty());
    let mut results = Vec::new();
    for _ in 0..500 {
        m.tick();
        results = m.results(50);
        if !results.is_empty() {
            break;
        }
    }
    assert_eq!(results, vec![1]);
}

#[test]
fn external_session_has_no_evaluator_rows_or_actions() {
    let (mut c, _) = Coordinator::new(settings());
    c.on_hotkey(&hotkey("launcher"));
    let acts = c.on_query_changed("1+1".to_string());
    let g = match &acts[0] {
        Action::RunEvaluators { generation, .. } => *generation,
        _ => panic!("expected an evaluator run"),
    };
    c.on_eval_results(g, loaded("calculator", &["{\"title\":\"= 2\",\"data\":\"2\"}"]));
    assert_eq!(c.display_items()[0].title, "= 2");
    let acts = c.on_dmenu_session(3, dmenu_items(&["x", "y"]));
    assert!(replies(&acts).is_empty());
    assert_eq!(c.display_items().len(), 2);
    c.on_eval_results(g, loaded("calculator", &["{\"title\":\"= 2\",\"data\":\"2\"}"]));
    assert_eq!(c.display_items().len(), 2);
    let acts = c.on_select(0);
    assert_eq!(replies(&acts), vec![(3, Some(0))]);
    assert!(!acts.iter().any(|a| matches!(a, Action::Run(_))));
}

#[test]
fn clearing_the_query_drops_late_results() {
    let (mut c, _) = Coordinator::new(settings());
    c.on_hotkey(&hotkey("launcher"));
    let acts = c.on_query_changed("2*3".to_string());
    let g = match &acts[0] {
        Action::RunEvaluators { generation, .. } => *generation,
        _ => panic!("expected an evaluator run"),
    };
    assert!(c.on_query_changed(String::new()).is_empty());
    c.on_eval_results(g, loaded("calculator", &["{\"title\":\"= 6\",\"data\":\"6\"}"]));
    assert!(c.display_items().iter().all(|i| i.title != "= 6"));
    c.on_dismiss();
    c.on_eval_results(g, loaded("calculator", &["{\"title\":\"= 6\",\"data\":\"6\"}"]));
    assert!(c.display_items().is_empty());
}

#[test]
fn mode_without_providers_stays_hidden() {
    let mut s = settings();
    s.modes.push(ModeConfig {
        name: "calc-only".to_string(),
        hotkey: "Cmd+K".to_string(),
        providers: Vec::new(),
        evaluators: strings(&["calculator"]),
    });
    let (mut c, _) = Coordinator::new(s);
    let acts = c.on_hotkey(&hotkey("calc-only"));
    assert!(acts.is_empty());
    assert!(!c.is_visible());
}

#[test]
fn matcher_tick_keeps_rows_valid() {
    let (mut c, _) = Coordinator::new(settings());
    c.on_dmenu_session(1, dmenu_items(&["apple", "banana", "cherry"]));
    c.on_query_changed("ban".to_string());
    let mut titles = Vec::new();
    for _ in 0..500 {
        c.on_matcher_tick();
        titles = c.display_items().into_iter().map(|i| i.title).collect::<Vec<_>>();
        if titles.len() == 1 {
            break;
        }
    }
    assert_eq!(titles, vec!["banana"]);
}

#[test]
fn ranked_rows_cases() {
    assert_eq!(ranked_rows(false, true, 3, vec![2], vec![1, 0]), vec![1, 0]);
    assert_eq!(ranked_rows(true, true, 3, vec![2], vec![1]), vec![0, 1, 2]);
    assert_eq!(ranked_rows(true, false, 3, vec![2, 7, 0], vec![1]), vec![2, 0]);
    let many: Vec<usize> = (0..80).collect();
    let r = ranked_rows(true, false, 100, many, Vec::new());
    assert_eq!(r.len(), MAX_RESULTS);
    assert_eq!(r[MAX_RESULTS - 1], MAX_RESULTS - 1);
}
