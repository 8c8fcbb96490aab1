use muzap::tester::runner::sc_query_says_running;
use muzap::tester::analytics::{build_analytics, find_best, Analytics, DpiAnalytics, StandardAnalytics, StrategyAnalytics};
use muzap::tester::checker::{classify_error_message, fastest, HttpToken, TargetResult};
use muzap::tester::report::{
    sort_by_name, table_header_line, table_row_line, token_shade, truncate, truncate_name, Shade,
};
use muzap::tester::runner::{needs_restore, restore_args, running_cmdline, snapshot_cmdline, WinwsSnapshot};
use muzap::tester::telemetry::{geo_fields, reply_outcome, telemetry_action, telemetry_results, TelemetryAction};
use muzap::tester::ui::{checkbox_step, checked_indices, scroll_note, CheckboxKey, CheckboxMenu, CheckboxOutcome, TestType};
use muzap::tester::RunResult;

fn tok(label: &str, status: &str) -> HttpToken {
    HttpToken { label: label.to_string(), status: status.to_string() }
}

fn target(name: &str, statuses: &[&str], ping: Option<u64>) -> TargetResult {
    TargetResult {
        name: name.to_string(),
        http_tokens: statuses.iter().map(|s| tok("HTTP", s)).collect(),
        ping_ms: ping,
        is_url: true,
    }
}

fn std_run(name: &str, targets: Vec<TargetResult>) -> RunResult {
    RunResult { strategy_name: name.to_string(), test_type: TestType::Standard, standard: Some(targets), dpi: None }
}

fn std_counts(a: &StrategyAnalytics) -> (u32, u32, u32, u32, u32) {
    match a {
        StrategyAnalytics::Standard(s) => (s.ok, s.error, s.unsup, s.ping_ok, s.ping_fail),
        StrategyAnalytics::Dpi(_) => panic!("standard counts were expected"),
    }
}

#[test]
fn analytics_count_outcomes_per_strategy() {
    let runs = vec![
        std_run("A", vec![target("t1", &["OK", "UNSUP", "SSL"], Some(10)), target("t2", &["OK"], None)]),
        std_run("B", vec![target("t1", &["ERROR"], Some(5))]),
        std_run("A", vec![target("t1", &["OK", "OK"], Some(1))]),
    ];
    let a = build_analytics(&runs);
    assert_eq!(a.len(), 2);
    assert_eq!(a[0].0, "A");
    assert_eq!(std_counts(&a[0].1), (2, 0, 0, 1, 0));
    assert_eq!(std_counts(&a[1].1), (0, 1, 0, 1, 0));
    assert_eq!(find_best(&a).as_deref(), Some("A"));
    assert_eq!(find_best(&Vec::new()), None);
}

#[test]
fn best_strategy_breaks_ties_by_secondary_score() {
    let s = |ok, ping_ok| StrategyAnalytics::Standard(StandardAnalytics { ok, error: 0, unsup: 0, ping_ok, ping_fail: 0 });
    let a: Analytics = vec![("x".into(), s(3, 1)), ("y".into(), s(3, 4)), ("z".into(), s(2, 9))];
    assert_eq!(find_best(&a).as_deref(), Some("y"));
    let d = |ok, likely_blocked| StrategyAnalytics::Dpi(DpiAnalytics { ok, fail: 0, unsupported: 0, likely_blocked });
    let b: Analytics = vec![("p".into(), d(4, 4)), ("q".into(), d(4, 1))];
    assert_eq!(find_best(&b).as_deref(), Some("q"));
    assert_eq!(d(1, 5).secondary_score(), 0);
}

#[test]
fn failed_requests_are_classified() {
    assert_eq!(classify_error_message("invalid peer Certificate"), "SSL");
    assert_eq!(classify_error_message("received fatal alert: protocol version"), "UNSUP");
    assert_eq!(classify_error_message("connection reset"), "ERROR");
    assert_eq!(fastest(&[30, 12, 40]), Some(12));
    assert_eq!(fastest(&[]), None);
    assert_eq!(tok("TLS1.3", "OK").display(), "TLS1.3:OK");
}

#[test]
fn report_names_and_tables() {
    assert_eq!(truncate("short", 32), "short");
    assert_eq!(truncate("abcdefghij", 8), "abcde...");
    let long = "x".repeat(40);
    assert_eq!(truncate_name(&long), format!("{}...", "x".repeat(29)));
    assert_eq!(table_header_line(true), format!("{:<32} {:>5} {:>5} {:>7} {:>8} {:>9}", "Стратегия", "OK", "ERR", "UNSUP", "PingOK", "PingFail"));
    let row = table_row_line(&"A".to_string(), &StrategyAnalytics::Standard(StandardAnalytics { ok: 3, error: 1, unsup: 0, ping_ok: 2, ping_fail: 1 }));
    assert_eq!(row, format!("{:<32} {:>5} {:>5} {:>7} {:>8} {:>9}", "A", 3, 1, 0, 2, 1));
    let a: Analytics = vec![
        ("b".into(), StrategyAnalytics::Dpi(DpiAnalytics::default())),
        ("a".into(), StrategyAnalytics::Dpi(DpiAnalytics::default())),
    ];
    assert_eq!(sort_by_name(&a), vec![1, 0]);
    assert_eq!(token_shade("OK"), Shade::Good);
    assert_eq!(token_shade("UNSUP"), Shade::Doubtful);
    assert_eq!(token_shade("ERROR"), Shade::Bad);
}

#[test]
fn snapshot_restores_its_arguments() {
    let args: Vec<String> = vec!["C:\\Program Files\\w\\winws.exe".into(), "--wf-tcp=80".into(), "--hostlist=C:\\my lists\\a.txt".into()];
    let cmd = snapshot_cmdline(&args);
    assert_eq!(cmd, "\"C:\\Program Files\\w\\winws.exe\" --wf-tcp=80 \"--hostlist=C:\\my lists\\a.txt\"");
    let snap = WinwsSnapshot { exe_path: args[0].clone(), cmdline: cmd };
    assert_eq!(restore_args(&snap), args[1..].to_vec());
    assert_eq!(running_cmdline(&["w".to_string(), "a b".to_string()]), "w a b");
    assert!(needs_restore(&["other".to_string()], &snap));
    assert!(!needs_restore(&[snap.cmdline.clone()], &snap));
}

#[test]
fn telemetry_choices() {
    let a: Analytics = vec![
        ("s".into(), StrategyAnalytics::Standard(StandardAnalytics { ok: 1, error: 2, unsup: 3, ping_ok: 4, ping_fail: 5 })),
        ("d".into(), StrategyAnalytics::Dpi(DpiAnalytics::default())),
    ];
    let t = telemetry_results(&a);
    assert_eq!(t.len(), 1);
    assert_eq!((t[0].0.as_str(), t[0].1.err, t[0].1.ping_fail), ("s", 2, 5));
    assert_eq!(telemetry_action(TestType::Standard, true), TelemetryAction::Send);
    assert_eq!(telemetry_action(TestType::Standard, false), TelemetryAction::SayDisabled);
    assert_eq!(telemetry_action(TestType::Dpi, true), TelemetryAction::Nothing);
    let g = geo_fields(Some("success"), Some("ISP".into()), None, Some("RU".into()));
    assert_eq!((g.0.as_str(), g.1.as_str(), g.2.as_str()), ("ISP", "Unknown", "RU"));
    assert_eq!(geo_fields(Some("fail"), Some("ISP".into()), None, None).0, "Unknown");
    assert_eq!(reply_outcome(Some(200), None), (true, "Отправлено успешно. Спасибо!".to_string()));
    assert_eq!(reply_outcome(None, None).1, "Сервер ответил: 0 — нет сообщения");
}

#[test]
fn checkbox_menu_keeps_its_cursor_in_view() {
    let mut m = CheckboxMenu::new(25);
    for _ in 0..22 {
        assert!(matches!(checkbox_step(&mut m, CheckboxKey::Down), CheckboxOutcome::Continue));
    }
    assert_eq!((m.cursor, m.scroll), (22, 3));
    checkbox_step(&mut m, CheckboxKey::Toggle);
    for _ in 0..30 {
        checkbox_step(&mut m, CheckboxKey::Up);
    }
    assert_eq!((m.cursor, m.scroll), (0, 0));
    checkbox_step(&mut m, CheckboxKey::Toggle);
    match checkbox_step(&mut m, CheckboxKey::Enter) {
        CheckboxOutcome::Done(v) => assert_eq!(v, vec![0, 22]),
        _ => panic!("Enter ends the menu"),
    }
    checkbox_step(&mut m, CheckboxKey::ToggleAll);
    assert!(m.checked.iter().all(|c| *c));
    checkbox_step(&mut m, CheckboxKey::ToggleAll);
    assert_eq!(checked_indices(&m.checked), Vec::<usize>::new());
    assert!(matches!(checkbox_step(&mut m, CheckboxKey::Esc), CheckboxOutcome::Cancelled));
    assert_eq!(scroll_note(0, 20, 25).as_deref(), Some("  Показано 1-20 из 25"));
    assert_eq!(scroll_note(0, 5, 5), None);
}

#[test]
fn service_query_output_is_read() {
    assert!(sc_query_says_running("SERVICE_NAME: MuZap\n        STATE              : 4  RUNNING\n"));
    assert!(sc_query_says_running("state: running"));
    assert!(!sc_query_says_running("STATE              : 1  STOPPED"));
}

#[test]
fn every_outcome_is_counted_once() {
    let targets = vec![
        target("a", &["OK", "UNSUP", "SSL"], Some(3)),
        target("b", &["ERROR", "OK"], None),
        TargetResult { name: "ping".into(), http_tokens: vec![], ping_ms: None, is_url: false },
    ];
    let s = muzap::tester::analytics::build_standard(&targets);
    assert_eq!(s.ok + s.error + s.unsup, 5);
    assert_eq!(s.ping_ok + s.ping_fail, 3);
    assert_eq!((s.ok, s.error, s.unsup, s.ping_ok, s.ping_fail), (2, 2, 1, 1, 2));
}

#[test]
fn every_probe_is_counted_once() {
    let line = |status: &str| muzap::tester::dpi::DpiTestLine { test_label: "HTTP".into(), code: "200".into(), status: status.into() };
    let host = muzap::tester::dpi::DpiTargetResult {
        target_id: "x".into(),
        provider: "p".into(),
        country: "RU".into(),
        lines: vec![line("OK"), line("LIKELY_BLOCKED"), line("UNSUPPORTED"), line("FAIL"), line("OK")],
        has_warning: true,
    };
    let d = muzap::tester::analytics::build_dpi(&[host]);
    assert_eq!((d.ok, d.fail, d.unsupported, d.likely_blocked), (2, 1, 1, 1));
    assert_eq!(d.ok + d.fail + d.unsupported + d.likely_blocked, 5);
}

#[test]
fn ok_score_comes_from_the_last_run_with_results() {
    let runs = vec![
        std_run("A", vec![target("t1", &["OK", "OK"], Some(1))]),
        std_run("B", vec![target("t1", &["OK"], Some(1))]),
        std_run("A", vec![target("t1", &["OK", "ERROR"], None), target("t2", &["UNSUP"], None)]),
        RunResult { strategy_name: "A".to_string(), test_type: TestType::Standard, standard: None, dpi: None },
    ];
    let a = build_analytics(&runs);
    let entry = &a.iter().find(|(n, _)| n == "A").unwrap().1;
    assert_eq!(entry.ok_score(), 1);
}

#[test]
fn an_empty_selection_is_refused() {
    let list = vec![muzap::config_files::Strategy { name: "A".into(), description: String::new(), params: "--a".into() }];
    match muzap::tester::ui::ask_config_selection(&list, &vec![]) {
        Err(muzap::error::AppError::Msg(m)) => assert_eq!(m, "Не выбрано ни одной стратегии."),
        _ => panic!("an empty selection is an error"),
    }
}
