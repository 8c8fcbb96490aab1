use muzap::muzap::menu::{apply_message, apply_step, command_message, service_choice, telemetry_default_index, telemetry_target, ApplyStep, ServiceChoice};
use muzap::muzap::updates::{accept_hosts_download, accept_ipset_download};
use muzap::muzap::diagnostics::{
    check_basic_files, check_bfe, check_doh_flags, check_process_conflicts, check_proxy, check_tcp_timestamps_registry,
    render_lines, state_to_str, DiagItem, DiagLevel, ServiceStateInfo,
};
use muzap::muzap::fixes::{enable_tcp_timestamps_bit, tcp_timestamps_report, NetshOutcome};
use muzap::muzap::menu::{
    arrow_menu_start, arrow_menu_step, confirm_result, count_lines, scroll_step, scroll_window, MenuKey, MenuStep,
};
use muzap::muzap::updates::{
    cidr_address, count_valid_cidr_lines, count_valid_hosts_lines, entry_lines, hosts_address, is_valid_cidr,
    is_valid_hosts_line, IpKind,
};

#[test]
fn downloaded_lists_are_checked_line_by_line() {
    assert_eq!(entry_lines("# c\n  1.2.3.0/24 \n\n; x\n10.0.0.0/8\n"), vec!["1.2.3.0/24", "10.0.0.0/8"]);
    assert_eq!(cidr_address(" 1.2.3.0 /24").as_deref(), Some("1.2.3.0"));
    assert_eq!(cidr_address("1.2.3.0"), None);
    assert!(is_valid_cidr("1.2.3.0/24", Some(IpKind::V4)));
    assert!(!is_valid_cidr("1.2.3.0/33", Some(IpKind::V4)));
    assert!(is_valid_cidr("::/128", Some(IpKind::V6)));
    assert!(!is_valid_cidr("::/129", Some(IpKind::V6)));
    assert!(!is_valid_cidr("x/8", None));
    assert!(!is_valid_cidr("1.2.3.0/300", Some(IpKind::V4)));
    assert_eq!(hosts_address("  1.1.1.1\texample.org").as_deref(), Some("1.1.1.1"));
    assert_eq!(hosts_address("   "), None);
    assert!(is_valid_hosts_line("1.1.1.1 ab", Some(IpKind::V4)));
    assert!(!is_valid_hosts_line("1.1.1.1 a", Some(IpKind::V4)));
    assert!(is_valid_hosts_line("1.1.1.1 я", Some(IpKind::V4)));
    assert!(!is_valid_hosts_line("1.1.1.1", Some(IpKind::V4)));
    assert!(!is_valid_hosts_line("host ab", None));
    let lines: Vec<String> = vec!["1.2.3.0/24".into(), "bad".into(), "::/64".into()];
    assert_eq!(count_valid_cidr_lines(&lines, &[Some(IpKind::V4), None, Some(IpKind::V6)]), 2);
    let hosts: Vec<String> = vec!["1.1.1.1 ab".into(), "x y".into()];
    assert_eq!(count_valid_hosts_lines(&hosts, &[Some(IpKind::V4), None]), 1);
}

#[test]
fn diagnostics_findings_and_report() {
    let files = check_basic_files(true, "w", false, "C:\\s.ini", false, "C:\\m.ini");
    assert_eq!(files[0].level, DiagLevel::Good);
    assert_eq!(files[1].level, DiagLevel::Bad);
    assert_eq!(files[1].message, "strategies.ini не найден: C:\\s.ini");
    assert_eq!(files[2].level, DiagLevel::Warn);
    let lines = render_lines(&[DiagItem::ok("A", "b"), DiagItem::info("C", "d")]);
    assert_eq!(lines, vec!["Диагностика MuZap", "", "[OK] A: b", "[ИНФО] C: d"]);
    assert_eq!(state_to_str(4), ("RUNNING".to_string(), true));
    assert_eq!(state_to_str(1).0, "STOPPED");
    let bfe = check_bfe(Ok(Some(ServiceStateInfo { state_str: "STOPPED".into(), running: false })));
    assert_eq!(bfe[0].level, DiagLevel::Bad);
    assert_eq!(bfe[0].message, "служба не запущена (state=STOPPED)");
    assert_eq!(check_bfe(Err("denied".into()))[0].message, "не удалось проверить: denied");
    assert_eq!(check_proxy(Some(1), Some("p:8080".into()))[0].message, "включён: p:8080");
    assert_eq!(check_proxy(None, None)[0].level, DiagLevel::Good);
    assert_eq!(check_tcp_timestamps_registry(Some(3))[0].message, "включены (Tcp1323Opts=3)");
    assert_eq!(check_tcp_timestamps_registry(Some(1))[0].level, DiagLevel::Warn);
    assert_eq!(check_doh_flags(&[Some(2), None, Some(0), Some(1)])[0].message, "обнаружены интерфейсы с DohFlags>0: 2");
    let procs = check_process_conflicts(&["adguardsvc.exe".to_string(), "x.exe".to_string()]);
    assert_eq!(procs[0].message, "обнаружены потенциальные конфликты: AdguardSvc.exe");
}

#[test]
fn tcp_timestamps_fix() {
    assert_eq!(enable_tcp_timestamps_bit(None), (0, 2));
    assert_eq!(enable_tcp_timestamps_bit(Some(1)), (1, 3));
    assert_eq!(enable_tcp_timestamps_bit(Some(2)), (2, 2));
    let r = tcp_timestamps_report(Ok((1, 3)), NetshOutcome::Failed(Some(-5)));
    assert_eq!(r[1], "[OK] Реестр: Tcp1323Opts обновлён: 1 -> 3.");
    assert_eq!(r[2], "[?] netsh: команда завершилась с кодом: Some(-5)");
    let r = tcp_timestamps_report(Ok((2, 2)), NetshOutcome::Success);
    assert_eq!(r[1], "[OK] Реестр: Tcp1323Opts уже содержит timestamps (Tcp1323Opts=2).");
    assert_eq!(format!("{:?}", Some(-5)), "Some(-5)");
}

#[test]
fn menus_move_within_their_items() {
    assert_eq!(arrow_menu_start(0, 3), None);
    assert_eq!(arrow_menu_start(3, 7), Some(2));
    assert_eq!(arrow_menu_step(0, 3, MenuKey::Up), MenuStep::Select(0));
    assert_eq!(arrow_menu_step(2, 3, MenuKey::Down), MenuStep::Select(2));
    assert_eq!(arrow_menu_step(1, 3, MenuKey::Enter), MenuStep::Chosen(1));
    assert_eq!(arrow_menu_step(1, 3, MenuKey::Esc), MenuStep::Cancelled);
    assert!(confirm_result(Some(0)));
    assert!(!confirm_result(Some(1)));
    assert_eq!(scroll_step(5, 30, MenuKey::PageUp), Some(0));
    assert_eq!(scroll_step(25, 30, MenuKey::PageDown), Some(29));
    assert_eq!(scroll_step(5, 30, MenuKey::Esc), None);
    assert_eq!(count_lines(""), 1);
    assert_eq!(count_lines("a\nb"), 2);
    assert_eq!(scroll_window(20, 1, 100, 0), 17);
    assert_eq!(scroll_window(3, 1, 100, 0), 5);
    assert_eq!(scroll_window(40, 1, 10, 4), 10);
}

#[test]
fn downloads_need_at_least_one_entry() {
    let good: Vec<String> = vec!["1.2.3.0/24".into()];
    assert!(accept_ipset_download(&good, &[Some(IpKind::V4)]).is_ok());
    assert!(accept_ipset_download(&good, &[None]).is_err());
    assert!(accept_ipset_download(&[], &[]).is_err());
    let hosts: Vec<String> = vec!["1.1.1.1 ab".into()];
    assert!(accept_hosts_download(&hosts, &[Some(IpKind::V4)]).is_ok());
    assert!(accept_hosts_download(&hosts, &[None]).is_err());
}

#[test]
fn service_screen_decisions_and_messages() {
    assert_eq!(service_choice(0), ServiceChoice::PickStrategy { install: true });
    assert_eq!(service_choice(1), ServiceChoice::PickStrategy { install: false });
    assert_eq!(service_choice(4), ServiceChoice::Remove);
    assert_eq!(service_choice(9), ServiceChoice::Back);
    assert_eq!(apply_step(false, true), ApplyStep::Restart);
    assert_eq!(apply_step(true, false), ApplyStep::Install);
    assert_eq!(apply_step(false, false), ApplyStep::NotInstalled);
    assert_eq!(
        apply_message(true, ApplyStep::Restart, "Alt", None),
        ("OK".to_string(), "Стратегия применена, служба перезапущена: Alt".to_string())
    );
    assert_eq!(
        apply_message(false, ApplyStep::Restart, "Alt", None).1,
        "Стратегия обновлена и применена (перезапуск): Alt"
    );
    assert_eq!(apply_message(true, ApplyStep::Install, "Alt", Some("denied")).1, "Не удалось установить: denied");
    assert_eq!(apply_message(false, ApplyStep::NotInstalled, "Alt", None).0, "ИНФО");
    assert_eq!(command_message(false, None).1, "Служба не установлена.");
    assert_eq!(command_message(true, None).1, "Служба не установлена (удалять нечего).");
    assert_eq!(command_message(false, Some(None)).1, "Команда перезапуска отправлена.");
    assert_eq!(command_message(true, Some(Some("x"))).1, "Не удалось удалить: x");
}

#[test]
fn telemetry_menu_items() {
    assert_eq!(telemetry_default_index(true), 0);
    assert_eq!(telemetry_default_index(false), 1);
    assert_eq!(telemetry_target(0), Some(true));
    assert_eq!(telemetry_target(1), Some(false));
    assert_eq!(telemetry_target(2), None);
}
