use muzap::app::app_config_from;
use muzap::config_files::Strategy;
use muzap::error::AppError;
use muzap::paths::find_root_upward;
use muzap::winws_service::{
    is_winws_name, job_log_lines, log_entry, path_key, service_tick, should_pause_on_exit, winerr_hint, winws_launch,
    ChildPoll, ServiceTick,
};

fn strat(name: &str, params: &str) -> Strategy {
    Strategy { name: name.to_string(), description: String::new(), params: params.to_string() }
}

#[test]
fn service_launches_the_selected_strategy() {
    let list = vec![strat("General", "--a"), strat("ALT", "--hostlist=%LISTS%l.txt --wf-tcp=%GameFilterTCP%"), strat("alt", "--c")];
    let cfg = app_config_from(Some("[Features]\nGameFilterMode=tcp\n"));
    let (s, params) = winws_launch(&list, "alt", &cfg, "B\\", "L\\").unwrap();
    assert_eq!(s.name, "ALT");
    assert_eq!(params, "--hostlist=L\\l.txt --wf-tcp=1024-65535");
    match winws_launch(&list, "nope", &cfg, "B\\", "L\\") {
        Err(AppError::Msg(m)) => assert_eq!(m, "Выбранная стратегия не найдена в strategies.ini: 'nope'"),
        _ => panic!("an unknown strategy is an error"),
    }
}

#[test]
fn job_object_log_lines() {
    assert_eq!(winerr_hint(5), "ERROR_ACCESS_DENIED");
    assert_eq!(winerr_hint(1), "UNKNOWN");
    let ok = job_log_lines(Some(false), None);
    assert_eq!(ok, vec![
        "[ИНФО] winws.exe до привязки: IsProcessInJob(any) = false",
        "[ИНФО] winws.exe привязан к Job Object (KILL_ON_JOB_CLOSE).",
    ]);
    let failed = job_log_lines(None, Some(87));
    assert_eq!(failed.len(), 4);
    assert_eq!(failed[1], "[ПРЕДУПРЕЖДЕНИЕ] Не удалось привязать winws.exe к Job Object. WinAPI error=87 (ERROR_INVALID_PARAMETER)");
}

#[test]
fn service_loop_turns() {
    assert!(matches!(service_tick(true, ChildPoll::Running), ServiceTick::Stop));
    assert!(matches!(service_tick(false, ChildPoll::Running), ServiceTick::Wait(None)));
    match service_tick(false, ChildPoll::Exited("exit code: 1".into())) {
        ServiceTick::Exited(l) => assert_eq!(l, "[ПРЕДУПРЕЖДЕНИЕ] winws завершился: exit code: 1"),
        _ => panic!("an ended winws ends the loop"),
    }
    match service_tick(false, ChildPoll::Failed("oops".into())) {
        ServiceTick::Wait(Some(l)) => assert_eq!(l, "[ПРЕДУПРЕЖДЕНИЕ] Ошибка try_wait() для winws: oops"),
        _ => panic!("a failed poll is logged"),
    }
    assert_eq!(log_entry(1700000000, "start"), "[1700000000] start");
}

#[test]
fn process_names_and_paths() {
    assert!(is_winws_name("WinWS.EXE"));
    assert!(is_winws_name("winws"));
    assert!(!is_winws_name("winws2.exe"));
    assert_eq!(path_key("C:\\MuZap\\Bin\\winws.exe"), "c:/muzap/bin/winws.exe");
    assert!(!should_pause_on_exit(true, None));
    assert!(should_pause_on_exit(false, None));
    assert!(should_pause_on_exit(false, Some("explorer.exe")));
    assert!(!should_pause_on_exit(false, Some("CMD.EXE")));
    assert!(!should_pause_on_exit(false, Some("WindowsTerminal.exe")));
}

#[test]
fn root_is_the_nearest_folder_with_the_ini() {
    assert_eq!(find_root_upward(&[false, false, true, true], 6), Some(2));
    assert_eq!(find_root_upward(&[true], 6), Some(0));
    assert_eq!(find_root_upward(&[false, false, true], 1), None);
    assert_eq!(find_root_upward(&[false, false], 6), None);
}
