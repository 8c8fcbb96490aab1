use muzap::config_files::Strategy;
use muzap::error::AppError;
use muzap::ini::read_ini_value;
use muzap::muzap::ipset::{detect_mode, parse_mode, placeholder_file_text, set_mode, IpSetMode, IpSetWrite};
use muzap::muzap::service::{
    install_precheck, missing_service_exe, query_service_state_text, selected_strategy_from, selected_strategy_text,
    status_lines,
};
use muzap::muzap::settings::{parse_bool_ru, set_game_filter_mode, set_telemetry_enabled};
use muzap::muzap::strategies::{parse_choice, strategy_list_lines, validate_strategy_name, StrategyChoice};
use muzap::muzap::tools::read_service_log_lines;

fn strat(name: &str, description: &str, params: &str) -> Strategy {
    Strategy { name: name.to_string(), description: description.to_string(), params: params.to_string() }
}

fn msg(e: AppError) -> String {
    match e {
        AppError::Msg(m) => m,
        AppError::Core(_) => panic!("a message was expected"),
    }
}

#[test]
fn game_filter_mode_is_written_and_read_back() {
    let text = set_game_filter_mode(Some("[App]\nVersion=1\n"), "  TCP ").unwrap();
    assert_eq!(text, "[App]\nVersion=1\n\n[Features]\nGameFilterMode=tcp\n");
    assert_eq!(read_ini_value(&text, "Features", "GameFilterMode").as_deref(), Some("tcp"));
    let fresh = set_game_filter_mode(None, "all").unwrap();
    assert_eq!(fresh, "[Features]\r\nGameFilterMode=all\r\n");
    let e = set_game_filter_mode(None, "both").unwrap_err();
    assert!(msg(e).contains("off | all | tcp | udp"));
}

#[test]
fn telemetry_flag_is_written_and_read_back() {
    let on = set_telemetry_enabled(Some("[Features]\r\nTelemetryEnabled=false\r\n"), true);
    assert_eq!(on, "[Features]\r\nTelemetryEnabled=true\r\n");
    let off = set_telemetry_enabled(None, false);
    assert_eq!(read_ini_value(&off, "Features", "TelemetryEnabled").as_deref(), Some("false"));
}

#[test]
fn yes_no_words() {
    for w in ["true", " 1 ", "ON", "вкл", "yes", "Y"] {
        assert!(parse_bool_ru(w).unwrap(), "{w}");
    }
    for w in ["false", "0", "off", "выкл", "NO", "n"] {
        assert!(!parse_bool_ru(w).unwrap(), "{w}");
    }
    assert!(parse_bool_ru("maybe").is_err());
}

#[test]
fn strategy_names_and_numbers() {
    let list = vec![strat("General", "", "--a"), strat("Alt", "second", "--b"), strat("alt", "third", "--c")];
    let s = validate_strategy_name(&list, "  ALT ").unwrap();
    assert_eq!((s.name.as_str(), s.params.as_str()), ("Alt", "--b"));
    assert!(msg(validate_strategy_name(&list, "   ").unwrap_err()).contains("пустое"));
    assert!(msg(validate_strategy_name(&list, "nope").unwrap_err()).contains("'nope'"));
    assert_eq!(parse_choice(" 0 ", 3), StrategyChoice::Cancel);
    assert_eq!(parse_choice("2", 3), StrategyChoice::Pick(1));
    assert_eq!(parse_choice("4", 3), StrategyChoice::OutOfRange);
    assert_eq!(parse_choice("x", 3), StrategyChoice::NotNumber);
}

#[test]
fn strategy_list_is_numbered_and_padded() {
    let list = vec![strat("General", "  ", "--a"), strat("Alt", " second ", "--b")];
    let lines = strategy_list_lines(&list);
    assert_eq!(lines.len(), 5);
    assert_eq!(lines[0], "Стратегии (strategies.ini):");
    assert_eq!(lines[1], "-".repeat(60));
    assert_eq!(lines[2], format!("{:>3}. {:<24} — {}", 1, "General", "Без описания"));
    assert_eq!(lines[3], format!("{:>3}. {:<24} — {}", 2, "Alt", "second"));
    assert_eq!(lines[4], "-".repeat(60));
}

#[test]
fn ipset_modes_round_trip_by_name() {
    for m in [IpSetMode::Stub, IpSetMode::Any, IpSetMode::Loaded] {
        assert_eq!(parse_mode(m.as_str()).unwrap(), m);
    }
    assert_eq!(parse_mode(" LOADED ").unwrap(), IpSetMode::Loaded);
    assert!(parse_mode("all").is_err());
    assert_eq!(IpSetMode::Stub.as_str(), "none");
    assert_eq!(detect_mode(None), IpSetMode::Stub);
    assert_eq!(detect_mode(Some(&placeholder_file_text())), IpSetMode::Stub);
    assert_eq!(detect_mode(Some("")), IpSetMode::Any);
    assert_eq!(detect_mode(Some("10.0.0.0/8\n")), IpSetMode::Loaded);
}

#[test]
fn ipset_switch_plans() {
    let p = set_mode(IpSetMode::Loaded, IpSetMode::Any, true, false).unwrap();
    assert!(p.save_backup);
    assert_eq!(p.write, IpSetWrite::Empty);
    assert_eq!(p.message, "IPSet режим установлен: any. (Список сохранён в ipset-all.txt.backup)");
    let p = set_mode(IpSetMode::Any, IpSetMode::Stub, true, false).unwrap();
    assert!(!p.save_backup);
    assert_eq!(p.write, IpSetWrite::Placeholder);
    assert_eq!(p.message, "IPSet режим установлен: none.");
    assert!(msg(set_mode(IpSetMode::Stub, IpSetMode::Loaded, true, false).err().unwrap()).contains("backup"));
    let p = set_mode(IpSetMode::Stub, IpSetMode::Loaded, false, true).unwrap();
    assert_eq!(p.write, IpSetWrite::FromBackup);
    assert_eq!(placeholder_file_text(), "203.0.113.113/32\n");
}

#[test]
fn selected_strategy_file() {
    assert_eq!(selected_strategy_text("  Alt  "), "Alt\n");
    assert_eq!(selected_strategy_from(" Alt \r\nother\n").as_deref(), Some("Alt"));
    assert_eq!(selected_strategy_from("   \nAlt\n"), None);
    assert_eq!(selected_strategy_from(""), None);
}

#[test]
fn selected_strategy_reads_back_as_written() {
    for name in ["General (ALT2)", "  spaced\t", "x"] {
        let text = selected_strategy_text(name);
        assert_eq!(selected_strategy_from(&text).as_deref(), Some(name.trim()));
    }
    // a name spanning two lines reads back as its first line only
    assert_eq!(selected_strategy_from(&selected_strategy_text("a\nb")).as_deref(), Some("a"));
}

#[test]
fn service_status_report() {
    assert_eq!(query_service_state_text(None), "НЕ УСТАНОВЛЕНА");
    assert_eq!(query_service_state_text(Some("Running")), "RUNNING");
    assert_eq!(status_lines(None, None), vec!["Выбранная стратегия: не выбрана", "Служба: НЕ установлена"]);
    assert_eq!(
        status_lines(Some("Alt"), Some("Stopped")),
        vec!["Выбранная стратегия: Alt", "Служба: установлена", "Имя: MuZap", "Состояние: STOPPED"]
    );
    assert!(install_precheck(true, true).unwrap());
    assert!(!install_precheck(false, false).unwrap());
    assert!(install_precheck(false, true).is_err());
    assert!(msg(missing_service_exe("C:\\m\\muzap_service.exe")).starts_with("Не найден muzap_service.exe: C:\\m\\muzap_service.exe\n"));
}

#[test]
fn service_log_viewer_lines() {
    assert_eq!(read_service_log_lines(None), vec!["(лог службы не найден)"]);
    assert_eq!(read_service_log_lines(Some("")), vec!["(лог пуст)"]);
    assert_eq!(read_service_log_lines(Some("a\r\nb\n")), vec!["a", "b"]);
}

#[test]
fn switched_list_reads_back_as_its_mode() {
    let none = set_mode(IpSetMode::Loaded, IpSetMode::Stub, true, true).unwrap();
    assert_eq!(none.write, IpSetWrite::Placeholder);
    assert_eq!(detect_mode(Some(&placeholder_file_text())), IpSetMode::Stub);
    let any = set_mode(IpSetMode::Stub, IpSetMode::Any, true, false).unwrap();
    assert_eq!(any.write, IpSetWrite::Empty);
    assert_eq!(detect_mode(Some("")), IpSetMode::Any);
}

#[test]
fn second_settings_write_keeps_the_first() {
    for start in [None, Some(""), Some("[App]\r\nVersion=1.0\r\n"), Some("[Features]\nTelemetryEnabled=false\nGameFilterMode=off\n")] {
        let a = set_game_filter_mode(start, "udp").unwrap();
        let both = set_telemetry_enabled(Some(&a), true);
        assert_eq!(read_ini_value(&both, "Features", "GameFilterMode").as_deref(), Some("udp"));
        assert_eq!(read_ini_value(&both, "Features", "TelemetryEnabled").as_deref(), Some("true"));
        let b = set_telemetry_enabled(start, true);
        let both = set_game_filter_mode(Some(&b), "tcp").unwrap();
        assert_eq!(read_ini_value(&both, "Features", "GameFilterMode").as_deref(), Some("tcp"));
        assert_eq!(read_ini_value(&both, "Features", "TelemetryEnabled").as_deref(), Some("true"));
    }
}

#[test]
fn refusals_carry_their_messages() {
    assert_eq!(
        msg(set_game_filter_mode(None, "both").unwrap_err()),
        "Некорректное значение GameFilterMode. Допустимо: off | all | tcp | udp"
    );
    assert_eq!(msg(parse_bool_ru("maybe").unwrap_err()), "Некорректное значение. Допустимо: true/false, 1/0, on/off, вкл/выкл");
    let list = vec![strat("General", "", "--a")];
    assert_eq!(msg(validate_strategy_name(&list, "   ").unwrap_err()), "Имя стратегии пустое.");
    assert_eq!(
        msg(validate_strategy_name(&list, " nope ").unwrap_err()),
        "Стратегия не найдена: 'nope'. Посмотрите список: muzap strategies list"
    );
    assert_eq!(msg(parse_mode("all").unwrap_err()), "Некорректный режим IPSet. Допустимо: none | any | loaded");
    match set_mode(IpSetMode::Any, IpSetMode::Loaded, true, false) {
        Err(e) => assert!(msg(e).starts_with("Нет backup-файла ipset-all.txt.backup.")),
        Ok(_) => panic!("loaded without a backup is an error"),
    }
}
