use muzap::app::{app_config_from, get_game_filter_ports, ipset_status_from, GameFilterMode, IpsetStatus};
use muzap::config_files::{default_targets, parse_strategies, parse_targets};
use muzap::error::CoreError;
use muzap::ini::{detect_eol, ini_text_after_write, read_ini_value};
use muzap::params::substitute_params;

#[test]
fn strategies_need_params() {
    let text = "; list\n[One]\nDescription = first\nParams= --a=1 \n\n[Empty]\nDescription=no params\n[Two]\nparams=--b\n";
    let v = parse_strategies(text).unwrap();
    assert_eq!(v.len(), 2);
    assert_eq!(v[0].name, "One");
    assert_eq!(v[0].description, "first");
    assert_eq!(v[0].params, "--a=1");
    assert_eq!(v[1].name, "Two");
    assert_eq!(v[1].params, "--b");
    match parse_strategies("[A]\nDescription=x\n") {
        Err(CoreError::Msg(m)) => assert!(m.contains("Params")),
        _ => panic!("an empty list is an error"),
    }
}

#[test]
fn targets_from_text_and_defaults() {
    let v = parse_targets(Some("# c\nDiscord = \"https://discord.com/app\"\nDNS = \"PING: 1.1.1.1\"\nbroken line\n"));
    assert_eq!(v.len(), 2);
    assert_eq!(v[0].name, "Discord");
    assert_eq!(v[0].url.as_deref(), Some("https://discord.com/app"));
    assert_eq!(v[0].ping_target, "discord.com");
    assert_eq!(v[1].url, None);
    assert_eq!(v[1].ping_target, "1.1.1.1");
    assert_eq!(parse_targets(None).len(), 20);
    assert_eq!(parse_targets(Some("# nothing\n")).len(), 20);
    let d = default_targets();
    assert_eq!(d[0].ping_target, "discord.com");
    assert_eq!(d[19].ping_target, "9.9.9.9");
    assert_eq!(d[19].url, None);
}

#[test]
fn app_config_and_ports() {
    let cfg = app_config_from(Some("[App]\nVersion = 2.1\n[Features]\nGameFilterMode=TCP\nTelemetryEnabled=TRUE\n"));
    assert_eq!(cfg.version, "2.1");
    assert!(cfg.game_filter_mode == GameFilterMode::Tcp);
    assert!(cfg.telemetry_enabled);
    let p = get_game_filter_ports(&cfg);
    assert_eq!((p.tcp.as_str(), p.udp.as_str()), ("1024-65535", "12"));
    let none = app_config_from(None);
    assert_eq!(none.version, "unknown");
    assert!(none.game_filter_mode == GameFilterMode::Off);
    let blank = app_config_from(Some("[App]\nVersion=  \n"));
    assert_eq!(blank.version, "unknown");
}

#[test]
fn ipset_status_of_list_texts() {
    assert!(ipset_status_from(None) == IpsetStatus::Stub);
    assert!(ipset_status_from(Some("\n  \n")) == IpsetStatus::Any);
    assert!(ipset_status_from(Some(" 203.0.113.113/32 \n")) == IpsetStatus::Stub);
    assert!(ipset_status_from(Some("1.2.3.0/24\n")) == IpsetStatus::Loaded);
    assert_eq!(IpsetStatus::Stub.as_str(), "none");
}

#[test]
fn params_are_filled_in() {
    let p = substitute_params("--hostlist=%LISTS%list.txt --wf-tcp=%GameFilterTCP% --x=%BIN%a EXCL_MARK", "B\\", "L\\", "1024-65535", "12");
    assert_eq!(p, "--hostlist=L\\list.txt --wf-tcp=1024-65535 --x=B\\a !");
}

#[test]
fn ini_writes_read_back() {
    let t = ini_text_after_write(Some("[App]\r\nVersion=1\r\n"), "Features", "GameFilterMode", "all").unwrap();
    assert_eq!(t, "[App]\r\nVersion=1\r\n\r\n[Features]\r\nGameFilterMode=all\r\n");
    assert_eq!(read_ini_value(&t, "features", "gamefiltermode").as_deref(), Some("all"));
    let n = ini_text_after_write(None, "App", "Version", "3").unwrap();
    assert_eq!(n, "[App]\r\nVersion=3\r\n");
    assert!(matches!(ini_text_after_write(None, " ", "k", "v"), Err(CoreError::Arg(_))));
    assert!(matches!(ini_text_after_write(None, "s", "", "v"), Err(CoreError::Arg(_))));
    assert_eq!(detect_eol("a\nb"), "\n");
    assert_eq!(detect_eol("a\r\nb"), "\r\n");
}

#[test]
fn a_lone_bracket_line_is_not_a_header() {
    assert_eq!(read_ini_value("[\n[App]\nVersion=1\n", "App", "Version").as_deref(), Some("1"));
}

#[test]
fn ini_write_leaves_other_entries_alone() {
    let before = "[App]\r\nVersion=1\r\n[Features]\r\nGameFilterMode=off\r\nTelemetryEnabled=true\r\n";
    let after = ini_text_after_write(Some(before), "Features", "GameFilterMode", "udp").unwrap();
    for (s, k) in [("App", "Version"), ("Features", "TelemetryEnabled"), ("Other", "GameFilterMode")] {
        assert_eq!(read_ini_value(&after, s, k), read_ini_value(before, s, k), "{s}.{k}");
    }
    assert_eq!(read_ini_value(&after, "Features", "GameFilterMode").as_deref(), Some("udp"));
}

#[test]
fn ini_write_keeps_the_line_ending_crlf_by_default() {
    // an existing file without a line break has no ending to keep: CRLF
    assert_eq!(ini_text_after_write(Some(""), "App", "Version", "2").unwrap(), "[App]\r\nVersion=2\r\n");
    assert_eq!(ini_text_after_write(Some("; note"), "App", "Version", "2").unwrap(), "; note\r\n\r\n[App]\r\nVersion=2\r\n");
    // LF and CRLF files keep theirs
    assert_eq!(ini_text_after_write(Some("[App]\nVersion=1\n"), "App", "Version", "2").unwrap(), "[App]\nVersion=2\n");
    assert_eq!(ini_text_after_write(Some("[App]\r\nVersion=1\r\n"), "App", "Version", "2").unwrap(), "[App]\r\nVersion=2\r\n");
}

#[test]
fn ini_write_errors_name_the_empty_part() {
    match ini_text_after_write(None, " ", "k", "v") {
        Err(CoreError::Arg(m)) => assert_eq!(m, "Секция INI пустая"),
        other => panic!("unexpected {:?}", other),
    }
    match ini_text_after_write(None, "s", " ", "v") {
        Err(CoreError::Arg(m)) => assert_eq!(m, "Ключ INI пустой"),
        other => panic!("unexpected {:?}", other),
    }
}
