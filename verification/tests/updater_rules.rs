use muzap::muzap::menu::MenuKey;
use muzap::updater::{
    check_digest, classify_update_file, ensure_zip_magic, is_update_needed, normalize_rel, parse_args, pick_zip_asset,
    read_local_version, remote_version, sha256_hex, updater_ini_text, use_single_entry, yes_no_step, DigestCheck,
    FileAction, GhAsset, UpdaterError, YesNoStep,
};

fn args(v: &[&str]) -> Vec<String> {
    v.iter().map(|s| s.to_string()).collect()
}

fn asset(name: &str) -> GhAsset {
    GhAsset { name: name.to_string(), browser_download_url: format!("https://x/{name}"), size: Some(3), digest: None }
}

#[test]
fn updater_arguments() {
    let a = parse_args(&args(&["--root", "C:\\MuZap", "-y", "--timeout", "5", "--check-only"])).unwrap();
    assert_eq!(a.root.as_deref(), Some("C:\\MuZap"));
    assert_eq!(a.repo, "MuXolotl/MuZap");
    assert!(a.yes && a.check_only && !a.force);
    assert_eq!(a.timeout_sec, 5);
    let d = parse_args(&args(&["--timeout", "soon", "--force", "--repo", "me/fork"])).unwrap();
    assert_eq!(d.timeout_sec, 30);
    assert!(d.force);
    assert_eq!(d.repo, "me/fork");
    match parse_args(&args(&["--root"])) {
        Err(UpdaterError::Msg(m)) => assert_eq!(m, "Ожидалось значение после --root"),
        _ => panic!("a missing value is an error"),
    }
    match parse_args(&args(&["--bogus"])) {
        Err(UpdaterError::Msg(m)) => assert_eq!(m, "Неизвестный аргумент: --bogus\nИспользуйте --help"),
        _ => panic!("an unknown argument is an error"),
    }
}

#[test]
fn versions_decide_the_update() {
    assert_eq!(read_local_version("[Other]\nVersion=9\n[app]\n version = 1.2.3 \n").as_deref(), Some("1.2.3"));
    assert_eq!(read_local_version("Version=1\n"), None);
    assert_eq!(remote_version(" vv1.4.0 "), "1.4.0");
    assert!(is_update_needed("1.2.0", "1.3.0", false).unwrap());
    assert!(!is_update_needed("1.3.0", "1.3.0", false).unwrap());
    assert!(!is_update_needed("2.0.0", "1.9.9", false).unwrap());
    assert!(is_update_needed("unknown", "1.0.0", false).unwrap());
    assert!(is_update_needed("1.0.0", "garbage", true).unwrap());
    assert!(matches!(is_update_needed("1.0.0", "garbage", false), Err(UpdaterError::SemVer(_))));
}

#[test]
fn archive_asset_choice() {
    let picked = pick_zip_asset(&[asset("notes.txt"), asset("other.zip"), asset("MuZap_1.4.zip")]).unwrap();
    assert_eq!(picked.name, "MuZap_1.4.zip");
    assert_eq!(picked.browser_download_url, "https://x/MuZap_1.4.zip");
    assert_eq!(pick_zip_asset(&[asset("a.txt"), asset("b.zip")]).unwrap().name, "b.zip");
    assert!(matches!(pick_zip_asset(&[asset("a.txt")]), Err(UpdaterError::NoZipAsset)));
}

#[test]
fn digests_and_archive_checks() {
    let abc = sha256_hex(b"abc");
    assert_eq!(abc, "ba7816bf8f01cfea414140de5dae2223b00361a396177a9cb410ff61f20015ad");
    assert_eq!(sha256_hex(b"").len(), 64);
    assert!(matches!(check_digest(None, &abc), DigestCheck::NoDigest));
    assert!(matches!(check_digest(Some("md5:00"), &abc), DigestCheck::UnknownFormat));
    let upper = format!("sha256: {} ", abc.to_uppercase());
    assert!(matches!(check_digest(Some(&upper), &abc), DigestCheck::Match));
    match check_digest(Some("sha256:AB"), "cd") {
        DigestCheck::Mismatch { expected, actual } => assert_eq!((expected.as_str(), actual.as_str()), ("ab", "cd")),
        _ => panic!("different digests do not match"),
    }
    assert!(ensure_zip_magic(&[0x50, 0x4B, 0x03, 0x04]).is_ok());
    assert!(ensure_zip_magic(&[0x50, 0x4B, 0x05, 0x06]).is_err());
    assert!(use_single_entry(1, true));
    assert!(!use_single_entry(2, true));
}

#[test]
fn extracted_files_are_sorted_out() {
    assert_eq!(normalize_rel(".\\lists\\a.txt"), "lists/a.txt");
    assert_eq!(normalize_rel("./././x"), "x");
    assert_eq!(classify_update_file(".github/workflows/a.yml", None), FileAction::Ignore);
    assert_eq!(classify_update_file("MuZap_Updater.exe", Some("muzap_updater.exe")), FileAction::Protected);
    assert_eq!(classify_update_file("MUZAP.INI", None), FileAction::Protected);
    assert_eq!(classify_update_file("muzap.bat", None), FileAction::Pending);
    assert_eq!(classify_update_file("lists/list-general.txt", None), FileAction::Copy);
}

#[test]
fn recorded_version_reads_back() {
    let t = updater_ini_text(Some("[App]\r\nVersion=1.0\r\n"), "App", "Version", "1.4.0");
    assert_eq!(t, "[App]\r\nVersion=1.4.0\r\n");
    assert_eq!(read_local_version(&t).as_deref(), Some("1.4.0"));
    let fresh = updater_ini_text(None, "App", "Version", "2.0");
    assert_eq!(fresh, "[App]\r\nVersion=2.0\r\n");
    assert_eq!(read_local_version(&fresh).as_deref(), Some("2.0"));
}

#[test]
fn yes_no_question_keys() {
    assert_eq!(yes_no_step(0, MenuKey::Down), YesNoStep::Select(1));
    assert_eq!(yes_no_step(1, MenuKey::Up), YesNoStep::Select(0));
    assert_eq!(yes_no_step(0, MenuKey::Enter), YesNoStep::Answer(true));
    assert_eq!(yes_no_step(1, MenuKey::Enter), YesNoStep::Answer(false));
    assert_eq!(yes_no_step(0, MenuKey::Esc), YesNoStep::Answer(false));
    assert_eq!(yes_no_step(1, MenuKey::Other), YesNoStep::Warn(1));
}

#[test]
fn user_lists_are_never_copied_over() {
    for name in [
        "muzap.ini",
        "lists/ipset-exclude-user.txt",
        "LISTS/LIST-GENERAL-USER.TXT",
        "lists/list-exclude-user.txt",
    ] {
        assert_eq!(classify_update_file(name, None), FileAction::Protected, "{name}");
    }
    assert_eq!(classify_update_file("MuZap.BAT", Some("Update MuZap.exe")), FileAction::Pending);
}

#[test]
fn installing_needs_the_ini() {
    assert!(muzap::updater::ini_precheck(true, false).is_ok());
    assert!(muzap::updater::ini_precheck(false, true).is_ok());
    match muzap::updater::ini_precheck(false, false) {
        Err(UpdaterError::Msg(m)) => assert!(m.starts_with("Не могу продолжить установку обновления: не найден muzap.ini.")),
        _ => panic!("installing without muzap.ini is refused"),
    }
}
