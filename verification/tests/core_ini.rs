use muzap::ini::{read_ini_value, write_ini_value_to_string};

#[test]
fn ini_read_value_basic() {
    let s = r#"
[App]
Version=1.2.3

[Features]
TelemetryEnabled=true
"#;
    assert_eq!(read_ini_value(s, "App", "Version").as_deref(), Some("1.2.3"));
    assert_eq!(read_ini_value(s, "Features", "TelemetryEnabled").as_deref(), Some("true"));
    assert_eq!(read_ini_value(s, "Nope", "X"), None);
}

#[test]
fn ini_write_add_section_and_key() {
    let src = "";
    let out = write_ini_value_to_string(src, "App", "Version", "9.9.9", "\r\n");
    assert!(out.contains("[App]\r\nVersion=9.9.9\r\n"));
}

#[test]
fn ini_write_replace_existing_key() {
    let src = "[App]\nVersion=1.0.0\n[Features]\nTelemetryEnabled=false\n";
    let out = write_ini_value_to_string(src, "App", "Version", "2.0.0", "\n");
    assert!(out.contains("[App]\nVersion=2.0.0\n"));
    assert!(out.contains("[Features]\nTelemetryEnabled=false\n"));
}

#[test]
fn ini_write_append_key_if_missing_in_section() {
    let src = "[App]\n; comment\n\n[Features]\nTelemetryEnabled=false\n";
    let out = write_ini_value_to_string(src, "App", "Version", "3.3.3", "\n");
    assert!(out.contains("[App]\n; comment\n\nVersion=3.3.3\n[Features]\n"));
}
