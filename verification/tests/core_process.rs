use muzap::process::split_args;

#[test]
fn split_args_basic() {
    let s = r#"--a=1 --b=2"#;
    assert_eq!(split_args(s), vec!["--a=1", "--b=2"]);
}

#[test]
fn split_args_quotes_keep_spaces() {
    let s = r#"--hostlist="C:\Program Files\MuZap\lists\list.txt" --x=1"#;
    assert_eq!(
        split_args(s),
        vec![r#"--hostlist=C:\Program Files\MuZap\lists\list.txt"#, "--x=1"]
    );
}

#[test]
fn split_args_single_quotes() {
    let s = "--name='hello world' --z=9";
    assert_eq!(split_args(s), vec!["--name=hello world", "--z=9"]);
}
