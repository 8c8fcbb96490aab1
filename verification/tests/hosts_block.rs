use muzap::hosts::{
    begin_marker, decode_bytes, encode_text, end_marker, hosts_bytes_after_remove,
    hosts_bytes_after_update, normalize_eol, normalize_source_lines, remove_hosts_block,
    update_hosts_block, TextEncoding,
};

#[test]
fn update_adds_block_with_source_lines() {
    let out = update_hosts_block("127.0.0.1 localhost\n", "# comment\n1.2.3.4 a.com  \n\n5.6.7.8 b.com\n", "MuZap", "\n", false);
    assert_eq!(
        out,
        "127.0.0.1 localhost\n\n# --- MuZap BEGIN ---\n1.2.3.4 a.com\n\n5.6.7.8 b.com\n# --- MuZap END ---\n"
    );
    // the block is replaced, not added twice
    let again = update_hosts_block(&out, "9.9.9.9 c.com\n", "MuZap", "\n", false);
    assert_eq!(again, "127.0.0.1 localhost\n\n# --- MuZap BEGIN ---\n9.9.9.9 c.com\n# --- MuZap END ---\n");
}

#[test]
fn update_then_remove_finds_the_block() {
    let out = update_hosts_block("a\r\nb\r\n", "1.1.1.1 x.org\r\n", "MuZap", "\r\n", true);
    let (cleaned, removed) = remove_hosts_block(&out, "MuZap", "\r\n");
    assert!(removed);
    assert_eq!(cleaned, "a\r\nb\r\n");
}

#[test]
fn remove_twice_finds_nothing_the_second_time() {
    let text = "x\n# --- MuZap BEGIN ---\n1 y\n# --- MuZap END ---\nz\n";
    let (once, r1) = remove_hosts_block(text, "MuZap", "\n");
    assert!(r1);
    assert_eq!(once, "x\nz\n");
    let (twice, r2) = remove_hosts_block(&once, "MuZap", "\n");
    assert!(!r2);
    assert_eq!(twice, once);
}

#[test]
fn semicolon_comments_are_dropped_only_when_asked() {
    let with: Vec<String> = normalize_source_lines("; c\n1 a\n", true).into_iter().map(|l| l.into_iter().collect()).collect();
    let without: Vec<String> = normalize_source_lines("; c\n1 a\n", false).into_iter().map(|l| l.into_iter().collect()).collect();
    assert_eq!(with, vec!["1 a"]);
    assert_eq!(without, vec!["; c", "1 a"]);
}

#[test]
fn markers_and_line_endings() {
    assert_eq!(begin_marker("MuZap"), "# --- MuZap BEGIN ---");
    assert_eq!(end_marker("X"), "# --- X END ---");
    assert_eq!(normalize_eol("a\r\nb\rc\nd", "\r\n"), "a\r\nb\r\nc\r\nd");
    assert_eq!(normalize_eol("a\r\nb", "\n"), "a\nb");
}

#[test]
fn encodings_are_detected_and_kept() {
    let (e, t) = decode_bytes(&[0xEF, 0xBB, 0xBF, b'h', b'i']);
    assert_eq!((e, t.as_str()), (TextEncoding::Utf8Bom, "hi"));
    let (e, t) = decode_bytes(&[0xFF, 0xFE, b'h', 0, b'i', 0]);
    assert_eq!((e, t.as_str()), (TextEncoding::Utf16Le, "hi"));
    let (e, t) = decode_bytes(&[0xFE, 0xFF, 0, b'h', 0, b'i']);
    assert_eq!((e, t.as_str()), (TextEncoding::Utf16Be, "hi"));
    let (e, t) = decode_bytes("привет".as_bytes());
    assert_eq!((e, t.as_str()), (TextEncoding::Utf8NoBom, "привет"));
    let (e, t) = decode_bytes(&[0xEF, 0xF0, 0xE8]);
    assert_eq!((e, t.as_str()), (TextEncoding::Windows1251, "при"));
    assert_eq!(encode_text("при", TextEncoding::Windows1251), vec![0xEF, 0xF0, 0xE8]);
    assert_eq!(encode_text("hi", TextEncoding::Utf8Bom), vec![0xEF, 0xBB, 0xBF, b'h', b'i']);
    // the UTF-16 encoders of encoding_rs write UTF-8 after the byte order mark
    assert_eq!(encode_text("hi", TextEncoding::Utf16Le), vec![0xFF, 0xFE, b'h', b'i']);
    assert_eq!(encode_text("hi", TextEncoding::Utf16Be), vec![0xFE, 0xFF, b'h', b'i']);
}

#[test]
fn hosts_bytes_keep_their_encoding() {
    let original: Vec<u8> = vec![0xEF, 0xF0, 0xE8, b'\r', b'\n'];
    let out = hosts_bytes_after_update(&original, "1 b\n", "MuZap", false);
    let (enc, text) = decode_bytes(&out);
    assert_eq!(enc, TextEncoding::Windows1251);
    assert_eq!(text, "при\r\n\r\n# --- MuZap BEGIN ---\r\n1 b\r\n# --- MuZap END ---\r\n");
    let (back, removed) = hosts_bytes_after_remove(&out, "MuZap");
    assert!(removed);
    assert_eq!(back, vec![0xEF, 0xF0, 0xE8, b'\r', b'\n']);
}

#[test]
fn second_update_with_the_same_source_changes_nothing() {
    let once = update_hosts_block("127.0.0.1 localhost\r\n\r\n", "1.2.3.4 a.com\n", "MuZap", "\r\n", false);
    let twice = update_hosts_block(&once, "1.2.3.4 a.com\n", "MuZap", "\r\n", false);
    assert_eq!(twice, once);
    // a text of two empty lines loses one on the second pass
    let blank_once = update_hosts_block("\n\n", "1 x\n", "MuZap", "\n", false);
    let blank_twice = update_hosts_block(&blank_once, "1 x\n", "MuZap", "\n", false);
    assert_eq!(blank_once, "\n# --- MuZap BEGIN ---\n1 x\n# --- MuZap END ---\n");
    assert_eq!(blank_twice, "# --- MuZap BEGIN ---\n1 x\n# --- MuZap END ---\n");
}

#[test]
fn utf8_text_reads_back_in_its_encoding() {
    let text = "127.0.0.1 localhost\r\n# привет\r\n";
    for enc in [TextEncoding::Utf8Bom, TextEncoding::Utf8NoBom] {
        let (back_enc, back) = decode_bytes(&encode_text(text, enc));
        assert_eq!(back_enc, enc);
        assert_eq!(back, text);
    }
    // a UTF-16 file does not: its encoder wrote UTF-8 after the byte order mark
    let (back_enc, back) = decode_bytes(&encode_text("ab", TextEncoding::Utf16Le));
    assert_eq!(back_enc, TextEncoding::Utf16Le);
    assert_ne!(back, "ab");
}

#[test]
fn removing_after_an_update_gives_the_removal_of_the_original() {
    for (h, eol) in [("127.0.0.1 localhost\n", "\n"), ("a\r\n # x\r\n", "\r\n"), ("", "\n"), ("x\n# --- MuZap BEGIN ---\n1 y\n# --- MuZap END ---\nz\n", "\n")] {
        let u = update_hosts_block(h, "1.2.3.4 a.com\n", "MuZap", eol, false);
        let (after, found) = remove_hosts_block(&u, "MuZap", eol);
        assert!(found);
        assert_eq!(after, remove_hosts_block(h, "MuZap", eol).0);
    }
}
