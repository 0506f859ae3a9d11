use t3_update_version::content::{read_text, strip_bom};

#[test]
fn strip_bom_removes_leading_mark() {
    assert_eq!(strip_bom(b"\xEF\xBB\xBFabc"), b"abc");
}

#[test]
fn strip_bom_of_mark_alone_is_empty() {
    assert_eq!(strip_bom(b"\xEF\xBB\xBF"), b"");
}

#[test]
fn strip_bom_keeps_content_without_mark() {
    assert_eq!(strip_bom(b"abc"), b"abc");
    assert_eq!(strip_bom(b""), b"");
    assert_eq!(strip_bom(b"\xEF\xBB"), b"\xEF\xBB");
    assert_eq!(strip_bom(b"\xEF\xBBa"), b"\xEF\xBBa");
}

#[test]
fn strip_bom_removes_one_mark_only() {
    assert_eq!(
        strip_bom(b"\xEF\xBB\xBF\xEF\xBB\xBFa"),
        b"\xEF\xBB\xBFa"
    );
}

#[test]
fn read_text_decodes_utf8() {
    assert_eq!(read_text("k=\u{6811}\n".as_bytes()), Some("k=\u{6811}\n"));
    assert_eq!(read_text(b""), Some(""));
}

#[test]
fn read_text_skips_mark() {
    assert_eq!(read_text(b"\xEF\xBB\xBF[s]\n"), Some("[s]\n"));
}

#[test]
fn read_text_rejects_invalid_utf8() {
    assert_eq!(read_text(b"\xFF"), None);
    assert_eq!(read_text(b"ab\xC3"), None);
    assert_eq!(read_text(b"\xEF\xBB"), None);
}
