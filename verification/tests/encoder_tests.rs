use espclient::encoder::{encode_line, try_encode_line};
use espclient::escape::escape;

#[test]
fn encode_line_tests() {
    assert_eq!(encode_line("Foo"), b"Foo\0\n");
    assert_eq!(encode_line("Foo\n"), b"Foo\0\n");

    assert_eq!(encode_line(""), b"\0\n");
}

#[test]
fn encode_line_strips_one_trailing_newline() {
    assert_eq!(encode_line("Foo\n\n"), b"Foo\n\0\n");
    assert_eq!(encode_line("\n"), b"\0\n");
}

#[test]
fn try_encode_line_rejects_nul() {
    assert_eq!(try_encode_line("a\0b"), None);
    assert_eq!(try_encode_line("\0"), None);
}

#[test]
fn try_encode_line_accepts_clean_text() {
    assert_eq!(try_encode_line("Foo"), Some(b"Foo\0\n".to_vec()));
    assert_eq!(try_encode_line("Foo\n"), Some(b"Foo\0\n".to_vec()));
    assert_eq!(try_encode_line(""), Some(b"\0\n".to_vec()));
}

#[test]
fn escape_renders_printably() {
    assert_eq!(escape(b"abc"), "abc");
    assert_eq!(escape(b"a\tb"), "a\\tb");
    assert_eq!(escape(b"a\nb\rc"), "a\\nb\\rc");
    assert_eq!(escape(&[0x00, 0x01, 0x84, 0xFF]), "\\000\\001\\204\\377");
    assert_eq!(escape(b""), "");
}
