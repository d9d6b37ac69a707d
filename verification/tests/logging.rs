use rp_picow_examples::logging::{Handler, HandlerAction};
use rp_picow_examples::text::is_whitespace;

fn react(data: &[u8]) -> HandlerAction {
    Handler::new().handle_data(data)
}

fn log(text: &str) -> HandlerAction {
    HandlerAction::Log(text.to_string())
}

#[test]
fn quit_word_resets_to_usb_boot() {
    assert_eq!(react(b"q"), HandlerAction::ResetToUsbBoot);
}

#[test]
fn terminal_closed_word_resets_to_usb_boot() {
    assert_eq!(react(b"elf2uf2-term"), HandlerAction::ResetToUsbBoot);
}

#[test]
fn boot_words_with_surrounding_white_space_reset() {
    assert_eq!(react(b"q\n"), HandlerAction::ResetToUsbBoot);
    assert_eq!(react(b"  q\r\n"), HandlerAction::ResetToUsbBoot);
    assert_eq!(react(b"\telf2uf2-term \n"), HandlerAction::ResetToUsbBoot);
    assert_eq!(react("\u{3000}q\u{a0}".as_bytes()), HandlerAction::ResetToUsbBoot);
    assert_eq!(react("\u{2028}elf2uf2-term\u{85}".as_bytes()), HandlerAction::ResetToUsbBoot);
}

#[test]
fn other_text_is_logged_trimmed() {
    assert_eq!(react(b"hello"), log("hello"));
    assert_eq!(react(b" hi there \n"), log("hi there"));
    assert_eq!(react(b"Q"), log("Q"));
    assert_eq!(react(b"qq"), log("qq"));
    assert_eq!(react(b"q q"), log("q q"));
    assert_eq!(react(b"elf2uf2"), log("elf2uf2"));
    assert_eq!(react(b"elf2uf2-terminal"), log("elf2uf2-terminal"));
    assert_eq!(react("  gr\u{fc}\u{df}e \u{1f600}\t".as_bytes()), log("gr\u{fc}\u{df}e \u{1f600}"));
}

#[test]
fn empty_and_blank_input_log_empty_text() {
    assert_eq!(react(b""), log(""));
    assert_eq!(react(b" \t\r\n "), log(""));
}

#[test]
fn invalid_utf8_is_ignored() {
    assert_eq!(react(&[0xff]), HandlerAction::Ignore);
    assert_eq!(react(&[b'q', 0x80]), HandlerAction::Ignore);
    // An overlong encoding of '/' and an encoded surrogate.
    assert_eq!(react(&[0xc0, 0xaf]), HandlerAction::Ignore);
    assert_eq!(react(&[0xed, 0xa0, 0x80]), HandlerAction::Ignore);
    // A truncated three-byte sequence.
    assert_eq!(react(&[0xe2, 0x82]), HandlerAction::Ignore);
}

#[test]
fn logged_text_matches_str_trim() {
    let samples = [
        "abc",
        "  abc",
        "abc  ",
        "\u{2000}a b\u{200a}",
        "\u{180e}x\u{180e}",
        "\u{200b}y\u{200b}",
        "\u{feff}z",
        "\u{1680}\u{202f}\u{205f}w",
        "\x0b\x0cv\x1c",
        "\u{85}\u{a0}",
        "line one\nline two\n",
    ];
    for s in samples {
        let expected = s.trim();
        if expected == "q" || expected == "elf2uf2-term" {
            assert_eq!(react(s.as_bytes()), HandlerAction::ResetToUsbBoot);
        } else {
            assert_eq!(react(s.as_bytes()), log(expected), "input {:?}", s);
        }
    }
}

#[test]
fn whitespace_agrees_with_char_is_whitespace() {
    for v in 0u32..=0x10ffff {
        if let Some(c) = char::from_u32(v) {
            assert_eq!(is_whitespace(c), c.is_whitespace(), "char {:#x}", v);
        }
    }
}

#[test]
fn surrounding_white_space_changes_nothing() {
    for core in ["q", "elf2uf2-term", "note", "", "a b"] {
        let base = react(core.as_bytes());
        for (before, after) in [(" ", "\n"), ("\u{3000}", ""), ("", "\r\n\t"), ("\u{a0}\u{2009}", "\u{85}")] {
            let padded = format!("{}{}{}", before, core, after);
            assert_eq!(react(padded.as_bytes()), base);
        }
    }
}

#[test]
fn trimming_twice_is_trimming_once() {
    for s in ["  x  ", "\n\ty\u{3000}", "z", ""] {
        let once = match react(s.as_bytes()) {
            HandlerAction::Log(t) => t,
            other => panic!("unexpected {:?}", other),
        };
        assert_eq!(react(once.as_bytes()), HandlerAction::Log(once.clone()));
    }
}
