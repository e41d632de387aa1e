//! Pasted text.
use kokuban::input::paste::{encode_paste, paste_size, PasteError, MAX_PASTE_BYTES};

const PASTE_START: &[u8] = b"\x1b[200~";
const PASTE_END: &[u8] = b"\x1b[201~";

#[test]
fn empty_or_control_only_text_sends_no_paste_markers() {
    for text in ["", "\0\x1b\x03\x7f\u{009b}"] {
        for bracketed in [false, true] {
            assert_eq!(encode_paste(text, bracketed, 0), Ok(Vec::new()));
        }
    }
}

#[test]
fn preserves_unicode_and_tabs_with_terminal_line_endings() {
    let text = "ação\t日本語\r\n🦀\nnext\rlast";
    let expected = "ação\t日本語\r🦀\rnext\rlast";
    assert_eq!(
        encode_paste(text, false, MAX_PASTE_BYTES).unwrap(),
        expected.as_bytes()
    );
    let bracketed = encode_paste(text, true, MAX_PASTE_BYTES).unwrap();
    assert_eq!(&bracketed[..PASTE_START.len()], PASTE_START);
    assert_eq!(&bracketed[bracketed.len() - PASTE_END.len()..], PASTE_END);
    assert_eq!(
        &bracketed[PASTE_START.len()..bracketed.len() - PASTE_END.len()],
        expected.as_bytes()
    );
}

#[test]
fn the_size_of_a_paste_counts_its_markers() {
    assert_eq!(paste_size("a\r\n日\0", false, 5), Ok(5));
    assert_eq!(paste_size("a\r\n日\0", true, 17), Ok(17));
    assert_eq!(paste_size("a\r\n日\0", true, 16), Err(PasteError::TooLarge));
    assert_eq!(paste_size("\0\x1b", true, 0), Ok(0));
}

#[test]
fn sent_text_is_sent_unchanged() {
    for text in ["a\r\nb\nc\rd", "\u{1b}[201~\t日\n\n", "\r\n\r\n\0x"] {
        let sent = encode_paste(text, false, MAX_PASTE_BYTES).unwrap();
        let again = std::str::from_utf8(&sent).unwrap();
        assert_eq!(encode_paste(again, false, MAX_PASTE_BYTES).unwrap(), sent);
        assert_eq!(
            encode_paste(again, true, MAX_PASTE_BYTES),
            encode_paste(text, true, MAX_PASTE_BYTES)
        );
    }
}

#[test]
fn rejects_whole_paste_when_utf8_or_framing_exceeds_budget() {
    assert_eq!(encode_paste("🦀", false, 3), Err(PasteError::TooLarge));
    assert_eq!(encode_paste("🦀", false, 4).unwrap(), "🦀".as_bytes());
    assert_eq!(encode_paste("🦀", true, 15), Err(PasteError::TooLarge));
    assert_eq!(encode_paste("🦀", true, 16).unwrap().len(), 16);
    assert_eq!(encode_paste("a", false, 0), Err(PasteError::TooLarge));
    assert_eq!(encode_paste("\r\n", false, 1).unwrap(), b"\r");
}

#[test]
fn clipboard_cannot_inject_early_bracketed_paste_end_or_key_controls() {
    let payload = "safe\x1b[201~\rcommand\x03\u{009b}201~\x1b[200~\x08\x7f";
    let encoded = encode_paste(payload, true, MAX_PASTE_BYTES).unwrap();
    let contents = &encoded[PASTE_START.len()..encoded.len() - PASTE_END.len()];
    assert_eq!(contents, b"safe[201~\rcommand201~[200~");
    assert_eq!(
        encoded
            .windows(PASTE_START.len())
            .filter(|part| *part == PASTE_START)
            .count(),
        1
    );
    assert_eq!(
        encoded
            .windows(PASTE_END.len())
            .filter(|part| *part == PASTE_END)
            .count(),
        1
    );
}

#[test]
fn rejects_oversized_payloads_without_truncating_or_partial_framing() {
    let text = "a".repeat(MAX_PASTE_BYTES);
    assert_eq!(
        encode_paste(&text, true, MAX_PASTE_BYTES),
        Err(PasteError::TooLarge)
    );
    assert_eq!(
        encode_paste(&text, false, MAX_PASTE_BYTES).unwrap().len(),
        MAX_PASTE_BYTES
    );
}
