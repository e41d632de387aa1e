//! Which scalars belong to one glyph.
use kokuban::grid::boundary_pages::{SuccessorClass, SuccessorPages};
use kokuban::grid::cluster::scalar_extends_grapheme;
use unicode_segmentation::UnicodeSegmentation;

#[test]
fn long_cluster_contexts_match_the_full_segmenter() {
    let accent_run = format!("e{}", "\u{301}".repeat(512));
    let prepend_run = "\u{600}".repeat(128);
    let emoji_run = format!("👩{}\u{200d}", "\u{301}".repeat(128));
    let indic_run = format!(
        "क{}\u{94d}{}",
        "\u{93c}".repeat(128),
        "\u{200d}".repeat(128)
    );
    for previous in [&accent_run, &prepend_run, &emoji_run, &indic_run] {
        assert_eq!(previous.graphemes(true).count(), 1, "bad long context");
        for next in ['a', 'é', '日', '\u{301}', '\u{200d}', '💻', 'ष', '🇧', '\n'] {
            let combined = format!("{previous}{next}");
            assert_eq!(
                scalar_extends_grapheme(previous, next),
                combined.graphemes(true).count() == 1,
                "prefix length={}, next={next:?}",
                previous.len()
            );
        }
    }
}

#[test]
fn pages_answer_for_the_release_they_were_made_for() {
    // Page 12 holds U+0300 to U+033F, page 5 holds U+0140 to U+017F.
    let pages = SuccessorPages {
        words: vec![(2 << 24) | (1 << 10)],
        release: (17, 0, 0),
    };
    assert_eq!(pages.successor_class('a'), SuccessorClass::Other);
    assert_eq!(pages.successor_class('\u{301}'), SuccessorClass::Attach);
    assert_eq!(pages.successor_class('\u{150}'), SuccessorClass::Other);
    assert_eq!(pages.successor_class('\u{400}'), SuccessorClass::Unknown);
    assert_eq!(pages.successor_class('日'), SuccessorClass::Unknown);
    let release = (17, 0, 0);
    assert!(pages.is_other(release, 'a'));
    assert!(!pages.is_other((16, 0, 0), 'a'));
    assert_eq!(pages.scalar_extends(release, false, true, '\u{301}'), Some(false));
    assert_eq!(pages.scalar_extends(release, false, false, '\u{301}'), Some(true));
    assert_eq!(pages.scalar_extends(release, true, false, 'a'), Some(true));
    assert_eq!(pages.scalar_extends(release, false, false, '日'), None);
    assert_eq!(pages.scalar_extends((16, 0, 0), false, false, 'a'), None);
}
