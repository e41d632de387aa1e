//! The palette of the system, and the settings over it.
use kokuban::omarchy_theme::{
    decide_batch, parse_hex_color, parse_theme, reads_on, theme_from_entries, Palette,
    PaletteOverrides, ReadOutcome, ThemeError, ThemeKey, ThemeUpdate, WatchEvent, WatchOutcome,
    WatchedName, MAX_READS_PER_BATCH, MAX_THEME_BYTES,
};

fn palette(background: &str) -> String {
    let mut text = format!(
        "foreground = '#a9b1d6'\nbackground = '{background}'\n\
         selection_foreground = '#c0caf5'\nselection_background = '#7aa2f7'\ncursor = '#c0caf5'\n"
    );
    for index in 0..16 {
        text.push_str(&format!("color{index} = '#{index:02x}2233'\n"));
    }
    text
}

fn plain(foreground: (u8, u8, u8), background: (u8, u8, u8)) -> Palette {
    Palette {
        foreground,
        background,
        selection_foreground: None,
        selection_background: None,
        cursor: None,
        ansi: None,
    }
}

fn no_overrides(base: Palette) -> PaletteOverrides {
    PaletteOverrides {
        base,
        foreground: None,
        background: None,
        selection_foreground: None,
        selection_background: None,
        cursor: None,
        ansi: None,
    }
}

#[test]
fn complete_palette_preserves_every_semantic_role_and_ansi_index() {
    let colors = parse_theme(&palette("#1A1b26")).unwrap();
    assert_eq!(colors.background, (26, 27, 38));
    assert_eq!(colors.foreground, (169, 177, 214));
    assert_eq!(colors.selection_foreground, Some((192, 202, 245)));
    assert_eq!(colors.selection_background, Some((122, 162, 247)));
    assert_eq!(colors.cursor, Some((192, 202, 245)));
    let ansi = colors.ansi.unwrap();
    for index in 0..16 {
        assert_eq!(ansi[index], (index as u8, 34, 51));
    }
}

#[test]
fn partial_invalid_unicode_and_oversized_themes_are_rejected_as_a_whole() {
    let complete = palette("#1a1b26");
    for line in complete.lines() {
        assert!(
            parse_theme(&complete.replace(&format!("{line}\n"), "")).is_err(),
            "missing {line}"
        );
    }
    for invalid in ["#xxxxxx", "#123", "123456", "#你好", "#1234567", "##12345"] {
        assert!(parse_theme(&palette(invalid)).is_err(), "{invalid}");
    }
    assert!(parse_theme(&(complete.clone() + &" ".repeat(MAX_THEME_BYTES))).is_err());
    assert!(parse_theme(&(complete + "\ncolor0 = '#123456'\n")).is_err());
}

#[test]
fn explicit_values_equal_to_defaults_still_override_system_colors() {
    let overrides = PaletteOverrides {
        foreground: Some((192, 192, 192)),
        selection_background: Some((180, 213, 254)),
        ..no_overrides(plain((192, 192, 192), (26, 26, 46)))
    };
    for background in ["#010203", "#fafbfc"] {
        let theme = parse_theme(&palette(background)).unwrap();
        let colors = overrides.resolve(Some(theme));
        assert_eq!(colors.foreground, (192, 192, 192));
        assert_eq!(colors.background, theme.background);
        assert_eq!(colors.selection_background, Some((180, 213, 254)));
        assert_eq!(colors.selection_foreground, theme.selection_foreground);
        assert_eq!(colors.cursor, theme.cursor);
    }
}

#[test]
fn optional_cursor_and_ansi_overrides_survive_palette_changes() {
    let mut ansi = [(0, 68, 85); 16];
    for index in 0..16 {
        ansi[index].0 = index as u8;
    }
    let overrides = PaletteOverrides {
        cursor: Some((17, 34, 51)),
        ansi: Some(ansi),
        ..no_overrides(plain((192, 192, 192), (26, 26, 46)))
    };
    for theme in [None, Some(parse_theme(&palette("#abcdef")).unwrap())] {
        let colors = overrides.resolve(theme);
        assert_eq!(colors.cursor, Some((17, 34, 51)));
        for index in 0..16 {
            assert_eq!(colors.ansi.unwrap()[index], (index as u8, 68, 85));
        }
    }
}

#[test]
fn colors_are_six_hexadecimal_digits() {
    assert_eq!(parse_hex_color("#0aFf10"), Some((10, 255, 16)));
    assert_eq!(parse_hex_color("#+1+2+f"), Some((1, 2, 15)));
    assert_eq!(parse_theme(&palette("#+1+2+3")).unwrap().background, (1, 2, 3));
    for invalid in ["", "#", "#12345", "#12345g", "1234567", "#12 456", "#éé1", "#++1122", "#1+1122", "#-01122"] {
        assert_eq!(parse_hex_color(invalid), None, "{invalid}");
    }
}

#[test]
fn the_first_color_that_is_missing_is_named() {
    let entry = |key: &str, value: Option<&str>| (key.to_string(), value.map(str::to_string));
    let mut entries = vec![entry("foreground", Some("#010203"))];
    assert_eq!(
        theme_from_entries(&entries).unwrap_err(),
        ThemeError::InvalidColor(ThemeKey::Background)
    );
    entries.push(entry("background", None));
    assert_eq!(
        theme_from_entries(&entries).unwrap_err(),
        ThemeError::InvalidColor(ThemeKey::Background)
    );
    assert_eq!(
        ThemeError::InvalidColor(ThemeKey::Ansi(12)).message(),
        "Omarchy color12 must be a #RRGGBB color"
    );
    match parse_theme("= no key").unwrap_err() {
        ThemeError::InvalidToml(words) => assert!(words.contains("parse error"), "{words}"),
        other => panic!("unexpected error: {other:?}"),
    }
    assert_eq!(
        parse_theme(&" ".repeat(MAX_THEME_BYTES + 1)).unwrap_err(),
        ThemeError::TooLarge
    );
    assert_eq!(ThemeError::TooLarge.message(), "Omarchy palette exceeds 64 KiB");
    assert_eq!(
        ThemeError::InvalidToml("no key".into()).message(),
        "invalid Omarchy palette TOML: no key"
    );
}

#[test]
fn the_window_is_told_once_and_gets_the_latest_palette() {
    let mut update = ThemeUpdate { colors: None, pending: false };
    let first = plain((1, 2, 3), (4, 5, 6));
    let second = plain((7, 8, 9), (4, 5, 6));
    assert!(update.publish(first));
    assert!(!update.publish(second), "one notice may be pending");
    assert_eq!(update.take().unwrap().foreground, (7, 8, 9));
    assert!(!update.publish(second), "nothing new");
    assert!(update.publish(first));
    assert_eq!(update.take().unwrap().foreground, (1, 2, 3));
    assert_eq!(update.take().unwrap().foreground, (1, 2, 3));
}

#[test]
fn file_events_lead_to_a_reload_or_to_the_end() {
    let quiet = WatchEvent {
        on_parent: true,
        on_theme: false,
        name: WatchedName::Other,
        removed: false,
        attributes: false,
        overflow: false,
    };
    assert!(reads_on(0, ReadOutcome::Interrupted));
    assert!(reads_on(MAX_READS_PER_BATCH - 1, ReadOutcome::Events));
    assert!(!reads_on(MAX_READS_PER_BATCH, ReadOutcome::Events));
    assert!(!reads_on(1, ReadOutcome::Drained));
    assert_eq!(decide_batch(&vec![]), WatchOutcome::Unchanged);
    assert_eq!(decide_batch(&vec![quiet]), WatchOutcome::Unchanged);
    let replaced = WatchEvent { name: WatchedName::Theme, ..quiet };
    assert_eq!(decide_batch(&vec![quiet, replaced]), WatchOutcome::Reload);
    let lost = WatchEvent { overflow: true, ..quiet };
    assert_eq!(decide_batch(&vec![lost]), WatchOutcome::Reload);
    let gone = WatchEvent { name: WatchedName::Absent, removed: true, ..quiet };
    assert_eq!(decide_batch(&vec![replaced, gone]), WatchOutcome::ParentRemoved);
}
