//! What the command line and the palette file ask for.
use crate::launch_options::{
    equals_at, has_controls, inline_value, name_part, no_options, option_named, parsed,
    starts_command, LaunchError, OptionName, OptionsView, Parsed,
};
use crate::omarchy_theme::{
    batch_outcome, entry_map, hex_channel, hex_color, is_palette, hex_digit, key_color, missing_ansi, missing_color,
    Palette, PaletteOverrides, Rgb, ThemeKey, ThemeUpdate, WatchEvent, WatchOutcome, WatchedName,
};
use vstd::prelude::*;
use vstd::utf8::{decode_utf8, encode_utf8, encode_utf8_decode_utf8, valid_utf8};

verus! {

/// The name of an option ends before the first equals sign, and its value starts
/// behind it.
pub proof fn law_inline_values(argument: Seq<u8>)
    ensures
        ({
            let at = equals_at(argument);
            &&& 0 <= at <= argument.len()
            &&& forall|i: int| 0 <= i < at ==> #[trigger] argument[i] != 0x3d
            &&& at < argument.len() ==> argument[at] == 0x3d
            &&& name_part(argument).len() == at
            &&& inline_value(argument) is Some <==> at < argument.len()
            &&& inline_value(argument) is Some ==> argument == name_part(argument) + seq![0x3du8]
                + inline_value(argument)->0
        }),
    decreases argument.len(),
{
    let at = equals_at(argument);
    if argument.len() > 0 && argument[0] != 61 {
        let rest = argument.drop_first();
        law_inline_values(rest);
        assert forall|i: int| 0 <= i < at implies #[trigger] argument[i] != 0x3d by {
            if i > 0 {
                assert(rest[i - 1] != 0x3d);
            }
        }
        if at < argument.len() {
            assert(rest[at - 1] == argument[at]);
        }
    }
    if at < argument.len() {
        assert(argument =~= name_part(argument) + seq![0x3du8] + inline_value(argument)->0);
    }
}

proof fn lemma_encodings_differ(one: Seq<char>, other: Seq<char>)
    ensures
        encode_utf8(one) == encode_utf8(other) ==> one == other,
{
    encode_utf8_decode_utf8(one);
    encode_utf8_decode_utf8(other);
}

/// Every option goes by its own name, and no other name is one.
pub proof fn law_option_names(name: Seq<char>)
    ensures
        option_named(encode_utf8(name)) == Some(OptionName::WorkingDirectory) <==> name
            == "--working-directory"@,
        option_named(encode_utf8(name)) == Some(OptionName::Dir) <==> name == "--dir"@,
        option_named(encode_utf8(name)) == Some(OptionName::AppId) <==> name == "--app-id"@,
        option_named(encode_utf8(name)) == Some(OptionName::Title) <==> name == "--title"@,
        OptionName::WorkingDirectory.spelling() == "--working-directory"@,
        OptionName::Dir.spelling() == "--dir"@,
        OptionName::AppId.spelling() == "--app-id"@,
        OptionName::Title.spelling() == "--title"@,
{
    reveal_strlit("--working-directory");
    reveal_strlit("--dir");
    reveal_strlit("--app-id");
    reveal_strlit("--title");
    lemma_encodings_differ(name, "--working-directory"@);
    lemma_encodings_differ(name, "--dir"@);
    lemma_encodings_differ(name, "--app-id"@);
    lemma_encodings_differ(name, "--title"@);
}

/// The words that are no options with a value: those that start a command, ask
/// for help or for the version.
pub proof fn law_plain_words(word: Seq<char>, rest: Seq<Seq<u8>>, options: OptionsView)
    ensures
        ({
            let arguments = seq![encode_utf8(word)] + rest;
            let result = parsed(arguments, 0, options);
            let starts = word == "-e"@ || word == "--execute"@ || word == "--"@;
            &&& starts && (rest.len() == 0 || rest[0].len() == 0) ==> result == Parsed::Failed(
                LaunchError::MissingCommand,
            )
            &&& starts && rest.len() > 0 && rest[0].len() > 0 ==> result == Parsed::Run(
                OptionsView { command: rest, ..options },
            )
            &&& word == "-h"@ || word == "--help"@ ==> result == Parsed::Help
            &&& word == "-V"@ || word == "--version"@ ==> result == Parsed::Version
        }),
        parsed(Seq::empty(), 0, options) == Parsed::Run(options),
        no_options().command.len() == 0,
        no_options().working_directory is None,
        no_options().app_id is None,
        no_options().title is None,
{
    let arguments = seq![encode_utf8(word)] + rest;
    assert(arguments[0] == encode_utf8(word));
    assert(arguments.skip(1) =~= rest);
    reveal_strlit("-e");
    reveal_strlit("--execute");
    reveal_strlit("--");
    reveal_strlit("-h");
    reveal_strlit("--help");
    reveal_strlit("-V");
    reveal_strlit("--version");
    lemma_encodings_differ(word, "-e"@);
    lemma_encodings_differ(word, "--execute"@);
    lemma_encodings_differ(word, "--"@);
    lemma_encodings_differ(word, "-h"@);
    lemma_encodings_differ(word, "--help"@);
    lemma_encodings_differ(word, "-V"@);
    lemma_encodings_differ(word, "--version"@);
    assert("-h"@[1] == 'h' && "-e"@[1] == 'e' && "-V"@[1] == 'V' && "--"@[1] == '-');
    assert("--version"@[2] == 'v' && "--execute"@[2] == 'e');
}

/// The options with the value of one of them set.
pub open spec fn option_set(before: OptionsView, after: OptionsView, name: OptionName, value: Seq<u8>) -> bool {
    &&& after.command == before.command
    &&& name == OptionName::WorkingDirectory || name == OptionName::Dir
        ==> after.working_directory == Some(value) && after.app_id == before.app_id && after.title
        == before.title
    &&& name == OptionName::AppId ==> after.app_id == Some(decode_utf8(value))
        && after.working_directory == before.working_directory && after.title == before.title
    &&& name == OptionName::Title ==> after.title == Some(decode_utf8(value))
        && after.working_directory == before.working_directory && after.app_id == before.app_id
}

/// An option takes its value from behind its equals sign or from the next
/// argument, sets what it names and nothing else, and reading goes on behind it.
/// A value that is missing or empty, or a text that is none or holds controls,
/// is refused.
pub proof fn law_options_take_values(
    arguments: Seq<Seq<u8>>,
    at: int,
    before: OptionsView,
    after: OptionsView,
    name: OptionName,
    value: Seq<u8>,
    next: int,
)
    requires
        0 <= at < arguments.len(),
        !starts_command(arguments[at]),
        arguments[at] != encode_utf8("-h"@),
        arguments[at] != encode_utf8("--help"@),
        arguments[at] != encode_utf8("-V"@),
        arguments[at] != encode_utf8("--version"@),
        option_named(name_part(arguments[at])) == Some(name),
        inline_value(arguments[at]) is Some ==> value == inline_value(arguments[at])->0 && next
            == at + 1,
        inline_value(arguments[at]) is None && at + 1 < arguments.len() ==> value == arguments[at
            + 1] && next == at + 2,
        inline_value(arguments[at]) is None && at + 1 >= arguments.len() ==> value.len() == 0,
        option_set(before, after, name, value),
    ensures
        ({
            let result = parsed(arguments, at, before);
            let path = name == OptionName::WorkingDirectory || name == OptionName::Dir;
            &&& value.len() == 0 ==> result == Parsed::Failed(LaunchError::MissingValue(name))
            &&& value.len() > 0 && path ==> result == parsed(arguments, next, after)
            &&& value.len() > 0 && !path && !valid_utf8(value) ==> result == Parsed::Failed(
                LaunchError::NotUtf8(name),
            )
            &&& value.len() > 0 && !path && valid_utf8(value) && (exists|i: int|
                0 <= i < decode_utf8(value).len() && unseen(#[trigger] decode_utf8(value)[i]))
                ==> result == Parsed::Failed(LaunchError::HasControls(name))
            &&& value.len() > 0 && !path && valid_utf8(value) && (forall|i: int|
                0 <= i < decode_utf8(value).len() ==> !unseen(#[trigger] decode_utf8(value)[i]))
                ==> result == parsed(arguments, next, after)
        }),
{
    let text = decode_utf8(value);
    if exists|i: int| 0 <= i < text.len() && unseen(#[trigger] text[i]) {
        let i = choose|i: int| 0 <= i < text.len() && unseen(#[trigger] text[i]);
        assert(crate::input::paste::is_control(text[i]));
        assert(has_controls(text));
    }
    if has_controls(text) {
        let i = choose|i: int|
            0 <= i < text.len() && crate::input::paste::is_control(#[trigger] text[i]);
        assert(unseen(text[i]));
    }
}

/// A control character, from the first or the second block of them.
pub open spec fn unseen(c: char) -> bool {
    let code = c as u32;
    code <= 31 || (127 <= code && code <= 159)
}

/// An argument that names no option is refused with its place.
pub proof fn law_unknown_options(arguments: Seq<Seq<u8>>, at: int, options: OptionsView)
    requires
        0 <= at < arguments.len() <= usize::MAX,
        !starts_command(arguments[at]),
        arguments[at] != encode_utf8("-h"@),
        arguments[at] != encode_utf8("--help"@),
        arguments[at] != encode_utf8("-V"@),
        arguments[at] != encode_utf8("--version"@),
        option_named(name_part(arguments[at])) is None,
    ensures
        parsed(arguments, at, options) == Parsed::Failed(LaunchError::UnknownOption(at as usize)),
{
}

/// The digits that a color is written with in a query are read back as that
/// color from a palette.
pub proof fn law_colors_round_trip(color: Rgb)
    ensures
        hex_color(seq!['#'] + crate::window::status::hex_color(color)) == Some(color),
        crate::window::status::hex_color(color).len() == 6,
        forall|i: int|
            0 <= i < 6 ==> {
                let c = #[trigger] crate::window::status::hex_color(color)[i];
                '0' <= c <= '9' || 'a' <= c <= 'f'
            },
{
    let text = seq!['#'] + crate::window::status::hex_color(color);
    lemma_channel(color.0);
    lemma_channel(color.1);
    lemma_channel(color.2);
    assert(text[1] == crate::window::status::hex_digit(color.0 as int / 16));
    assert(text[2] == crate::window::status::hex_digit(color.0 as int % 16));
    assert(text[3] == crate::window::status::hex_digit(color.1 as int / 16));
    assert(text[4] == crate::window::status::hex_digit(color.1 as int % 16));
    assert(text[5] == crate::window::status::hex_digit(color.2 as int / 16));
    assert(text[6] == crate::window::status::hex_digit(color.2 as int % 16));
}

proof fn lemma_channel(value: u8)
    ensures
        ({
            let high = crate::window::status::hex_digit(value as int / 16);
            let low = crate::window::status::hex_digit(value as int % 16);
            &&& hex_channel(high, low) == Some(value)
            &&& '0' <= high <= '9' || 'a' <= high <= 'f'
            &&& '0' <= low <= '9' || 'a' <= low <= 'f'
        }),
{
    let h = value as int / 16;
    let l = value as int % 16;
    assert(0 <= h < 16 && 0 <= l < 16 && h * 16 + l == value);
    lemma_digit(h);
    lemma_digit(l);
}

proof fn lemma_digit(value: int)
    requires
        0 <= value < 16,
    ensures
        hex_digit(crate::window::status::hex_digit(value)) == Some(value as u8),
        ({
            let c = crate::window::status::hex_digit(value);
            ('0' <= c <= '9' || 'a' <= c <= 'f') && c != '+'
        }),
{
    if value < 10 {
        assert((48 + value) as u8 as char as u32 == 48 + value);
    } else {
        assert((87 + value) as u8 as char as u32 == 87 + value);
    }
}

/// Capital and small digits mean the same, and a color has seven characters and
/// starts with a number sign.
pub proof fn law_colors_of_any_case(text: Seq<char>, c: char)
    ensures
        'a' <= c <= 'f' ==> hex_digit(((c as u32 - 32) as u8) as char) == hex_digit(c),
        hex_digit(c) is Some <==> '0' <= c <= '9' || 'a' <= c <= 'f' || 'A' <= c <= 'F',
        hex_digit(c) is Some ==> hex_digit(c)->0 < 16,
        hex_color(text) is Some ==> text.len() == 7 && text[0] == '#',
{
    if 'a' <= c <= 'f' {
        assert(((c as u32 - 32) as u8) as char as u32 == c as u32 - 32);
    }
}

/// What a palette leaves open: a selection exchanges foreground and background,
/// and what is set by hand comes first.
pub proof fn law_selections_follow_the_palette(settings: PaletteOverrides, theme: Option<Palette>)
    ensures
        ({
            let shown = settings.resolved(theme);
            let source = if theme is Some { theme->0 } else { settings.base };
            &&& settings.selection_foreground is Some ==> shown.selection_foreground
                == settings.selection_foreground
            &&& settings.selection_background is Some ==> shown.selection_background
                == settings.selection_background
            &&& settings.selection_foreground is None && source.selection_foreground is Some
                ==> shown.selection_foreground == source.selection_foreground
            &&& settings.selection_background is None && source.selection_background is Some
                ==> shown.selection_background == source.selection_background
            &&& settings.selection_foreground is None && source.selection_foreground is None
                ==> shown.selection_foreground == Some(shown.background)
            &&& settings.selection_background is None && source.selection_background is None
                ==> shown.selection_background == Some(shown.foreground)
            &&& theme is None && settings.foreground is None ==> shown.foreground
                == settings.base.foreground
            &&& theme is None && settings.background is None ==> shown.background
                == settings.base.background
            &&& theme is None && settings.cursor is None ==> shown.cursor == settings.base.cursor
            &&& theme is None && settings.ansi is None ==> shown.ansi == settings.base.ansi
        }),
{
}

/// The names under which a palette file gives its colors.
pub proof fn law_palette_names(index: u8)
    ensures
        ThemeKey::Foreground.name() == "foreground"@,
        ThemeKey::Background.name() == "background"@,
        ThemeKey::SelectionForeground.name() == "selection_foreground"@,
        ThemeKey::SelectionBackground.name() == "selection_background"@,
        ThemeKey::Cursor.name() == "cursor"@,
        index < 10 ==> ThemeKey::Ansi(index).name().len() == 6 && ThemeKey::Ansi(index).name()[5]
            as u32 == 48 + index && ThemeKey::Ansi(index).name().take(5) == "color"@,
        10 <= index < 16 ==> ThemeKey::Ansi(index).name().len() == 7 && ThemeKey::Ansi(
            index,
        ).name()[5] == '1' && ThemeKey::Ansi(index).name()[6] as u32 == 38 + index
            && ThemeKey::Ansi(index).name().take(5) == "color"@,
{
    reveal_strlit("color");
    if index < 16 {
        assert(ThemeKey::Ansi(index).name().take(5) =~= "color"@);
        if index < 10 {
            assert((48 + index) as char as u32 == 48 + index);
        } else {
            assert((38 + index) as char as u32 == 38 + index);
        }
    }
}

/// A palette is complete exactly if it gives every color; else the first one
/// that is missing is told.
pub proof fn law_palettes_are_complete(map: Map<Seq<char>, Option<Seq<char>>>)
    ensures
        missing_color(map) is None <==> {
            &&& key_color(map, ThemeKey::Foreground) is Some
            &&& key_color(map, ThemeKey::Background) is Some
            &&& key_color(map, ThemeKey::SelectionForeground) is Some
            &&& key_color(map, ThemeKey::SelectionBackground) is Some
            &&& key_color(map, ThemeKey::Cursor) is Some
            &&& forall|i: u8|
                i < 16 ==> (#[trigger] key_color(map, ThemeKey::Ansi(i))) is Some
        },
        missing_color(map) is Some ==> key_color(map, missing_color(map)->0) is None,
{
    lemma_ansi_complete(map, 0);
}

proof fn lemma_ansi_complete(map: Map<Seq<char>, Option<Seq<char>>>, index: int)
    requires
        0 <= index <= 16,
    ensures
        missing_ansi(map, index) is None <==> forall|i: u8|
            index <= i < 16 ==> (#[trigger] key_color(map, ThemeKey::Ansi(i))) is Some,
        missing_ansi(map, index) is Some ==> key_color(map, missing_ansi(map, index)->0) is None,
    decreases 16 - index,
{
    if index < 16 {
        lemma_ansi_complete(map, index + 1);
        assert(key_color(map, ThemeKey::Ansi(index as u8)) is Some || key_color(
            map,
            ThemeKey::Ansi(index as u8),
        ) is None);
    }
}

/// The color of a key is read from the text that the file gives it; without a
/// text there is none.
pub proof fn law_palette_colors(map: Map<Seq<char>, Option<Seq<char>>>, key: ThemeKey, text: Seq<char>)
    ensures
        map.contains_key(key.name()) && map[key.name()] == Some(text) ==> key_color(map, key)
            == hex_color(text),
        map.contains_key(key.name()) && map[key.name()] is None ==> key_color(map, key) is None,
        !map.contains_key(key.name()) ==> key_color(map, key) is None,
{
}

/// Which file system events make the palette be read again: lost events, changes
/// of the theme in its directory, and changes of the palette in the theme.
pub proof fn law_watched_events(event: WatchEvent)
    ensures
        event.overflow ==> event.reloads(),
        event.on_parent && event.name == WatchedName::Theme ==> event.reloads(),
        event.on_parent && event.name == WatchedName::Absent && event.attributes
            ==> event.reloads(),
        event.on_theme && event.name == WatchedName::Colors ==> event.reloads(),
        event.on_theme && event.name == WatchedName::Absent ==> event.reloads(),
        !event.overflow && !event.on_parent && !event.on_theme ==> !event.reloads(),
        !event.overflow && event.name == WatchedName::Other ==> !event.reloads(),
        !event.overflow && !event.on_theme && event.name == WatchedName::Colors
            ==> !event.reloads(),
        !event.overflow && !event.on_parent && event.name == WatchedName::Theme
            ==> !event.reloads(),
        !event.overflow && !event.on_theme && event.name == WatchedName::Absent
            && !event.attributes ==> !event.reloads(),
        event.ends() <==> event.on_parent && event.removed,
{
}

/// The loss of the watched directory counts before every change, and one change
/// is enough.
pub proof fn law_batches(events: Seq<WatchEvent>, i: int)
    requires
        0 <= i < events.len(),
    ensures
        events[i].ends() ==> batch_outcome(events) == WatchOutcome::ParentRemoved,
        events[i].reloads() ==> batch_outcome(events) != WatchOutcome::Unchanged,
        batch_outcome(Seq::empty()) == WatchOutcome::Unchanged,
        batch_outcome(events) == WatchOutcome::ParentRemoved ==> exists|k: int|
            0 <= k < events.len() && (#[trigger] events[k]).ends(),
        batch_outcome(events) == WatchOutcome::Reload ==> exists|k: int|
            0 <= k < events.len() && (#[trigger] events[k]).reloads(),
{
}


/// A complete palette has each color from the entry of its own name.
pub proof fn law_palettes_are_read(map: Map<Seq<char>, Option<Seq<char>>>, palette: Palette, i: int)
    requires
        is_palette(map, palette),
        0 <= i < 16,
    ensures
        key_color(map, ThemeKey::Foreground) == Some(palette.foreground),
        key_color(map, ThemeKey::Background) == Some(palette.background),
        key_color(map, ThemeKey::SelectionForeground) == palette.selection_foreground,
        key_color(map, ThemeKey::SelectionBackground) == palette.selection_background,
        key_color(map, ThemeKey::Cursor) == palette.cursor,
        palette.ansi is Some,
        key_color(map, ThemeKey::Ansi(i as u8)) == Some(palette.ansi->0@[i]),
{
}

/// Of two entries with one name the later one counts.
pub proof fn law_later_entries_count(
    entries: Seq<(String, Option<String>)>,
    name: String,
    value: Option<String>,
    other: Seq<char>,
)
    ensures
        ({
            let map = entry_map(entries.push((name, value)));
            &&& map.contains_key(name@)
            &&& value is Some ==> map[name@] == Some(value->0@)
            &&& value is None ==> map[name@] is None
            &&& other != name@ ==> map.contains_key(other) == entry_map(entries).contains_key(other)
            &&& other != name@ && map.contains_key(other) ==> map[other] == entry_map(
                entries,
            )[other]
        }),
        !entry_map(Seq::empty()).contains_key(other),
{
    assert(entries.push((name, value)).drop_last() =~= entries);
}


/// The window is told once of palettes that it has not taken, and of none that
/// it has; the latest one is there whenever it takes one.
pub proof fn law_published_palettes(update: ThemeUpdate, one: Palette, other: Palette)
    ensures
        ({
            let (first, told) = update.published(one);
            let (second, again) = first.published(other);
            &&& first.colors == Some(one)
            &&& second.colors == Some(other)
            &&& update.colors == Some(one) ==> !told && first == update
            &&& update.colors != Some(one) ==> told == !update.pending && first.pending
            &&& update.colors != Some(one) ==> !again
            &&& update.taken().colors == update.colors
            &&& !update.taken().pending
            &&& first.taken().published(one).1 == false
            &&& other != one ==> first.taken().published(other).1
        }),
{
}

} // verus!
