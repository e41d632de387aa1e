//! Colors that the desktop publishes for its applications.
use crate::text::same_text;
use vstd::prelude::*;
use vstd::utf8::encode_utf8;

verus! {

/// The largest palette file, in bytes.
pub const MAX_THEME_BYTES: usize = 64 * 1024;

/// Red, green and blue.
pub type Rgb = (u8, u8, u8);

/// The colors of a terminal. What is absent follows from the rest: a selection
/// swaps foreground and background, the cursor takes the color of its cell, and
/// the sixteen basic colors are the built-in ones.
#[derive(Debug, Clone, Copy, PartialEq, Eq)]
pub struct Palette {
    pub foreground: Rgb,
    pub background: Rgb,
    pub selection_foreground: Option<Rgb>,
    pub selection_background: Option<Rgb>,
    pub cursor: Option<Rgb>,
    pub ansi: Option<[Rgb; 16]>,
}

/// The color settings that keep their priority when the system palette
/// changes.
#[derive(Debug, Clone, Copy)]
pub struct PaletteOverrides {
    pub base: Palette,
    pub foreground: Option<Rgb>,
    pub background: Option<Rgb>,
    pub selection_foreground: Option<Rgb>,
    pub selection_background: Option<Rgb>,
    pub cursor: Option<Rgb>,
    pub ansi: Option<[Rgb; 16]>,
}

/// The first that is present, or the last.
pub open spec fn first_color(first: Option<Rgb>, second: Option<Rgb>, last: Rgb) -> Rgb {
    match first {
        Some(color) => color,
        None => match second {
            Some(color) => color,
            None => last,
        },
    }
}

impl PaletteOverrides {
    /// The palette with the settings applied to a system palette, or to the
    /// configured one.
    pub open spec fn resolved(self, theme: Option<Palette>) -> Palette {
        let source = match theme {
            Some(theme) => theme,
            None => self.base,
        };
        let foreground = first_color(self.foreground, None, source.foreground);
        let background = first_color(self.background, None, source.background);
        Palette {
            foreground,
            background,
            selection_foreground: Some(
                first_color(self.selection_foreground, source.selection_foreground, background),
            ),
            selection_background: Some(
                first_color(self.selection_background, source.selection_background, foreground),
            ),
            cursor: if self.cursor is Some { self.cursor } else { source.cursor },
            ansi: if self.ansi is Some { self.ansi } else { source.ansi },
        }
    }

    pub fn resolve(&self, theme: Option<Palette>) -> (r: Palette)
        ensures
            r == self.resolved(theme),
    {
        let source: Palette = match theme {
            Some(theme) => theme,
            None => self.base,
        };
        let foreground: Rgb = pick_color(self.foreground, None, source.foreground);
        let background: Rgb = pick_color(self.background, None, source.background);
        Palette {
            foreground,
            background,
            selection_foreground: Some(
                pick_color(self.selection_foreground, source.selection_foreground, background),
            ),
            selection_background: Some(
                pick_color(self.selection_background, source.selection_background, foreground),
            ),
            cursor: match self.cursor {
                Some(cursor) => Some(cursor),
                None => source.cursor,
            },
            ansi: match self.ansi {
                Some(ansi) => Some(ansi),
                None => source.ansi,
            },
        }
    }
}

fn pick_color(first: Option<Rgb>, second: Option<Rgb>, last: Rgb) -> (r: Rgb)
    ensures
        r == first_color(first, second, last),
{
    match first {
        Some(color) => color,
        None => match second {
            Some(color) => color,
            None => last,
        },
    }
}

/// A setting wins over every system palette, and what is not set follows it.
pub proof fn law_explicit_colors_win(overrides: PaletteOverrides, theme: Palette)
    ensures
        ({
            let shown = overrides.resolved(Some(theme));
            &&& overrides.foreground is Some ==> shown.foreground == overrides.foreground->0
            &&& overrides.background is Some ==> shown.background == overrides.background->0
            &&& overrides.foreground is None ==> shown.foreground == theme.foreground
            &&& overrides.background is None ==> shown.background == theme.background
            &&& overrides.cursor is Some ==> shown.cursor == overrides.cursor
            &&& overrides.cursor is None ==> shown.cursor == theme.cursor
            &&& overrides.ansi is Some ==> shown.ansi == overrides.ansi
            &&& overrides.ansi is None ==> shown.ansi == theme.ansi
            &&& shown.selection_foreground is Some
            &&& shown.selection_background is Some
        }),
{
}

/// A color that a palette file names.
#[derive(Debug, Clone, Copy, PartialEq, Eq, Structural)]
pub enum ThemeKey {
    Foreground,
    Background,
    SelectionForeground,
    SelectionBackground,
    Cursor,
    Ansi(u8),
}

#[derive(Debug, Clone, PartialEq, Eq)]
pub enum ThemeError {
    TooLarge,
    /// The text is no TOML, in the words of the parser.
    InvalidToml(String),
    /// The color is missing or not of the form `#RRGGBB`.
    InvalidColor(ThemeKey),
}

/// The top-level keys of a TOML text, each with its value if that is a string,
/// or what the parser says of a text that is no TOML.
pub uninterp spec fn toml_strings(text: Seq<char>) -> Result<
    Map<Seq<char>, Option<Seq<char>>>,
    Seq<char>,
>;

/// The map that a list of entries stands for.
pub open spec fn entry_map(entries: Seq<(String, Option<String>)>) -> Map<
    Seq<char>,
    Option<Seq<char>>,
>
    decreases entries.len(),
{
    if entries.len() == 0 {
        Map::empty()
    } else {
        entry_map(entries.drop_last()).insert(entries.last().0@, text_of(entries.last().1))
    }
}

pub open spec fn text_of(text: Option<String>) -> Option<Seq<char>> {
    match text {
        Some(text) => Some(text@),
        None => None,
    }
}

/// `toml::from_str` reads a TOML text into a table, or fails with an error that
/// describes itself; both depend on the text alone. The table is handed on as a
/// list of its keys, each with its value where `toml::Value::as_str` gives one.
#[verifier::external_body]
fn top_level_strings(text: &str) -> (r: Result<Vec<(String, Option<String>)>, String>)
    ensures
        match r {
            Ok(entries) => toml_strings(text@) == Ok::<
                Map<Seq<char>, Option<Seq<char>>>,
                Seq<char>,
            >(entry_map(entries@)),
            Err(words) => toml_strings(text@) == Err::<
                Map<Seq<char>, Option<Seq<char>>>,
                Seq<char>,
            >(words@),
        },
{
    let table: toml::Table = toml::from_str(text).map_err(|error| error.to_string())?;
    Ok(table.into_iter().map(|(key, value)| (key, value.as_str().map(str::to_owned))).collect())
}

impl ThemeKey {
    pub open spec fn name(self) -> Seq<char> {
        match self {
            ThemeKey::Foreground => "foreground"@,
            ThemeKey::Background => "background"@,
            ThemeKey::SelectionForeground => "selection_foreground"@,
            ThemeKey::SelectionBackground => "selection_background"@,
            ThemeKey::Cursor => "cursor"@,
            ThemeKey::Ansi(index) => if index < 10 {
                "color"@.push((48 + index) as char)
            } else {
                "color"@.push('1').push((38 + index) as char)
            },
        }
    }

    /// The key as it is written in the file.
    pub fn text(self) -> (r: String)
        requires
            self is Ansi ==> self->Ansi_0 < 16,
        ensures
            r@ == self.name(),
    {
        match self {
            ThemeKey::Foreground => "foreground".to_owned(),
            ThemeKey::Background => "background".to_owned(),
            ThemeKey::SelectionForeground => "selection_foreground".to_owned(),
            ThemeKey::SelectionBackground => "selection_background".to_owned(),
            ThemeKey::Cursor => "cursor".to_owned(),
            ThemeKey::Ansi(index) => {
                let mut text: String = "color".to_owned();
                if index < 10 {
                    text.push((48 + index) as char);
                } else {
                    text.push('1');
                    text.push((38 + index) as char);
                }
                text
            },
        }
    }
}

/// The value of a hexadecimal digit.
pub open spec fn hex_digit(c: char) -> Option<u8> {
    if '0' <= c <= '9' {
        Some((c as u32 - 48) as u8)
    } else if 'a' <= c <= 'f' {
        Some((c as u32 - 87) as u8)
    } else if 'A' <= c <= 'F' {
        Some((c as u32 - 55) as u8)
    } else {
        None
    }
}

/// The value of two hexadecimal digits, or of one digit behind a plus sign.
pub open spec fn hex_channel(high: char, low: char) -> Option<u8> {
    if high == '+' {
        hex_digit(low)
    } else {
        match (hex_digit(high), hex_digit(low)) {
            (Some(h), Some(l)) => Some((h * 16 + l) as u8),
            _ => None,
        }
    }
}

/// The color of a text of the form `#RRGGBB`. A channel below sixteen may be
/// written with a plus sign in place of the zero.
pub open spec fn hex_color(text: Seq<char>) -> Option<Rgb> {
    if text.len() == 7 && text[0] == '#' {
        match (
            hex_channel(text[1], text[2]),
            hex_channel(text[3], text[4]),
            hex_channel(text[5], text[6]),
        ) {
            (Some(red), Some(green), Some(blue)) => Some((red, green, blue)),
            _ => None,
        }
    } else {
        None
    }
}

/// The color that a table gives a key.
pub open spec fn key_color(map: Map<Seq<char>, Option<Seq<char>>>, key: ThemeKey) -> Option<Rgb> {
    if map.contains_key(key.name()) {
        match map[key.name()] {
            Some(text) => hex_color(text),
            None => None,
        }
    } else {
        None
    }
}

/// The basic colors from `index` on are all there, or the first that is not.
pub open spec fn missing_ansi(map: Map<Seq<char>, Option<Seq<char>>>, index: int) -> Option<ThemeKey>
    decreases 16 - index,
{
    if index >= 16 {
        None
    } else if key_color(map, ThemeKey::Ansi(index as u8)) is None {
        Some(ThemeKey::Ansi(index as u8))
    } else {
        missing_ansi(map, index + 1)
    }
}

/// The first color that a complete palette needs and a table does not give.
pub open spec fn missing_color(map: Map<Seq<char>, Option<Seq<char>>>) -> Option<ThemeKey> {
    if key_color(map, ThemeKey::Foreground) is None {
        Some(ThemeKey::Foreground)
    } else if key_color(map, ThemeKey::Background) is None {
        Some(ThemeKey::Background)
    } else if key_color(map, ThemeKey::SelectionForeground) is None {
        Some(ThemeKey::SelectionForeground)
    } else if key_color(map, ThemeKey::SelectionBackground) is None {
        Some(ThemeKey::SelectionBackground)
    } else if key_color(map, ThemeKey::Cursor) is None {
        Some(ThemeKey::Cursor)
    } else {
        missing_ansi(map, 0)
    }
}

/// The palette of a table that gives every color.
pub open spec fn is_palette(map: Map<Seq<char>, Option<Seq<char>>>, palette: Palette) -> bool {
    &&& Some(palette.foreground) == key_color(map, ThemeKey::Foreground)
    &&& Some(palette.background) == key_color(map, ThemeKey::Background)
    &&& palette.selection_foreground == key_color(map, ThemeKey::SelectionForeground)
    &&& palette.selection_background == key_color(map, ThemeKey::SelectionBackground)
    &&& palette.cursor == key_color(map, ThemeKey::Cursor)
    &&& palette.ansi is Some
    &&& forall|i: int|
        0 <= i < 16 ==> Some(#[trigger] palette.ansi->0@[i]) == key_color(
            map,
            ThemeKey::Ansi(i as u8),
        )
}

fn digit_value(c: char) -> (r: Option<u8>)
    ensures
        r == hex_digit(c),
        r is Some ==> r->0 < 16,
{
    if '0' <= c && c <= '9' {
        Some((c as u32 - 48) as u8)
    } else if 'a' <= c && c <= 'f' {
        Some((c as u32 - 87) as u8)
    } else if 'A' <= c && c <= 'F' {
        Some((c as u32 - 55) as u8)
    } else {
        None
    }
}

fn channel(high: char, low: char) -> (r: Option<u8>)
    ensures
        r == hex_channel(high, low),
{
    if high == '+' {
        return digit_value(low);
    }
    match (digit_value(high), digit_value(low)) {
        (Some(h), Some(l)) => Some(h * 16 + l),
        _ => None,
    }
}

/// Read a color of the form `#RRGGBB`.
pub fn parse_hex_color(text: &str) -> (r: Option<Rgb>)
    ensures
        r == hex_color(text@),
{
    let chars: Vec<char> = crate::text::chars_of(text);
    if chars.len() != 7 || chars[0] != '#' {
        return None;
    }
    match (
        channel(chars[1], chars[2]),
        channel(chars[3], chars[4]),
        channel(chars[5], chars[6]),
    ) {
        (Some(red), Some(green), Some(blue)) => Some((red, green, blue)),
        _ => None,
    }
}

/// The color that the entries of a file give a key.
pub fn entry_color(entries: &Vec<(String, Option<String>)>, key: ThemeKey) -> (r: Option<Rgb>)
    requires
        key is Ansi ==> key->Ansi_0 < 16,
    ensures
        r == key_color(entry_map(entries@), key),
{
    let name: String = key.text();
    let ghost map = entry_map(entries@);
    let mut i: usize = entries.len();
    proof {
        assert(entries@.take(i as int) =~= entries@);
    }
    while i > 0
        invariant
            i <= entries@.len(),
            name@ == key.name(),
            map == entry_map(entries@),
            map.contains_key(name@) == entry_map(entries@.take(i as int)).contains_key(name@),
            map.contains_key(name@) ==> map[name@] == entry_map(entries@.take(i as int))[name@],
        decreases i,
    {
        i -= 1;
        proof {
            let prefix = entries@.take(i + 1);
            assert(prefix.drop_last() =~= entries@.take(i as int));
            assert(prefix.last() == entries@[i as int]);
        }
        if same_text(entries[i].0.as_str(), name.as_str()) {
            return match &entries[i].1 {
                Some(text) => parse_hex_color(text.as_str()),
                None => None,
            };
        }
    }
    proof {
        assert(entries@.take(0) =~= Seq::<(String, Option<String>)>::empty());
    }
    None
}

/// The sixteen basic colors that the entries of a file give, or the first that
/// they do not give.
fn ansi_colors(entries: &Vec<(String, Option<String>)>) -> (r: Result<[Rgb; 16], ThemeKey>)
    ensures
        r is Err <==> missing_ansi(entry_map(entries@), 0) is Some,
        r is Err ==> r->Err_0 == missing_ansi(entry_map(entries@), 0)->0,
        r is Ok ==> forall|i: int|
            0 <= i < 16 ==> Some(#[trigger] r->Ok_0@[i]) == key_color(
                entry_map(entries@),
                ThemeKey::Ansi(i as u8),
            ),
{
    let mut ansi: [Rgb; 16] = [(0u8, 0u8, 0u8); 16];
    let mut index: usize = 0;
    while index < 16
        invariant
            index <= 16,
            missing_ansi(entry_map(entries@), 0) == missing_ansi(
                entry_map(entries@),
                index as int,
            ),
            forall|i: int|
                0 <= i < index ==> Some(#[trigger] ansi@[i]) == key_color(
                    entry_map(entries@),
                    ThemeKey::Ansi(i as u8),
                ),
        decreases 16 - index,
    {
        match entry_color(entries, ThemeKey::Ansi(index as u8)) {
            Some(color) => {
                ansi[index] = color;
            },
            None => {
                return Err(ThemeKey::Ansi(index as u8));
            },
        }
        index += 1;
    }
    Ok(ansi)
}

/// The palette that the entries of a file give, if they give every color.
pub fn theme_from_entries(entries: &Vec<(String, Option<String>)>) -> (r: Result<
    Palette,
    ThemeError,
>)
    ensures
        match missing_color(entry_map(entries@)) {
            Some(key) => r == Err::<Palette, ThemeError>(ThemeError::InvalidColor(key)),
            None => r is Ok && is_palette(entry_map(entries@), r->Ok_0),
        },
{
    let foreground: Rgb = match entry_color(entries, ThemeKey::Foreground) {
        Some(color) => color,
        None => {
            return Err(ThemeError::InvalidColor(ThemeKey::Foreground));
        },
    };
    let background: Rgb = match entry_color(entries, ThemeKey::Background) {
        Some(color) => color,
        None => {
            return Err(ThemeError::InvalidColor(ThemeKey::Background));
        },
    };
    let selection_foreground: Rgb = match entry_color(entries, ThemeKey::SelectionForeground) {
        Some(color) => color,
        None => {
            return Err(ThemeError::InvalidColor(ThemeKey::SelectionForeground));
        },
    };
    let selection_background: Rgb = match entry_color(entries, ThemeKey::SelectionBackground) {
        Some(color) => color,
        None => {
            return Err(ThemeError::InvalidColor(ThemeKey::SelectionBackground));
        },
    };
    let cursor: Rgb = match entry_color(entries, ThemeKey::Cursor) {
        Some(color) => color,
        None => {
            return Err(ThemeError::InvalidColor(ThemeKey::Cursor));
        },
    };
    match ansi_colors(entries) {
        Ok(ansi) => Ok(
            Palette {
                foreground,
                background,
                selection_foreground: Some(selection_foreground),
                selection_background: Some(selection_background),
                cursor: Some(cursor),
                ansi: Some(ansi),
            },
        ),
        Err(key) => Err(ThemeError::InvalidColor(key)),
    }
}

/// Read a palette file. A palette is taken as a whole or not at all.
pub fn parse_theme(contents: &str) -> (r: Result<Palette, ThemeError>)
    ensures
        encode_utf8(contents@).len() > MAX_THEME_BYTES ==> r == Err::<Palette, ThemeError>(
            ThemeError::TooLarge,
        ),
        encode_utf8(contents@).len() <= MAX_THEME_BYTES ==> match toml_strings(contents@) {
            Err(words) => r is Err && r->Err_0 is InvalidToml && (
            r->Err_0)->InvalidToml_0@ == words,
            Ok(map) => match missing_color(map) {
                Some(key) => r == Err::<Palette, ThemeError>(ThemeError::InvalidColor(key)),
                None => r is Ok && is_palette(map, r->Ok_0),
            },
        },
{
    if contents.as_bytes().len() > MAX_THEME_BYTES {
        return Err(ThemeError::TooLarge);
    }
    match top_level_strings(contents) {
        Ok(entries) => theme_from_entries(&entries),
        Err(words) => Err(ThemeError::InvalidToml(words)),
    }
}

impl ThemeError {
    /// The message for the log.
    pub fn message(&self) -> (r: String)
        requires
            self is InvalidColor && self->InvalidColor_0 is Ansi ==> (
            self->InvalidColor_0)->Ansi_0 < 16,
        ensures
            r@ == (match self {
                ThemeError::TooLarge => "Omarchy palette exceeds 64 KiB"@,
                ThemeError::InvalidToml(words) => "invalid Omarchy palette TOML: "@ + words@,
                ThemeError::InvalidColor(key) => "Omarchy "@ + key.name()
                    + " must be a #RRGGBB color"@,
            }),
    {
        match self {
            ThemeError::TooLarge => "Omarchy palette exceeds 64 KiB".to_owned(),
            ThemeError::InvalidToml(words) => {
                crate::text::joined_text("invalid Omarchy palette TOML: ", words.as_str())
            },
            ThemeError::InvalidColor(key) => {
                let mut words: Vec<char> = crate::text::chars_of("Omarchy ");
                let mut name: Vec<char> = crate::text::chars_of(key.text().as_str());
                let mut end: Vec<char> = crate::text::chars_of(" must be a #RRGGBB color");
                words.append(&mut name);
                words.append(&mut end);
                crate::text::string_of(&words)
            },
        }
    }
}

/// The most reads of file system events before they are acted on, so that the
/// end of the terminal is noticed under continuous writes too.
pub const MAX_READS_PER_BATCH: usize = 64;

/// What came of a read of file system events.
#[derive(Debug, Clone, Copy, PartialEq, Eq, Structural)]
pub enum ReadOutcome {
    Events,
    /// There are no more events.
    Drained,
    Interrupted,
}

/// Whether to read on after `done` reads.
pub fn reads_on(done: usize, last: ReadOutcome) -> (r: bool)
    ensures
        r == (done < MAX_READS_PER_BATCH && last != ReadOutcome::Drained),
{
    done < MAX_READS_PER_BATCH && last != ReadOutcome::Drained
}

/// The entry that a file system event names.
#[derive(Debug, Clone, Copy, PartialEq, Eq, Structural)]
pub enum WatchedName {
    Absent,
    Theme,
    Colors,
    Other,
}

/// A file system event: where it was seen, what it names and what happened.
#[derive(Debug, Clone, Copy, PartialEq, Eq, Structural)]
pub struct WatchEvent {
    /// It was seen on the directory that holds the theme.
    pub on_parent: bool,
    /// It was seen on the theme itself.
    pub on_theme: bool,
    pub name: WatchedName,
    /// The watched directory went away.
    pub removed: bool,
    /// Attributes changed.
    pub attributes: bool,
    /// Events were lost.
    pub overflow: bool,
}

/// What a batch of events asks for.
#[derive(Debug, Clone, Copy, PartialEq, Eq, Structural)]
pub enum WatchOutcome {
    /// Nothing of interest happened.
    Unchanged,
    /// The palette has to be read again.
    Reload,
    /// There is nothing to watch any more.
    ParentRemoved,
}

impl WatchEvent {
    /// The directory that holds the theme went away.
    pub open spec fn ends(self) -> bool {
        self.on_parent && self.removed
    }

    /// The palette may have changed.
    pub open spec fn reloads(self) -> bool {
        ||| self.overflow
        ||| self.on_parent && (self.name == WatchedName::Theme || (self.name == WatchedName::Absent
            && self.attributes))
        ||| self.on_theme && (self.name == WatchedName::Colors || self.name == WatchedName::Absent)
    }
}

/// What a batch of events asks for. The loss of the directory counts first.
pub open spec fn batch_outcome(events: Seq<WatchEvent>) -> WatchOutcome {
    if exists|i: int| 0 <= i < events.len() && (#[trigger] events[i]).ends() {
        WatchOutcome::ParentRemoved
    } else if exists|i: int| 0 <= i < events.len() && (#[trigger] events[i]).reloads() {
        WatchOutcome::Reload
    } else {
        WatchOutcome::Unchanged
    }
}

/// Decide on a batch of events.
pub fn decide_batch(events: &Vec<WatchEvent>) -> (r: WatchOutcome)
    ensures
        r == batch_outcome(events@),
{
    let mut changed: bool = false;
    let mut i: usize = 0;
    while i < events.len()
        invariant
            i <= events@.len(),
            forall|j: int| 0 <= j < i ==> !(#[trigger] events@[j]).ends(),
            changed == exists|j: int| 0 <= j < i && (#[trigger] events@[j]).reloads(),
        decreases events@.len() - i,
    {
        let event: WatchEvent = events[i];
        assert(event == events@[i as int]);
        if event.on_parent && event.removed {
            return WatchOutcome::ParentRemoved;
        }
        if event.overflow || (event.on_parent && (event.name == WatchedName::Theme || (event.name
            == WatchedName::Absent && event.attributes))) || (event.on_theme && (event.name
            == WatchedName::Colors || event.name == WatchedName::Absent)) {
            changed = true;
        }
        i += 1;
    }
    if changed {
        WatchOutcome::Reload
    } else {
        WatchOutcome::Unchanged
    }
}

/// The latest palette, and whether the window was told of one that it has not
/// taken.
#[derive(Debug, Clone, Copy)]
pub struct ThemeUpdate {
    pub colors: Option<Palette>,
    pub pending: bool,
}

impl ThemeUpdate {
    /// The state with a palette that was read, and whether the window is told.
    pub open spec fn published(self, colors: Palette) -> (ThemeUpdate, bool) {
        if self.colors == Some(colors) {
            (self, false)
        } else {
            (ThemeUpdate { colors: Some(colors), pending: true }, !self.pending)
        }
    }

    /// The state once the window has taken the palette.
    pub open spec fn taken(self) -> ThemeUpdate {
        ThemeUpdate { pending: false, ..self }
    }

    /// Take up a palette that was read. The window is told once, however many
    /// palettes follow before it takes one.
    pub fn publish(&mut self, colors: Palette) -> (notify: bool)
        ensures
            (*final(self), notify) == old(self).published(colors),
    {
        let same: bool = match self.colors {
            Some(held) => same_palette(&held, &colors),
            None => false,
        };
        if same {
            return false;
        }
        let notify: bool = !self.pending;
        self.colors = Some(colors);
        self.pending = true;
        notify
    }

    /// Hand the latest palette to the window.
    pub fn take(&mut self) -> (r: Option<Palette>)
        ensures
            r == old(self).colors,
            *final(self) == old(self).taken(),
    {
        self.pending = false;
        self.colors
    }
}

fn same_color(left: Rgb, right: Rgb) -> (r: bool)
    ensures
        r == (left == right),
{
    left.0 == right.0 && left.1 == right.1 && left.2 == right.2
}

fn same_optional_color(left: Option<Rgb>, right: Option<Rgb>) -> (r: bool)
    ensures
        r == (left == right),
{
    match (left, right) {
        (Some(left), Some(right)) => same_color(left, right),
        (None, None) => true,
        _ => false,
    }
}

fn same_ansi(left: &[Rgb; 16], right: &[Rgb; 16]) -> (r: bool)
    ensures
        r == (*left == *right),
{
    let mut i: usize = 0;
    while i < 16
        invariant
            i <= 16,
            forall|j: int| 0 <= j < i ==> left@[j] == right@[j],
        decreases 16 - i,
    {
        if !same_color(left[i], right[i]) {
            proof {
                assert(left@[i as int] != right@[i as int]);
            }
            return false;
        }
        i += 1;
    }
    proof {
        assert(left@ =~= right@);
        assert(*left =~= *right);
    }
    true
}

fn same_palette(left: &Palette, right: &Palette) -> (r: bool)
    ensures
        r == (*left == *right),
{
    let same_basics: bool = match (&left.ansi, &right.ansi) {
        (Some(left), Some(right)) => same_ansi(left, right),
        (None, None) => true,
        _ => false,
    };
    same_basics && same_color(left.foreground, right.foreground) && same_color(
        left.background,
        right.background,
    ) && same_optional_color(left.selection_foreground, right.selection_foreground)
        && same_optional_color(left.selection_background, right.selection_background)
        && same_optional_color(left.cursor, right.cursor)
}

} // verus!
