//! Cells of the terminal screen and the text they carry.
use std::borrow::Cow;
use std::sync::Arc;
use unicode_width::{UnicodeWidthChar, UnicodeWidthStr};
use vstd::prelude::*;
use vstd::utf8::{
    decode_utf8, decode_utf8_encode_utf8, encode_utf8, encode_utf8_decode_utf8,
    encode_utf8_valid_utf8, valid_utf8,
};

verus! {

/// A color as the terminal program asked for it.
#[derive(Debug, Clone, Copy, PartialEq, Eq, Structural)]
pub enum Color {
    Default,
    Indexed(u8),
    Rgb(u8, u8, u8),
}

/// A set of cell attributes, one bit per attribute.
#[derive(Debug, Clone, Copy, PartialEq, Eq, Structural)]
pub struct CellFlags {
    pub bits: u8,
}

impl CellFlags {
    pub const BOLD: u8 = 0b0000_0001;
    pub const ITALIC: u8 = 0b0000_0010;
    pub const UNDERLINE: u8 = 0b0000_0100;
    pub const REVERSE: u8 = 0b0000_1000;
    /// The cell is the left half of a two-column glyph.
    pub const WIDE: u8 = 0b0001_0000;
    /// The cell is the right half of a two-column glyph.
    pub const WIDE_CONT: u8 = 0b0010_0000;
    pub const FAINT: u8 = 0b0100_0000;
    pub const HIDDEN: u8 = 0b1000_0000;

    /// Every attribute of `mask` is set.
    pub open spec fn has(self, mask: u8) -> bool {
        self.bits & mask == mask
    }

    /// These attributes and those of `mask`.
    pub open spec fn with(self, mask: u8) -> CellFlags {
        CellFlags { bits: self.bits | mask }
    }

    /// These attributes but for those of `mask`.
    pub open spec fn without(self, mask: u8) -> CellFlags {
        CellFlags { bits: self.bits & !mask }
    }

    pub fn empty() -> (r: CellFlags)
        ensures
            r.bits == 0,
    {
        CellFlags { bits: 0 }
    }

    pub fn all() -> (r: CellFlags)
        ensures
            r.bits == u8::MAX,
    {
        CellFlags { bits: u8::MAX }
    }

    pub fn from_bits(bits: u8) -> (r: CellFlags)
        ensures
            r.bits == bits,
    {
        CellFlags { bits }
    }

    pub fn bits(self) -> (r: u8)
        ensures
            r == self.bits,
    {
        self.bits
    }

    pub fn contains(self, mask: u8) -> (r: bool)
        ensures
            r == self.has(mask),
    {
        self.bits & mask == mask
    }

    pub fn intersects(self, mask: u8) -> (r: bool)
        ensures
            r == (self.bits & mask != 0),
    {
        self.bits & mask != 0
    }

    pub fn insert(&mut self, mask: u8)
        ensures
            *final(self) == old(self).with(mask),
    {
        self.bits = self.bits | mask;
    }

    pub fn remove(&mut self, mask: u8)
        ensures
            *final(self) == old(self).without(mask),
    {
        self.bits = self.bits & !mask;
    }
}

/// Setting and clearing attributes changes the named ones and no other.
pub proof fn law_flag_updates(flags: CellFlags, mask: u8, other: u8)
    ensures
        flags.with(mask).has(mask),
        mask != 0 ==> !flags.without(mask).has(mask),
        mask & other == 0 ==> flags.with(mask).has(other) == flags.has(other),
        mask & other == 0 ==> flags.without(mask).has(other) == flags.has(other),
{
    let bits = flags.bits;
    assert((bits | mask) & mask == mask) by (bit_vector);
    assert((bits & !mask) & mask == 0) by (bit_vector);
    assert(mask & other == 0 ==> (bits | mask) & other == bits & other) by (bit_vector);
    assert(mask & other == 0 ==> (bits & !mask) & other == bits & other) by (bit_vector);
}

#[derive(Debug, Clone, Copy, PartialEq, Eq, Structural)]
pub enum UnderlineStyle {
    Off,
    Single,
    Double,
    Curly,
    Dotted,
    Dashed,
}

/// `std::string::String::push` appends one scalar at the end.
pub assume_specification[ String::push ](s: &mut String, c: char)
    ensures
        final(s)@ == old(s)@.push(c),
;

/// `std::str::from_utf8` accepts exactly the valid UTF-8 byte sequences and
/// returns the text that the bytes encode.
#[verifier::external_body]
pub(crate) fn str_from_utf8(bytes: &[u8]) -> (r: Option<&str>)
    ensures
        r is Some <==> valid_utf8(bytes@),
        r is Some ==> r->0@ == decode_utf8(bytes@),
{
    std::str::from_utf8(bytes).ok()
}

/// `Clone::clone` of an `Arc` hands out another owner of the same string.
#[verifier::external_body]
fn share_text(text: &Arc<String>) -> (r: Arc<String>)
    ensures
        r == *text,
{
    Arc::clone(text)
}

/// The columns that the `unicode-width` crate gives a scalar, absent for a
/// control character.
pub uninterp spec fn scalar_columns(c: char) -> Option<usize>;

/// The columns that the `unicode-width` crate gives a text.
pub uninterp spec fn text_columns(text: Seq<char>) -> usize;

/// `unicode_width::UnicodeWidthChar::width`: a table lookup on the scalar
/// alone. The printable ASCII scalars take one column, and the ASCII controls
/// and C1 controls have no width.
#[verifier::external_body]
pub(crate) fn scalar_width(c: char) -> (r: Option<usize>)
    ensures
        r == scalar_columns(c),
        ' ' <= c <= '~' ==> r == Some(1usize),
        c as u32 <= 0x1f || 0x7f <= c as u32 <= 0x9f ==> r is None,
{
    UnicodeWidthChar::width(c)
}

/// The columns of a scalar: one for printable ASCII, none for a control, and
/// what the tables give for others.
pub open spec fn natural_columns(c: char) -> Option<usize> {
    if ' ' <= c <= '~' {
        Some(1usize)
    } else if c as u32 <= 0x1f || 0x7f <= c as u32 <= 0x9f {
        None
    } else {
        scalar_columns(c)
    }
}

/// `unicode_width::UnicodeWidthStr::width`: a fold of table lookups over the
/// text alone.
#[verifier::external_body]
pub(crate) fn text_width(text: &str) -> (r: usize)
    ensures
        r == text_columns(text@),
{
    UnicodeWidthStr::width(text)
}

#[derive(Debug)]
enum GraphemeRepr {
    Inline { len: u8, bytes: [u8; 14] },
    Heap(Arc<String>),
}

/// Immutable text of a compound cell. Clusters of at most fourteen bytes need
/// no allocation; longer ones share one. The representation is canonical: the
/// length alone decides the storage, and unused inline bytes are zero.
#[derive(Debug)]
pub struct Grapheme(GraphemeRepr);

impl View for Grapheme {
    type V = Seq<char>;

    closed spec fn view(&self) -> Seq<char> {
        match self.0 {
            GraphemeRepr::Inline { len, bytes } => decode_utf8(bytes@.subrange(0, len as int)),
            GraphemeRepr::Heap(text) => text@,
        }
    }
}

impl Grapheme {
    /// The longest text, in bytes, that is stored without an allocation.
    pub const INLINE_CAPACITY: usize = 14;

    #[verifier::type_invariant]
    spec fn canonical(self) -> bool {
        match self.0 {
            GraphemeRepr::Inline { len, bytes } => {
                &&& len <= 14
                &&& valid_utf8(bytes@.subrange(0, len as int))
                &&& forall|i: int| len <= i < 14 ==> bytes@[i] == 0
            },
            GraphemeRepr::Heap(text) => encode_utf8(text@).len() > 14,
        }
    }

    /// The text of `previous` with one more scalar at its end.
    pub fn from_appended(previous: &str, c: char) -> (r: Grapheme)
        ensures
            r@ == previous@.push(c),
    {
        let mut text: String = previous.to_owned();
        text.push(c);
        Grapheme::from_string(text)
    }

    pub fn from_text(text: &str) -> (r: Grapheme)
        ensures
            r@ == text@,
    {
        let source = text.as_bytes();
        let len: usize = source.len();
        if len <= Grapheme::INLINE_CAPACITY {
            let mut bytes: [u8; 14] = [0; 14];
            let mut i: usize = 0;
            while i < len
                invariant
                    i <= len <= 14,
                    len == source@.len(),
                    forall|j: int| 0 <= j < i ==> bytes@[j] == source@[j],
                    forall|j: int| i <= j < 14 ==> bytes@[j] == 0,
                decreases len - i,
            {
                bytes[i] = source[i];
                i += 1;
            }
            proof {
                assert(bytes@.subrange(0, len as int) =~= source@);
                encode_utf8_valid_utf8(text@);
                encode_utf8_decode_utf8(text@);
            }
            Grapheme(GraphemeRepr::Inline { len: len as u8, bytes })
        } else {
            Grapheme(GraphemeRepr::Heap(Arc::new(text.to_owned())))
        }
    }

    pub fn from_string(text: String) -> (r: Grapheme)
        ensures
            r@ == text@,
    {
        if text.as_str().as_bytes().len() <= Grapheme::INLINE_CAPACITY {
            Grapheme::from_text(text.as_str())
        } else {
            Grapheme(GraphemeRepr::Heap(Arc::new(text)))
        }
    }

    pub fn as_str(&self) -> (r: &str)
        ensures
            r@ == self@,
    {
        proof {
            use_type_invariant(self);
        }
        match &self.0 {
            GraphemeRepr::Inline { len, bytes } => {
                let used: &[u8] = vstd::slice::slice_subrange(bytes.as_slice(), 0, *len as usize);
                match str_from_utf8(used) {
                    Some(text) => text,
                    None => "",
                }
            },
            GraphemeRepr::Heap(text) => text.as_str(),
        }
    }

    /// The shared owner of a text too long to be stored inline.
    pub fn heap_text(&self) -> (r: Option<Arc<String>>)
        ensures
            r is Some <==> encode_utf8(self@).len() > Grapheme::INLINE_CAPACITY,
            r is Some ==> r->0@ == self@,
    {
        proof {
            use_type_invariant(self);
        }
        match &self.0 {
            GraphemeRepr::Inline { len, bytes } => {
                proof {
                    decode_utf8_encode_utf8(bytes@.subrange(0, *len as int));
                }
                None
            },
            GraphemeRepr::Heap(text) => Some(share_text(text)),
        }
    }

    /// The inline bytes of a short text, padded with zeros, and their number.
    pub fn inline_bytes(&self) -> (r: Option<(usize, [u8; 14])>)
        ensures
            r is Some <==> encode_utf8(self@).len() <= Grapheme::INLINE_CAPACITY,
            r is Some ==> {
                let (len, bytes) = r->0;
                &&& len == encode_utf8(self@).len()
                &&& bytes@.subrange(0, len as int) == encode_utf8(self@)
                &&& forall|i: int| len <= i < 14 ==> bytes@[i] == 0
            },
    {
        proof {
            use_type_invariant(self);
        }
        match &self.0 {
            GraphemeRepr::Inline { len, bytes } => {
                proof {
                    decode_utf8_encode_utf8(bytes@.subrange(0, *len as int));
                }
                Some((*len as usize, *bytes))
            },
            GraphemeRepr::Heap(text) => None,
        }
    }
}

impl Clone for Grapheme {
    fn clone(&self) -> (r: Grapheme)
        ensures
            r == *self,
    {
        proof {
            use_type_invariant(self);
        }
        match &self.0 {
            GraphemeRepr::Inline { len, bytes } => Grapheme(
                GraphemeRepr::Inline { len: *len, bytes: *bytes },
            ),
            GraphemeRepr::Heap(text) => Grapheme(GraphemeRepr::Heap(share_text(text))),
        }
    }
}

impl PartialEq for Grapheme {
    fn eq(&self, other: &Grapheme) -> (r: bool) {
        proof {
            use_type_invariant(self);
            use_type_invariant(other);
        }
        match (&self.0, &other.0) {
            (
                GraphemeRepr::Inline { len: llen, bytes: left },
                GraphemeRepr::Inline { len: rlen, bytes: right },
            ) => {
                proof {
                    decode_utf8_encode_utf8(left@.subrange(0, *llen as int));
                    decode_utf8_encode_utf8(right@.subrange(0, *rlen as int));
                }
                if *llen != *rlen {
                    return false;
                }
                let len: usize = *llen as usize;
                let mut i: usize = 0;
                while i < len
                    invariant
                        i <= len <= 14,
                        len == *llen,
                        *llen == *rlen,
                        forall|j: int| 0 <= j < i ==> left@[j] == right@[j],
                        self.0 == (GraphemeRepr::Inline { len: *llen, bytes: *left }),
                        other.0 == (GraphemeRepr::Inline { len: *rlen, bytes: *right }),
                        encode_utf8(self@) == left@.subrange(0, len as int),
                        encode_utf8(other@) == right@.subrange(0, len as int),
                    decreases len - i,
                {
                    if left[i] != right[i] {
                        proof {
                            assert(left@.subrange(0, len as int)[i as int]
                                != right@.subrange(0, len as int)[i as int]);
                        }
                        return false;
                    }
                    i += 1;
                }
                proof {
                    assert(left@.subrange(0, len as int) =~= right@.subrange(0, len as int));
                }
                true
            },
            (GraphemeRepr::Heap(left), GraphemeRepr::Heap(right)) => **left == **right,
            (GraphemeRepr::Inline { len, bytes }, GraphemeRepr::Heap(_)) => {
                proof {
                    decode_utf8_encode_utf8(bytes@.subrange(0, *len as int));
                }
                false
            },
            (GraphemeRepr::Heap(_), GraphemeRepr::Inline { len, bytes }) => {
                proof {
                    decode_utf8_encode_utf8(bytes@.subrange(0, *len as int));
                }
                false
            },
        }
    }
}

impl vstd::std_specs::cmp::PartialEqSpecImpl for Grapheme {
    open spec fn obeys_eq_spec() -> bool {
        true
    }

    open spec fn eq_spec(&self, other: &Grapheme) -> bool {
        self@ == other@
    }
}

impl From<&str> for Grapheme {
    fn from(text: &str) -> (r: Grapheme)
        ensures
            r@ == text@,
    {
        Grapheme::from_text(text)
    }
}

impl From<String> for Grapheme {
    fn from(text: String) -> (r: Grapheme)
        ensures
            r@ == text@,
    {
        Grapheme::from_string(text)
    }
}

impl vstd::std_specs::convert::FromSpecImpl<&str> for Grapheme {
    open spec fn obeys_from_spec() -> bool {
        false
    }

    open spec fn from_spec(text: &str) -> Grapheme {
        choose|r: Grapheme| r@ == text@
    }
}

impl vstd::std_specs::convert::FromSpecImpl<String> for Grapheme {
    open spec fn obeys_from_spec() -> bool {
        false
    }

    open spec fn from_spec(text: String) -> Grapheme {
        choose|r: Grapheme| r@ == text@
    }
}

impl core::ops::Deref for Grapheme {
    type Target = str;

    fn deref(&self) -> (r: &str)
        ensures
            r@ == self@,
    {
        self.as_str()
    }
}

impl AsRef<str> for Grapheme {
    fn as_ref(&self) -> (r: &str)
        ensures
            r@ == self@,
    {
        self.as_str()
    }
}

/// One screen cell: a scalar or a compound text, and how it is drawn.
#[derive(Debug)]
pub struct Cell {
    pub c: char,
    pub grapheme: Option<Grapheme>,
    pub fg: Color,
    pub bg: Color,
    pub flags: CellFlags,
    pub underline_style: UnderlineStyle,
    pub underline_color: Color,
}

/// What a cell shows: the cell with its compound text as a sequence of scalars.
pub ghost struct CellView {
    pub c: char,
    pub text: Option<Seq<char>>,
    pub fg: Color,
    pub bg: Color,
    pub flags: CellFlags,
    pub underline_style: UnderlineStyle,
    pub underline_color: Color,
}

impl View for Cell {
    type V = CellView;

    open spec fn view(&self) -> CellView {
        CellView {
            c: self.c,
            text: match self.grapheme {
                Some(text) => Some(text@),
                None => None,
            },
            fg: self.fg,
            bg: self.bg,
            flags: self.flags,
            underline_style: self.underline_style,
            underline_color: self.underline_color,
        }
    }
}

impl CellView {
    /// A blank cell without attributes.
    pub open spec fn default_cell() -> CellView {
        CellView {
            c: ' ',
            text: None,
            fg: Color::Default,
            bg: Color::Default,
            flags: CellFlags { bits: 0 },
            underline_style: UnderlineStyle::Off,
            underline_color: Color::Default,
        }
    }

    /// The scalars that the cell shows.
    pub open spec fn scalars(self) -> Seq<char> {
        match self.text {
            Some(text) => text,
            None => seq![self.c],
        }
    }

    /// The cell with one scalar in it, drawn with the colors and underline of
    /// `style` and the attributes `flags`.
    pub open spec fn scalar(c: char, style: CellView, flags: CellFlags) -> CellView {
        CellView { c, text: None, flags, ..style }
    }

    /// The natural width of what the cell shows, one or two columns.
    pub open spec fn columns(self) -> int {
        let natural: int = match self.text {
            Some(text) => text_columns(text) as int,
            None => match natural_columns(self.c) {
                Some(width) => width as int,
                None => 1,
            },
        };
        clamp_columns(natural)
    }

    /// The cell is the left half of a two-column glyph.
    pub open spec fn wide(self) -> bool {
        self.flags.has(CellFlags::WIDE)
    }

    /// The cell is the right half of a two-column glyph.
    pub open spec fn continuation(self) -> bool {
        self.flags.has(CellFlags::WIDE_CONT)
    }
}

/// The nearest of the widths one and two.
pub open spec fn clamp_columns(width: int) -> int {
    if width < 1 {
        1
    } else if width > 2 {
        2
    } else {
        width
    }
}

/// Limit a natural width to the one or two columns that a cell can take.
pub fn clamp_width(width: usize) -> (r: usize)
    ensures
        r == clamp_columns(width as int),
{
    if width < 1 {
        1
    } else if width > 2 {
        2
    } else {
        width
    }
}

impl Cell {
    /// Replace compound text with one scalar and copy only the requested style.
    pub fn write_scalar(&mut self, c: char, style: &Cell, flags: CellFlags)
        ensures
            final(self)@ == CellView::scalar(c, style@, flags),
    {
        self.grapheme = None;
        self.c = c;
        self.fg = style.fg;
        self.bg = style.bg;
        self.flags = flags;
        self.underline_style = style.underline_style;
        self.underline_color = style.underline_color;
    }

    pub fn text(&self) -> (r: Cow<'_, str>)
        ensures
            r@ == self@.scalars(),
    {
        match &self.grapheme {
            Some(text) => Cow::Borrowed(text.as_str()),
            None => {
                let mut text: String = String::new();
                text.push(self.c);
                proof {
                    assert(text@ =~= seq![self.c]);
                }
                Cow::Owned(text)
            },
        }
    }

    /// Natural terminal width, even when a one-column grid squeezes the glyph.
    pub fn display_width(&self) -> (r: usize)
        ensures
            r == self@.columns(),
    {
        let natural: usize = match &self.grapheme {
            Some(text) => text_width(text.as_str()),
            None => match scalar_width(self.c) {
                Some(width) => width,
                None => 1,
            },
        };
        clamp_width(natural)
    }
}

impl Default for Cell {
    fn default() -> (r: Cell)
        ensures
            r@ == CellView::default_cell(),
            r.grapheme is None,
    {
        Cell {
            c: ' ',
            grapheme: None,
            fg: Color::Default,
            bg: Color::Default,
            flags: CellFlags::empty(),
            underline_style: UnderlineStyle::Off,
            underline_color: Color::Default,
        }
    }
}

impl Clone for Cell {
    fn clone(&self) -> (r: Cell)
        ensures
            r == *self,
    {
        Cell {
            c: self.c,
            grapheme: match &self.grapheme {
                Some(text) => Some(text.clone()),
                None => None,
            },
            fg: self.fg,
            bg: self.bg,
            flags: self.flags,
            underline_style: self.underline_style,
            underline_color: self.underline_color,
        }
    }
}

impl PartialEq for Cell {
    fn eq(&self, other: &Cell) -> (r: bool) {
        let same_text: bool = match (&self.grapheme, &other.grapheme) {
            (Some(left), Some(right)) => *left == *right,
            (None, None) => true,
            _ => false,
        };
        same_text && self.c == other.c && self.fg == other.fg && self.bg == other.bg && self.flags
            == other.flags && self.underline_style == other.underline_style && self.underline_color
            == other.underline_color
    }
}

impl vstd::std_specs::cmp::PartialEqSpecImpl for Cell {
    open spec fn obeys_eq_spec() -> bool {
        true
    }

    open spec fn eq_spec(&self, other: &Cell) -> bool {
        self@ == other@
    }
}

} // verus!
