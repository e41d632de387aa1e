//! The terminal's state and what is seen of it.
use crate::graphics::ImagePlacement;
use crate::grid::buffer::{Buffer, BufferView};
use crate::grid::cell::{Cell, CellFlags, CellView, Color, UnderlineStyle};
use crate::grid::marks::{MarkIndex, PromptMark};
use crate::grid::reflow::Cursor;
use crate::grid::retention::{History, HistoryView};
use vstd::prelude::*;

verus! {

/// A graphics command of the terminal program, as it was received.
#[derive(Debug)]
pub struct KittyCommand {
    pub control: Vec<u8>,
    pub payload: Vec<u8>,
}

/// A decoded image in four bytes per pixel.
#[derive(Debug)]
pub struct SixelImage {
    pub width: u32,
    pub height: u32,
    pub pixels: Vec<u8>,
}

/// What the terminal program expects to happen before its next bytes are read.
#[derive(Debug)]
pub enum TerminalEvent {
    Response(Vec<u8>),
    KittyGraphics { command: KittyCommand, cursor_row: usize, cursor_col: usize },
    SixelGraphics { image: SixelImage, cursor_row: usize, cursor_col: usize },
}

/// Which pointer events the terminal program wants.
#[derive(Debug, Clone, Copy, PartialEq, Eq, Structural)]
pub enum MouseTracking {
    Off,
    Normal,
    ButtonEvent,
    AnyEvent,
}

#[derive(Debug, Clone, Copy, PartialEq, Eq, Structural)]
pub enum MouseEncoding {
    Default,
    Sgr,
}

#[derive(Debug, Clone, Copy, PartialEq, Eq, Structural)]
pub enum CursorShape {
    Block,
    Underline,
    Bar,
}

#[derive(Debug, Clone, Copy, PartialEq, Eq, Structural)]
pub struct CursorStyle {
    pub shape: CursorShape,
    pub blinking: bool,
}

impl Default for CursorStyle {
    fn default() -> (r: CursorStyle)
        ensures
            r == (CursorStyle { shape: CursorShape::Block, blinking: true }),
    {
        CursorStyle { shape: CursorShape::Block, blinking: true }
    }
}

#[derive(Debug, Clone, Copy, PartialEq, Eq, Structural)]
pub enum CharSet {
    Ascii,
    DecSpecial,
}

/// The DEC special graphics set: line drawing in place of lower case letters.
pub open spec fn dec_special(c: char) -> char {
    match c {
        'j' => '┘',
        'k' => '┐',
        'l' => '┌',
        'm' => '└',
        'n' => '┼',
        'q' => '─',
        't' => '├',
        'u' => '┤',
        'v' => '┴',
        'w' => '┬',
        'x' => '│',
        'a' => '▒',
        'f' => '°',
        'g' => '±',
        'h' => '▒',
        'i' => '␋',
        'y' => '≤',
        'z' => '≥',
        '{' => 'π',
        '|' => '≠',
        '}' => '£',
        '~' => '·',
        _ => c,
    }
}

pub fn dec_special_map(c: char) -> (r: char)
    ensures
        r == dec_special(c),
{
    match c {
        'j' => '┘',
        'k' => '┐',
        'l' => '┌',
        'm' => '└',
        'n' => '┼',
        'q' => '─',
        't' => '├',
        'u' => '┤',
        'v' => '┴',
        'w' => '┬',
        'x' => '│',
        'a' => '▒',
        'f' => '°',
        'g' => '±',
        'h' => '▒',
        'i' => '␋',
        'y' => '≤',
        'z' => '≥',
        '{' => 'π',
        '|' => '≠',
        '}' => '£',
        '~' => '·',
        _ => c,
    }
}

/// How newly written cells look.
#[derive(Debug, Clone, Copy, PartialEq, Eq, Structural)]
pub struct Pen {
    pub fg: Color,
    pub bg: Color,
    pub flags: CellFlags,
    pub underline_style: UnderlineStyle,
    pub underline_color: Color,
}

/// The modes that the terminal program sets.
#[derive(Debug, Clone, Copy, PartialEq, Eq, Structural)]
pub struct Modes {
    pub cursor_visible: bool,
    pub application_cursor_keys: bool,
    pub auto_wrap: bool,
    pub bracketed_paste: bool,
    pub mouse_tracking: MouseTracking,
    pub mouse_encoding: MouseEncoding,
    pub alternate_scroll: bool,
    pub focus_events: bool,
    pub cursor_style: CursorStyle,
    pub insert_mode: bool,
    pub charset: CharSet,
}

/// Titles, marks and events that the terminal program sends besides text.
#[derive(Debug)]
pub struct Session {
    pub title: String,
    pub title_revision: u64,
    pub cwd: String,
    pub marks: MarkIndex,
    pub default_fg_hex: String,
    pub default_bg_hex: String,
    /// Ordered events to process before the next bytes are read.
    pub pending_terminal_events: Vec<TerminalEvent>,
    pub pending_sixel_count: usize,
    pub pending_sixel_bytes: usize,
}

/// The images of a screen and the size of its cells in pixels.
#[derive(Debug)]
pub struct Images {
    pub placements: Vec<ImagePlacement>,
    /// Placements of the primary screen while the alternate screen is shown.
    pub primary_placements: Option<Vec<ImagePlacement>>,
    pub cell_pixel_width: u16,
    pub cell_pixel_height: u16,
}

/// The primary screen while the alternate screen is shown.
#[derive(Debug)]
pub struct HiddenScreen {
    pub buffer: Option<Buffer>,
    pub cursor: (usize, usize),
    pub wrap_pending: bool,
    pub saved_cursor: Option<Cursor>,
    /// The history, and the lines that had entered it.
    pub history: Option<(History, usize)>,
}

/// Counters that tell when coordinates on the screen have changed.
#[derive(Debug, Clone, Copy, PartialEq, Eq, Structural)]
pub struct Revisions {
    /// Changes that the history cannot account for.
    pub selection: u64,
    /// Switches between the screens.
    pub screen: u64,
}

#[derive(Debug)]
pub struct Grid {
    pub buffer: Buffer,
    pub cursor_row: usize,
    pub cursor_col: usize,
    /// The next glyph wraps before it is written.
    pub wrap_pending: bool,
    pub saved_cursor: Cursor,
    pub scroll_top: usize,
    pub scroll_bottom: usize,
    pub pen: Pen,
    pub dirty: Vec<bool>,
    pub history: History,
    pub scroll_offset: usize,
    pub total_lines_pushed: usize,
    pub using_alt_screen: bool,
    pub hidden: HiddenScreen,
    pub modes: Modes,
    pub session: Session,
    pub revisions: Revisions,
    pub images: Images,
    pub blank: Cell,
}

pub ghost struct SessionView {
    pub title: Seq<char>,
    pub title_revision: u64,
    pub cwd: Seq<char>,
    pub marks: Seq<PromptMark>,
    pub default_fg_hex: Seq<char>,
    pub default_bg_hex: Seq<char>,
    pub events: Seq<TerminalEvent>,
    pub sixel_count: int,
    pub sixel_bytes: int,
}

impl View for Session {
    type V = SessionView;

    open spec fn view(&self) -> SessionView {
        SessionView {
            title: self.title@,
            title_revision: self.title_revision,
            cwd: self.cwd@,
            marks: self.marks@,
            default_fg_hex: self.default_fg_hex@,
            default_bg_hex: self.default_bg_hex@,
            events: self.pending_terminal_events@,
            sixel_count: self.pending_sixel_count as int,
            sixel_bytes: self.pending_sixel_bytes as int,
        }
    }
}

pub ghost struct ImagesView {
    pub placements: Seq<ImagePlacement>,
    pub primary_placements: Option<Seq<ImagePlacement>>,
    pub cell_pixel_width: u16,
    pub cell_pixel_height: u16,
}

impl View for Images {
    type V = ImagesView;

    open spec fn view(&self) -> ImagesView {
        ImagesView {
            placements: self.placements@,
            primary_placements: match self.primary_placements {
                Some(placements) => Some(placements@),
                None => None,
            },
            cell_pixel_width: self.cell_pixel_width,
            cell_pixel_height: self.cell_pixel_height,
        }
    }
}

pub ghost struct HiddenView {
    pub screen: Option<BufferView>,
    pub cursor: (usize, usize),
    pub wrap_pending: bool,
    pub saved_cursor: Option<Cursor>,
    pub history: Option<(HistoryView, int)>,
}

impl View for HiddenScreen {
    type V = HiddenView;

    open spec fn view(&self) -> HiddenView {
        HiddenView {
            screen: match self.buffer {
                Some(buffer) => Some(buffer@),
                None => None,
            },
            cursor: self.cursor,
            wrap_pending: self.wrap_pending,
            saved_cursor: self.saved_cursor,
            history: match self.history {
                Some((history, lines)) => Some((history@, lines as int)),
                None => None,
            },
        }
    }
}

/// The terminal screen as it is seen and as it reacts.
pub ghost struct GridView {
    pub screen: BufferView,
    pub cursor_row: int,
    pub cursor_col: int,
    pub wrap_pending: bool,
    pub saved_cursor: Cursor,
    pub scroll_top: int,
    pub scroll_bottom: int,
    pub pen: Pen,
    pub dirty: Seq<bool>,
    pub history: HistoryView,
    pub scroll_offset: int,
    pub total_lines: int,
    pub using_alt_screen: bool,
    pub hidden: HiddenView,
    pub modes: Modes,
    pub session: SessionView,
    pub revisions: Revisions,
    pub images: ImagesView,
}

impl View for Grid {
    type V = GridView;

    open spec fn view(&self) -> GridView {
        GridView {
            screen: self.buffer@,
            cursor_row: self.cursor_row as int,
            cursor_col: self.cursor_col as int,
            wrap_pending: self.wrap_pending,
            saved_cursor: self.saved_cursor,
            scroll_top: self.scroll_top as int,
            scroll_bottom: self.scroll_bottom as int,
            pen: self.pen,
            dirty: self.dirty@,
            history: self.history@,
            scroll_offset: self.scroll_offset as int,
            total_lines: self.total_lines_pushed as int,
            using_alt_screen: self.using_alt_screen,
            hidden: self.hidden@,
            modes: self.modes,
            session: self.session@,
            revisions: self.revisions,
            images: self.images@,
        }
    }
}

/// The next value of a wrapping counter.
pub open spec fn next_revision(revision: u64) -> u64 {
    if revision == u64::MAX { 0 } else { (revision + 1) as u64 }
}

impl Revisions {
    pub open spec fn selection_moved(self) -> Revisions {
        Revisions { selection: next_revision(self.selection), ..self }
    }

    pub open spec fn screen_switched(self) -> Revisions {
        Revisions {
            selection: next_revision(self.selection),
            screen: next_revision(self.screen),
        }
    }

    pub(crate) fn move_selection(&mut self)
        ensures
            *final(self) == old(self).selection_moved(),
    {
        self.selection = self.selection.wrapping_add(1);
    }

    pub(crate) fn switch_screen(&mut self)
        ensures
            *final(self) == old(self).screen_switched(),
    {
        self.selection = self.selection.wrapping_add(1);
        self.screen = self.screen.wrapping_add(1);
    }
}

impl Pen {
    pub open spec fn plain() -> Pen {
        Pen {
            fg: Color::Default,
            bg: Color::Default,
            flags: CellFlags { bits: 0 },
            underline_style: UnderlineStyle::Off,
            underline_color: Color::Default,
        }
    }

    /// A blank cell in the colors of the pen.
    pub open spec fn blank(self) -> CellView {
        CellView { fg: self.fg, bg: self.bg, ..CellView::default_cell() }
    }
}

impl Modes {
    pub open spec fn initial() -> Modes {
        Modes {
            cursor_visible: true,
            application_cursor_keys: false,
            auto_wrap: true,
            bracketed_paste: false,
            mouse_tracking: MouseTracking::Off,
            mouse_encoding: MouseEncoding::Default,
            alternate_scroll: false,
            focus_events: false,
            cursor_style: CursorStyle { shape: CursorShape::Block, blinking: true },
            insert_mode: false,
            charset: CharSet::Ascii,
        }
    }
}

impl GridView {
    pub open spec fn cols(self) -> int {
        self.screen.cols
    }

    pub open spec fn rows(self) -> int {
        self.screen.rows.len() as int
    }

    /// A fresh terminal.
    pub open spec fn initial(cols: int, rows: int, line_budget: int) -> GridView {
        GridView {
            screen: BufferView::blank(cols, rows),
            cursor_row: 0,
            cursor_col: 0,
            wrap_pending: false,
            saved_cursor: Cursor { row: 0, col: 0, pending: false, retained_row: None },
            scroll_top: 0,
            scroll_bottom: rows - 1,
            pen: Pen::plain(),
            dirty: Seq::new(rows as nat, |i: int| true),
            history: HistoryView::empty(line_budget, cols),
            scroll_offset: 0,
            total_lines: 0,
            using_alt_screen: false,
            hidden: HiddenView {
                screen: None,
                cursor: (0, 0),
                wrap_pending: false,
                saved_cursor: None,
                history: None,
            },
            modes: Modes::initial(),
            session: SessionView {
                title: Seq::empty(),
                title_revision: 0,
                cwd: Seq::empty(),
                marks: Seq::empty(),
                default_fg_hex: Seq::empty(),
                default_bg_hex: Seq::empty(),
                events: Seq::empty(),
                sixel_count: 0,
                sixel_bytes: 0,
            },
            revisions: Revisions { selection: 0, screen: 0 },
            images: ImagesView {
                placements: Seq::empty(),
                primary_placements: None,
                cell_pixel_width: 8,
                cell_pixel_height: 16,
            },
        }
    }

    /// A blank cell in the current colors.
    pub open spec fn template(self) -> CellView {
        self.pen.blank()
    }

    /// The next glyph wraps before it is written.
    pub open spec fn wraps_next(self) -> bool {
        self.wrap_pending || self.cursor_col == self.cols()
    }

    /// The scroll region is the whole screen.
    pub open spec fn full_region(self) -> bool {
        self.scroll_top == 0 && self.scroll_bottom == self.rows() - 1
    }

    /// The column of the cursor on the screen, where it stands on it.
    pub open spec fn screen_col(self) -> Option<int> {
        if self.cursor_col > self.cols() { None } else { Some(self.clamped_col()) }
    }

    /// The column of the cursor, limited to the screen.
    pub open spec fn clamped_col(self) -> int {
        if self.cursor_col < self.cols() { self.cursor_col } else { self.cols() - 1 }
    }

    /// The pending wrap is forgotten.
    pub open spec fn unwrapped(self) -> GridView {
        GridView { wrap_pending: false, cursor_col: self.clamped_col(), ..self }
    }

    pub open spec fn all_dirty(self) -> GridView {
        GridView { dirty: Seq::new(self.dirty.len(), |i: int| true), ..self }
    }

    /// Rows `from..to` are dirty.
    pub open spec fn dirty_rows(self, from: int, to: int) -> GridView {
        GridView {
            dirty: Seq::new(
                self.dirty.len(),
                |i: int| if from <= i < to { true } else { self.dirty[i] },
            ),
            ..self
        }
    }

    /// Screen, cursor and scroll region fit together.
    pub open spec fn valid(self) -> bool {
        &&& self.screen.shaped()
        &&& self.cols() > 0
        &&& self.rows() > 0
        &&& self.dirty.len() == self.rows()
        &&& 0 <= self.scroll_top <= self.scroll_bottom < self.rows()
        &&& 0 <= self.cursor_row < self.rows()
        &&& self.history.of_width(self.cols())
    }
}

impl HiddenScreen {
    /// What is kept of a hidden primary screen has the size of the screen.
    pub open spec fn wf(&self, cols: int, rows: int) -> bool {
        &&& self.buffer is Some <==> self.history is Some
        &&& match self.buffer {
            Some(buffer) => buffer.wf() && buffer@.cols == cols && buffer@.rows.len() == rows,
            None => true,
        }
        &&& match self.history {
            Some((history, _)) => history.wf() && history@.of_width(cols),
            None => true,
        }
    }
}

impl Grid {
    /// The stored parts stand for a valid screen.
    pub open spec fn wf(&self) -> bool {
        &&& self.buffer.wf()
        &&& self.history.wf()
        &&& self.hidden.wf(self@.cols(), self@.rows())
        &&& self.blank@ == CellView::default_cell()
        &&& self@.valid()
    }

    /// A fresh terminal. A screen larger than half the address space cannot be
    /// stored.
    pub fn new(cols: usize, rows: usize, scrollback_max: usize) -> (r: Grid)
        requires
            cols > 0,
            rows > 0,
            cols * rows <= usize::MAX / 2,
        ensures
            r.wf(),
            r@ == GridView::initial(cols as int, rows as int, scrollback_max as int),
            r@.unresized(),
    {
        let buffer = Buffer::new(cols, rows);
        proof {
            buffer.lemma_shape();
        }
        let mut dirty: Vec<bool> = Vec::with_capacity(rows);
        while dirty.len() < rows
            invariant
                dirty@.len() <= rows,
                forall|i: int| 0 <= i < dirty@.len() ==> dirty@[i],
            decreases rows - dirty@.len(),
        {
            dirty.push(true);
        }
        let r = Grid {
            buffer,
            cursor_row: 0,
            cursor_col: 0,
            wrap_pending: false,
            saved_cursor: Cursor { row: 0, col: 0, pending: false, retained_row: None },
            scroll_top: 0,
            scroll_bottom: rows - 1,
            pen: Pen {
                fg: Color::Default,
                bg: Color::Default,
                flags: CellFlags::empty(),
                underline_style: UnderlineStyle::Off,
                underline_color: Color::Default,
            },
            dirty,
            history: History::new(scrollback_max, cols),
            scroll_offset: 0,
            total_lines_pushed: 0,
            using_alt_screen: false,
            hidden: HiddenScreen {
                buffer: None,
                cursor: (0, 0),
                wrap_pending: false,
                saved_cursor: None,
                history: None,
            },
            modes: Modes {
                cursor_visible: true,
                application_cursor_keys: false,
                auto_wrap: true,
                bracketed_paste: false,
                mouse_tracking: MouseTracking::Off,
                mouse_encoding: MouseEncoding::Default,
                alternate_scroll: false,
                focus_events: false,
                cursor_style: CursorStyle::default(),
                insert_mode: false,
                charset: CharSet::Ascii,
            },
            session: Session {
                title: String::new(),
                title_revision: 0,
                cwd: String::new(),
                marks: MarkIndex::default(),
                default_fg_hex: String::new(),
                default_bg_hex: String::new(),
                pending_terminal_events: Vec::new(),
                pending_sixel_count: 0,
                pending_sixel_bytes: 0,
            },
            revisions: Revisions { selection: 0, screen: 0 },
            images: Images {
                placements: Vec::new(),
                primary_placements: None,
                cell_pixel_width: 8,
                cell_pixel_height: 16,
            },
            blank: Cell::default(),
        };
        proof {
            let initial = GridView::initial(cols as int, rows as int, scrollback_max as int);
            assert(r@.dirty =~= initial.dirty);
            crate::grid::operations::lemma_fresh_is_unresized(
                cols as int,
                rows as int,
                scrollback_max as int,
            );
        }
        r
    }

    pub fn cols(&self) -> (r: usize)
        ensures
            r == self@.cols(),
    {
        self.buffer.cols()
    }

    pub fn rows(&self) -> (r: usize)
        ensures
            r == self@.rows(),
    {
        self.buffer.rows()
    }

    /// The column of the cursor on the screen: the last column at the delayed
    /// wrap, and none beyond it.
    pub fn screen_cursor_col(&self) -> (r: Option<usize>)
        requires
            self.wf(),
        ensures
            r is Some <==> self@.screen_col() is Some,
            r is Some ==> r->0 == self@.screen_col()->0,
    {
        if self.cursor_col > self.cols() {
            None
        } else {
            Some(self.limited_col())
        }
    }

    /// The column of the cursor, limited to the screen.
    pub(crate) fn limited_col(&self) -> (r: usize)
        requires
            self.wf(),
        ensures
            r == self@.clamped_col(),
    {
        let last: usize = self.cols() - 1;
        if self.cursor_col > last { last } else { self.cursor_col }
    }

    pub fn is_wrap_pending(&self) -> (r: bool)
        ensures
            r == self@.wraps_next(),
    {
        self.wrap_pending || self.cursor_col == self.cols()
    }

    pub fn cancel_pending_wrap(&mut self)
        requires
            old(self).wf(),
        ensures
            final(self).wf(),
            final(self)@ == old(self)@.unwrapped(),
    {
        let col: usize = self.limited_col();
        self.wrap_pending = false;
        self.cursor_col = col;
    }

    /// A blank cell in the current colors.
    pub fn template_cell(&self) -> (r: Cell)
        ensures
            r@ == self@.template(),
    {
        let mut cell: Cell = Cell::default();
        cell.fg = self.pen.fg;
        cell.bg = self.pen.bg;
        cell
    }

    pub fn mark_all_dirty(&mut self)
        requires
            old(self).wf(),
        ensures
            final(self).wf(),
            final(self)@ == old(self)@.all_dirty(),
    {
        let rows: usize = self.dirty.len();
        self.mark_dirty_rows(0, rows);
        proof {
            assert(self@.dirty =~= old(self)@.all_dirty().dirty);
        }
    }

    /// Mark the rows `from..to` as changed.
    pub(crate) fn mark_dirty_rows(&mut self, from: usize, to: usize)
        requires
            old(self).wf(),
            to <= old(self)@.dirty.len(),
        ensures
            final(self).wf(),
            final(self)@ == old(self)@.dirty_rows(from as int, to as int),
    {
        set_flags(&mut self.dirty, from, to, true);
        proof {
            assert(self@.dirty =~= old(self)@.dirty_rows(from as int, to as int).dirty);
        }
    }

    pub fn clear_dirty(&mut self)
        requires
            old(self).wf(),
        ensures
            final(self).wf(),
            final(self)@ == (GridView {
                dirty: Seq::new(old(self)@.dirty.len(), |i: int| false),
                ..old(self)@
            }),
    {
        let rows: usize = self.dirty.len();
        set_flags(&mut self.dirty, 0, rows, false);
        proof {
            assert(self@.dirty =~= Seq::new(old(self)@.dirty.len(), |i: int| false));
        }
    }

    pub fn is_any_dirty(&self) -> (r: bool)
        ensures
            r == exists|i: int| 0 <= i < self@.dirty.len() && self@.dirty[i],
    {
        let mut row: usize = 0;
        while row < self.dirty.len()
            invariant
                row <= self.dirty@.len(),
                forall|i: int| 0 <= i < row ==> !self.dirty@[i],
            decreases self.dirty@.len() - row,
        {
            if self.dirty[row] {
                assert(self@.dirty[row as int]);
                return true;
            }
            row += 1;
        }
        false
    }
}

/// Set the flags `from..to`.
fn set_flags(flags: &mut Vec<bool>, from: usize, to: usize, value: bool)
    requires
        to <= old(flags)@.len(),
    ensures
        final(flags)@ == Seq::new(
            old(flags)@.len(),
            |i: int| if from <= i < to { value } else { old(flags)@[i] },
        ),
{
    let mut row: usize = from;
    while row < to
        invariant
            to <= flags@.len(),
            flags@.len() == old(flags)@.len(),
            from <= row,
            row <= to || row == from,
            forall|i: int|
                0 <= i < flags@.len() ==> flags@[i] == if from <= i < row {
                    value
                } else {
                    old(flags)@[i]
                },
        decreases to - row,
    {
        flags[row] = value;
        row += 1;
    }
    proof {
        assert(flags@ =~= Seq::new(
            old(flags)@.len(),
            |i: int| if from <= i < to { value } else { old(flags)@[i] },
        ));
    }
}

} // verus!
