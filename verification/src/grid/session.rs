//! Titles, events and images of the terminal program.
use crate::graphics::{ImageId, ImagePlacement};
use crate::grid::history::capacity_of;
use crate::grid::terminal::{
    next_revision, Grid, GridView, ImagesView, KittyCommand, Modes, SessionView, SixelImage,
    TerminalEvent,
};
use crate::text::same_text;
use vstd::prelude::*;

verus! {

/// The most images that wait to be drawn.
pub const MAX_PENDING_SIXEL_IMAGES: usize = 256;

/// The most memory that images waiting to be drawn take.
pub const MAX_PENDING_SIXEL_BYTES: usize = 64 * 1024 * 1024;

/// The placements that a deleted image leaves: those of other images, and
/// those that no program named.
pub open spec fn without_image(placements: Seq<ImagePlacement>, image_id: ImageId) -> Seq<
    ImagePlacement,
>
    decreases placements.len(),
{
    if placements.len() == 0 {
        placements
    } else {
        let before = without_image(placements.drop_last(), image_id);
        let placement = placements.last();
        if placement.image_id != image_id || placement.placement_id == 0 {
            before.push(placement)
        } else {
            before
        }
    }
}

impl GridView {
    pub open spec fn with_event(self, event: TerminalEvent) -> GridView {
        GridView {
            session: SessionView { events: self.session.events.push(event), ..self.session },
            ..self
        }
    }

    /// A graphics command at the cursor.
    pub open spec fn with_kitty_command(self, command: KittyCommand) -> GridView {
        self.with_event(
            TerminalEvent::KittyGraphics {
                command,
                cursor_row: self.cursor_row as usize,
                cursor_col: self.clamped_col() as usize,
            },
        )
    }

    /// Another title. Only a change counts.
    pub open spec fn titled(self, title: Seq<char>) -> GridView {
        GridView {
            session: SessionView {
                title,
                title_revision: if title == self.session.title {
                    self.session.title_revision
                } else {
                    next_revision(self.session.title_revision)
                },
                ..self.session
            },
            ..self
        }
    }

    /// The waiting events are taken.
    pub open spec fn without_events(self) -> GridView {
        GridView {
            session: SessionView {
                events: Seq::empty(),
                sixel_count: 0,
                sixel_bytes: 0,
                ..self.session
            },
            ..self
        }
    }

    /// An image that takes `bytes` of memory still fits into the queue.
    pub open spec fn takes_sixel(self, bytes: int, limit: int) -> bool {
        &&& self.session.sixel_count < MAX_PENDING_SIXEL_IMAGES
        &&& self.session.sixel_bytes + bytes <= limit
    }

    pub open spec fn with_sixel(self, image: SixelImage, bytes: int) -> GridView {
        GridView {
            session: SessionView {
                events: self.session.events.push(
                    TerminalEvent::SixelGraphics {
                        image,
                        cursor_row: self.cursor_row as usize,
                        cursor_col: self.clamped_col() as usize,
                    },
                ),
                sixel_count: self.session.sixel_count + 1,
                sixel_bytes: self.session.sixel_bytes + bytes,
                ..self.session
            },
            ..self
        }
    }

    /// A fresh terminal of the same size. The alternate scroll mode stays, and
    /// the change counters go on.
    pub open spec fn reset(self) -> GridView {
        let fresh = GridView::initial(self.cols(), self.rows(), self.history.line_budget);
        GridView {
            modes: Modes { alternate_scroll: self.modes.alternate_scroll, ..fresh.modes },
            revisions: self.revisions.screen_switched(),
            session: SessionView {
                title_revision: if self.session.title.len() > 0 {
                    next_revision(self.session.title_revision)
                } else {
                    self.session.title_revision
                },
                ..fresh.session
            },
            ..fresh
        }
    }
}

impl Grid {
    pub fn selection_revision(&self) -> (r: u64)
        ensures
            r == self@.revisions.selection,
    {
        self.revisions.selection
    }

    pub fn screen_revision(&self) -> (r: u64)
        ensures
            r == self@.revisions.screen,
    {
        self.revisions.screen
    }

    pub fn title(&self) -> (r: &str)
        ensures
            r@ == self@.session.title,
    {
        self.session.title.as_str()
    }

    pub fn title_revision(&self) -> (r: u64)
        ensures
            r == self@.session.title_revision,
    {
        self.session.title_revision
    }

    /// Set the title. Only a change counts.
    pub fn set_title(&mut self, title: &str)
        requires
            old(self).wf(),
        ensures
            final(self).wf(),
            final(self)@ == old(self)@.titled(title@),
    {
        if same_text(self.session.title.as_str(), title) {
            return;
        }
        self.session.title = title.to_owned();
        self.session.title_revision = self.session.title_revision.wrapping_add(1);
    }

    pub fn queue_response(&mut self, response: Vec<u8>)
        requires
            old(self).wf(),
        ensures
            final(self).wf(),
            final(self)@ == old(self)@.with_event(TerminalEvent::Response(response)),
    {
        self.session.pending_terminal_events.push(TerminalEvent::Response(response));
    }

    pub fn queue_kitty_command(&mut self, command: KittyCommand)
        requires
            old(self).wf(),
        ensures
            final(self).wf(),
            final(self)@ == old(self)@.with_kitty_command(command),
    {
        let cursor_row: usize = self.cursor_row;
        let cursor_col: usize = self.limited_col();
        self.session.pending_terminal_events.push(
            TerminalEvent::KittyGraphics { command, cursor_row, cursor_col },
        );
    }

    /// Take the waiting events, in their order.
    pub fn drain_terminal_events(&mut self) -> (r: Vec<TerminalEvent>)
        requires
            old(self).wf(),
        ensures
            r@ == old(self)@.session.events,
            final(self).wf(),
            final(self)@ == old(self)@.without_events(),
    {
        let mut events: Vec<TerminalEvent> = Vec::new();
        core::mem::swap(&mut self.session.pending_terminal_events, &mut events);
        self.session.pending_sixel_count = 0;
        self.session.pending_sixel_bytes = 0;
        events
    }

    pub fn has_pending_terminal_events(&self) -> (r: bool)
        ensures
            r == (self@.session.events.len() > 0),
    {
        self.session.pending_terminal_events.len() > 0
    }

    pub fn remaining_sixel_bytes(&self) -> (r: usize)
        ensures
            r == if self@.session.sixel_bytes < MAX_PENDING_SIXEL_BYTES {
                MAX_PENDING_SIXEL_BYTES - self@.session.sixel_bytes
            } else {
                0
            },
    {
        MAX_PENDING_SIXEL_BYTES.saturating_sub(self.session.pending_sixel_bytes)
    }

    pub fn has_sixel_queue_slot(&self) -> (r: bool)
        ensures
            r == (self@.session.sixel_count < MAX_PENDING_SIXEL_IMAGES),
    {
        self.session.pending_sixel_count < MAX_PENDING_SIXEL_IMAGES
    }

    /// Queue an image that takes `bytes` of memory, if the queue has room.
    pub fn queue_sixel_image_of_size(&mut self, image: SixelImage, bytes: usize, limit: usize) -> (r:
        bool)
        requires
            old(self).wf(),
        ensures
            r == old(self)@.takes_sixel(bytes as int, limit as int),
            final(self).wf(),
            final(self)@ == if r {
                old(self)@.with_sixel(image, bytes as int)
            } else {
                old(self)@
            },
    {
        if !self.has_sixel_queue_slot() || bytes > limit || self.session.pending_sixel_bytes > limit
            - bytes {
            return false;
        }
        let cursor_row: usize = self.cursor_row;
        let cursor_col: usize = self.limited_col();
        self.session.pending_terminal_events.push(
            TerminalEvent::SixelGraphics { image, cursor_row, cursor_col },
        );
        self.session.pending_sixel_count = self.session.pending_sixel_count + 1;
        self.session.pending_sixel_bytes = self.session.pending_sixel_bytes + bytes;
        true
    }

    /// Queue an image, if the queue has room for the memory that was allocated
    /// for its pixels.
    pub fn queue_sixel_image_with_limit(&mut self, image: SixelImage, limit: usize) -> (r: bool)
        requires
            old(self).wf(),
        ensures
            final(self).wf(),
            exists|bytes: usize|
                bytes >= image.pixels@.len() && r == #[trigger] old(self)@.takes_sixel(
                    bytes as int,
                    limit as int,
                ) && final(self)@ == if r {
                    old(self)@.with_sixel(image, bytes as int)
                } else {
                    old(self)@
                },
    {
        let bytes: usize = capacity_of(&image.pixels);
        self.queue_sixel_image_of_size(image, bytes, limit)
    }

    pub fn queue_sixel_image(&mut self, image: SixelImage) -> (r: bool)
        requires
            old(self).wf(),
        ensures
            final(self).wf(),
            exists|bytes: usize|
                bytes >= image.pixels@.len() && r == #[trigger] old(self)@.takes_sixel(
                    bytes as int,
                    MAX_PENDING_SIXEL_BYTES as int,
                ) && final(self)@ == if r {
                    old(self)@.with_sixel(image, bytes as int)
                } else {
                    old(self)@
                },
    {
        self.queue_sixel_image_with_limit(image, MAX_PENDING_SIXEL_BYTES)
    }

    /// Reset to a fresh terminal of the same size.
    pub fn reset_terminal_state(&mut self)
        requires
            old(self).wf(),
        ensures
            final(self).wf(),
            final(self)@ == old(self)@.reset(),
    {
        proof {
            self.buffer.lemma_shape();
        }
        let mut fresh: Grid = Grid::new(self.cols(), self.rows(), self.scrollback_max());
        fresh.modes.alternate_scroll = self.modes.alternate_scroll;
        fresh.revisions = self.revisions;
        fresh.revisions.switch_screen();
        fresh.session.title_revision = if self.session.title.as_str().is_empty() {
            self.session.title_revision
        } else {
            self.session.title_revision.wrapping_add(1)
        };
        *self = fresh;
    }

    /// All placements, those of a hidden primary screen included.
    pub fn all_image_placements(&self) -> (r: Vec<ImagePlacement>)
        ensures
            r@ == self@.images.placements + (match self@.images.primary_placements {
                Some(placements) => placements,
                None => Seq::empty(),
            }),
    {
        let mut all: Vec<ImagePlacement> = Vec::new();
        copy_placements(&mut all, &self.images.placements);
        proof {
            assert(all@ =~= self@.images.placements);
        }
        if let Some(hidden) = &self.images.primary_placements {
            copy_placements(&mut all, hidden);
        }
        proof {
            assert(all@ =~= self@.images.placements + (match self@.images.primary_placements {
                Some(placements) => placements,
                None => Seq::empty(),
            }));
        }
        all
    }

    /// Forget the named placements of an image on a hidden primary screen.
    pub fn remove_hidden_primary_kitty_placements(&mut self, image_id: ImageId)
        requires
            old(self).wf(),
        ensures
            final(self).wf(),
            final(self)@ == (GridView {
                images: ImagesView {
                    primary_placements: match old(self)@.images.primary_placements {
                        Some(placements) => Some(without_image(placements, image_id)),
                        None => None,
                    },
                    ..old(self)@.images
                },
                ..old(self)@
            }),
    {
        let kept: Option<Vec<ImagePlacement>> = match &self.images.primary_placements {
            Some(placements) => Some(keep_other_images(placements, image_id)),
            None => None,
        };
        self.images.primary_placements = kept;
    }
}

fn copy_placements(all: &mut Vec<ImagePlacement>, placements: &Vec<ImagePlacement>)
    ensures
        final(all)@ == old(all)@ + placements@,
{
    let mut i: usize = 0;
    while i < placements.len()
        invariant
            i <= placements@.len(),
            all@ == old(all)@ + placements@.take(i as int),
        decreases placements@.len() - i,
    {
        all.push(placements[i]);
        i += 1;
        proof {
            assert(all@ =~= old(all)@ + placements@.take(i as int));
        }
    }
    proof {
        assert(placements@.take(i as int) =~= placements@);
    }
}

fn keep_other_images(placements: &Vec<ImagePlacement>, image_id: ImageId) -> (r: Vec<
    ImagePlacement,
>)
    ensures
        r@ == without_image(placements@, image_id),
{
    let mut kept: Vec<ImagePlacement> = Vec::new();
    let mut i: usize = 0;
    while i < placements.len()
        invariant
            i <= placements@.len(),
            kept@ == without_image(placements@.take(i as int), image_id),
        decreases placements@.len() - i,
    {
        let placement: ImagePlacement = placements[i];
        proof {
            let prefix = placements@.take(i + 1);
            assert(prefix.drop_last() =~= placements@.take(i as int));
            assert(prefix.last() == placement);
        }
        if placement.image_id != image_id || placement.placement_id == 0 {
            kept.push(placement);
        }
        i += 1;
    }
    proof {
        assert(placements@.take(i as int) =~= placements@);
    }
    kept
}

} // verus!
