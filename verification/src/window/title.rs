//! The title of the window.
use crate::grid::terminal::Grid;
use crate::input::paste::{control_char, is_control};
use crate::text::{chars_of, same_text, string_of};
use vstd::prelude::*;

verus! {

/// The title of a window whose program has set none.
pub const WINDOW_TITLE: &'static str = "kokuban";

/// A text without its control characters.
pub open spec fn without_controls(text: Seq<char>) -> Seq<char> {
    text.filter(|c: char| !is_control(c))
}

/// The title that the window shows: what the program has set without its
/// control characters, or the name of the terminal if nothing is left.
pub open spec fn shown_title(title: Seq<char>) -> Seq<char> {
    if without_controls(title).len() == 0 { WINDOW_TITLE@ } else { without_controls(title) }
}

pub fn normalized_window_title(title: &str) -> (r: String)
    ensures
        r@ == shown_title(title@),
{
    let chars: Vec<char> = chars_of(title);
    let mut kept: Vec<char> = Vec::new();
    let mut i: usize = 0;
    proof {
        assert(chars@.take(0) =~= Seq::<char>::empty());
        reveal(Seq::filter);
    }
    while i < chars.len()
        invariant
            i <= chars@.len(),
            kept@ == without_controls(chars@.take(i as int)),
        decreases chars@.len() - i,
    {
        let c: char = chars[i];
        proof {
            reveal(Seq::filter);
            assert(chars@.take(i + 1).drop_last() =~= chars@.take(i as int));
            assert(chars@.take(i + 1).last() == c);
        }
        if !control_char(c) {
            kept.push(c);
        }
        i += 1;
    }
    proof {
        assert(chars@.take(i as int) =~= chars@);
    }
    if kept.len() == 0 {
        return WINDOW_TITLE.to_owned();
    }
    string_of(&kept)
}

/// The title to show for a terminal.
pub fn snapshot_window_title(grid: &Grid) -> (r: String)
    ensures
        r@ == shown_title(grid@.session.title),
{
    normalized_window_title(grid.title())
}

/// Take up a title; the result tells whether it differs from the one before.
pub fn sync_window_title(applied_title: &mut String, title: &str) -> (r: bool)
    ensures
        r == (old(applied_title)@ != title@),
        final(applied_title)@ == title@,
{
    if same_text(applied_title.as_str(), title) {
        return false;
    }
    *applied_title = title.to_owned();
    true
}

/// Observe the title of a terminal; the result tells whether it has changed.
pub fn changed_window_title(grid: &Grid, observed_title: &mut String) -> (r: bool)
    ensures
        r == (old(observed_title)@ != shown_title(grid@.session.title)),
        final(observed_title)@ == shown_title(grid@.session.title),
{
    let title: String = snapshot_window_title(grid);
    sync_window_title(observed_title, title.as_str())
}

} // verus!
