//! Which scalars join the one before them whatever stands further back. A table
//! answers for whole pages of scalars; mixed pages and other categories are left
//! to the segmentation of the whole text.
use vstd::prelude::*;

verus! {

/// What a scalar is to the one before it.
#[derive(Debug, Clone, Copy, PartialEq, Eq, Structural)]
pub enum SuccessorClass {
    Unknown,
    /// It joins a prepended scalar alone.
    Other,
    /// It joins everything but a control.
    Attach,
}

/// Two bits for each page of 64 scalars, 32 pages to a word, made for one
/// release of the Unicode tables.
#[derive(Debug)]
pub struct SuccessorPages {
    pub words: Vec<u64>,
    pub release: (u64, u64, u64),
}

impl SuccessorPages {
    /// The class that two bits stand for.
    pub open spec fn class_of_bits(bits: u64) -> SuccessorClass {
        if bits == 1 {
            SuccessorClass::Other
        } else if bits == 2 {
            SuccessorClass::Attach
        } else {
            SuccessorClass::Unknown
        }
    }

    /// Printable ASCII needs no table, and a page that the table lacks is not
    /// known.
    pub open spec fn class(self, c: char) -> SuccessorClass {
        let page = c as u32 as int / 64;
        if ' ' <= c <= '~' {
            SuccessorClass::Other
        } else if page / 32 < self.words@.len() {
            SuccessorPages::class_of_bits(
                (self.words@[page / 32] >> ((page % 32) * 2) as u64) & 3u64,
            )
        } else {
            SuccessorClass::Unknown
        }
    }

    pub fn successor_class(&self, c: char) -> (r: SuccessorClass)
        ensures
            r == self.class(c),
    {
        if ' ' <= c && c <= '~' {
            return SuccessorClass::Other;
        }
        let page: usize = (c as u32 / 64) as usize;
        if page / 32 >= self.words.len() {
            return SuccessorClass::Unknown;
        }
        let shift: u64 = ((page % 32) * 2) as u64;
        let bits: u64 = (self.words[page / 32] >> shift) & 3;
        if bits == 1 {
            SuccessorClass::Other
        } else if bits == 2 {
            SuccessorClass::Attach
        } else {
            SuccessorClass::Unknown
        }
    }

    /// Whether a scalar joins no scalar but a prepended one, as far as the
    /// table tells for the given release.
    pub fn is_other(&self, release: (u64, u64, u64), c: char) -> (r: bool)
        ensures
            r == (release == self.release && self.class(c) is Other),
    {
        self.serves(release) && self.successor_class(c) == SuccessorClass::Other
    }

    fn serves(&self, release: (u64, u64, u64)) -> (r: bool)
        ensures
            r == (release == self.release),
    {
        release.0 == self.release.0 && release.1 == self.release.1 && release.2 == self.release.2
    }

    /// Whether `next` joins a scalar before it that is prepended, or a control;
    /// nothing where the table does not tell.
    pub fn scalar_extends(
        &self,
        release: (u64, u64, u64),
        last_is_prepend: bool,
        last_is_control: bool,
        next: char,
    ) -> (r: Option<bool>)
        ensures
            r == if release != self.release {
                None
            } else {
                match self.class(next) {
                    SuccessorClass::Other => Some(last_is_prepend),
                    SuccessorClass::Attach => Some(!last_is_control),
                    SuccessorClass::Unknown => None,
                }
            },
    {
        if !self.serves(release) {
            return None;
        }
        match self.successor_class(next) {
            SuccessorClass::Other => Some(last_is_prepend),
            SuccessorClass::Attach => Some(!last_is_control),
            SuccessorClass::Unknown => None,
        }
    }
}

} // verus!
