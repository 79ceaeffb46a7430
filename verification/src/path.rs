//! The per-request path cursor.
//!
//! A [`Path`] wraps one request path string, tracks how many leading
//! characters earlier routing has already consumed, and carries the named
//! captures of the most recent successful match. A failed match attempt
//! leaves the cursor untouched; a successful one advances the consumed
//! prefix and replaces the captures wholesale.

use vstd::prelude::*;

use crate::pattern::Capture;
use crate::pattern::caps_model;
use crate::strutil::str_eq;

verus! {

/// The capture for `name` among `caps`, scanning from index `i`: the first
/// entry with that name wins.
pub open spec fn lookup_from(caps: Seq<Capture>, i: int, name: Seq<char>) -> Option<Seq<char>>
    decreases caps.len() - i,
        when 0 <= i
{
    if i >= caps.len() {
        None
    } else if caps[i].0 == name {
        Some(caps[i].1)
    } else {
        lookup_from(caps, i + 1, name)
    }
}

/// The capture for `name` among `caps`, if any.
pub open spec fn lookup(caps: Seq<Capture>, name: Seq<char>) -> Option<Seq<char>> {
    lookup_from(caps, 0, name)
}

/// A mutable view over one request path: the text, a consumed-prefix offset,
/// and the captures of the most recent successful match.
pub struct Path {
    path: String,
    skip: usize,
    captures: Vec<(String, String)>,
}

impl Path {
    /// The full path text.
    pub closed spec fn full(&self) -> Seq<char> {
        self.path@
    }

    /// How many leading characters have been consumed.
    pub closed spec fn skipped(&self) -> int {
        self.skip as int
    }

    /// The unconsumed suffix.
    pub open spec fn suffix(&self) -> Seq<char> {
        self.full().skip(self.skipped())
    }

    /// The captures of the most recent successful match, in placeholder
    /// order.
    pub closed spec fn caps(&self) -> Seq<Capture> {
        caps_model(self.captures@)
    }

    /// The consumed-prefix offset lies within the path, whose length fits
    /// the machine word.
    pub closed spec fn wf(&self) -> bool {
        self.skip <= self.path@.len() && self.path@.len() <= usize::MAX
    }

    /// A fresh cursor over `path`: nothing consumed, no captures.
    pub fn new(path: &str) -> (p: Path)
        ensures
            p.full() == path@,
            p.skipped() == 0,
            p.caps() == Seq::<Capture>::empty(),
            p.wf(),
    {
        let owned = path.to_owned();
        let _len = owned.as_str().unicode_len();
        let p = Path { path: owned, skip: 0, captures: Vec::new() };
        proof {
            assert(p.caps() =~= Seq::<Capture>::empty());
        }
        p
    }

    /// Advances the consumed prefix by `n` characters, pre-consuming a known
    /// mount point before matching begins. Exceeding the remaining length is
    /// a programmer error, excluded by precondition.
    pub fn skip(&mut self, n: usize)
        requires
            old(self).wf(),
            old(self).skipped() + n <= old(self).full().len(),
        ensures
            final(self).wf(),
            final(self).full() == old(self).full(),
            final(self).skipped() == old(self).skipped() + n,
            final(self).caps() == old(self).caps(),
    {
        let len = self.path.as_str().unicode_len();
        let remaining = len - self.skip;
        if n <= remaining {
            self.skip = self.skip + n;
        } else {
            // Over-skipping is a programmer error, excluded by precondition;
            // an unchecked caller is clamped to the end of the path.
            self.skip = len;
        }
    }

    /// The unconsumed suffix of the path.
    pub fn unprocessed(&self) -> (r: &str)
        requires
            self.wf(),
        ensures
            r@ == self.suffix(),
    {
        let len = self.path.as_str().unicode_len();
        let r = self.path.as_str().substring_char(self.skip, len);
        proof {
            assert(r@ =~= self.suffix());
        }
        r
    }

    /// True exactly when the unconsumed suffix is empty.
    pub fn is_empty(&self) -> (r: bool)
        requires
            self.wf(),
        ensures
            r == (self.suffix().len() == 0),
    {
        self.skip == self.path.as_str().unicode_len()
    }

    /// The capture for `name` from the most recent successful match, or
    /// `None` when no match produced one.
    pub fn get(&self, name: &str) -> (r: Option<&str>)
        ensures
            match r {
                Some(v) => lookup(self.caps(), name@) == Some(v@),
                None => lookup(self.caps(), name@) is None,
            },
    {
        let mut i: usize = 0;
        while i < self.captures.len()
            invariant
                i <= self.captures@.len(),
                lookup(self.caps(), name@) == lookup_from(self.caps(), i as int, name@),
            decreases self.captures@.len() - i,
        {
            proof {
                assert(self.caps()[i as int] == (self.captures@[i as int].0@, self.captures@[
                    i as int].1@));
            }
            if str_eq(self.captures[i].0.as_str(), name) {
                return Some(self.captures[i].1.as_str());
            }
            i += 1;
        }
        None
    }

    /// The capture for `name`, for call sites that are certain the most
    /// recent match produced it.
    pub fn index(&self, name: &str) -> (r: &str)
        requires
            lookup(self.caps(), name@) is Some,
        ensures
            Some(r@) == lookup(self.caps(), name@),
    {
        match self.get(name) {
            Some(v) => v,
            None => vstd::pervasive::unreached(),
        }
    }

    /// Commits a successful match: advances the consumed prefix by `n` and
    /// replaces the captures.
    pub(crate) fn commit(&mut self, n: usize, caps: Vec<(String, String)>)
        requires
            old(self).wf(),
            n <= old(self).suffix().len(),
        ensures
            final(self).wf(),
            final(self).full() == old(self).full(),
            final(self).skipped() == old(self).skipped() + n,
            final(self).caps() == caps_model(caps@),
    {
        self.skip = self.skip + n;
        self.captures = caps;
    }
}

} // verus!
