//! The resource router and its builder.
//!
//! A [`RouterBuilder`] stages an append-only list of (pattern, handler,
//! optional guard payload) entries; [`RouterBuilder::finish`] freezes the
//! list into a [`Router`]. Recognition scans the entries in registration
//! order — the sole priority signal — and commits the first successful
//! match (subject to guard acceptance for the checked variants) to the
//! caller's path cursor. When no entry accepts, the cursor is left exactly
//! as it was handed in: "no match" is a normal outcome, not an error.

use vstd::prelude::*;

use crate::path::Path;
use crate::pattern::ResourceDef;

verus! {

/// A matcher's numeric identifier, assigned by the registering caller.
/// The router never generates or deduplicates ids.
#[derive(Debug, Copy, Clone, PartialEq, Eq, Structural)]
pub struct ResourceId(pub u16);

/// Information about a recognized resource.
#[derive(Debug, Clone)]
pub struct ResourceInfo {
    #[allow(dead_code)]
    resource: ResourceId,
}

/// The index of the first entry at or after `i` whose pattern matches `s`.
pub open spec fn first_match_from<T, U>(
    routes: Seq<(ResourceDef, T, Option<U>)>,
    s: Seq<char>,
    i: int,
) -> Option<int>
    decreases routes.len() - i,
        when 0 <= i
{
    if i >= routes.len() {
        None
    } else if routes[i].0.matches(s) is Some {
        Some(i)
    } else {
        first_match_from(routes, s, i + 1)
    }
}

/// The scan started at `k` stops at or before any matching index at or
/// after `k`.
proof fn lemma_first_match_le<T, U>(
    routes: Seq<(ResourceDef, T, Option<U>)>,
    s: Seq<char>,
    k: int,
    a: int,
)
    requires
        0 <= k <= a < routes.len(),
        routes[a].0.matches(s) is Some,
    ensures
        first_match_from(routes, s, k) matches Some(w) && k <= w <= a,
    decreases a - k,
{
    if routes[k].0.matches(s) is None {
        lemma_first_match_le(routes, s, k + 1, a);
    }
}

/// Law (order priority): when the patterns of two entries both match a
/// path, the scan's winner is never later than the earlier of the two —
/// registration order is the sole priority signal, so the later entry can
/// never be the one recognized.
pub proof fn lemma_order_priority<T, U>(
    routes: Seq<(ResourceDef, T, Option<U>)>,
    s: Seq<char>,
    a: int,
    b: int,
)
    requires
        0 <= a < b < routes.len(),
        routes[a].0.matches(s) is Some,
        routes[b].0.matches(s) is Some,
    ensures
        first_match_from(routes, s, 0) matches Some(w) && w <= a < b,
{
    lemma_first_match_le(routes, s, 0, a);
}

/// Law (skip composition): recognition considers nothing but the cursor's
/// unconsumed suffix — two cursors with equal suffixes, however they came
/// to them, are recognized identically.
pub proof fn lemma_recognition_uses_suffix<T, U>(
    routes: Seq<(ResourceDef, T, Option<U>)>,
    p1: crate::path::Path,
    p2: crate::path::Path,
)
    requires
        p1.suffix() == p2.suffix(),
    ensures
        first_match_from(routes, p1.suffix(), 0) == first_match_from(routes, p2.suffix(), 0),
{
}

/// Law (idempotent transition): once built, the recognized winner is a
/// function of the frozen entries and the cursor's suffix alone, so
/// repeating a recognition over an unchanged router and an equally
/// positioned cursor picks the same winner every time.
pub proof fn lemma_recognition_deterministic<T, U>(
    r1: Router<T, U>,
    r2: Router<T, U>,
    p1: crate::path::Path,
    p2: crate::path::Path,
)
    requires
        r1.entries() == r2.entries(),
        p1.suffix() == p2.suffix(),
    ensures
        first_match_from(r1.entries(), p1.suffix(), 0) == first_match_from(
            r2.entries(),
            p2.suffix(),
            0,
        ),
{
}

/// A resource router: the finalized, immutable ordered list of (pattern,
/// handler, optional guard payload) entries.
pub struct Router<T, U = ()> {
    routes: Vec<(ResourceDef, T, Option<U>)>,
}

/// The staging list behind a [`Router`]: registration appends entries and
/// hands back a mutable borrow of the freshly appended one, so the caller
/// can still assign the pattern's id.
pub struct RouterBuilder<T, U = ()> {
    resources: Vec<(ResourceDef, T, Option<U>)>,
}

impl<T, U> Router<T, U> {
    /// The entries, in registration order.
    pub closed spec fn entries(&self) -> Seq<(ResourceDef, T, Option<U>)> {
        self.routes@
    }

    /// Begins building a router.
    pub fn build() -> (b: RouterBuilder<T, U>)
        ensures
            b.entries() == Seq::<(ResourceDef, T, Option<U>)>::empty(),
    {
        RouterBuilder { resources: Vec::new() }
    }

    /// Finds the first entry, in registration order, whose pattern matches
    /// the cursor's unconsumed suffix. On success the match is committed to
    /// the cursor and the entry's handler and id are returned; otherwise the
    /// cursor is left exactly as it was handed in.
    pub fn recognize<'a>(&'a self, path: &mut Path) -> (r: Option<(&'a T, ResourceId)>)
        requires
            old(path).wf(),
        ensures
            match first_match_from(self.entries(), old(path).suffix(), 0) {
                Some(i) => {
                    &&& match self.entries()[i].0.matches(old(path).suffix()) {
                        Some(m) => final(path).wf() && final(path).full() == old(path).full()
                            && final(path).skipped() == old(path).skipped() + m.0
                            && final(path).caps() == m.1,
                        None => false,
                    }
                    &&& match r {
                        Some(p) => *p.0 == self.entries()[i].1 && p.1 == ResourceId(
                            self.entries()[i].0.spec_id(),
                        ),
                        None => false,
                    }
                },
                None => r is None && *final(path) == *old(path),
            },
    {
        let mut i: usize = 0;
        while i < self.routes.len()
            invariant
                old(path).wf(),
                *path == *old(path),
                i <= self.routes@.len(),
                first_match_from(self.entries(), old(path).suffix(), 0) == first_match_from(
                    self.entries(),
                    old(path).suffix(),
                    i as int,
                ),
            decreases self.routes@.len() - i,
        {
            let m = self.routes[i].0.capture_match(path.unprocessed());
            match m {
                Some((c, caps)) => {
                    path.commit(c, caps);
                    let rid = ResourceId(self.routes[i].0.id());
                    return Some((&self.routes[i].1, rid));
                },
                None => {},
            }
            i += 1;
        }
        None
    }

    /// As [`Router::recognize`], but hands back mutable access to the
    /// winning entry's handler. Only that handler can change through the
    /// borrow: every pattern, every guard payload, the entry order and every
    /// other handler stay as they were.
    pub fn recognize_mut<'a>(&'a mut self, path: &mut Path) -> (r: Option<(&'a mut T, ResourceId)>)
        requires
            old(path).wf(),
        ensures
            match first_match_from(old(self).entries(), old(path).suffix(), 0) {
                Some(i) => {
                    &&& match old(self).entries()[i].0.matches(old(path).suffix()) {
                        Some(m) => final(path).wf() && final(path).full() == old(path).full()
                            && final(path).skipped() == old(path).skipped() + m.0
                            && final(path).caps() == m.1,
                        None => false,
                    }
                    &&& match r {
                        Some(p) => *p.0 == old(self).entries()[i].1 && p.1 == ResourceId(
                            old(self).entries()[i].0.spec_id(),
                        ) && final(self).entries() == old(self).entries().update(
                            i,
                            (old(self).entries()[i].0, *final(p.0), old(self).entries()[i].2),
                        ),
                        None => false,
                    }
                },
                None => r is None && *final(path) == *old(path) && *final(self) == *old(self),
            },
    {
        let mut i: usize = 0;
        while i < self.routes.len()
            invariant
                old(path).wf(),
                *path == *old(path),
                *self == *old(self),
                i <= self.routes@.len(),
                first_match_from(old(self).entries(), old(path).suffix(), 0) == first_match_from(
                    old(self).entries(),
                    old(path).suffix(),
                    i as int,
                ),
            decreases self.routes@.len() - i,
        {
            let m = self.routes[i].0.capture_match(path.unprocessed());
            match m {
                Some((c, caps)) => {
                    path.commit(c, caps);
                    let rid = ResourceId(self.routes[i].0.id());
                    return Some((&mut self.routes[i].1, rid));
                },
                None => {},
            }
            i += 1;
        }
        None
    }

    /// As [`Router::recognize`], but a matching entry wins only when the
    /// caller's `check` accepts the cursor and the entry's guard payload.
    /// `check` runs speculatively, before anything is committed: when it
    /// rejects an entry whose pattern matched, the scan moves on as though
    /// that pattern had not matched at all, and no trace of the rejected
    /// match — neither skip advance nor captures — is ever visible, to later
    /// entries or to the caller.
    pub fn recognize_fn<'a, F: Fn(&Path, &Option<U>) -> bool>(
        &'a self,
        path: &mut Path,
        check: F,
    ) -> (r: Option<(&'a T, ResourceId)>)
        requires
            old(path).wf(),
            forall|p: &Path, u: &Option<U>| #[trigger] call_requires(check, (p, u)),
        ensures
            match r {
                Some(p) => exists|i: int|
                    {
                        &&& 0 <= i < self.entries().len()
                        &&& match #[trigger] self.entries()[i].0.matches(old(path).suffix()) {
                            Some(m) => final(path).wf() && final(path).full() == old(path).full()
                                && final(path).skipped() == old(path).skipped() + m.0
                                && final(path).caps() == m.1,
                            None => false,
                        }
                        &&& call_ensures(check, (&*old(path), &self.entries()[i].2), true)
                        &&& *p.0 == self.entries()[i].1
                        &&& p.1 == ResourceId(self.entries()[i].0.spec_id())
                        &&& forall|j: int|
                            0 <= j < i && (#[trigger] self.entries()[j].0.matches(
                                old(path).suffix(),
                            )) is Some ==> call_ensures(
                                check,
                                (&*old(path), &self.entries()[j].2),
                                false,
                            )
                    },
                None => *final(path) == *old(path) && forall|j: int|
                    0 <= j < self.entries().len() && (#[trigger] self.entries()[j].0.matches(
                        old(path).suffix(),
                    )) is Some ==> call_ensures(check, (&*old(path), &self.entries()[j].2), false),
            },
    {
        let mut i: usize = 0;
        while i < self.routes.len()
            invariant
                old(path).wf(),
                *path == *old(path),
                i <= self.routes@.len(),
                forall|p: &Path, u: &Option<U>| #[trigger] call_requires(check, (p, u)),
                forall|j: int|
                    0 <= j < i && (#[trigger] self.entries()[j].0.matches(
                        old(path).suffix(),
                    )) is Some ==> call_ensures(check, (&*old(path), &self.entries()[j].2), false),
            decreases self.routes@.len() - i,
        {
            let m = self.routes[i].0.capture_match(path.unprocessed());
            match m {
                Some((c, caps)) => {
                    if check(&*path, &self.routes[i].2) {
                        path.commit(c, caps);
                        let rid = ResourceId(self.routes[i].0.id());
                        return Some((&self.routes[i].1, rid));
                    }
                },
                None => {},
            }
            i += 1;
        }
        None
    }

    /// As [`Router::recognize_fn`], but hands back mutable access to the
    /// winning entry's handler, under the same speculative-check discipline
    /// and with the same immutability of everything but that handler.
    pub fn recognize_mut_fn<'a, F: Fn(&Path, &Option<U>) -> bool>(
        &'a mut self,
        path: &mut Path,
        check: F,
    ) -> (r: Option<(&'a mut T, ResourceId)>)
        requires
            old(path).wf(),
            forall|p: &Path, u: &Option<U>| #[trigger] call_requires(check, (p, u)),
        ensures
            match r {
                Some(p) => exists|i: int|
                    {
                        &&& 0 <= i < old(self).entries().len()
                        &&& match #[trigger] old(self).entries()[i].0.matches(old(path).suffix()) {
                            Some(m) => final(path).wf() && final(path).full() == old(path).full()
                                && final(path).skipped() == old(path).skipped() + m.0
                                && final(path).caps() == m.1,
                            None => false,
                        }
                        &&& call_ensures(check, (&*old(path), &old(self).entries()[i].2), true)
                        &&& *p.0 == old(self).entries()[i].1
                        &&& p.1 == ResourceId(old(self).entries()[i].0.spec_id())
                        &&& final(self).entries() == old(self).entries().update(
                            i,
                            (old(self).entries()[i].0, *final(p.0), old(self).entries()[i].2),
                        )
                        &&& forall|j: int|
                            0 <= j < i && (#[trigger] old(self).entries()[j].0.matches(
                                old(path).suffix(),
                            )) is Some ==> call_ensures(
                                check,
                                (&*old(path), &old(self).entries()[j].2),
                                false,
                            )
                    },
                None => *final(path) == *old(path) && *final(self) == *old(self) && forall|j: int|
                    0 <= j < old(self).entries().len() && (#[trigger] old(self).entries()[j].0.matches(
                        old(path).suffix(),
                    )) is Some ==> call_ensures(
                        check,
                        (&*old(path), &old(self).entries()[j].2),
                        false,
                    ),
            },
    {
        let mut i: usize = 0;
        while i < self.routes.len()
            invariant
                old(path).wf(),
                *path == *old(path),
                *self == *old(self),
                i <= self.routes@.len(),
                forall|p: &Path, u: &Option<U>| #[trigger] call_requires(check, (p, u)),
                forall|j: int|
                    0 <= j < i && (#[trigger] old(self).entries()[j].0.matches(
                        old(path).suffix(),
                    )) is Some ==> call_ensures(
                        check,
                        (&*old(path), &old(self).entries()[j].2),
                        false,
                    ),
            decreases self.routes@.len() - i,
        {
            let m = self.routes[i].0.capture_match(path.unprocessed());
            match m {
                Some((c, caps)) => {
                    if check(&*path, &self.routes[i].2) {
                        path.commit(c, caps);
                        let rid = ResourceId(self.routes[i].0.id());
                        return Some((&mut self.routes[i].1, rid));
                    }
                },
                None => {},
            }
            i += 1;
        }
        None
    }
}

impl<T, U> RouterBuilder<T, U> {
    /// The staged entries, in registration order.
    pub closed spec fn entries(&self) -> Seq<(ResourceDef, T, Option<U>)> {
        self.resources@
    }

    /// Registers `resource` for a well-formed exact-match pattern and hands
    /// back the freshly appended entry.
    pub fn path(&mut self, pattern: &str, resource: T) -> (r: &mut (ResourceDef, T, Option<U>))
        requires
            crate::pattern::parse_pattern(pattern@, 0) is Ok,
        ensures
            match crate::pattern::parse_pattern(pattern@, 0) {
                Ok(m) => (*r).0.segs() == m.0 && (*r).0.tail_name() == m.1 && !(*r).0.is_prefix()
                    && (*r).0.spec_id() == 0,
                Err(_) => false,
            },
            (*r).1 == resource,
            (*r).2 is None,
            final(self).entries() == old(self).entries().push(*final(r)),
    {
        let def = ResourceDef::new(pattern);
        self.resources.push((def, resource, None));
        let n = self.resources.len();
        &mut self.resources[n - 1]
    }

    /// Registers `resource` for a well-formed prefix pattern and hands back
    /// the freshly appended entry.
    pub fn prefix(&mut self, pattern: &str, resource: T) -> (r: &mut (ResourceDef, T, Option<U>))
        requires
            crate::pattern::parse_pattern(pattern@, 0) is Ok,
        ensures
            match crate::pattern::parse_pattern(pattern@, 0) {
                Ok(m) => (*r).0.segs() == m.0 && (*r).0.tail_name() == m.1 && (*r).0.is_prefix()
                    && (*r).0.spec_id() == 0,
                Err(_) => false,
            },
            (*r).1 == resource,
            (*r).2 is None,
            final(self).entries() == old(self).entries().push(*final(r)),
    {
        let def = ResourceDef::prefix(pattern);
        self.resources.push((def, resource, None));
        let n = self.resources.len();
        &mut self.resources[n - 1]
    }

    /// Registers `resource` for an already compiled pattern and hands back
    /// the freshly appended entry.
    pub fn rdef(&mut self, rdef: ResourceDef, resource: T) -> (r: &mut (
        ResourceDef,
        T,
        Option<U>,
    ))
        ensures
            *r == (rdef, resource, None::<U>),
            final(self).entries() == old(self).entries().push(*final(r)),
    {
        self.resources.push((rdef, resource, None));
        let n = self.resources.len();
        &mut self.resources[n - 1]
    }

    /// Freezes the staged entries, in registration order, into a router.
    pub fn finish(self) -> (router: Router<T, U>)
        ensures
            router.entries() == self.entries(),
    {
        Router { routes: self.resources }
    }
}

} // verus!
