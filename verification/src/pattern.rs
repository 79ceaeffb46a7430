//! Compiled path patterns and their matching semantics.
//!
//! A pattern is a `/`-delimited template. Each chunk between slashes is a
//! mix of literal text and named placeholders `{name}`; a placeholder whose
//! explicit body is `.*` (written `{name:.*}`) is a tail placeholder that
//! consumes the whole remaining path, slashes included, and must stand alone
//! as the final chunk. Compilation turns the text into a [`ResourceDef`];
//! matching runs the compiled form against the unconsumed suffix of a path
//! cursor without mutating it, and reports the consumed length together with
//! the captured placeholder values.
//!
//! Two deliberate simplifications of the template language are made here and
//! documented as part of the contract: a placeholder body other than the tail
//! form `.*` is rejected at compilation, and when a placeholder is separated
//! from the rest of its chunk by a literal delimiter, the capture ends at the
//! first occurrence of that delimiter scanning left to right.

use vstd::prelude::*;

use crate::strutil::str_eq;

verus! {

/// Why a pattern was rejected at compilation.
#[derive(Debug, Clone, Copy, PartialEq, Eq, Structural)]
pub enum PatternError {
    /// A `{` without its matching `}`, a stray `}`, or a `{` inside a
    /// placeholder.
    UnbalancedBrace,
    /// A placeholder with no name, as in `{}` or `{:.*}`.
    EmptyName,
    /// A placeholder with a colon but no body, as in `{name:}`.
    EmptyExpr,
    /// A placeholder body other than the tail form `.*`.
    UnsupportedExpr,
    /// A tail placeholder that does not stand alone as the final chunk.
    TailNotLast,
    /// Two placeholders with no literal text between them.
    AdjacentPlaceholders,
}

/// The mathematical form of one element of a pattern chunk.
pub enum ElemModel {
    /// Literal text that must match character for character.
    Lit(Seq<char>),
    /// A named placeholder capturing a non-empty span of one path segment.
    Ph(Seq<char>),
}

/// One element of a compiled pattern chunk.
#[derive(Debug)]
pub enum SegElement {
    /// Literal text that must match character for character.
    Literal(String),
    /// A named placeholder capturing a non-empty span of one path segment.
    Placeholder(String),
}

impl View for SegElement {
    type V = ElemModel;

    open spec fn view(&self) -> ElemModel {
        match self {
            SegElement::Literal(l) => ElemModel::Lit(l@),
            SegElement::Placeholder(n) => ElemModel::Ph(n@),
        }
    }
}

/// One compiled chunk of a pattern: the part between two slashes.
#[derive(Debug)]
pub struct PatternSegment {
    pub elements: Vec<SegElement>,
}

impl View for PatternSegment {
    type V = Seq<ElemModel>;

    open spec fn view(&self) -> Seq<ElemModel> {
        elems_model(self.elements@)
    }
}

/// The mathematical form of a sequence of chunk elements.
pub open spec fn elems_model(v: Seq<SegElement>) -> Seq<ElemModel> {
    Seq::new(v.len(), |i: int| v[i]@)
}

/// The first index at or after `i` where `s` holds `a` or `b`, or the length
/// of `s` when there is none.
pub open spec fn scan_to2(s: Seq<char>, i: int, a: char, b: char) -> int
    decreases s.len() - i,
        when 0 <= i <= s.len()
{
    if i >= s.len() {
        s.len() as int
    } else if s[i] == a || s[i] == b {
        i
    } else {
        scan_to2(s, i + 1, a, b)
    }
}

/// The first index at or after `i` where `s` holds `a`, or the length of `s`.
pub open spec fn scan_to(s: Seq<char>, i: int, a: char) -> int {
    scan_to2(s, i, a, a)
}

/// Range and soundness facts about [`scan_to2`].
pub proof fn lemma_scan_to2(s: Seq<char>, i: int, a: char, b: char)
    requires
        0 <= i <= s.len(),
    ensures
        i <= scan_to2(s, i, a, b) <= s.len(),
        scan_to2(s, i, a, b) < s.len() ==> (s[scan_to2(s, i, a, b)] == a || s[scan_to2(s, i, a, b)]
            == b),
        forall|j: int| i <= j < scan_to2(s, i, a, b) ==> s[j] != a && s[j] != b,
    decreases s.len() - i,
{
    if i < s.len() && !(s[i] == a || s[i] == b) {
        lemma_scan_to2(s, i + 1, a, b);
    }
}

/// Finds the first index at or after `i` where `s` holds `a` or `b`.
fn scan_to2_exec(s: &str, i: usize, a: char, b: char) -> (r: usize)
    requires
        i <= s@.len(),
    ensures
        r == scan_to2(s@, i as int, a, b),
        i <= r <= s@.len(),
{
    let len = s.unicode_len();
    let mut k = i;
    while k < len
        invariant
            i <= k <= len,
            len == s@.len(),
            scan_to2(s@, i as int, a, b) == scan_to2(s@, k as int, a, b),
        decreases len - k,
    {
        let c = s.get_char(k);
        if c == a || c == b {
            return k;
        }
        k += 1;
    }
    k
}

/// Parses the elements of one chunk `t` (no slash occurs in `t`), scanning
/// from `i`. `prev_ph` records whether the element just before `i` was a
/// placeholder; `last_chunk` whether this chunk is the pattern's final one.
/// On success the parsed elements come with the tail placeholder's name when
/// the whole chunk is a lone tail placeholder.
pub open spec fn parse_chunk(t: Seq<char>, i: int, prev_ph: bool, last_chunk: bool) -> Result<
    (Seq<ElemModel>, Option<Seq<char>>),
    PatternError,
>
    decreases t.len() - i,
        when 0 <= i <= t.len()
        via parse_chunk_decreases
{
    if i >= t.len() {
        Ok((seq![], None))
    } else if t[i] == '}' {
        Err(PatternError::UnbalancedBrace)
    } else if t[i] == '{' {
        let close = scan_to2(t, i + 1, '}', '{');
        if close >= t.len() || t[close] == '{' {
            Err(PatternError::UnbalancedBrace)
        } else {
            let colon = scan_to(t, i + 1, ':');
            if colon < close {
                let name = t.subrange(i + 1, colon);
                let body = t.subrange(colon + 1, close);
                if name.len() == 0 {
                    Err(PatternError::EmptyName)
                } else if body.len() == 0 {
                    Err(PatternError::EmptyExpr)
                } else if body == seq!['.', '*'] {
                    if prev_ph {
                        Err(PatternError::AdjacentPlaceholders)
                    } else if last_chunk && i == 0 && close + 1 >= t.len() {
                        Ok((seq![], Some(name)))
                    } else {
                        Err(PatternError::TailNotLast)
                    }
                } else {
                    Err(PatternError::UnsupportedExpr)
                }
            } else {
                let name = t.subrange(i + 1, close);
                if name.len() == 0 {
                    Err(PatternError::EmptyName)
                } else if prev_ph {
                    Err(PatternError::AdjacentPlaceholders)
                } else {
                    match parse_chunk(t, close + 1, true, last_chunk) {
                        Ok((rest, tailn)) => Ok((seq![ElemModel::Ph(name)] + rest, tailn)),
                        Err(e) => Err(e),
                    }
                }
            }
        }
    } else {
        let e = scan_to2(t, i + 1, '{', '}');
        let lit = t.subrange(i, e);
        match parse_chunk(t, e, false, last_chunk) {
            Ok((rest, tailn)) => Ok((seq![ElemModel::Lit(lit)] + rest, tailn)),
            Err(e2) => Err(e2),
        }
    }
}

#[via_fn]
proof fn parse_chunk_decreases(t: Seq<char>, i: int, prev_ph: bool, last_chunk: bool) {
    if 0 <= i && i < t.len() {
        lemma_scan_to2(t, i + 1, '}', '{');
        lemma_scan_to2(t, i + 1, '{', '}');
    }
}

/// Parses a whole pattern from position `i`, which must stand at the start
/// of a chunk. On success: the compiled chunks, and the tail placeholder's
/// name when the final chunk is a lone tail placeholder.
pub open spec fn parse_pattern(s: Seq<char>, i: int) -> Result<
    (Seq<Seq<ElemModel>>, Option<Seq<char>>),
    PatternError,
>
    decreases s.len() - i,
        when 0 <= i <= s.len()
        via parse_pattern_decreases
{
    let e = scan_to(s, i, '/');
    let last = e >= s.len();
    match parse_chunk(s.subrange(i, e), 0, false, last) {
        Err(err) => Err(err),
        Ok((elems, tailn)) => {
            if last {
                if tailn is Some {
                    Ok((seq![], tailn))
                } else {
                    Ok((seq![elems], None))
                }
            } else {
                match parse_pattern(s, e + 1) {
                    Err(err) => Err(err),
                    Ok((segs, tail)) => Ok((seq![elems] + segs, tail)),
                }
            }
        },
    }
}

#[via_fn]
proof fn parse_pattern_decreases(s: Seq<char>, i: int) {
    if 0 <= i <= s.len() {
        lemma_scan_to2(s, i, '/', '/');
    }
}

/// The mathematical form of an optional owned name.
pub open spec fn opt_name_model(v: Option<String>) -> Option<Seq<char>> {
    match v {
        Some(n) => Some(n@),
        None => None,
    }
}

/// The mathematical form of a sequence of compiled chunks.
pub open spec fn segs_model(v: Seq<PatternSegment>) -> Seq<Seq<ElemModel>> {
    Seq::new(v.len(), |i: int| v[i]@)
}

/// Parses the elements of one whole chunk, mirroring [`parse_chunk`].
fn parse_chunk_exec(t: &str, last_chunk: bool) -> (r: Result<
    (Vec<SegElement>, Option<String>),
    PatternError,
>)
    ensures
        match r {
            Ok(p) => match parse_chunk(t@, 0, false, last_chunk) {
                Ok(m) => elems_model(p.0@) == m.0 && opt_name_model(p.1) == m.1,
                Err(_) => false,
            },
            Err(e) => parse_chunk(t@, 0, false, last_chunk) == Err::<
                (Seq<ElemModel>, Option<Seq<char>>),
                PatternError,
            >(e),
        },
{
    let tlen = t.unicode_len();
    let mut elems: Vec<SegElement> = Vec::new();
    let mut pos: usize = 0;
    let mut prev_ph: bool = false;
    proof {
        match parse_chunk(t@, 0, false, last_chunk) {
            Ok(m) => {
                assert(elems_model(elems@) + m.0 =~= m.0);
            },
            Err(_) => {},
        }
    }
    while pos < tlen
        invariant
            pos <= tlen,
            tlen == t@.len(),
            pos == 0 ==> elems@.len() == 0 && !prev_ph,
            match parse_chunk(t@, pos as int, prev_ph, last_chunk) {
                Ok(m) => parse_chunk(t@, 0, false, last_chunk) == Ok::<
                    (Seq<ElemModel>, Option<Seq<char>>),
                    PatternError,
                >((elems_model(elems@) + m.0, m.1)),
                Err(e) => parse_chunk(t@, 0, false, last_chunk) == Err::<
                    (Seq<ElemModel>, Option<Seq<char>>),
                    PatternError,
                >(e),
            },
        decreases tlen - pos,
    {
        let c = t.get_char(pos);
        if c == '}' {
            return Err(PatternError::UnbalancedBrace);
        } else if c == '{' {
            let close = scan_to2_exec(t, pos + 1, '}', '{');
            if close >= tlen || t.get_char(close) == '{' {
                return Err(PatternError::UnbalancedBrace);
            }
            let colon = scan_to2_exec(t, pos + 1, ':', ':');
            if colon < close {
                let name = t.substring_char(pos + 1, colon);
                let body = t.substring_char(colon + 1, close);
                proof {
                    reveal_strlit(".*");
                    assert(".*"@ =~= seq!['.', '*']);
                }
                if name.unicode_len() == 0 {
                    return Err(PatternError::EmptyName);
                }
                if body.unicode_len() == 0 {
                    return Err(PatternError::EmptyExpr);
                }
                if str_eq(body, ".*") {
                    if prev_ph {
                        return Err(PatternError::AdjacentPlaceholders);
                    }
                    if last_chunk && pos == 0 && close + 1 >= tlen {
                        let tail: Vec<SegElement> = Vec::new();
                        proof {
                            assert(elems_model(tail@) =~= elems_model(elems@) + seq![]);
                        }
                        return Ok((tail, Some(name.to_owned())));
                    }
                    return Err(PatternError::TailNotLast);
                } else {
                    return Err(PatternError::UnsupportedExpr);
                }
            } else {
                let name = t.substring_char(pos + 1, close);
                if name.unicode_len() == 0 {
                    return Err(PatternError::EmptyName);
                }
                if prev_ph {
                    return Err(PatternError::AdjacentPlaceholders);
                }
                let ghost old_elems = elems@;
                elems.push(SegElement::Placeholder(name.to_owned()));
                proof {
                    match parse_chunk(t@, close + 1 as int, true, last_chunk) {
                        Ok(mp) => {
                            assert(elems_model(elems@) =~= elems_model(old_elems).push(
                                ElemModel::Ph(name@),
                            ));
                            assert(elems_model(old_elems).push(ElemModel::Ph(name@)) + mp.0
                                =~= elems_model(old_elems) + (seq![ElemModel::Ph(name@)] + mp.0));
                        },
                        Err(_) => {},
                    }
                }
                pos = close + 1;
                prev_ph = true;
            }
        } else {
            let e = scan_to2_exec(t, pos + 1, '{', '}');
            let lit = t.substring_char(pos, e);
            let ghost old_elems = elems@;
            elems.push(SegElement::Literal(lit.to_owned()));
            proof {
                match parse_chunk(t@, e as int, false, last_chunk) {
                    Ok(mp) => {
                        assert(elems_model(elems@) =~= elems_model(old_elems).push(
                            ElemModel::Lit(lit@),
                        ));
                        assert(elems_model(old_elems).push(ElemModel::Lit(lit@)) + mp.0
                            =~= elems_model(old_elems) + (seq![ElemModel::Lit(lit@)] + mp.0));
                    },
                    Err(_) => {},
                }
            }
            pos = e;
            prev_ph = false;
        }
    }
    proof {
        assert(elems_model(elems@) + seq![] =~= elems_model(elems@));
    }
    Ok((elems, None))
}

/// A capture: the placeholder's name and the span of the path it captured.
pub type Capture = (Seq<char>, Seq<char>);

/// The mathematical form of a list of owned captures.
pub open spec fn caps_model(v: Seq<(String, String)>) -> Seq<Capture> {
    Seq::new(v.len(), |i: int| (v[i].0@, v[i].1@))
}

/// True when the literal `l` stands in `t` at position `pos`.
pub open spec fn lit_matches_at(t: Seq<char>, pos: int, l: Seq<char>) -> bool {
    &&& 0 <= pos
    &&& pos + l.len() <= t.len()
    &&& t.subrange(pos, pos + l.len()) == l
}

/// The first position at or after `i` where the literal `l` stands in `t`.
pub open spec fn find_from(t: Seq<char>, i: int, l: Seq<char>) -> Option<int>
    decreases t.len() - i + 1,
        when 0 <= i
{
    if i + l.len() > t.len() {
        None
    } else if t.subrange(i, i + l.len()) == l {
        Some(i)
    } else {
        find_from(t, i + 1, l)
    }
}

/// Matches the chunk elements `elems` from index `ei` against the segment
/// text `t` from position `pos`. On success: the captures, in placeholder
/// order. A placeholder always captures a non-empty span; a placeholder that
/// is followed by a literal captures up to the first occurrence of that
/// literal after at least one character.
pub open spec fn match_elems(elems: Seq<ElemModel>, ei: int, t: Seq<char>, pos: int) -> Option<
    Seq<Capture>,
>
    decreases elems.len() - ei,
        when 0 <= ei
{
    if ei >= elems.len() {
        if pos == t.len() {
            Some(seq![])
        } else {
            None
        }
    } else {
        match elems[ei] {
            ElemModel::Lit(l) => {
                if lit_matches_at(t, pos, l) {
                    match_elems(elems, ei + 1, t, pos + l.len())
                } else {
                    None
                }
            },
            ElemModel::Ph(name) => {
                if ei + 1 >= elems.len() {
                    if 0 <= pos < t.len() {
                        Some(seq![(name, t.subrange(pos, t.len() as int))])
                    } else {
                        None
                    }
                } else {
                    match elems[ei + 1] {
                        ElemModel::Lit(l) => match find_from(t, pos + 1, l) {
                            Some(k) => match match_elems(elems, ei + 2, t, k + l.len()) {
                                Some(rest) => Some(seq![(name, t.subrange(pos, k))] + rest),
                                None => None,
                            },
                            None => None,
                        },
                        ElemModel::Ph(_) => None,
                    }
                }
            },
        }
    }
}

/// Matches the chunks `segs` from index `si` against the path text `s` from
/// position `pos`. Every chunk after the first consumes a `/` first. On
/// success: the position just after the matched portion, and the captures in
/// chunk order.
pub open spec fn match_segments(
    segs: Seq<Seq<ElemModel>>,
    si: int,
    s: Seq<char>,
    pos: int,
) -> Option<(int, Seq<Capture>)>
    decreases segs.len() - si,
        when 0 <= si
{
    if si >= segs.len() {
        Some((pos, seq![]))
    } else if si != 0 && !(0 <= pos < s.len() && s[pos] == '/') {
        None
    } else {
        let start = if si == 0 {
            pos
        } else {
            pos + 1
        };
        let e = scan_to(s, start, '/');
        match match_elems(segs[si], 0, s.subrange(start, e), 0) {
            None => None,
            Some(caps) => match match_segments(segs, si + 1, s, e) {
                None => None,
                Some((end, rest)) => Some((end, caps + rest)),
            },
        }
    }
}

/// Matches a whole compiled pattern against the path text `s`. On success:
/// how many leading characters of `s` are consumed, and the captures. An
/// exact pattern must consume all of `s`; a prefix pattern may stop at a
/// slash boundary; a tail placeholder consumes everything that remains.
pub open spec fn def_match(
    segs: Seq<Seq<ElemModel>>,
    tail: Option<Seq<char>>,
    prefix: bool,
    s: Seq<char>,
) -> Option<(int, Seq<Capture>)> {
    match match_segments(segs, 0, s, 0) {
        None => None,
        Some((pos, caps)) => match tail {
            Some(name) => {
                if segs.len() == 0 {
                    Some((s.len() as int, caps + seq![(name, s)]))
                } else if pos < s.len() && s[pos] == '/' {
                    Some((s.len() as int, caps + seq![(name, s.subrange(pos + 1, s.len() as int))]))
                } else {
                    None
                }
            },
            None => {
                if prefix {
                    if pos == s.len() || (0 <= pos < s.len() && s[pos] == '/') {
                        Some((pos, caps))
                    } else {
                        None
                    }
                } else {
                    if pos == s.len() {
                        Some((pos, caps))
                    } else {
                        None
                    }
                }
            },
        },
    }
}

/// Decides whether the literal `l` stands in `t` at position `pos`.
fn lit_at_exec(t: &str, pos: usize, l: &str) -> (r: bool)
    requires
        pos <= t@.len(),
    ensures
        r == lit_matches_at(t@, pos as int, l@),
{
    let tlen = t.unicode_len();
    let ll = l.unicode_len();
    if ll > tlen - pos {
        return false;
    }
    str_eq(t.substring_char(pos, pos + ll), l)
}

/// Finds the first position at or after `i` where the literal `l` stands in
/// `t`, mirroring [`find_from`].
fn find_from_exec(t: &str, i: usize, l: &str) -> (r: Option<usize>)
    requires
        i <= t@.len(),
    ensures
        match r {
            Some(k) => find_from(t@, i as int, l@) == Some(k as int) && lit_matches_at(
                t@,
                k as int,
                l@,
            ) && i <= k,
            None => find_from(t@, i as int, l@) is None,
        },
{
    let tlen = t.unicode_len();
    let ll = l.unicode_len();
    if ll > tlen || i > tlen - ll {
        return None;
    }
    if ll == 0 {
        proof {
            assert(t@.subrange(i as int, i as int) =~= l@);
        }
        return Some(i);
    }
    let mut k = i;
    while k <= tlen - ll
        invariant
            i <= k,
            tlen == t@.len(),
            ll == l@.len(),
            1 <= ll <= tlen,
            k <= tlen - ll + 1,
            find_from(t@, i as int, l@) == find_from(t@, k as int, l@),
        decreases tlen - k,
    {
        if lit_at_exec(t, k, l) {
            return Some(k);
        }
        k += 1;
    }
    None
}

/// Matches the chunk elements from index `ei` against the segment text `t`
/// from position `pos`, mirroring [`match_elems`].
fn match_elems_exec(elems: &Vec<SegElement>, ei: usize, t: &str, pos: usize) -> (r: Option<
    Vec<(String, String)>,
>)
    requires
        ei <= elems@.len(),
        pos <= t@.len(),
    ensures
        match r {
            Some(caps) => match_elems(elems_model(elems@), ei as int, t@, pos as int) == Some(
                caps_model(caps@),
            ),
            None => match_elems(elems_model(elems@), ei as int, t@, pos as int) is None,
        },
    decreases elems@.len() - ei,
{
    let tlen = t.unicode_len();
    if ei == elems.len() {
        if pos == tlen {
            let caps: Vec<(String, String)> = Vec::new();
            proof {
                assert(caps_model(caps@) =~= Seq::<Capture>::empty());
            }
            Some(caps)
        } else {
            None
        }
    } else {
        proof {
            assert(elems_model(elems@)[ei as int] == elems@[ei as int]@);
        }
        match &elems[ei] {
            SegElement::Literal(l) => {
                let ll = l.as_str().unicode_len();
                if lit_at_exec(t, pos, l.as_str()) {
                    match_elems_exec(elems, ei + 1, t, pos + ll)
                } else {
                    None
                }
            },
            SegElement::Placeholder(name) => {
                if ei + 1 == elems.len() {
                    if pos < tlen {
                        let cap = t.substring_char(pos, tlen).to_owned();
                        let mut caps: Vec<(String, String)> = Vec::new();
                        caps.push((name.clone(), cap));
                        proof {
                            assert(caps_model(caps@) =~= seq![
                                (name@, t@.subrange(pos as int, tlen as int)),
                            ]);
                        }
                        Some(caps)
                    } else {
                        None
                    }
                } else {
                    proof {
                        assert(elems_model(elems@)[ei + 1 as int] == elems@[ei + 1 as int]@);
                    }
                    match &elems[ei + 1] {
                        SegElement::Literal(l) => {
                            if pos >= tlen {
                                return None;
                            }
                            let ll = l.as_str().unicode_len();
                            match find_from_exec(t, pos + 1, l.as_str()) {
                                Some(k) => match match_elems_exec(elems, ei + 2, t, k + ll) {
                                    Some(mut rest) => {
                                        let cap = t.substring_char(pos, k).to_owned();
                                        let mut caps: Vec<(String, String)> = Vec::new();
                                        caps.push((name.clone(), cap));
                                        let ghost rest0 = rest@;
                                        caps.append(&mut rest);
                                        proof {
                                            assert(caps_model(caps@) =~= seq![
                                                (name@, t@.subrange(pos as int, k as int)),
                                            ] + caps_model(rest0));
                                        }
                                        Some(caps)
                                    },
                                    None => None,
                                },
                                None => None,
                            }
                        },
                        SegElement::Placeholder(_) => None,
                    }
                }
            },
        }
    }
}

/// A compiled path pattern: an ordered list of chunks, an optional tail
/// placeholder, a prefix flag, and a caller-assigned numeric id.
#[derive(Debug)]
pub struct ResourceDef {
    id: u16,
    prefix: bool,
    segments: Vec<PatternSegment>,
    tail: Option<String>,
}

impl ResourceDef {
    /// The compiled chunks, in order.
    pub closed spec fn segs(&self) -> Seq<Seq<ElemModel>> {
        segs_model(self.segments@)
    }

    /// The tail placeholder's name, when the pattern ends in one.
    pub closed spec fn tail_name(&self) -> Option<Seq<char>> {
        match self.tail {
            Some(ref n) => Some(n@),
            None => None,
        }
    }

    /// Whether the pattern matches only a leading portion of the path.
    pub closed spec fn is_prefix(&self) -> bool {
        self.prefix
    }

    /// The pattern's numeric id.
    pub closed spec fn spec_id(&self) -> u16 {
        self.id
    }

    /// What matching this pattern against the path text `s` yields.
    pub open spec fn matches(&self, s: Seq<char>) -> Option<(int, Seq<Capture>)> {
        def_match(self.segs(), self.tail_name(), self.is_prefix(), s)
    }

    /// Compiles a pattern, mirroring [`parse_pattern`]. `prefix` makes the
    /// result match only a leading portion of the path.
    fn parse_impl(pattern: &str, prefix: bool) -> (r: Result<ResourceDef, PatternError>)
        ensures
            match r {
                Ok(d) => match parse_pattern(pattern@, 0) {
                    Ok(m) => d.segs() == m.0 && d.tail_name() == m.1 && d.is_prefix() == prefix
                        && d.spec_id() == 0,
                    Err(_) => false,
                },
                Err(e) => parse_pattern(pattern@, 0) == Err::<
                    (Seq<Seq<ElemModel>>, Option<Seq<char>>),
                    PatternError,
                >(e),
            },
    {
        let plen = pattern.unicode_len();
        let mut segments: Vec<PatternSegment> = Vec::new();
        let mut i: usize = 0;
        proof {
            match parse_pattern(pattern@, 0) {
                Ok(m) => {
                    assert(segs_model(segments@) + m.0 =~= m.0);
                },
                Err(_) => {},
            }
        }
        loop
            invariant
                i <= plen,
                plen == pattern@.len(),
                match parse_pattern(pattern@, i as int) {
                    Ok(m) => parse_pattern(pattern@, 0) == Ok::<
                        (Seq<Seq<ElemModel>>, Option<Seq<char>>),
                        PatternError,
                    >((segs_model(segments@) + m.0, m.1)),
                    Err(e) => parse_pattern(pattern@, 0) == Err::<
                        (Seq<Seq<ElemModel>>, Option<Seq<char>>),
                        PatternError,
                    >(e),
                },
            decreases plen - i,
        {
            let e = scan_to2_exec(pattern, i, '/', '/');
            let last = e >= plen;
            let chunk = pattern.substring_char(i, e);
            match parse_chunk_exec(chunk, last) {
                Err(err) => {
                    return Err(err);
                },
                Ok((elems, tailn)) => {
                    if last {
                        match tailn {
                            Some(tn) => {
                                proof {
                                    assert(segs_model(segments@) + seq![] =~= segs_model(
                                        segments@,
                                    ));
                                }
                                let d = ResourceDef {
                                    id: 0,
                                    prefix,
                                    segments,
                                    tail: Some(tn),
                                };
                                return Ok(d);
                            },
                            None => {
                                let ghost old_segs = segments@;
                                segments.push(PatternSegment { elements: elems });
                                proof {
                                    assert(segs_model(segments@) =~= segs_model(old_segs)
                                        + seq![elems_model(elems@)]);
                                }
                                let d = ResourceDef { id: 0, prefix, segments, tail: None };
                                return Ok(d);
                            },
                        }
                    } else {
                        let ghost old_segs = segments@;
                        segments.push(PatternSegment { elements: elems });
                        proof {
                            match parse_pattern(pattern@, e + 1 as int) {
                                Ok(mp) => {
                                    assert(segs_model(segments@) =~= segs_model(old_segs).push(
                                        elems_model(elems@),
                                    ));
                                    assert(segs_model(old_segs).push(elems_model(elems@)) + mp.0
                                        =~= segs_model(old_segs) + (seq![elems_model(elems@)]
                                        + mp.0));
                                },
                                Err(_) => {},
                            }
                        }
                        i = e + 1;
                    }
                },
            }
        }
    }

    /// Compiles `pattern` into an exact-match definition. The result is
    /// `Ok` exactly when the pattern text is well formed, and each error
    /// names the first flaw found scanning left to right.
    pub fn parse(pattern: &str) -> (r: Result<ResourceDef, PatternError>)
        ensures
            match r {
                Ok(d) => match parse_pattern(pattern@, 0) {
                    Ok(m) => d.segs() == m.0 && d.tail_name() == m.1 && !d.is_prefix()
                        && d.spec_id() == 0,
                    Err(_) => false,
                },
                Err(e) => parse_pattern(pattern@, 0) == Err::<
                    (Seq<Seq<ElemModel>>, Option<Seq<char>>),
                    PatternError,
                >(e),
            },
    {
        Self::parse_impl(pattern, false)
    }

    /// Compiles `pattern` into a prefix definition: one that may consume
    /// only a leading portion of the path, stopping at a slash boundary.
    pub fn parse_prefix(pattern: &str) -> (r: Result<ResourceDef, PatternError>)
        ensures
            match r {
                Ok(d) => match parse_pattern(pattern@, 0) {
                    Ok(m) => d.segs() == m.0 && d.tail_name() == m.1 && d.is_prefix()
                        && d.spec_id() == 0,
                    Err(_) => false,
                },
                Err(e) => parse_pattern(pattern@, 0) == Err::<
                    (Seq<Seq<ElemModel>>, Option<Seq<char>>),
                    PatternError,
                >(e),
            },
    {
        Self::parse_impl(pattern, true)
    }

    /// Compiles a well-formed pattern into an exact-match definition.
    pub fn new(pattern: &str) -> (d: ResourceDef)
        requires
            parse_pattern(pattern@, 0) is Ok,
        ensures
            match parse_pattern(pattern@, 0) {
                Ok(m) => d.segs() == m.0 && d.tail_name() == m.1 && !d.is_prefix() && d.spec_id()
                    == 0,
                Err(_) => false,
            },
    {
        match Self::parse(pattern) {
            Ok(d) => d,
            Err(_) => vstd::pervasive::unreached(),
        }
    }

    /// Compiles a well-formed pattern into a prefix definition.
    pub fn prefix(pattern: &str) -> (d: ResourceDef)
        requires
            parse_pattern(pattern@, 0) is Ok,
        ensures
            match parse_pattern(pattern@, 0) {
                Ok(m) => d.segs() == m.0 && d.tail_name() == m.1 && d.is_prefix() && d.spec_id()
                    == 0,
                Err(_) => false,
            },
    {
        match Self::parse_prefix(pattern) {
            Ok(d) => d,
            Err(_) => vstd::pervasive::unreached(),
        }
    }

    /// Matches this pattern against the path text `s` without mutating
    /// anything. On success: how many leading characters of `s` the match
    /// consumes, and the captures in placeholder order.
    pub fn capture_match(&self, s: &str) -> (r: Option<(usize, Vec<(String, String)>)>)
        ensures
            match r {
                Some(p) => self.matches(s@) == Some((p.0 as int, caps_model(p.1@))) && p.0
                    <= s@.len(),
                None => self.matches(s@) is None,
            },
    {
        let slen = s.unicode_len();
        let mut pos: usize = 0;
        let mut caps: Vec<(String, String)> = Vec::new();
        let mut si: usize = 0;
        proof {
            match match_segments(self.segs(), 0, s@, 0) {
                Some(m) => {
                    assert(caps_model(caps@) + m.1 =~= m.1);
                },
                None => {},
            }
        }
        while si < self.segments.len()
            invariant
                slen == s@.len(),
                pos <= slen,
                si <= self.segments@.len(),
                self.segs().len() == self.segments@.len(),
                match match_segments(self.segs(), si as int, s@, pos as int) {
                    Some(m) => match_segments(self.segs(), 0, s@, 0) == Some(
                        (m.0, caps_model(caps@) + m.1),
                    ),
                    None => match_segments(self.segs(), 0, s@, 0) is None,
                },
            decreases self.segments@.len() - si,
        {
            let start: usize;
            if si == 0 {
                start = pos;
            } else {
                if !(pos < slen && s.get_char(pos) == '/') {
                    return None;
                }
                start = pos + 1;
            }
            let e = scan_to2_exec(s, start, '/', '/');
            let t = s.substring_char(start, e);
            proof {
                assert(self.segs()[si as int] == elems_model(self.segments@[si as int].elements@));
            }
            match match_elems_exec(&self.segments[si].elements, 0, t, 0) {
                None => {
                    return None;
                },
                Some(mut ecaps) => {
                    let ghost old_caps = caps@;
                    let ghost ecaps0 = ecaps@;
                    caps.append(&mut ecaps);
                    proof {
                        match match_segments(self.segs(), si + 1 as int, s@, e as int) {
                            Some(mp) => {
                                assert(caps_model(caps@) =~= caps_model(old_caps) + caps_model(
                                    ecaps0,
                                ));
                                assert(caps_model(old_caps) + (caps_model(ecaps0) + mp.1)
                                    =~= (caps_model(old_caps) + caps_model(ecaps0)) + mp.1);
                            },
                            None => {},
                        }
                    }
                    pos = e;
                    si += 1;
                },
            }
        }
        proof {
            assert(caps_model(caps@) + seq![] =~= caps_model(caps@));
        }
        match &self.tail {
            Some(name) => {
                if self.segments.len() == 0 {
                    let cap = s.to_owned();
                    let ghost old_caps = caps@;
                    caps.push((name.clone(), cap));
                    proof {
                        assert(caps_model(caps@) =~= caps_model(old_caps) + seq![(name@, s@)]);
                    }
                    Some((slen, caps))
                } else if pos < slen && s.get_char(pos) == '/' {
                    let cap = s.substring_char(pos + 1, slen).to_owned();
                    let ghost old_caps = caps@;
                    caps.push((name.clone(), cap));
                    proof {
                        assert(caps_model(caps@) =~= caps_model(old_caps) + seq![
                            (name@, s@.subrange(pos + 1 as int, slen as int)),
                        ]);
                    }
                    Some((slen, caps))
                } else {
                    None
                }
            },
            None => {
                if self.prefix {
                    if pos == slen || s.get_char(pos) == '/' {
                        Some((pos, caps))
                    } else {
                        None
                    }
                } else {
                    if pos == slen {
                        Some((pos, caps))
                    } else {
                        None
                    }
                }
            },
        }
    }

    /// The pattern's numeric id, 0 until [`ResourceDef::set_id`] assigns it.
    pub fn id(&self) -> (r: u16)
        ensures
            r == self.spec_id(),
    {
        self.id
    }

    /// Assigns the pattern's numeric id.
    pub fn set_id(&mut self, id: u16)
        ensures
            final(self).spec_id() == id,
            final(self).segs() == old(self).segs(),
            final(self).tail_name() == old(self).tail_name(),
            final(self).is_prefix() == old(self).is_prefix(),
    {
        self.id = id;
    }
}

} // verus!
