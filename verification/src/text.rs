//! String helpers, specified over `Seq<char>` views.
//!
//! Texts are read through `chars_of` and built from slices of existing texts,
//! so every result is stated exactly over the characters of its arguments.

use vstd::prelude::*;
use vstd::std_specs::iter::IteratorSpec;
use vstd::string::*;

verus! {

/// ASCII lower-casing of one character.
pub open spec fn lower_char(c: char) -> char {
    if 'A' <= c && c <= 'Z' {
        ((c as u8 + 32) as u8) as char
    } else {
        c
    }
}

/// ASCII lower-casing of a whole text.
pub open spec fn lower_text(s: Seq<char>) -> Seq<char> {
    s.map_values(|c: char| lower_char(c))
}

/// Whether `needle` occurs in `hay` at position `at`.
pub open spec fn occurs_at(hay: Seq<char>, needle: Seq<char>, at: int) -> bool {
    0 <= at && at + needle.len() <= hay.len() && hay.subrange(at, at + needle.len()) == needle
}

/// Whether `needle` occurs anywhere in `hay`.
pub open spec fn contains_text(hay: Seq<char>, needle: Seq<char>) -> bool {
    exists|at: int| occurs_at(hay, needle, at)
}

/// `s` with every occurrence of `from` replaced by `to`, scanning left to
/// right without overlap. An empty `from` replaces nothing.
pub open spec fn replaced(s: Seq<char>, from: Seq<char>, to: Seq<char>) -> Seq<char>
    decreases s.len(),
{
    if from.len() == 0 || s.len() < from.len() {
        s
    } else if s.subrange(0, from.len() as int) == from {
        to + replaced(s.skip(from.len() as int), from, to)
    } else {
        seq![s[0]] + replaced(s.skip(1), from, to)
    }
}

/// The characters that `trimmed` strips: Unicode white space.
pub open spec fn is_space(c: char) -> bool {
    let n = c as u32;
    (0x09 <= n && n <= 0x0D) || n == 0x20 || n == 0x85 || n == 0xA0 || n == 0x1680 || (0x2000 <= n
        && n <= 0x200A) || n == 0x2028 || n == 0x2029 || n == 0x202F || n == 0x205F || n == 0x3000
}

/// Number of leading white-space characters.
pub open spec fn leading_spaces(s: Seq<char>) -> nat
    decreases s.len(),
{
    if s.len() > 0 && is_space(s[0]) {
        1 + leading_spaces(s.skip(1))
    } else {
        0
    }
}

/// Number of trailing white-space characters.
pub open spec fn trailing_spaces(s: Seq<char>) -> nat
    decreases s.len(),
{
    if s.len() > 0 && is_space(s.last()) {
        1 + trailing_spaces(s.drop_last())
    } else {
        0
    }
}

/// `s` without leading and trailing white space.
pub open spec fn trimmed(s: Seq<char>) -> Seq<char> {
    let front = s.skip(leading_spaces(s) as int);
    front.take(front.len() - trailing_spaces(front))
}

/// The pieces of `s` between occurrences of `sep`; never empty.
pub open spec fn split_text(s: Seq<char>, sep: char) -> Seq<Seq<char>>
    decreases s.len(),
{
    if s.len() == 0 {
        seq![Seq::<char>::empty()]
    } else {
        let init = split_text(s.drop_last(), sep);
        if s.last() == sep {
            init.push(Seq::<char>::empty())
        } else {
            init.update(init.len() - 1, init.last().push(s.last()))
        }
    }
}

/// The texts of `parts` with `sep` between neighbours.
pub open spec fn joined(parts: Seq<Seq<char>>, sep: Seq<char>) -> Seq<char>
    decreases parts.len(),
{
    if parts.len() == 0 {
        Seq::<char>::empty()
    } else if parts.len() == 1 {
        parts[0]
    } else {
        joined(parts.drop_last(), sep) + sep + parts.last()
    }
}

/// Lower-cases one character, leaving everything outside `A..=Z` alone.
pub fn to_lower(c: char) -> (r: char)
    ensures
        r == lower_char(c),
{
    if 'A' <= c && c <= 'Z' {
        let b: u8 = c as u8;
        let l: u8 = b + 32;
        l as char
    } else {
        c
    }
}

/// Copies a text.
pub fn owned(s: &str) -> (r: String)
    ensures
        r@ == s@,
{
    String::from_str(s)
}

/// The characters of a text, for indexed access.
pub fn chars_of(s: &str) -> (v: Vec<char>)
    ensures
        v@ == s@,
{
    let mut v: Vec<char> = Vec::new();
    let mut it = s.chars();
    assert(v@ + it.remaining() =~= s@);
    loop
        invariant
            it.obeys_prophetic_iter_laws(),
            v@ + it.remaining() == s@,
            it.decrease() is Some,
        ensures
            v@ == s@,
        decreases it.decrease()->0,
    {
        match it.next() {
            Some(c) => {
                v.push(c);
                assert(v@ + it.remaining() =~= s@);
            },
            None => {
                assert(v@ + it.remaining() =~= v@);
                break;
            },
        }
    }
    v
}

/// Whether two texts hold the same characters.
pub fn same_text(a: &str, b: &str) -> (r: bool)
    ensures
        r == (a@ == b@),
{
    let x = chars_of(a);
    let y = chars_of(b);
    if x.len() != y.len() {
        return false;
    }
    let mut i: usize = 0;
    while i < x.len()
        invariant
            i <= x.len(),
            x.len() == y.len(),
            x@ == a@,
            y@ == b@,
            x@.take(i as int) == y@.take(i as int),
        decreases x.len() - i,
    {
        if x[i] != y[i] {
            assert(a@[i as int] != b@[i as int]);
            return false;
        }
        i += 1;
        assert(x@.take(i as int) =~= x@.take(i - 1).push(x@[i - 1]));
        assert(y@.take(i as int) =~= y@.take(i - 1).push(y@[i - 1]));
    }
    assert(x@.take(x.len() as int) =~= x@);
    assert(y@.take(y.len() as int) =~= y@);
    true
}

/// Whether `hay` holds `needle` at position `at`, on characters.
fn matches_at(hay: &Vec<char>, needle: &Vec<char>, at: usize, fold: bool) -> (r: bool)
    requires
        at + needle.len() <= hay.len(),
    ensures
        fold ==> r == occurs_at(lower_text(hay@), needle@, at as int),
        !fold ==> r == occurs_at(hay@, needle@, at as int),
{
    let ghost h = if fold {
        lower_text(hay@)
    } else {
        hay@
    };
    let mut j: usize = 0;
    while j < needle.len()
        invariant
            j <= needle.len(),
            at + needle.len() <= hay.len(),
            h.len() == hay@.len(),
            fold ==> h == lower_text(hay@),
            !fold ==> h == hay@,
            h.subrange(at as int, at + j) == needle@.take(j as int),
        decreases needle.len() - j,
    {
        let c = if fold {
            to_lower(hay[at + j])
        } else {
            hay[at + j]
        };
        assert(c == h[at + j]);
        if c != needle[j] {
            assert(h.subrange(at as int, at + needle.len())[j as int] != needle@[j as int]);
            return false;
        }
        j += 1;
        assert(h.subrange(at as int, at + j) =~= h.subrange(at as int, at + j - 1).push(
            h[at + j - 1],
        ));
        assert(needle@.take(j as int) =~= needle@.take(j - 1).push(needle@[j - 1]));
    }
    assert(needle@.take(needle.len() as int) =~= needle@);
    true
}

/// Whether `hay` holds `needle` at position `at`.
pub fn starts_with_at(hay: &Vec<char>, needle: &Vec<char>, at: usize) -> (r: bool)
    ensures
        r == occurs_at(hay@, needle@, at as int),
{
    if at > hay.len() || needle.len() > hay.len() - at {
        return false;
    }
    matches_at(hay, needle, at, false)
}

/// Searches `hay` for `needle`, lower-casing `hay` first where `fold` is set.
fn find_in(hay: &Vec<char>, needle: &Vec<char>, fold: bool) -> (r: bool)
    ensures
        fold ==> r == contains_text(lower_text(hay@), needle@),
        !fold ==> r == contains_text(hay@, needle@),
{
    let ghost h = if fold {
        lower_text(hay@)
    } else {
        hay@
    };
    if needle.len() > hay.len() {
        assert forall|at: int| !occurs_at(h, needle@, at) by {}
        return false;
    }
    let last: usize = hay.len() - needle.len();
    let mut i: usize = 0;
    loop
        invariant
            i <= last,
            last == hay.len() - needle.len(),
            needle.len() <= hay.len(),
            h.len() == hay@.len(),
            fold ==> h == lower_text(hay@),
            !fold ==> h == hay@,
            forall|at: int| 0 <= at < i ==> !occurs_at(h, needle@, at),
        ensures
            forall|at: int| 0 <= at <= last ==> !occurs_at(h, needle@, at),
        decreases last - i,
    {
        if matches_at(hay, needle, i, fold) {
            assert(occurs_at(h, needle@, i as int));
            return true;
        }
        if i == last {
            break;
        }
        i += 1;
    }
    assert forall|at: int| !occurs_at(h, needle@, at) by {}
    false
}

/// Whether `needle` occurs in `hay`.
pub fn contains(hay: &str, needle: &str) -> (r: bool)
    ensures
        r == contains_text(hay@, needle@),
{
    let h = chars_of(hay);
    let n = chars_of(needle);
    find_in(&h, &n, false)
}

/// Whether `needle` occurs in `hay` once `hay` is lower-cased.
pub fn contains_lowered(hay: &str, needle: &str) -> (r: bool)
    ensures
        r == contains_text(lower_text(hay@), needle@),
{
    let h = chars_of(hay);
    let n = chars_of(needle);
    find_in(&h, &n, true)
}

/// Whether `s` begins with `prefix`.
pub fn starts_with(s: &str, prefix: &str) -> (r: bool)
    ensures
        r == occurs_at(s@, prefix@, 0),
{
    let h = chars_of(s);
    let n = chars_of(prefix);
    if n.len() > h.len() {
        return false;
    }
    matches_at(&h, &n, 0, false)
}

/// Whether the lower-cased `s` begins with `prefix`.
pub fn starts_with_lowered(s: &str, prefix: &str) -> (r: bool)
    ensures
        r == occurs_at(lower_text(s@), prefix@, 0),
{
    let h = chars_of(s);
    let n = chars_of(prefix);
    if n.len() > h.len() {
        return false;
    }
    matches_at(&h, &n, 0, true)
}

/// Whether the lower-cased `s` ends with `suffix`.
pub fn ends_with_lowered(s: &str, suffix: &str) -> (r: bool)
    ensures
        r == occurs_at(lower_text(s@), suffix@, s@.len() - suffix@.len()),
{
    let h = chars_of(s);
    let n = chars_of(suffix);
    if n.len() > h.len() {
        return false;
    }
    matches_at(&h, &n, h.len() - n.len(), true)
}

/// Whether two texts are equal once both are lower-cased.
pub fn same_lowered(a: &str, b: &str) -> (r: bool)
    ensures
        r == (lower_text(a@) == lower_text(b@)),
{
    let x = chars_of(a);
    let y = chars_of(b);
    if x.len() != y.len() {
        assert(lower_text(a@).len() != lower_text(b@).len());
        return false;
    }
    let mut i: usize = 0;
    while i < x.len()
        invariant
            i <= x.len(),
            x.len() == y.len(),
            x@ == a@,
            y@ == b@,
            lower_text(a@).take(i as int) == lower_text(b@).take(i as int),
        decreases x.len() - i,
    {
        if to_lower(x[i]) != to_lower(y[i]) {
            assert(lower_text(a@)[i as int] != lower_text(b@)[i as int]);
            return false;
        }
        i += 1;
        assert(lower_text(a@).take(i as int) =~= lower_text(a@).take(i - 1).push(
            lower_text(a@)[i - 1],
        ));
        assert(lower_text(b@).take(i as int) =~= lower_text(b@).take(i - 1).push(
            lower_text(b@)[i - 1],
        ));
    }
    assert(lower_text(a@).take(x.len() as int) =~= lower_text(a@));
    assert(lower_text(b@).take(y.len() as int) =~= lower_text(b@));
    true
}

} // verus!
