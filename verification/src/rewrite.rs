//! Building texts: replacing, trimming, splitting and joining.

use crate::text::{chars_of, is_space, joined, leading_spaces, owned, replaced, split_text,
    starts_with_at, trailing_spaces, trimmed};
use vstd::prelude::*;
use vstd::string::*;

verus! {

/// The views of a list of texts.
pub open spec fn texts(v: Seq<String>) -> Seq<Seq<char>> {
    Seq::new(v.len(), |i: int| v[i]@)
}

/// Replaces every occurrence of `from` in `s` by `to`, left to right.
pub fn replace_all(s: &str, from: &str, to: &str) -> (r: String)
    ensures
        r@ == replaced(s@, from@, to@),
{
    let h = chars_of(s);
    let f = chars_of(from);
    if f.len() == 0 {
        return owned(s);
    }
    let mut out = String::new();
    // `kept` is where the characters begin that were passed over since the
    // last replacement and not yet copied
    let mut kept: usize = 0;
    let mut i: usize = 0;
    assert(s@.skip(0) =~= s@);
    assert(out@ + s@.subrange(0, 0) + replaced(s@, from@, to@) =~= replaced(s@, from@, to@));
    while i < h.len()
        invariant
            kept <= i <= h.len(),
            h@ == s@,
            f@ == from@,
            f.len() > 0,
            out@ + s@.subrange(kept as int, i as int) + replaced(s@.skip(i as int), from@, to@)
                == replaced(s@, from@, to@),
        decreases h.len() - i,
    {
        let ghost rest = s@.skip(i as int);
        let ghost before = out@;
        let ghost run = s@.subrange(kept as int, i as int);
        if f.len() <= h.len() - i && starts_with_at(&h, &f, i) {
            assert(rest.subrange(0, from@.len() as int) =~= s@.subrange(i as int, i + f.len()));
            assert(rest.skip(from@.len() as int) =~= s@.skip(i + f.len()));
            out.append(s.substring_char(kept, i));
            out.append(to);
            i += f.len();
            kept = i;
            assert(out@ + s@.subrange(kept as int, i as int) + replaced(
                s@.skip(i as int),
                from@,
                to@,
            ) =~= before + run + (to@ + replaced(rest.skip(from@.len() as int), from@, to@)));
        } else {
            proof {
                if f.len() <= h.len() - i {
                    assert(rest.subrange(0, from@.len() as int) =~= s@.subrange(
                        i as int,
                        i + f.len(),
                    ));
                }
                assert(rest.skip(1) =~= s@.skip(i + 1));
                if rest.len() < from@.len() {
                    lemma_replaced_short(rest, from@, to@);
                    lemma_replaced_short(rest.skip(1), from@, to@);
                    assert(rest =~= seq![rest[0]] + rest.skip(1));
                }
            }
            i += 1;
            assert(out@ + s@.subrange(kept as int, i as int) + replaced(
                s@.skip(i as int),
                from@,
                to@,
            ) =~= before + run + (seq![rest[0]] + replaced(rest.skip(1), from@, to@)));
        }
    }
    assert(s@.skip(i as int) =~= Seq::<char>::empty());
    out.append(s.substring_char(kept, i));
    assert(out@ =~= replaced(s@, from@, to@));
    out
}

/// A text shorter than the pattern is left as it is.
proof fn lemma_replaced_short(s: Seq<char>, from: Seq<char>, to: Seq<char>)
    requires
        s.len() < from.len(),
    ensures
        replaced(s, from, to) == s,
{
}

/// Whether a character is Unicode white space.
pub fn is_whitespace(c: char) -> (r: bool)
    ensures
        r == is_space(c),
{
    let n: u32 = c as u32;
    (0x09 <= n && n <= 0x0D) || n == 0x20 || n == 0x85 || n == 0xA0 || n == 0x1680 || (0x2000 <= n
        && n <= 0x200A) || n == 0x2028 || n == 0x2029 || n == 0x202F || n == 0x205F || n == 0x3000
}

/// Strips leading and trailing white space.
pub fn trim(s: &str) -> (r: &str)
    ensures
        r@ == trimmed(s@),
{
    let h = chars_of(s);
    let mut a: usize = 0;
    assert(s@.skip(0) =~= s@);
    while a < h.len() && is_whitespace(h[a])
        invariant
            a <= h.len(),
            h@ == s@,
            leading_spaces(s@) == a + leading_spaces(s@.skip(a as int)),
        decreases h.len() - a,
    {
        assert(s@.skip(a as int).skip(1) =~= s@.skip(a + 1));
        a += 1;
    }
    assert(leading_spaces(s@) == a);
    let ghost front = s@.skip(a as int);
    let mut b: usize = h.len();
    assert(front.take(b - a) =~= front);
    while b > a && is_whitespace(h[b - 1])
        invariant
            a <= b <= h.len(),
            h@ == s@,
            front == s@.skip(a as int),
            trailing_spaces(front) == (h.len() - b) + trailing_spaces(front.take(b - a)),
        decreases b,
    {
        assert(front.take(b - a).drop_last() =~= front.take(b - a - 1));
        b -= 1;
    } 
    assert(trailing_spaces(front) == h.len() - b);
    assert(front.take(b - a) =~= s@.subrange(a as int, b as int));
    s.substring_char(a, b)
}

/// Splits `s` at every occurrence of `sep`.
pub fn split(s: &str, sep: char) -> (r: Vec<String>)
    ensures
        texts(r@) == split_text(s@, sep),
{
    let h = chars_of(s);
    let mut out: Vec<String> = Vec::new();
    let mut start: usize = 0;
    let mut i: usize = 0;
    assert(s@.take(0) =~= Seq::<char>::empty());
    assert(texts(out@).push(s@.subrange(0, 0)) =~= seq![Seq::<char>::empty()]);
    while i < h.len()
        invariant
            start <= i <= h.len(),
            h@ == s@,
            texts(out@).push(s@.subrange(start as int, i as int)) == split_text(
                s@.take(i as int),
                sep,
            ),
        decreases h.len() - i,
    {
        let ghost done = split_text(s@.take(i as int), sep);
        assert(s@.take(i + 1).drop_last() =~= s@.take(i as int));
        assert(s@.take(i + 1).last() == s@[i as int]);
        if h[i] == sep {
            let ghost before = out@;
            out.push(owned(s.substring_char(start, i)));
            assert(texts(out@) =~= texts(before).push(s@.subrange(start as int, i as int)));
            start = i + 1;
            i += 1;
            assert(s@.subrange(start as int, i as int) =~= Seq::<char>::empty());
        } else {
            i += 1;
            assert(s@.subrange(start as int, i as int) =~= s@.subrange(start as int, i - 1).push(
                s@[i - 1],
            ));
            assert(texts(out@).push(s@.subrange(start as int, i as int)) =~= done.update(
                done.len() - 1,
                done.last().push(s@[i - 1]),
            ));
        }
    }
    assert(s@.take(i as int) =~= s@);
    let ghost before = out@;
    out.push(owned(s.substring_char(start, i)));
    assert(texts(out@) =~= texts(before).push(s@.subrange(start as int, i as int)));
    out
}

/// Joins texts with `sep` between neighbours.
pub fn join(parts: &Vec<String>, sep: &str) -> (r: String)
    ensures
        r@ == joined(texts(parts@), sep@),
{
    let mut out = String::new();
    let mut i: usize = 0;
    assert(texts(parts@).take(0) =~= Seq::<Seq<char>>::empty());
    while i < parts.len()
        invariant
            i <= parts.len(),
            out@ == joined(texts(parts@).take(i as int), sep@),
        decreases parts.len() - i,
    {
        let ghost before = texts(parts@).take(i as int);
        let ghost after = texts(parts@).take(i + 1);
        assert(after.drop_last() =~= before);
        assert(after.last() == parts@[i as int]@);
        if i > 0 {
            out.append(sep);
        } else {
            assert(out@ =~= Seq::<char>::empty());
        }
        out.append(parts[i].as_str());
        i += 1;
    }
    assert(texts(parts@).take(i as int) =~= texts(parts@));
    out
}

/// The text that `{:?}` formatting makes of a text: in quotes, with
/// escapes.
pub uninterp spec fn debug_quoted(s: Seq<char>) -> Seq<char>;

/// Formats a text with `{:?}`, as std's `Debug` for `str` writes it.
#[verifier::external_body]
pub(crate) fn debug_quote(s: &str) -> (r: String)
    ensures
        r@ == debug_quoted(s@),
{
    format!("{:?}", s)
}

/// The pieces of a relative path between slashes, empty pieces left out.
pub open spec fn rel_components(rel: Seq<char>) -> Seq<Seq<char>> {
    split_text(rel, '/').filter(|piece: Seq<char>| piece.len() > 0)
}

/// Splits a relative path into its components.
pub fn split_rel(rel: &str) -> (r: Vec<String>)
    ensures
        texts(r@) == rel_components(rel@),
{
    let pieces = split(rel, '/');
    let mut out: Vec<String> = Vec::new();
    let mut i: usize = 0;
    let ghost keep = |piece: Seq<char>| piece.len() > 0;
    assert(texts(pieces@).take(0) =~= Seq::<Seq<char>>::empty());
    assert(texts(out@) =~= Seq::<Seq<char>>::empty());
    while i < pieces.len()
        invariant
            i <= pieces.len(),
            texts(pieces@) == split_text(rel@, '/'),
            keep == |piece: Seq<char>| piece.len() > 0,
            texts(out@) == texts(pieces@).take(i as int).filter(keep),
        decreases pieces.len() - i,
    {
        let ghost before = texts(pieces@).take(i as int);
        let ghost after = texts(pieces@).take(i + 1);
        proof {
            assert(after =~= before.push(pieces@[i as int]@));
            assert(after.drop_last() =~= before);
            reveal(Seq::filter);
        }
        if pieces[i].as_str().unicode_len() > 0 {
            let ghost old_out = out@;
            out.push(pieces[i].clone());
            assert(texts(out@) =~= texts(old_out).push(pieces@[i as int]@));
        }
        i += 1;
    }
    assert(texts(pieces@).take(i as int) =~= texts(pieces@));
    out
}

} // verus!
