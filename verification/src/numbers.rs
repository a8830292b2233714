//! Reading and writing decimal numbers.

use crate::text::{chars_of, owned};
use vstd::prelude::*;
use vstd::string::*;

verus! {

/// Whether `c` is one of `0..=9`.
pub open spec fn is_digit(c: char) -> bool {
    '0' <= c && c <= '9'
}

/// The value of the digit `c`.
pub open spec fn digit_value(c: char) -> nat
    recommends
        is_digit(c),
{
    (c as u32 - '0' as u32) as nat
}

/// Whether every character of `s` is a digit.
pub open spec fn all_digits(s: Seq<char>) -> bool {
    forall|i: int| 0 <= i < s.len() ==> is_digit(#[trigger] s[i])
}

/// The number that the digits of `s` write in base ten.
pub open spec fn decimal_value(s: Seq<char>) -> nat
    decreases s.len(),
{
    if s.len() == 0 {
        0
    } else {
        decimal_value(s.drop_last()) * 10 + digit_value(s.last())
    }
}

/// Length of the run of digits that `s` starts with.
pub open spec fn digit_run(s: Seq<char>) -> nat
    decreases s.len(),
{
    if s.len() > 0 && is_digit(s[0]) {
        1 + digit_run(s.skip(1))
    } else {
        0
    }
}

/// The digits of `n` in base ten, without leading zeros (`0` writes as "0").
pub open spec fn decimal_text(n: nat) -> Seq<char>
    decreases n,
{
    if n < 10 {
        seq![digit_char(n)]
    } else {
        decimal_text(n / 10).push(digit_char(n % 10))
    }
}

/// The character of the digit `d`.
pub open spec fn digit_char(d: nat) -> char
    recommends
        d < 10,
{
    if d == 0 {
        '0'
    } else if d == 1 {
        '1'
    } else if d == 2 {
        '2'
    } else if d == 3 {
        '3'
    } else if d == 4 {
        '4'
    } else if d == 5 {
        '5'
    } else if d == 6 {
        '6'
    } else if d == 7 {
        '7'
    } else if d == 8 {
        '8'
    } else {
        '9'
    }
}

/// How a signed number is written: a minus sign, then the digits.
pub open spec fn signed_text(n: int) -> Seq<char> {
    if n < 0 {
        seq!['-'] + decimal_text((-n) as nat)
    } else {
        decimal_text(n as nat)
    }
}

/// What a text means as a signed number: an optional sign, then at least
/// one digit and nothing else.
pub open spec fn signed_number(s: Seq<char>) -> Option<int> {
    let body = if s.len() > 0 && (s[0] == '-' || s[0] == '+') {
        s.skip(1)
    } else {
        s
    };
    let magnitude = decimal_value(body) as int;
    let value = if s.len() > 0 && s[0] == '-' {
        -magnitude
    } else {
        magnitude
    };
    if body.len() > 0 && all_digits(body) {
        Some(value)
    } else {
        None
    }
}

/// What a text means as a signed 32-bit number.
pub open spec fn signed_value(s: Seq<char>) -> Option<int> {
    match signed_number(s) {
        Some(value) => if -0x8000_0000 <= value && value <= 0x7fff_ffff {
            Some(value)
        } else {
            None
        },
        None => None,
    }
}

/// What a text means as a signed 64-bit number.
pub open spec fn signed_value64(s: Seq<char>) -> Option<int> {
    match signed_number(s) {
        Some(value) => if -0x8000_0000_0000_0000 <= value && value <= 0x7fff_ffff_ffff_ffff {
            Some(value)
        } else {
            None
        },
        None => None,
    }
}

/// What a version component means: the number written by its leading run of
/// digits, if there is such a run and the number fits in 32 bits.
pub open spec fn leading_number(s: Seq<char>) -> Option<u32> {
    let run = digit_run(s);
    let value = decimal_value(s.take(run as int));
    if run > 0 && value <= u32::MAX {
        Some(value as u32)
    } else {
        None
    }
}

/// Whether a character is a decimal digit.
pub fn is_ascii_digit(c: char) -> (r: bool)
    ensures
        r == is_digit(c),
{
    '0' <= c && c <= '9'
}

/// Reads the digits of `h` from `from` on, stopping at the first character
/// that is no digit. Returns where it stopped and the value, unless that is
/// above `limit`.
fn read_digits(h: &Vec<char>, from: usize, limit: u128) -> (r: (usize, Option<u128>))
    requires
        from <= h.len(),
        limit <= 0xffff_ffff_ffff_ffff,
    ensures
        r.0 == from + digit_run(h@.skip(from as int)),
        r.0 <= h.len(),
        r.1 is Some <==> decimal_value(h@.subrange(from as int, r.0 as int)) <= limit,
        r.1 is Some ==> r.1->0 == decimal_value(h@.subrange(from as int, r.0 as int)),
{
    let mut i: usize = from;
    let mut acc: u128 = 0;
    let mut over = false;
    assert(h@.subrange(from as int, from as int) =~= Seq::<char>::empty());
    assert(h@.skip(from as int).skip(0) =~= h@.skip(from as int));
    while i < h.len() && is_ascii_digit(h[i])
        invariant
            from <= i <= h.len(),
            limit <= 0xffff_ffff_ffff_ffff,
            digit_run(h@.skip(from as int)) == (i - from) + digit_run(h@.skip(i as int)),
            !over ==> acc == decimal_value(h@.subrange(from as int, i as int)) && acc <= limit,
            over ==> decimal_value(h@.subrange(from as int, i as int)) > limit,
        decreases h.len() - i,
    {
        let ghost before = h@.subrange(from as int, i as int);
        let ghost after = h@.subrange(from as int, i + 1);
        assert(after.drop_last() =~= before);
        assert(after.last() == h@[i as int]);
        assert(h@.skip(i as int).skip(1) =~= h@.skip(i + 1));
        assert(h@.skip(i as int)[0] == h@[i as int]);
        let d: u128 = (h[i] as u32 - '0' as u32) as u128;
        assert(d == digit_value(h@[i as int]));
        if !over {
            let next: u128 = acc * 10 + d;
            if next > limit {
                over = true;
            } else {
                acc = next;
            }
        }
        i += 1;
    }
    if over {
        (i, None)
    } else {
        (i, Some(acc))
    }
}

/// Reads the leading digits of a version component.
pub fn parse_leading_number(s: &str) -> (r: Option<u32>)
    ensures
        r == leading_number(s@),
{
    let h = chars_of(s);
    let (end, value) = read_digits(&h, 0, 0xffff_ffff);
    assert(h@.skip(0) =~= h@);
    assert(h@.subrange(0, end as int) =~= s@.take(end as int));
    if end == 0 {
        return None;
    }
    match value {
        Some(v) => Some(v as u32),
        None => None,
    }
}

/// Where every character from `from` on is a digit, the digit run ends at
/// the end of the text, and the other way round.
proof fn lemma_run_to_end(s: Seq<char>)
    ensures
        digit_run(s) == s.len() <==> all_digits(s),
        digit_run(s) <= s.len(),
    decreases s.len(),
{
    if s.len() > 0 {
        lemma_run_to_end(s.skip(1));
        if is_digit(s[0]) {
            if all_digits(s.skip(1)) {
                assert forall|i: int| 0 <= i < s.len() implies is_digit(#[trigger] s[i]) by {
                    if i > 0 {
                        assert(s[i] == s.skip(1)[i - 1]);
                    }
                }
            }
            if all_digits(s) {
                assert forall|i: int| 0 <= i < s.skip(1).len() implies is_digit(
                    #[trigger] s.skip(1)[i],
                ) by {
                    assert(s.skip(1)[i] == s[i + 1]);
                }
            }
        } else {
            assert(!all_digits(s));
        }
    }
}

/// Reads a signed 64-bit number: an optional sign, then digits only.
pub fn parse_i64(s: &str) -> (r: Option<i64>)
    ensures
        r is Some <==> signed_value64(s@) is Some,
        r is Some ==> r->0 as int == signed_value64(s@)->0,
{
    let h = chars_of(s);
    let negative = h.len() > 0 && h[0] == '-';
    let signed = h.len() > 0 && (h[0] == '-' || h[0] == '+');
    let from: usize = if signed {
        1
    } else {
        0
    };
    let ghost body = if signed {
        s@.skip(1)
    } else {
        s@
    };
    assert(body =~= h@.skip(from as int));
    let (end, value) = read_digits(&h, from, 0x8000_0000_0000_0000);
    proof {
        lemma_run_to_end(body);
        if end == h.len() {
            assert(h@.subrange(from as int, end as int) =~= body);
        }
    }
    if end != h.len() || end == from {
        return None;
    }
    match value {
        None => None,
        Some(v) => {
            if negative {
                if v == 0x8000_0000_0000_0000 {
                    Some(i64::MIN)
                } else {
                    Some(-(v as i64))
                }
            } else if v <= 0x7fff_ffff_ffff_ffff {
                Some(v as i64)
            } else {
                None
            }
        },
    }
}

/// Reads a signed 32-bit number: an optional sign, then digits only.
pub fn parse_i32(s: &str) -> (r: Option<i32>)
    ensures
        r is Some <==> signed_value(s@) is Some,
        r is Some ==> r->0 as int == signed_value(s@)->0,
{
    let h = chars_of(s);
    let negative = h.len() > 0 && h[0] == '-';
    let signed = h.len() > 0 && (h[0] == '-' || h[0] == '+');
    let from: usize = if signed {
        1
    } else {
        0
    };
    let ghost body = if signed {
        s@.skip(1)
    } else {
        s@
    };
    assert(body =~= h@.skip(from as int));
    let (end, value) = read_digits(&h, from, 0x8000_0000);
    proof {
        lemma_run_to_end(body);
        if end == h.len() {
            assert(h@.subrange(from as int, end as int) =~= body);
        }
    }
    if end != h.len() || end == from {
        return None;
    }
    match value {
        None => None,
        Some(v) => {
            if negative {
                if v == 0x8000_0000 {
                    Some(i32::MIN)
                } else {
                    Some(-(v as i32))
                }
            } else if v <= 0x7fff_ffff {
                Some(v as i32)
            } else {
                None
            }
        },
    }
}

/// The text of one decimal digit.
fn digit_text(d: u128) -> (r: &'static str)
    requires
        d < 10,
    ensures
        r@ == seq![digit_char(d as nat)],
{
    proof {
        reveal_strlit("0");
        reveal_strlit("1");
        reveal_strlit("2");
        reveal_strlit("3");
        reveal_strlit("4");
        reveal_strlit("5");
        reveal_strlit("6");
        reveal_strlit("7");
        reveal_strlit("8");
        reveal_strlit("9");
    }
    let r = if d == 0 {
        "0"
    } else if d == 1 {
        "1"
    } else if d == 2 {
        "2"
    } else if d == 3 {
        "3"
    } else if d == 4 {
        "4"
    } else if d == 5 {
        "5"
    } else if d == 6 {
        "6"
    } else if d == 7 {
        "7"
    } else if d == 8 {
        "8"
    } else {
        "9"
    };
    assert(r@ =~= seq![digit_char(d as nat)]);
    r
}

/// Writes an unsigned number in base ten.
pub fn unsigned_to_text(n: u128) -> (r: String)
    ensures
        r@ == decimal_text(n as nat),
    decreases n,
{
    if n < 10 {
        owned(digit_text(n))
    } else {
        let mut out = unsigned_to_text(n / 10);
        out.append(digit_text(n % 10));
        assert(out@ =~= decimal_text((n / 10) as nat).push(digit_char((n % 10) as nat)));
        out
    }
}

/// Writes a signed 32-bit number in base ten.
pub fn i32_to_text(n: i32) -> (r: String)
    ensures
        r@ == signed_text(n as int),
{
    if n < 0 {
        let magnitude: u128 = (-(n as i64)) as u128;
        let mut out = owned("-");
        proof {
            reveal_strlit("-");
        }
        let digits = unsigned_to_text(magnitude);
        out.append(digits.as_str());
        assert(out@ =~= seq!['-'] + decimal_text((-n) as nat));
        out
    } else {
        unsigned_to_text(n as u128)
    }
}

} // verus!
