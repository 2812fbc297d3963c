//! Plain-text rendering of values for the observer-facing views: a level in
//! tenths of a decibel as a one-decimal number, and an age in seconds as a
//! "last seen" phrase.

use vstd::prelude::*;
use vstd::slice::slice_index_get;
use crate::numfmt::{decimal_chars, digit_char, u64_to_decimal};

verus! {

/// The one-decimal rendering of a level of `t` tenths: its whole part, a
/// dot, and the tenths digit, with a leading minus sign when negative.
pub open spec fn tenths_chars(t: int) -> Seq<char>
    decreases
            (if t < 0 {
                1int
            } else {
                0int
            }),
{
    if t < 0 {
        seq!['-'] + tenths_chars(-t)
    } else {
        decimal_chars((t / 10) as nat) + seq!['.', digit_char(t % 10)]
    }
}

/// Renders a level of `t` tenths of a decibel with one decimal place.
pub fn tenths_text(t: i64) -> (s: String)
    requires
        t > i64::MIN,
    ensures
        s@ == tenths_chars(t as int),
{
    let a: u64 = if t < 0 {
        (-t) as u64
    } else {
        t as u64
    };
    let mut s = if t < 0 {
        String::from_str("-")
    } else {
        String::new()
    };
    let whole = u64_to_decimal(a / 10);
    s.append(whole.as_str());
    s.append(".");
    let tenth = a % 10;
    let digit = u64_to_decimal(tenth);
    s.append(digit.as_str());
    proof {
        reveal_strlit("-");
        reveal_strlit(".");
        assert(decimal_chars((tenth) as nat) =~= seq![digit_char(tenth as int)]);
        if t < 0 {
            assert(a as int == -(t as int));
            assert(tenths_chars(-(t as int)) =~= decimal_chars(((a as int) / 10) as nat) + seq![
                '.',
                digit_char((a as int) % 10),
            ]);
            assert(s@ =~= tenths_chars(t as int));
        } else {
            assert(s@ =~= tenths_chars(t as int));
        }
    }
    s
}

/// The "last seen" phrase for an age of `n` whole seconds.
pub open spec fn seconds_ago_chars(n: nat) -> Seq<char> {
    if n == 0 {
        "just now"@
    } else if n == 1 {
        "1 second ago"@
    } else {
        decimal_chars(n) + " seconds ago"@
    }
}

/// Renders how long ago something happened, given its age in whole seconds.
pub fn seconds_ago_text(n: u64) -> (s: String)
    ensures
        s@ == seconds_ago_chars(n as nat),
{
    if n == 0 {
        String::from_str("just now")
    } else if n == 1 {
        String::from_str("1 second ago")
    } else {
        let mut s = u64_to_decimal(n);
        s.append(" seconds ago");
        s
    }
}

/// Whether `b` is an ASCII whitespace byte.
pub open spec fn is_ascii_space(b: u8) -> bool {
    b == 32 || (9 <= b && b <= 13)
}

/// The bytes after the leading whitespace.
pub open spec fn skip_spaces(s: Seq<u8>) -> Seq<u8>
    decreases s.len(),
{
    if s.len() == 0 || !is_ascii_space(s[0]) {
        s
    } else {
        skip_spaces(s.drop_first())
    }
}

/// The leading word: the maximal whitespace-free prefix.
pub open spec fn first_word(s: Seq<u8>) -> Seq<u8>
    decreases s.len(),
{
    if s.len() == 0 || is_ascii_space(s[0]) {
        Seq::empty()
    } else {
        seq![s[0]] + first_word(s.drop_first())
    }
}

/// The bytes after the leading word.
pub open spec fn after_word(s: Seq<u8>) -> Seq<u8>
    decreases s.len(),
{
    if s.len() == 0 || is_ascii_space(s[0]) {
        s
    } else {
        after_word(s.drop_first())
    }
}

/// The first two whitespace-separated words, joined by a single space: the
/// short form of a verbose version banner.
pub open spec fn first_two_words(s: Seq<u8>) -> Seq<u8> {
    let w1 = first_word(skip_spaces(s));
    let w2 = first_word(skip_spaces(after_word(skip_spaces(s))));
    if w1.len() == 0 {
        Seq::empty()
    } else if w2.len() == 0 {
        w1
    } else {
        w1 + seq![32u8] + w2
    }
}

/// Whether the byte is ASCII whitespace.
fn ascii_space(b: u8) -> (r: bool)
    ensures
        r == is_ascii_space(b),
{
    b == 32 || (9 <= b && b <= 13)
}

/// Advances past whitespace, from position `i`.
fn scan_spaces(v: &[u8], i: usize) -> (j: usize)
    requires
        i <= v@.len(),
    ensures
        i <= j <= v@.len(),
        skip_spaces(v@.skip(i as int)) == v@.skip(j as int),
    decreases v@.len() - i,
{
    let mut j = i;
    while j < v.len() && ascii_space(*slice_index_get(v, j))
        invariant
            i <= j <= v@.len(),
            skip_spaces(v@.skip(i as int)) == skip_spaces(v@.skip(j as int)),
        decreases v@.len() - j,
    {
        proof {
            assert(v@.skip(j as int).drop_first() =~= v@.skip(j + 1 as int));
        }
        j = j + 1;
    }
    proof {
        if j < v@.len() {
            assert(!is_ascii_space(v@.skip(j as int)[0]));
        } else {
            assert(v@.skip(j as int).len() == 0);
        }
    }
    j
}

/// Advances past the word starting at position `i`.
fn scan_word(v: &[u8], i: usize) -> (j: usize)
    requires
        i <= v@.len(),
    ensures
        i <= j <= v@.len(),
        first_word(v@.skip(i as int)) == v@.subrange(i as int, j as int),
        after_word(v@.skip(i as int)) == v@.skip(j as int),
    decreases v@.len() - i,
{
    let mut j = i;
    while j < v.len() && !ascii_space(*slice_index_get(v, j))
        invariant
            i <= j <= v@.len(),
            first_word(v@.skip(i as int)) == v@.subrange(i as int, j as int) + first_word(
                v@.skip(j as int),
            ),
            after_word(v@.skip(i as int)) == after_word(v@.skip(j as int)),
        decreases v@.len() - j,
    {
        proof {
            assert(v@.skip(j as int).drop_first() =~= v@.skip(j + 1 as int));
            assert(v@.subrange(i as int, j as int) + seq![v@[j as int]] =~= v@.subrange(
                i as int,
                j + 1 as int,
            ));
            assert(v@.subrange(i as int, j as int) + (seq![v@[j as int]] + first_word(
                v@.skip(j + 1 as int),
            )) =~= (v@.subrange(i as int, j as int) + seq![v@[j as int]]) + first_word(
                v@.skip(j + 1 as int),
            ));
        }
        j = j + 1;
    }
    proof {
        if j < v@.len() {
            assert(first_word(v@.skip(j as int)) == Seq::<u8>::empty());
            assert(after_word(v@.skip(j as int)) == v@.skip(j as int));
        } else {
            assert(v@.skip(j as int).len() == 0);
        }
        assert(v@.subrange(i as int, j as int) + Seq::<u8>::empty() =~= v@.subrange(
            i as int,
            j as int,
        ));
    }
    j
}

/// Appends `v[from..to]` to `out`.
fn push_range(out: &mut Vec<u8>, v: &[u8], from: usize, to: usize)
    requires
        from <= to <= v@.len(),
    ensures
        final(out)@ == old(out)@ + v@.subrange(from as int, to as int),
{
    let mut k = from;
    while k < to
        invariant
            from <= k <= to <= v@.len(),
            out@ == old(out)@ + v@.subrange(from as int, k as int),
        decreases to - k,
    {
        out.push(*slice_index_get(v, k));
        proof {
            assert(out@ =~= old(out)@ + v@.subrange(from as int, k + 1 as int));
        }
        k = k + 1;
    }
}

/// The short form of a verbose version banner: its first two words. Words
/// are separated by ASCII whitespace.
pub fn short_version(v: &[u8]) -> (out: Vec<u8>)
    ensures
        out@ == first_two_words(v@),
{
    proof {
        assert(v@.skip(0) =~= v@);
    }
    let a = scan_spaces(v, 0);
    let b = scan_word(v, a);
    let c = scan_spaces(v, b);
    let d = scan_word(v, c);
    let mut out: Vec<u8> = Vec::new();
    if a == b {
        proof {
            assert(first_word(v@.skip(a as int)) =~= Seq::<u8>::empty());
            assert(out@ =~= first_two_words(v@));
        }
        return out;
    }
    push_range(&mut out, v, a, b);
    if c == d {
        proof {
            assert(first_word(v@.skip(c as int)) =~= Seq::<u8>::empty());
            assert(out@ =~= first_two_words(v@));
        }
        return out;
    }
    out.push(32);
    push_range(&mut out, v, c, d);
    proof {
        assert(out@ =~= first_two_words(v@));
    }
    out
}

} // verus!

