//! Operator-facing text cut to a byte limit.
use vstd::prelude::*;

use crate::numbers::{byte_len, char_utf8_len, fit_count, lemma_fit_all, lemma_fit_bytes, lemma_fit_count_le, utf8_len};
use crate::text::{chars_of, slice_chars, string_from_chars};
use crate::numbers::prefix_fitting;

verus! {

/// The longest prefix of `s` that fits in `limit` bytes of UTF-8, cut at a
/// character boundary.
pub open spec fn prefix_bytes_spec(s: Seq<char>, limit: nat) -> Seq<char> {
    s.take(fit_count(s, limit as int) as int)
}

pub fn bounded_prefix_bytes(value: &str, limit: usize) -> (r: String)
    ensures
        r@ == prefix_bytes_spec(value@, limit as nat),
{
    let c = chars_of(value);
    let n = prefix_fitting(&c, limit);
    let p = slice_chars(&c, 0, n);
    proof {
        assert(p@ =~= c@.take(n as int));
    }
    string_from_chars(&p)
}

/// Operator-facing details never exceed their byte limit: the cut text takes
/// at most `limit` bytes of UTF-8, starts the original text, and is the whole
/// text where that fits.
pub proof fn details_fit_their_limit(s: Seq<char>, limit: nat)
    ensures
        byte_len(prefix_bytes_spec(s, limit)) <= limit,
        prefix_bytes_spec(s, limit).len() <= s.len(),
        prefix_bytes_spec(s, limit) == s.take(prefix_bytes_spec(s, limit).len() as int),
        byte_len(s) <= limit ==> prefix_bytes_spec(s, limit) == s,
{
    lemma_fit_bytes(s, limit as int);
    lemma_fit_count_le(s, limit as int);
    if byte_len(s) <= limit {
        lemma_fit_all(s, limit as int);
        assert(s.take(s.len() as int) =~= s);
    }
}

/// How many trailing characters of `s` fit in `limit` bytes of UTF-8.
pub open spec fn tail_fit_count(s: Seq<char>, limit: int) -> nat
    decreases s.len(),
{
    if s.len() == 0 || utf8_len(s.last()) > limit {
        0
    } else {
        1 + tail_fit_count(s.drop_last(), limit - utf8_len(s.last()))
    }
}

/// The longest end of `s` that fits in `limit` bytes, cut at a character
/// boundary.
pub open spec fn tail_bytes_spec(s: Seq<char>, limit: nat) -> Seq<char> {
    s.skip(s.len() - tail_fit_count(s, limit as int))
}

pub proof fn lemma_tail_fit(s: Seq<char>, limit: int)
    requires
        0 <= limit,
    ensures
        tail_fit_count(s, limit) <= s.len(),
        byte_len(s.skip(s.len() - tail_fit_count(s, limit))) <= limit,
        byte_len(s) <= limit ==> tail_fit_count(s, limit) == s.len(),
    decreases s.len(),
{
    if s.len() == 0 || utf8_len(s.last()) > limit {
        assert(s.skip(s.len() as int).len() == 0);
    } else {
        let rest = s.drop_last();
        let l2 = limit - utf8_len(s.last());
        lemma_tail_fit(rest, l2);
        let k = tail_fit_count(rest, l2);
        let t = s.skip(s.len() - (k + 1));
        assert(t.drop_last() =~= rest.skip(rest.len() - k));
        assert(t.last() == s.last());
        assert(byte_len(t) == byte_len(t.drop_last()) + utf8_len(t.last()));
    }
}

/// The number of trailing characters of `s` that fit in `limit` bytes.
pub fn tail_fitting(s: &Vec<char>, limit: usize) -> (r: usize)
    ensures
        r as nat == tail_fit_count(s@, limit as int),
        r <= s.len(),
{
    let mut k: usize = s.len();
    let mut remaining: usize = limit;
    proof {
        assert(s@.take(s.len() as int) =~= s@);
    }
    while k > 0
        invariant
            k <= s.len(),
            remaining <= limit,
            tail_fit_count(s@, limit as int) == (s.len() - k) + tail_fit_count(
                s@.take(k as int),
                remaining as int,
            ),
        decreases k,
    {
        let w = char_utf8_len(s[k - 1]);
        let ghost t = s@.take(k as int);
        proof {
            assert(t.last() == s@[k - 1]);
            assert(t.drop_last() =~= s@.take(k - 1));
        }
        if w > remaining {
            return s.len() - k;
        }
        remaining = remaining - w;
        k = k - 1;
    }
    s.len()
}

/// The longest end of `s` that fits in `limit` bytes.
pub fn tail_chars(s: &Vec<char>, limit: usize) -> (r: Vec<char>)
    ensures
        r@ == tail_bytes_spec(s@, limit as nat),
{
    let n = tail_fitting(s, limit);
    let p = slice_chars(s, s.len() - n, s.len());
    proof {
        assert(p@ =~= s@.skip(s.len() - n));
    }
    p
}

/// Running text never exceeds its byte limit when only its end is kept: the
/// kept text takes at most `limit` bytes of UTF-8, ends the original text,
/// and is the whole text where that fits.
pub proof fn tails_fit_their_limit(s: Seq<char>, limit: nat)
    ensures
        byte_len(tail_bytes_spec(s, limit)) <= limit,
        tail_bytes_spec(s, limit).len() <= s.len(),
        tail_bytes_spec(s, limit) == s.skip(s.len() - tail_bytes_spec(s, limit).len()),
        byte_len(s) <= limit ==> tail_bytes_spec(s, limit) == s,
{
    lemma_tail_fit(s, limit as int);
    if byte_len(s) <= limit {
        assert(s.skip(0) =~= s);
    }
}

} // verus!
