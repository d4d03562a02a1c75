use vstd::prelude::*;

use crate::text::{is_ascii_digit, is_digit};

verus! {

pub open spec fn digit_value(c: char) -> nat {
    ((c as u32) - ('0' as u32)) as nat
}

/// The number that a run of decimal digits denotes.
pub open spec fn digits_value(d: Seq<char>) -> nat
    decreases d.len(),
{
    if d.len() == 0 {
        0
    } else {
        digits_value(d.drop_last()) * 10 + digit_value(d.last())
    }
}

pub open spec fn all_digits(d: Seq<char>) -> bool {
    forall|i: int| 0 <= i < d.len() ==> is_digit(#[trigger] d[i])
}

/// The digits that an unsigned `from_str` reads: one leading `+` is allowed
/// when something follows it.
pub open spec fn unsigned_body(s: Seq<char>) -> Seq<char> {
    if s.len() > 1 && s[0] == '+' {
        s.drop_first()
    } else {
        s
    }
}

/// What `u64::from_str` and its narrower siblings return for `s`, where `max`
/// is the largest value of the target type.
pub open spec fn parse_unsigned_spec(s: Seq<char>, max: nat) -> Option<nat> {
    let d = unsigned_body(s);
    if d.len() > 0 && all_digits(d) && digits_value(d) <= max {
        Some(digits_value(d))
    } else {
        None
    }
}

pub fn parse_unsigned(s: &Vec<char>, max: u64) -> (r: Option<u64>)
    ensures
        match r {
            Some(v) => parse_unsigned_spec(s@, max as nat) == Some(v as nat),
            None => parse_unsigned_spec(s@, max as nat).is_none(),
        },
{
    let start: usize = if s.len() > 1 && s[0] == '+' { 1 } else { 0 };
    let ghost d = unsigned_body(s@);
    proof {
        assert(d =~= s@.subrange(start as int, s.len() as int));
    }
    if start == s.len() {
        return None;
    }
    let mut value: u64 = 0;
    let mut i: usize = start;
    let mut overflow = false;
    while i < s.len()
        invariant
            start <= i <= s.len(),
            d == s@.subrange(start as int, s.len() as int),
            d == unsigned_body(s@),
            all_digits(s@.subrange(start as int, i as int)),
            !overflow ==> value as nat == digits_value(s@.subrange(start as int, i as int)),
            !overflow ==> value <= max,
            overflow ==> digits_value(s@.subrange(start as int, i as int)) > max,
        decreases s.len() - i,
    {
        let c = s[i];
        if !is_ascii_digit(c) {
            proof {
                assert(d[i - start] == c);
                assert(!is_digit(d[i - start]));
                assert(!all_digits(d));
            }
            return None;
        }
        let ghost prev = s@.subrange(start as int, i as int);
        let ghost next = s@.subrange(start as int, i + 1);
        proof {
            assert(next.drop_last() =~= prev);
            assert(next.last() == c);
            assert forall|k: int| 0 <= k < next.len() implies is_digit(#[trigger] next[k]) by {
                if k < prev.len() {
                    assert(next[k] == prev[k]);
                }
            }
        }
        let dv: u64 = (c as u64) - ('0' as u64);
        proof {
            assert(dv as nat == digit_value(c));
        }
        if !overflow {
            if dv > max || value > (max - dv) / 10 {
                overflow = true;
                proof {
                    assert(digits_value(next) == digits_value(prev) * 10 + dv) ;
                    if dv <= max {
                        assert(value * 10 + dv > max) by (nonlinear_arith)
                            requires
                                value > (max - dv) / 10,
                                dv <= max,
                        {
                        }
                    }
                }
            } else {
                proof {
                    assert(value * 10 + dv <= max) by (nonlinear_arith)
                        requires
                            value <= (max - dv) / 10,
                            dv <= max,
                    {
                    }
                }
                value = value * 10 + dv;
            }
        } else {
            proof {
                assert(digits_value(next) == digits_value(prev) * 10 + dv);
                assert(digits_value(prev) * 10 + dv > max) by (nonlinear_arith)
                    requires
                        digits_value(prev) > max,
                {
                }
            }
        }
        i = i + 1;
    }
    if overflow {
        None
    } else {
        Some(value)
    }
}


pub open spec fn digit_char(d: nat) -> char {
    ((d + 48) as u32) as char
}

/// The decimal digits of `n`, as `Display` writes an unsigned integer.
pub open spec fn decimal(n: nat) -> Seq<char>
    decreases n,
{
    if n < 10 {
        seq![digit_char(n)]
    } else {
        decimal(n / 10).push(digit_char(n % 10))
    }
}

pub fn format_u64(n: u64) -> (r: Vec<char>)
    ensures
        r@ == decimal(n as nat),
    decreases n,
{
    if n < 10 {
        let c = ((n as u8) + 48) as char;
        let mut v: Vec<char> = Vec::new();
        v.push(c);
        proof {
            assert(v@ =~= seq![digit_char(n as nat)]);
        }
        v
    } else {
        let mut v = format_u64(n / 10);
        let c = (((n % 10) as u8) + 48) as char;
        v.push(c);
        v
    }
}

/// The decimal text of a signed integer, with a leading `-` when negative.
pub open spec fn signed_decimal(n: int) -> Seq<char> {
    if n < 0 {
        seq!['-'] + decimal((-n) as nat)
    } else {
        decimal(n as nat)
    }
}

pub fn format_i64(n: i64) -> (r: Vec<char>)
    ensures
        r@ == signed_decimal(n as int),
{
    if n < 0 {
        let magnitude: u64 = if n == i64::MIN {
            9223372036854775808u64
        } else {
            (-n) as u64
        };
        let digits = format_u64(magnitude);
        let mut v: Vec<char> = Vec::new();
        v.push('-');
        crate::text::append_chars(&mut v, &digits);
        proof {
            assert(v@ =~= seq!['-'] + decimal((-n) as nat));
        }
        v
    } else {
        format_u64(n as u64)
    }
}

/// The number of bytes that UTF-8 takes for one character.
pub open spec fn utf8_len(c: char) -> nat {
    if (c as u32) < 0x80 {
        1
    } else if (c as u32) < 0x800 {
        2
    } else if (c as u32) < 0x10000 {
        3
    } else {
        4
    }
}

pub fn char_utf8_len(c: char) -> (r: usize)
    ensures
        r as nat == utf8_len(c),
{
    let v = c as u32;
    if v < 0x80 {
        1
    } else if v < 0x800 {
        2
    } else if v < 0x10000 {
        3
    } else {
        4
    }
}

/// The number of bytes that UTF-8 takes for `s`, which is what `str::len` returns.
pub open spec fn byte_len(s: Seq<char>) -> nat
    decreases s.len(),
{
    if s.len() == 0 {
        0
    } else {
        byte_len(s.drop_last()) + utf8_len(s.last())
    }
}

/// How many leading characters of `s` fit in `limit` bytes.
pub open spec fn fit_count(s: Seq<char>, limit: int) -> nat
    decreases s.len(),
{
    if s.len() == 0 || utf8_len(s[0]) > limit {
        0
    } else {
        1 + fit_count(s.drop_first(), limit - utf8_len(s[0]))
    }
}

pub proof fn lemma_fit_count_le(s: Seq<char>, limit: int)
    ensures
        fit_count(s, limit) <= s.len(),
    decreases s.len(),
{
    if s.len() > 0 && utf8_len(s[0]) <= limit {
        lemma_fit_count_le(s.drop_first(), limit - utf8_len(s[0]));
    }
}

/// The number of characters of `s` that fit in `limit` bytes, cut at a
/// character boundary.
pub fn prefix_fitting(s: &Vec<char>, limit: usize) -> (r: usize)
    ensures
        r as nat == fit_count(s@, limit as int),
        r <= s.len(),
{
    let mut i: usize = 0;
    let mut remaining: usize = limit;
    proof {
        assert(s@.subrange(0, s.len() as int) =~= s@);
    }
    while i < s.len()
        invariant
            i <= s.len(),
            remaining <= limit,
            fit_count(s@, limit as int) == i + fit_count(
                s@.subrange(i as int, s.len() as int),
                remaining as int,
            ),
        decreases s.len() - i,
    {
        let w = char_utf8_len(s[i]);
        let ghost t = s@.subrange(i as int, s.len() as int);
        proof {
            assert(t[0] == s@[i as int]);
            assert(t.drop_first() =~= s@.subrange(i + 1, s.len() as int));
        }
        if w > remaining {
            return i;
        }
        remaining = remaining - w;
        i = i + 1;
    }
    i
}

/// Whether `s` takes more than `limit` bytes in UTF-8.
pub fn exceeds_bytes(s: &Vec<char>, limit: usize) -> (r: bool)
    ensures
        r == (byte_len(s@) > limit),
{
    let mut i: usize = 0;
    let mut total: usize = 0;
    while i < s.len()
        invariant
            i <= s.len(),
            total as nat == byte_len(s@.take(i as int)),
            total <= limit,
        decreases s.len() - i,
    {
        proof {
            assert(s@.take(i + 1).drop_last() =~= s@.take(i as int));
        }
        let w = char_utf8_len(s[i]);
        if w > limit - total {
            proof {
                lemma_byte_len_prefix_monotone(s@, i + 1);
            }
            return true;
        }
        total = total + w;
        i = i + 1;
    }
    proof {
        assert(s@.take(s.len() as int) =~= s@);
    }
    false
}

pub proof fn lemma_byte_len_prefix_monotone(s: Seq<char>, k: int)
    requires
        0 <= k <= s.len(),
    ensures
        byte_len(s.take(k)) <= byte_len(s),
    decreases s.len() - k,
{
    if k < s.len() {
        lemma_byte_len_prefix_monotone(s, k + 1);
        assert(s.take(k + 1).drop_last() =~= s.take(k));
    } else {
        assert(s.take(k) =~= s);
    }
}

pub proof fn lemma_fit_all(s: Seq<char>, limit: int)
    requires
        byte_len(s) <= limit,
    ensures
        fit_count(s, limit) == s.len(),
    decreases s.len(),
{
    if s.len() > 0 {
        lemma_byte_len_split_first(s);
        lemma_fit_all(s.drop_first(), limit - utf8_len(s[0]));
    }
}

pub proof fn lemma_byte_len_split_first(s: Seq<char>)
    requires
        s.len() > 0,
    ensures
        byte_len(s) == utf8_len(s[0]) + byte_len(s.drop_first()),
    decreases s.len(),
{
    if s.len() > 1 {
        lemma_byte_len_split_first(s.drop_last());
        assert(s.drop_last().drop_first() =~= s.drop_first().drop_last());
        assert(s.drop_last()[0] == s[0]);
        assert(s.drop_first().last() == s.last());
        assert(byte_len(s.drop_first()) == byte_len(s.drop_first().drop_last()) + utf8_len(
            s.drop_first().last(),
        ));
    } else {
        assert(s.drop_first().len() == 0);
        assert(s.drop_last().len() == 0);
        assert(s.last() == s[0]);
        assert(byte_len(s.drop_last()) == 0);
        assert(byte_len(s.drop_first()) == 0);
    }
}


/// What `i64::from_str` and its siblings return for `s`: a `+` or `-` sign
/// may lead when digits follow it.
pub open spec fn parse_signed_spec(s: Seq<char>, min: int, max: int) -> Option<int> {
    if s.len() > 1 && s[0] == '-' {
        let d = s.drop_first();
        if all_digits(d) && -(digits_value(d) as int) >= min {
            Some(-(digits_value(d) as int))
        } else {
            None
        }
    } else {
        match parse_unsigned_spec(s, max as nat) {
            Some(v) => Some(v as int),
            None => None,
        }
    }
}

pub fn parse_i64(s: &Vec<char>) -> (r: Option<i64>)
    ensures
        match r {
            Some(v) => parse_signed_spec(s@, i64::MIN as int, i64::MAX as int) == Some(v as int),
            None => parse_signed_spec(s@, i64::MIN as int, i64::MAX as int).is_none(),
        },
{
    if s.len() > 1 && s[0] == '-' {
        let mut rest: Vec<char> = Vec::new();
        let mut i: usize = 1;
        while i < s.len()
            invariant
                1 <= i <= s.len(),
                rest@ == s@.subrange(1, i as int),
            decreases s.len() - i,
        {
            rest.push(s[i]);
            proof {
                assert(rest@ =~= s@.subrange(1, i + 1));
            }
            i = i + 1;
        }
        proof {
            assert(rest@ =~= s@.drop_first());
        }
        if rest[0] == '+' {
            proof {
                assert(!is_digit(rest@[0]));
            }
            return None;
        }
        proof {
            assert(unsigned_body(rest@) == rest@);
        }
        match parse_unsigned(&rest, 9223372036854775808u64) {
            Some(m) => {
                if m == 9223372036854775808u64 {
                    Some(i64::MIN)
                } else {
                    Some(-(m as i64))
                }
            },
            None => None,
        }
    } else {
        match parse_unsigned(s, i64::MAX as u64) {
            Some(v) => Some(v as i64),
            None => None,
        }
    }
}

/// The characters that `fit_count` keeps take at most `limit` bytes.
pub proof fn lemma_fit_bytes(s: Seq<char>, limit: int)
    requires
        0 <= limit,
    ensures
        byte_len(s.take(fit_count(s, limit) as int)) <= limit,
    decreases s.len(),
{
    lemma_fit_count_le(s, limit);
    if s.len() == 0 || utf8_len(s[0]) > limit {
        assert(s.take(0).len() == 0);
    } else {
        let rest = s.drop_first();
        let k = fit_count(rest, limit - utf8_len(s[0]));
        lemma_fit_bytes(rest, limit - utf8_len(s[0]));
        lemma_fit_count_le(rest, limit - utf8_len(s[0]));
        let t = s.take(k as int + 1);
        assert(t.len() > 0);
        lemma_byte_len_split_first(t);
        assert(t[0] == s[0]);
        assert(t.drop_first() =~= rest.take(k as int));
    }
}

} // verus!
