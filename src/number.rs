//! Integer values written in ASCII, as the text protocol carries them: an
//! optional sign followed by one or more digits of the radix.
use vstd::prelude::*;

verus! {

/// Value of an ASCII digit in `radix` (at most 36), if it is one.
pub open spec fn digit_value(c: u8, radix: nat) -> Option<nat> {
    let d: int = if 0x30 <= c <= 0x39 {
        c - 0x30
    } else if 0x61 <= c <= 0x7a {
        c - 0x61 + 10
    } else if 0x41 <= c <= 0x5a {
        c - 0x41 + 10
    } else {
        36
    };
    if d < radix {
        Some(d as nat)
    } else {
        None
    }
}

/// Whether every byte of `s` is a digit in `radix`.
pub open spec fn all_digits(s: Seq<u8>, radix: nat) -> bool {
    forall|i: int| 0 <= i < s.len() ==> (#[trigger] digit_value(s[i], radix)) is Some
}

/// Value of a digit string, most significant digit first.
pub open spec fn digits_value(s: Seq<u8>, radix: nat) -> nat
    decreases s.len(),
{
    if s.len() == 0 {
        0
    } else {
        digits_value(s.drop_last(), radix) * radix + digit_value(s.last(), radix).unwrap_or(0)
    }
}

/// Value of the digits of `s` in `radix` when they fit under `limit`.
pub open spec fn bounded_digits(s: Seq<u8>, radix: nat, limit: nat) -> Option<nat> {
    if s.len() > 0 && all_digits(s, radix) && digits_value(s, radix) <= limit {
        Some(digits_value(s, radix))
    } else {
        None
    }
}

/// What an unsigned integer type with maximum `max` reads from `s`: an
/// optional `+`, then digits.
pub open spec fn unsigned_text(s: Seq<u8>, radix: nat, max: nat) -> Option<nat> {
    if s.len() > 0 && s[0] == 0x2b {
        bounded_digits(s.drop_first(), radix, max)
    } else {
        bounded_digits(s, radix, max)
    }
}

/// What `i32` reads from decimal text `s`: an optional `+` or `-`, then digits.
pub open spec fn i32_text(s: Seq<u8>) -> Option<i32> {
    if s.len() > 0 && s[0] == 0x2d {
        match bounded_digits(s.drop_first(), 10, 0x8000_0000) {
            Some(n) => Some((-n) as i32),
            None => None,
        }
    } else {
        match unsigned_text(s, 10, 0x7fff_ffff) {
            Some(n) => Some(n as i32),
            None => None,
        }
    }
}

proof fn lemma_digits_value_grows(s: Seq<u8>, k: int, radix: nat)
    requires
        0 <= k <= s.len(),
        radix >= 1,
    ensures
        digits_value(s.take(k), radix) <= digits_value(s, radix),
    decreases s.len() - k,
{
    if k < s.len() {
        lemma_digits_value_grows(s, k + 1, radix);
        assert(s.take(k + 1).drop_last() == s.take(k));
        let a = digits_value(s.take(k), radix);
        assert(a * radix >= a) by (nonlinear_arith)
            requires
                radix >= 1,
        ;
    } else {
        assert(s.take(k) == s);
    }
}

fn digit_of(c: u8, radix: u64) -> (r: Option<u64>)
    requires
        2 <= radix <= 36,
    ensures
        r == (match digit_value(c, radix as nat) {
            Some(d) => Some(d as u64),
            None => None,
        }),
{
    let d: u64 = if 0x30 <= c && c <= 0x39 {
        (c - 0x30) as u64
    } else if 0x61 <= c && c <= 0x7a {
        (c - 0x61 + 10) as u64
    } else if 0x41 <= c && c <= 0x5a {
        (c - 0x41 + 10) as u64
    } else {
        36
    };
    if d < radix {
        Some(d)
    } else {
        None
    }
}

/// Reads the digits `s[start..]` in `radix`, if there is at least one, all are
/// digits, and their value is at most `limit`.
pub fn parse_digits(s: &[u8], start: usize, radix: u64, limit: u64) -> (r: Option<u64>)
    requires
        start <= s@.len(),
        2 <= radix <= 36,
        limit <= 0xffff_ffff,
    ensures
        r == (match bounded_digits(s@.skip(start as int), radix as nat, limit as nat) {
            Some(n) => Some(n as u64),
            None => None,
        }),
{
    let ghost t = s@.skip(start as int);
    if start >= s.len() {
        return None;
    }
    let mut acc: u64 = 0;
    let mut i: usize = start;
    while i < s.len()
        invariant
            start <= i <= s@.len(),
            t == s@.skip(start as int),
            2 <= radix <= 36,
            limit <= 0xffff_ffff,
            all_digits(t.take(i - start), radix as nat),
            acc == digits_value(t.take(i - start), radix as nat),
            acc <= limit,
        decreases s@.len() - i,
    {
        let ghost k: int = i - start;
        assert(t.take(k + 1).drop_last() == t.take(k));
        assert(t[k] == s@[i as int]);
        match digit_of(s[i], radix) {
            None => {
                assert(!all_digits(t, radix as nat)) by {
                    assert(digit_value(t[k], radix as nat) is None);
                }
                return None;
            },
            Some(d) => {
                assert(acc * radix <= 0xffff_ffff * 36) by (nonlinear_arith)
                    requires
                        acc <= 0xffff_ffff,
                        radix <= 36,
                ;
                acc = acc * radix + d;
                assert(all_digits(t.take(k + 1), radix as nat)) by {
                    assert forall|j: int| 0 <= j < k + 1 implies (#[trigger] digit_value(
                        t.take(k + 1)[j],
                        radix as nat,
                    )) is Some by {
                        if j < k {
                            assert(t.take(k + 1)[j] == t.take(k)[j]);
                        }
                    }
                }
                if acc > limit {
                    proof {
                        lemma_digits_value_grows(t, k + 1, radix as nat);
                    }
                    return None;
                }
                i = i + 1;
            },
        }
    }
    assert(t.take(i - start) == t);
    Some(acc)
}

/// Reads an unsigned integer of at most `max` from `s[start..]`.
pub fn parse_unsigned(s: &[u8], start: usize, radix: u64, max: u64) -> (r: Option<u64>)
    requires
        start <= s@.len(),
        2 <= radix <= 36,
        max <= 0xffff_ffff,
    ensures
        r == (match unsigned_text(s@.skip(start as int), radix as nat, max as nat) {
            Some(n) => Some(n as u64),
            None => None,
        }),
{
    if start < s.len() && s[start] == 0x2b {
        assert(s@.skip(start as int).drop_first() == s@.skip(start + 1));
        parse_digits(s, start + 1, radix, max)
    } else {
        parse_digits(s, start, radix, max)
    }
}

/// Reads a decimal `i32` from `s`.
pub fn parse_i32(s: &[u8]) -> (r: Option<i32>)
    ensures
        r == i32_text(s@),
{
    assert(s@.skip(0) == s@);
    if s.len() > 0 && s[0] == 0x2d {
        assert(s@.drop_first() == s@.skip(1));
        match parse_digits(s, 1, 10, 0x8000_0000) {
            Some(n) => Some((0 - (n as i64)) as i32),
            None => None,
        }
    } else {
        match parse_unsigned(s, 0, 10, 0x7fff_ffff) {
            Some(n) => Some(n as i32),
            None => None,
        }
    }
}

} // verus!
