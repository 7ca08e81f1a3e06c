//! Coercion of a workload's returned value to a 64-bit integer checksum.
//!
//! Precedence: an absent / none-like value maps to 0; a native integer value
//! converts directly; anything else is a best-effort parse of the value's
//! textual representation, defaulting to 0 on parse failure. The textual
//! fallback is a deliberate, documented lossy escape hatch, not an error
//! condition.

use vstd::prelude::*;

verus! {

pub open spec fn is_digit(b: u8) -> bool {
    48 <= b <= 57
}

pub open spec fn all_digits(s: Seq<u8>) -> bool {
    forall|i: int| 0 <= i < s.len() ==> is_digit(#[trigger] s[i])
}

/// The integer that a sequence of decimal digit bytes denotes.
pub open spec fn digits_val(s: Seq<u8>) -> int
    decreases s.len(),
{
    if s.len() == 0 {
        0
    } else {
        digits_val(s.drop_last()) * 10 + (s.last() - 48)
    }
}

pub open spec fn spec_has_sign(s: Seq<u8>) -> bool {
    s.len() > 0 && (s[0] == 43 || s[0] == 45)
}

pub open spec fn spec_mag_start(s: Seq<u8>) -> int {
    if spec_has_sign(s) {
        1
    } else {
        0
    }
}

pub open spec fn spec_sign(s: Seq<u8>) -> int {
    if s.len() > 0 && s[0] == 45 {
        -1
    } else {
        1
    }
}

/// What parsing a signed 64-bit decimal integer from bytes yields: an
/// optional sign, then at least one digit, and a value within i64's range;
/// anything else fails.
pub open spec fn spec_parse_i64(s: Seq<u8>) -> Option<int> {
    let mag = s.subrange(spec_mag_start(s), s.len() as int);
    if mag.len() >= 1 && all_digits(mag) {
        let v = spec_sign(s) * digits_val(mag);
        if -9223372036854775808 <= v <= 9223372036854775807 {
            Option::Some(v)
        } else {
            Option::None
        }
    } else {
        Option::None
    }
}

pub proof fn lemma_digits_val_nonneg(s: Seq<u8>)
    requires
        all_digits(s),
    ensures
        digits_val(s) >= 0,
    decreases s.len(),
{
    if s.len() > 0 {
        assert(all_digits(s.drop_last()));
        lemma_digits_val_nonneg(s.drop_last());
    }
}

pub proof fn lemma_digits_val_take_step(s: Seq<u8>, i: int)
    requires
        0 <= i < s.len(),
    ensures
        digits_val(s.take(i + 1)) == 10 * digits_val(s.take(i)) + (s[i] - 48),
{
    assert(s.take(i + 1).drop_last() =~= s.take(i));
    assert(s.take(i + 1).last() == s[i]);
}

/// A digit string denotes at least as much as any of its prefixes.
pub proof fn lemma_digits_val_grow(s: Seq<u8>, j: int)
    requires
        all_digits(s),
        0 <= j <= s.len(),
    ensures
        digits_val(s) >= digits_val(s.take(j)),
    decreases s.len() - j,
{
    if j == s.len() {
        assert(s.take(j) =~= s);
    } else {
        lemma_digits_val_take_step(s, j);
        assert(all_digits(s.take(j)));
        lemma_digits_val_nonneg(s.take(j));
        lemma_digits_val_grow(s, j + 1);
    }
}

/// Parse a signed decimal i64 from bytes, as the textual fallback requires.
pub fn parse_i64(s: &[u8]) -> (r: Option<i64>)
    ensures
        match r {
            Option::Some(v) => spec_parse_i64(s@) == Option::Some(v as int),
            Option::None => spec_parse_i64(s@) is None,
        },
{
    let len: usize = s.len();
    let has_sign: bool = len > 0 && (s[0] == 43 || s[0] == 45);
    let neg: bool = len > 0 && s[0] == 45;
    let start: usize = if has_sign {
        1
    } else {
        0
    };
    if start >= len {
        return None;
    }
    let limit: u64 = if neg {
        9223372036854775808u64
    } else {
        9223372036854775807u64
    };
    let ghost m: Seq<u8> = s@.subrange(start as int, len as int);
    let mut acc: u64 = 0;
    let mut i: usize = start;
    while i < len
        invariant
            start <= i <= len,
            len == s@.len(),
            start == spec_mag_start(s@),
            m == s@.subrange(start as int, len as int),
            all_digits(m.take(i - start)),
            acc == digits_val(m.take(i - start)),
        decreases len - i,
    {
        let b: u8 = s[i];
        if b < 48 || b > 57 {
            proof {
                assert(m[i - start] == s@[i as int]);
                assert(!all_digits(m));
            }
            return None;
        }
        let d: u64 = (b - 48) as u64;
        proof {
            lemma_digits_val_take_step(m, i - start);
        }
        let t: u64 = match acc.checked_mul(10) {
            Option::Some(t) => t,
            Option::None => {
                proof {
                    if all_digits(m) {
                        lemma_digits_val_grow(m, i - start + 1);
                    }
                }
                return None;
            },
        };
        let next: u64 = match t.checked_add(d) {
            Option::Some(u) => u,
            Option::None => {
                proof {
                    if all_digits(m) {
                        lemma_digits_val_grow(m, i - start + 1);
                    }
                }
                return None;
            },
        };
        acc = next;
        i = i + 1;
    }
    proof {
        assert(m.take(i - start) =~= m);
    }
    if acc > limit {
        return None;
    }
    if neg {
        if acc == 9223372036854775808u64 {
            Some(i64::MIN)
        } else {
            Some(-(acc as i64))
        }
    } else {
        Some(acc as i64)
    }
}

/// What the checksum coercion yields, by the documented precedence.
pub open spec fn spec_extract_i64(absent: bool, int_val: Option<i32>, repr: Seq<u8>) -> int {
    if absent {
        0
    } else {
        match int_val {
            Option::Some(v) => v as int,
            Option::None => match spec_parse_i64(repr) {
                Option::Some(v) => v,
                Option::None => 0,
            },
        }
    }
}

/// Coerce a workload's returned value, already classified by the engine
/// adapter, to the 64-bit integer checksum.
pub fn extract_i64(absent: bool, int_val: Option<i32>, repr: &[u8]) -> (r: i64)
    ensures
        r == spec_extract_i64(absent, int_val, repr@),
{
    if absent {
        0
    } else {
        match int_val {
            Option::Some(v) => v as i64,
            Option::None => match parse_i64(repr) {
                Option::Some(v) => v,
                Option::None => 0,
            },
        }
    }
}

} // verus!
