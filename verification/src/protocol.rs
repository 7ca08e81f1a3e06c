//! The external-process output protocol: on success the spawned process
//! writes exactly one line holding the three fields
//! `{"timings_ns": [..], "result": R, "rss_kb": K}` — an ordered list of
//! non-negative per-iteration evaluation times in nanoseconds, a single
//! checksum, and a peak memory figure in kibibytes. `spec_parse_batch` pins
//! down, byte for byte, which lines are accepted and what they mean;
//! whitespace is tolerated around every token.

use vstd::prelude::*;
use vstd::utf8::encode_utf8;
use crate::checksum::{all_digits, digits_val, is_digit, lemma_digits_val_grow,
    lemma_digits_val_take_step};

verus! {

pub open spec fn is_ws(b: u8) -> bool {
    b == 32 || b == 9 || b == 10 || b == 13
}

/// How many whitespace bytes the sequence starts with.
pub open spec fn leading_ws(t: Seq<u8>) -> nat
    decreases t.len(),
{
    if t.len() > 0 && is_ws(t[0]) {
        1 + leading_ws(t.drop_first())
    } else {
        0
    }
}

/// How many decimal digit bytes the sequence starts with.
pub open spec fn leading_digits(t: Seq<u8>) -> nat
    decreases t.len(),
{
    if t.len() > 0 && is_digit(t[0]) {
        1 + leading_digits(t.drop_first())
    } else {
        0
    }
}

pub proof fn lemma_leading_ws_props(t: Seq<u8>)
    ensures
        leading_ws(t) <= t.len(),
        forall|j: int| 0 <= j < leading_ws(t) ==> is_ws(#[trigger] t[j]),
        leading_ws(t) < t.len() ==> !is_ws(t[leading_ws(t) as int]),
    decreases t.len(),
{
    if t.len() > 0 && is_ws(t[0]) {
        lemma_leading_ws_props(t.drop_first());
        assert forall|j: int| 0 <= j < leading_ws(t) implies is_ws(#[trigger] t[j]) by {
            if j > 0 {
                assert(t[j] == t.drop_first()[j - 1]);
            }
        }
        if leading_ws(t) < t.len() {
            assert(t[leading_ws(t) as int] == t.drop_first()[leading_ws(t) - 1]);
        }
    }
}

pub proof fn lemma_leading_digits_props(t: Seq<u8>)
    ensures
        leading_digits(t) <= t.len(),
        forall|j: int| 0 <= j < leading_digits(t) ==> is_digit(#[trigger] t[j]),
        leading_digits(t) < t.len() ==> !is_digit(t[leading_digits(t) as int]),
    decreases t.len(),
{
    if t.len() > 0 && is_digit(t[0]) {
        lemma_leading_digits_props(t.drop_first());
        assert forall|j: int| 0 <= j < leading_digits(t) implies is_digit(#[trigger] t[j]) by {
            if j > 0 {
                assert(t[j] == t.drop_first()[j - 1]);
            }
        }
        if leading_digits(t) < t.len() {
            assert(t[leading_digits(t) as int] == t.drop_first()[leading_digits(t) - 1]);
        }
    }
}

/// Whether the sequence begins with the given literal.
pub open spec fn starts(t: Seq<u8>, lit: Seq<u8>) -> bool {
    lit.len() <= t.len() && t.take(lit.len() as int) == lit
}

pub open spec fn key_timings() -> Seq<u8> {
    encode_utf8("\"timings_ns\""@)
}

pub open spec fn key_result() -> Seq<u8> {
    encode_utf8("\"result\""@)
}

pub open spec fn key_rss() -> Seq<u8> {
    encode_utf8("\"rss_kb\""@)
}

/// Scan the non-empty element list of the timings array, starting right
/// after a separator: whitespace, a non-negative decimal that fits u64,
/// then either a comma and more elements or the closing bracket. Yields
/// the values and the remainder after the bracket.
pub open spec fn scan_arr_elems(t: Seq<u8>) -> Option<(Seq<u64>, Seq<u8>)>
    decreases t.len(),
    via scan_arr_elems_decreases
{
    let w = leading_ws(t);
    let u = t.skip(w as int);
    let d = leading_digits(u);
    if d == 0 {
        Option::None
    } else {
        let v = digits_val(u.take(d as int));
        if v > u64::MAX {
            Option::None
        } else {
            let u2 = u.skip(d as int);
            let w2 = leading_ws(u2);
            if w2 < u2.len() && u2[w2 as int] == 44 {
                match scan_arr_elems(u2.skip(w2 as int + 1)) {
                    Option::Some((vs, rest)) => Option::Some((seq![v as u64] + vs, rest)),
                    Option::None => Option::None,
                }
            } else if w2 < u2.len() && u2[w2 as int] == 93 {
                Option::Some((seq![v as u64], u2.skip(w2 as int + 1)))
            } else {
                Option::None
            }
        }
    }
}

#[via_fn]
proof fn scan_arr_elems_decreases(t: Seq<u8>) {
    lemma_leading_ws_props(t);
    let w = leading_ws(t);
    let u = t.skip(w as int);
    lemma_leading_digits_props(u);
    let d = leading_digits(u);
    let u2 = u.skip(d as int);
    lemma_leading_ws_props(u2);
}

/// Scan the timings array body, starting right after the opening bracket:
/// either an immediately closed empty array, or a non-empty element list.
pub open spec fn scan_arr(t: Seq<u8>) -> Option<(Seq<u64>, Seq<u8>)> {
    let w = leading_ws(t);
    if w < t.len() && t[w as int] == 93 {
        Option::Some((Seq::<u64>::empty(), t.skip(w as int + 1)))
    } else {
        scan_arr_elems(t)
    }
}

/// Scan `, "<key>" :` with whitespace tolerated around every token,
/// yielding the remainder at the start of the field's value.
pub open spec fn scan_field_prefix(t: Seq<u8>, key: Seq<u8>) -> Option<Seq<u8>> {
    let a = t.skip(leading_ws(t) as int);
    if !(a.len() > 0 && a[0] == 44) {
        Option::None
    } else {
        let b0 = a.skip(1);
        let b = b0.skip(leading_ws(b0) as int);
        if !starts(b, key) {
            Option::None
        } else {
            let c0 = b.skip(key.len() as int);
            let c = c0.skip(leading_ws(c0) as int);
            if !(c.len() > 0 && c[0] == 58) {
                Option::None
            } else {
                let d0 = c.skip(1);
                Option::Some(d0.skip(leading_ws(d0) as int))
            }
        }
    }
}

/// Scan a signed decimal that fits i64, yielding it and the remainder.
pub open spec fn scan_i64_suffix(t: Seq<u8>) -> Option<(i64, Seq<u8>)> {
    let neg = t.len() > 0 && t[0] == 45;
    let u = if neg {
        t.skip(1)
    } else {
        t
    };
    let d = leading_digits(u);
    if d == 0 {
        Option::None
    } else {
        let v = digits_val(u.take(d as int));
        let sv = if neg {
            -v
        } else {
            v
        };
        if sv < i64::MIN || sv > i64::MAX {
            Option::None
        } else {
            Option::Some((sv as i64, u.skip(d as int)))
        }
    }
}

/// Scan an unsigned decimal that fits u64, yielding it and the remainder.
pub open spec fn scan_u64_suffix(t: Seq<u8>) -> Option<(u64, Seq<u8>)> {
    let d = leading_digits(t);
    if d == 0 {
        Option::None
    } else {
        let v = digits_val(t.take(d as int));
        if v > u64::MAX {
            Option::None
        } else {
            Option::Some((v as u64, t.skip(d as int)))
        }
    }
}

/// Which byte sequences are a well-formed protocol line, and what they
/// mean: `{"timings_ns": [..], "result": R, "rss_kb": K}` with whitespace
/// tolerated around every token and nothing but whitespace around the
/// object. Anything else fails the schema.
pub open spec fn spec_parse_batch(s: Seq<u8>) -> Option<(Seq<u64>, i64, u64)> {
    let t0 = s.skip(leading_ws(s) as int);
    if !(t0.len() > 0 && t0[0] == 123) {
        Option::None
    } else {
        let t1 = t0.skip(1);
        let t2 = t1.skip(leading_ws(t1) as int);
        if !starts(t2, key_timings()) {
            Option::None
        } else {
            let t3 = t2.skip(key_timings().len() as int);
            let t4 = t3.skip(leading_ws(t3) as int);
            if !(t4.len() > 0 && t4[0] == 58) {
                Option::None
            } else {
                let t5 = t4.skip(1);
                let t6 = t5.skip(leading_ws(t5) as int);
                if !(t6.len() > 0 && t6[0] == 91) {
                    Option::None
                } else {
                    match scan_arr(t6.skip(1)) {
                        Option::None => Option::None,
                        Option::Some((timings, t7)) => match scan_field_prefix(
                            t7,
                            key_result(),
                        ) {
                            Option::None => Option::None,
                            Option::Some(t8) => match scan_i64_suffix(t8) {
                                Option::None => Option::None,
                                Option::Some((rv, t9)) => match scan_field_prefix(
                                    t9,
                                    key_rss(),
                                ) {
                                    Option::None => Option::None,
                                    Option::Some(t10) => match scan_u64_suffix(t10) {
                                        Option::None => Option::None,
                                        Option::Some((rss, t11)) => {
                                            let z = t11.skip(leading_ws(t11) as int);
                                            if !(z.len() > 0 && z[0] == 125) {
                                                Option::None
                                            } else {
                                                let z0 = z.skip(1);
                                                let z2 = z0.skip(leading_ws(z0) as int);
                                                if z2.len() == 0 {
                                                    Option::Some((timings, rv, rss))
                                                } else {
                                                    Option::None
                                                }
                                            }
                                        },
                                    },
                                },
                            },
                        },
                    }
                }
            }
        }
    }
}

/// Advance past whitespace.
fn skip_ws_at(s: &[u8], i: usize) -> (r: usize)
    requires
        i <= s@.len(),
    ensures
        r == i + leading_ws(s@.skip(i as int)),
        i <= r <= s@.len(),
    decreases s@.len() - i,
{
    proof {
        lemma_leading_ws_props(s@.skip(i as int));
    }
    if i < s.len() {
        let b: u8 = s[i];
        if b == 32 || b == 9 || b == 10 || b == 13 {
            proof {
                assert(s@.skip(i as int)[0] == s@[i as int]);
                assert(s@.skip(i as int).drop_first() =~= s@.skip(i as int + 1));
            }
            skip_ws_at(s, i + 1)
        } else {
            proof {
                assert(s@.skip(i as int)[0] == s@[i as int]);
            }
            i
        }
    } else {
        i
    }
}

/// Skip whitespace, then require one exact byte; yields the position after
/// it.
fn expect_at(s: &[u8], i: usize, b: u8) -> (r: Option<usize>)
    requires
        i <= s@.len(),
    ensures
        ({
            let a = s@.skip(i as int).skip(leading_ws(s@.skip(i as int)) as int);
            match r {
                Option::Some(j) => a.len() > 0 && a[0] == b && i <= j <= s@.len() && s@.skip(
                    j as int,
                ) == a.skip(1),
                Option::None => !(a.len() > 0 && a[0] == b),
            }
        }),
{
    let j = skip_ws_at(s, i);
    proof {
        assert(s@.skip(i as int).skip(leading_ws(s@.skip(i as int)) as int) =~= s@.skip(j as int));
    }
    if j < s.len() && s[j] == b {
        proof {
            assert(s@.skip(j as int)[0] == s@[j as int]);
            assert(s@.skip(j as int).skip(1) =~= s@.skip(j as int + 1));
        }
        Some(j + 1)
    } else {
        proof {
            if j < s@.len() {
                assert(s@.skip(j as int)[0] == s@[j as int]);
            }
        }
        None
    }
}

/// Whether the bytes at position `i` begin with the literal.
fn match_lit_at(s: &[u8], i: usize, lit: &[u8]) -> (r: bool)
    requires
        i <= s@.len(),
    ensures
        r == starts(s@.skip(i as int), lit@),
{
    let n: usize = lit.len();
    let slen: usize = s.len();
    if n > slen - i {
        return false;
    }
    let mut j: usize = 0;
    while j < n
        invariant
            0 <= j <= n,
            n == lit@.len(),
            slen == s@.len(),
            i + n <= slen,
            forall|k: int| 0 <= k < j ==> s@[i + k] == lit@[k],
        decreases n - j,
    {
        if s[i + j] != lit[j] {
            proof {
                assert(s@.skip(i as int).take(n as int)[j as int] == s@[i + j]);
            }
            return false;
        }
        j = j + 1;
    }
    proof {
        assert(s@.skip(i as int).take(n as int) =~= lit@);
    }
    true
}

/// Scan a run of decimal digits at position `i` into a u64.
pub(crate) fn scan_u64_at(s: &[u8], i: usize) -> (r: Option<(u64, usize)>)
    requires
        i <= s@.len(),
    ensures
        ({
            let u = s@.skip(i as int);
            let d = leading_digits(u);
            match r {
                Option::Some(p) => d >= 1 && p.1 == i + d && p.1 <= s@.len() && p.0 == digits_val(
                    u.take(d as int),
                ),
                Option::None => d == 0 || digits_val(u.take(d as int)) > u64::MAX,
            }
        }),
{
    let ghost u = s@.skip(i as int);
    proof {
        lemma_leading_digits_props(u);
    }
    let ghost d = leading_digits(u);
    let len: usize = s.len();
    let mut acc: u64 = 0;
    let mut j: usize = i;
    while j < len && 48 <= s[j] && s[j] <= 57
        invariant
            i <= j <= len,
            len == s@.len(),
            u == s@.skip(i as int),
            d == leading_digits(u),
            j - i <= d,
            acc == digits_val(u.take(j - i)),
            d <= u.len(),
            forall|k: int| 0 <= k < d ==> is_digit(#[trigger] u[k]),
            d < u.len() ==> !is_digit(u[d as int]),
        decreases len - j,
    {
        proof {
            assert(u[j - i] == s@[j as int]);
            if j - i == d {
                assert(false);
            }
            lemma_digits_val_take_step(u, j - i);
        }
        let dig: u64 = (s[j] - 48) as u64;
        let t: u64 = match acc.checked_mul(10) {
            Option::Some(t) => t,
            Option::None => {
                proof {
                    assert(all_digits(u.take(d as int)));
                    lemma_digits_val_grow(u.take(d as int), j - i + 1);
                    assert(u.take(d as int).take(j - i + 1) =~= u.take(j - i + 1));
                }
                return None;
            },
        };
        let next: u64 = match t.checked_add(dig) {
            Option::Some(x) => x,
            Option::None => {
                proof {
                    assert(all_digits(u.take(d as int)));
                    lemma_digits_val_grow(u.take(d as int), j - i + 1);
                    assert(u.take(d as int).take(j - i + 1) =~= u.take(j - i + 1));
                }
                return None;
            },
        };
        acc = next;
        j = j + 1;
    }
    proof {
        if j < len {
            assert(u[j - i] == s@[j as int]);
        }
        assert(j - i == d);
    }
    if j == i {
        None
    } else {
        Some((acc, j))
    }
}

/// Scan `, "<key>" :`, yielding the position of the field's value.
fn field_prefix_at(s: &[u8], i: usize, key: &[u8]) -> (r: Option<usize>)
    requires
        i <= s@.len(),
    ensures
        ({
            let sp = scan_field_prefix(s@.skip(i as int), key@);
            match r {
                Option::Some(j) => sp matches Option::Some(rest) && i <= j <= s@.len() && s@.skip(
                    j as int,
                ) == rest,
                Option::None => sp is None,
            }
        }),
{
    let p1 = match expect_at(s, i, 44) {
        Option::Some(j) => j,
        Option::None => {
            return None;
        },
    };
    let p2 = skip_ws_at(s, p1);
    proof {
        assert(s@.skip(p1 as int).skip(leading_ws(s@.skip(p1 as int)) as int) =~= s@.skip(
            p2 as int,
        ));
    }
    if !match_lit_at(s, p2, key) {
        return None;
    }
    let slen: usize = s.len();
    proof {
        assert(p2 + key@.len() <= slen);
    }
    let p3 = p2 + key.len();
    proof {
        assert(s@.skip(p2 as int).skip(key@.len() as int) =~= s@.skip(p3 as int));
    }
    let p4 = match expect_at(s, p3, 58) {
        Option::Some(j) => j,
        Option::None => {
            return None;
        },
    };
    let p5 = skip_ws_at(s, p4);
    proof {
        assert(s@.skip(p4 as int).skip(leading_ws(s@.skip(p4 as int)) as int) =~= s@.skip(
            p5 as int,
        ));
    }
    Some(p5)
}

/// Parse the non-empty element list of the timings array, appending the
/// values; yields the position after the closing bracket.
fn parse_elems(s: &[u8], cur: usize, acc: &mut Vec<u64>) -> (r: Option<usize>)
    requires
        cur <= s@.len(),
    ensures
        scan_arr_elems(s@.skip(cur as int)) is Some <==> r is Some,
        scan_arr_elems(s@.skip(cur as int)) matches Option::Some(p) ==> (r matches Option::Some(j)
            && cur <= j <= s@.len() && final(acc)@ == old(acc)@ + p.0 && s@.skip(j as int) == p.1),
    decreases s@.len() - cur,
{
    let ghost t = s@.skip(cur as int);
    let j2 = skip_ws_at(s, cur);
    proof {
        assert(t.skip(leading_ws(t) as int) =~= s@.skip(j2 as int));
    }
    let (v, j3) = match scan_u64_at(s, j2) {
        Option::Some(x) => x,
        Option::None => {
            return None;
        },
    };
    acc.push(v);
    let j4 = skip_ws_at(s, j3);
    proof {
        assert(s@.skip(j3 as int).skip(leading_ws(s@.skip(j3 as int)) as int) =~= s@.skip(
            j4 as int,
        ));
        assert(s@.skip(j2 as int).skip(leading_digits(s@.skip(j2 as int)) as int) =~= s@.skip(
            j3 as int,
        ));
        if j4 < s@.len() {
            assert(s@.skip(j3 as int)[j4 - j3] == s@[j4 as int]);
        }
    }
    if j4 < s.len() && s[j4] == 44 {
        let r2 = parse_elems(s, j4 + 1, acc);
        proof {
            assert(s@.skip(j3 as int).skip(j4 - j3 + 1) =~= s@.skip(j4 as int + 1));
        }
        match r2 {
            Option::Some(j) => Some(j),
            Option::None => None,
        }
    } else if j4 < s.len() && s[j4] == 93 {
        proof {
            assert(s@.skip(j3 as int).skip(j4 - j3 + 1) =~= s@.skip(j4 as int + 1));
        }
        Some(j4 + 1)
    } else {
        None
    }
}

/// Parse one protocol line. Accepts exactly the lines `spec_parse_batch`
/// accepts, and yields exactly the values it denotes.
#[verifier::rlimit(100)]
pub fn parse_batch_line(s: &[u8]) -> (r: Option<(Vec<u64>, i64, u64)>)
    ensures
        match r {
            Option::Some(p) => spec_parse_batch(s@) == Option::Some(((p.0)@, p.1, p.2)),
            Option::None => spec_parse_batch(s@) is None,
        },
{
    let len: usize = s.len();
    proof {
        assert(s@.skip(0) =~= s@);
    }
    let p1 = match expect_at(s, 0, 123) {
        Option::Some(j) => j,
        Option::None => {
            return None;
        },
    };
    let p2 = skip_ws_at(s, p1);
    proof {
        assert(s@.skip(p1 as int).skip(leading_ws(s@.skip(p1 as int)) as int) =~= s@.skip(
            p2 as int,
        ));
    }
    let k_tim: &[u8] = "\"timings_ns\"".as_bytes();
    if !match_lit_at(s, p2, k_tim) {
        return None;
    }
    proof {
        assert(p2 + k_tim@.len() <= len);
    }
    let p3 = p2 + k_tim.len();
    proof {
        assert(s@.skip(p2 as int).skip(key_timings().len() as int) =~= s@.skip(p3 as int));
    }
    let p4 = match expect_at(s, p3, 58) {
        Option::Some(j) => j,
        Option::None => {
            return None;
        },
    };
    let p5 = match expect_at(s, p4, 91) {
        Option::Some(j) => j,
        Option::None => {
            return None;
        },
    };
    // The array body: an immediately closed empty array, or elements.
    let mut timings: Vec<u64> = Vec::new();
    let ja = skip_ws_at(s, p5);
    proof {
        assert(s@.skip(p5 as int).skip(leading_ws(s@.skip(p5 as int)) as int) =~= s@.skip(
            ja as int,
        ));
        if ja < s@.len() {
            assert(s@.skip(p5 as int)[ja - p5] == s@[ja as int]);
        }
    }
    let p6: usize = if ja < len && s[ja] == 93 {
        proof {
            assert(s@.skip(p5 as int).skip(ja - p5 + 1) =~= s@.skip(ja as int + 1));
        }
        ja + 1
    } else {
        match parse_elems(s, p5, &mut timings) {
            Option::Some(j) => j,
            Option::None => {
                return None;
            },
        }
    };
    let p7 = match field_prefix_at(s, p6, "\"result\"".as_bytes()) {
        Option::Some(j) => j,
        Option::None => {
            return None;
        },
    };
    // The checksum: an optional minus sign, then digits, within i64.
    let neg: bool = p7 < len && s[p7] == 45;
    let p8: usize = if neg {
        p7 + 1
    } else {
        p7
    };
    proof {
        if p7 < s@.len() {
            assert(s@.skip(p7 as int)[0] == s@[p7 as int]);
        }
        if neg {
            assert(s@.skip(p7 as int).skip(1) =~= s@.skip(p8 as int));
        }
    }
    let (mag, p9) = match scan_u64_at(s, p8) {
        Option::Some(x) => x,
        Option::None => {
            return None;
        },
    };
    if neg && mag > 9223372036854775808u64 {
        return None;
    }
    if !neg && mag > 9223372036854775807u64 {
        return None;
    }
    let rv: i64 = if neg {
        if mag == 9223372036854775808u64 {
            i64::MIN
        } else {
            -(mag as i64)
        }
    } else {
        mag as i64
    };
    proof {
        assert(s@.skip(p8 as int).skip(leading_digits(s@.skip(p8 as int)) as int) =~= s@.skip(
            p9 as int,
        ));
    }
    let p10 = match field_prefix_at(s, p9, "\"rss_kb\"".as_bytes()) {
        Option::Some(j) => j,
        Option::None => {
            return None;
        },
    };
    let (rss, p11) = match scan_u64_at(s, p10) {
        Option::Some(x) => x,
        Option::None => {
            return None;
        },
    };
    proof {
        assert(s@.skip(p10 as int).skip(leading_digits(s@.skip(p10 as int)) as int) =~= s@.skip(
            p11 as int,
        ));
    }
    let p12 = match expect_at(s, p11, 125) {
        Option::Some(j) => j,
        Option::None => {
            return None;
        },
    };
    let p13 = skip_ws_at(s, p12);
    proof {
        assert(s@.skip(p12 as int).skip(leading_ws(s@.skip(p12 as int)) as int) =~= s@.skip(
            p13 as int,
        ));
    }
    if p13 == len {
        Some((timings, rv, rss))
    } else {
        None
    }
}

} // verus!
