//! Reading the memory high-water mark out of the process status text: the
//! first line with the `VmRSS:` prefix carries the resident set size in
//! kibibytes as its first whitespace-separated token. The probe is
//! best-effort: a missing line or an unreadable token yields 0.

use vstd::prelude::*;
use crate::checksum::{digits_val, is_digit};
use crate::protocol::{is_ws, leading_digits, leading_ws, lemma_leading_digits_props,
    lemma_leading_ws_props, scan_u64_at, starts};

verus! {

/// The bytes of the line prefix `VmRSS:`.
pub open spec fn vm_rss_prefix() -> Seq<u8> {
    seq![86u8, 109u8, 82u8, 83u8, 83u8, 58u8]
}

/// How many bytes the sequence has before its first line break.
pub open spec fn line_len(t: Seq<u8>) -> nat
    decreases t.len(),
{
    if t.len() > 0 && t[0] != 10 {
        1 + line_len(t.drop_first())
    } else {
        0
    }
}

pub proof fn lemma_line_len_props(t: Seq<u8>)
    ensures
        line_len(t) <= t.len(),
        forall|j: int| 0 <= j < line_len(t) ==> #[trigger] t[j] != 10,
        line_len(t) < t.len() ==> t[line_len(t) as int] == 10,
    decreases t.len(),
{
    if t.len() > 0 && t[0] != 10 {
        lemma_line_len_props(t.drop_first());
        assert forall|j: int| 0 <= j < line_len(t) implies #[trigger] t[j] != 10 by {
            if j > 0 {
                assert(t[j] == t.drop_first()[j - 1]);
            }
        }
        if line_len(t) < t.len() {
            assert(t[line_len(t) as int] == t.drop_first()[line_len(t) - 1]);
        }
    }
}

/// What a `VmRSS:` line yields: its first whitespace-separated token after
/// the prefix, read as a decimal number of kibibytes, or 0 when the token
/// is missing, is not a plain number, or does not fit.
pub open spec fn vm_rss_of_line(line: Seq<u8>) -> int {
    let rest = line.skip(6);
    let u = rest.skip(leading_ws(rest) as int);
    let d = leading_digits(u);
    if d >= 1 && (d == u.len() || is_ws(u[d as int])) && digits_val(u.take(d as int)) <= u64::MAX {
        digits_val(u.take(d as int))
    } else {
        0
    }
}

/// What the whole status text yields: the first `VmRSS:` line decides,
/// and a text without one yields 0.
pub open spec fn spec_vm_rss(t: Seq<u8>) -> int
    decreases t.len(),
    via spec_vm_rss_decreases
{
    let e = line_len(t);
    if starts(t, vm_rss_prefix()) {
        vm_rss_of_line(t.take(e as int))
    } else if e >= t.len() {
        0
    } else {
        spec_vm_rss(t.skip(e as int + 1))
    }
}

#[via_fn]
proof fn spec_vm_rss_decreases(t: Seq<u8>) {
    lemma_line_len_props(t);
}

/// Advance past whitespace, but not past position `e`.
fn skip_ws_within(s: &[u8], i: usize, e: usize) -> (r: usize)
    requires
        i <= e <= s@.len(),
    ensures
        r - i == leading_ws(s@.skip(i as int).take(e - i)),
        i <= r <= e,
    decreases e - i,
{
    proof {
        lemma_leading_ws_props(s@.skip(i as int).take(e - i));
    }
    if i < e {
        let b: u8 = s[i];
        if b == 32 || b == 9 || b == 10 || b == 13 {
            proof {
                assert(s@.skip(i as int).take(e - i)[0] == s@[i as int]);
                assert(s@.skip(i as int).take(e - i).drop_first() =~= s@.skip(i as int + 1).take(
                    e - (i + 1),
                ));
            }
            skip_ws_within(s, i + 1, e)
        } else {
            proof {
                assert(s@.skip(i as int).take(e - i)[0] == s@[i as int]);
            }
            i
        }
    } else {
        i
    }
}

/// Find the end of the line that starts at position `i`.
fn line_end_at(s: &[u8], i: usize) -> (r: usize)
    requires
        i <= s@.len(),
    ensures
        r == i + line_len(s@.skip(i as int)),
        i <= r <= s@.len(),
    decreases s@.len() - i,
{
    proof {
        lemma_line_len_props(s@.skip(i as int));
    }
    if i < s.len() {
        let b: u8 = s[i];
        if b != 10 {
            proof {
                assert(s@.skip(i as int)[0] == s@[i as int]);
                assert(s@.skip(i as int).drop_first() =~= s@.skip(i as int + 1));
            }
            line_end_at(s, i + 1)
        } else {
            proof {
                assert(s@.skip(i as int)[0] == s@[i as int]);
            }
            i
        }
    } else {
        i
    }
}

fn vm_rss_from(s: &[u8], pos: usize) -> (r: u64)
    requires
        pos <= s@.len(),
    ensures
        r as int == spec_vm_rss(s@.skip(pos as int)),
    decreases s@.len() - pos,
{
    let ghost t = s@.skip(pos as int);
    let slen: usize = s.len();
    let e = line_end_at(s, pos);
    let matched: bool = slen - pos >= 6 && s[pos] == 86 && s[pos + 1] == 109 && s[pos + 2] == 82
        && s[pos + 3] == 83 && s[pos + 4] == 83 && s[pos + 5] == 58;
    proof {
        lemma_line_len_props(t);
        assert forall|k: int| 0 <= k < 6 && 6 <= t.len() implies t[k] == s@[pos + k] by {}
        assert(matched == starts(t, vm_rss_prefix())) by {
            if matched {
                assert(t.take(6) =~= vm_rss_prefix());
            } else if starts(t, vm_rss_prefix()) {
                assert(t.take(6)[0] == t[0] && t.take(6)[1] == t[1] && t.take(6)[2] == t[2]
                    && t.take(6)[3] == t[3] && t.take(6)[4] == t[4] && t.take(6)[5] == t[5]);
            }
        }
    }
    if matched {
        proof {
            // The six prefix bytes are not line breaks, so the line covers
            // them.
            if line_len(t) < 6 {
                assert(t[line_len(t) as int] == 10);
                assert(t.take(6)[line_len(t) as int] == t[line_len(t) as int]);
                assert(false);
            }
        }
        let ghost line = t.take(e - pos);
        let ghost rest = line.skip(6);
        proof {
            assert(rest =~= s@.skip(pos as int + 6).take(e - (pos + 6)));
        }
        let w = skip_ws_within(s, pos + 6, e);
        let ghost u = rest.skip(leading_ws(rest) as int);
        proof {
            assert(u =~= s@.skip(w as int).take(e - w));
        }
        let ghost full = s@.skip(w as int);
        proof {
            // The digit run seen from `w` cannot cross the line break, so
            // it is the same whether or not the view stops at the line end.
            lemma_leading_digits_props(full);
            lemma_leading_digits_props(u);
            assert forall|k: int| 0 <= k < u.len() implies u[k] == full[k] by {}
            if e < slen {
                assert(full[e - w] == s@[e as int]);
                assert(s@[e as int] == t[line_len(t) as int]);
            }
            if leading_digits(full) > e - w {
                assert(is_digit(full[e - w]));
                assert(false);
            }
            if leading_digits(u) < leading_digits(full) {
                assert(is_digit(full[leading_digits(u) as int]));
                assert(!is_digit(u[leading_digits(u) as int]));
                assert(false);
            }
            if leading_digits(full) < leading_digits(u) {
                assert(is_digit(u[leading_digits(full) as int]));
                assert(!is_digit(full[leading_digits(full) as int]));
                assert(false);
            }
            assert(u.take(leading_digits(u) as int) =~= full.take(leading_digits(full) as int));
        }
        match scan_u64_at(s, w) {
            Option::Some(p) => {
                let (v, j): (u64, usize) = p;
                if j == e {
                    v
                } else {
                    let b: u8 = s[j];
                    proof {
                        assert(u[j - w] == s@[j as int]);
                    }
                    if b == 32 || b == 9 || b == 10 || b == 13 {
                        v
                    } else {
                        0
                    }
                }
            },
            Option::None => 0,
        }
    } else if e >= slen {
        0
    } else {
        proof {
            assert(t.skip(line_len(t) as int + 1) =~= s@.skip(e as int + 1));
        }
        vm_rss_from(s, e + 1)
    }
}

/// Read the resident set size in KiB out of the process status text
/// (best-effort: 0 if it cannot be found or read).
pub fn parse_vm_rss(status: &[u8]) -> (r: u64)
    ensures
        r as int == spec_vm_rss(status@),
{
    proof {
        assert(status@.skip(0) =~= status@);
    }
    vm_rss_from(status, 0)
}

} // verus!
