//! Numeric literals: the digits written in a statement, read exactly into an
//! `Int64` or an exact decimal.
//!
//! The grammar is `['-'] digits` or `['-'] digits '.' digits`. A numeral is
//! rejected when its digits overflow the 64-bit mantissa while read left to
//! right, or when it carries more fractional digits than a well-formed
//! decimal may.

use vstd::prelude::*;
use crate::execution::types::{DecimalValue, ScalarValue, ValueModel, MAX_DECIMAL_SCALE};

verus! {

/// A decimal digit.
pub open spec fn is_digit(c: char) -> bool {
    '0' <= c && c <= '9'
}

/// The value of one digit.
pub open spec fn digit_val(c: char) -> int {
    c as int - '0' as int
}

/// Reads digits left to right onto an accumulator; `None` on a non-digit or
/// once the value leaves the 64-bit signed range.
pub open spec fn digits_fold(s: Seq<char>, acc: int) -> Option<int>
    decreases s.len(),
{
    if s.len() == 0 {
        Some(acc)
    } else if !is_digit(s[0]) {
        None
    } else if acc * 10 + digit_val(s[0]) > i64::MAX {
        None
    } else {
        digits_fold(s.drop_first(), acc * 10 + digit_val(s[0]))
    }
}

/// The position of the first dot, if any.
pub open spec fn dot_pos(s: Seq<char>) -> Option<int>
    decreases s.len(),
{
    if s.len() == 0 {
        None
    } else if s[0] == '.' {
        Some(0)
    } else {
        match dot_pos(s.drop_first()) {
            Some(p) => Some(p + 1),
            None => None,
        }
    }
}

/// `dot_pos` finds exactly the first dot.
proof fn lemma_dot_pos(s: Seq<char>)
    ensures
        match dot_pos(s) {
            Some(p) => 0 <= p < s.len() && s[p] == '.' && (forall|j: int|
                0 <= j < p ==> s[j] != '.'),
            None => forall|j: int| 0 <= j < s.len() ==> s[j] != '.',
        },
    decreases s.len(),
{
    if s.len() > 0 && s[0] != '.' {
        lemma_dot_pos(s.drop_first());
        let t = s.drop_first();
        assert(forall|j: int| 0 <= j < t.len() ==> #[trigger] t[j] == s[j + 1]);
        match dot_pos(t) {
            Some(p) => {
                assert(s[p + 1] == t[p]);
                assert forall|j: int| 0 <= j < p + 1 implies s[j] != '.' by {
                    if j > 0 {
                        assert(t[j - 1] == s[j]);
                    }
                }
            },
            None => {
                assert forall|j: int| 0 <= j < s.len() implies s[j] != '.' by {
                    if j > 0 {
                        assert(t[j - 1] == s[j]);
                    }
                }
            },
        }
    }
}

/// The folded accumulator never goes below where it started.
proof fn lemma_fold_monotone(s: Seq<char>, acc: int)
    requires
        0 <= acc,
        digits_fold(s, acc) is Some,
    ensures
        acc <= digits_fold(s, acc)->Some_0,
        digits_fold(s, acc)->Some_0 <= i64::MAX || s.len() == 0,
    decreases s.len(),
{
    if s.len() > 0 {
        lemma_fold_monotone(s.drop_first(), acc * 10 + digit_val(s[0]));
    }
}

/// Folding a concatenation folds the first part, then the second.
proof fn lemma_fold_concat(a: Seq<char>, b: Seq<char>, acc: int)
    ensures
        digits_fold(a + b, acc) == match digits_fold(a, acc) {
            Some(m) => digits_fold(b, m),
            None => None,
        },
    decreases a.len(),
{
    if a.len() == 0 {
        assert(a + b =~= b);
    } else {
        assert((a + b)[0] == a[0]);
        assert((a + b).drop_first() =~= a.drop_first() + b);
        if is_digit(a[0]) && acc * 10 + digit_val(a[0]) <= i64::MAX {
            lemma_fold_concat(a.drop_first(), b, acc * 10 + digit_val(a[0]));
        }
    }
}

/// The exact value of a numeral: an integer when it has no dot, an exact
/// decimal scaled by its fractional digits when it has one; `None` when the
/// shape or the bounds are violated.
pub open spec fn parse_numeral(s: Seq<char>) -> Option<ValueModel> {
    if s.len() == 0 {
        None
    } else {
        let neg = s[0] == '-';
        let body = if neg {
            s.drop_first()
        } else {
            s
        };
        match dot_pos(body) {
            None => {
                if body.len() == 0 {
                    None
                } else {
                    match digits_fold(body, 0) {
                        Some(v) => Some(
                            ValueModel::Int64(
                                (if neg {
                                    -v
                                } else {
                                    v
                                }) as i64,
                            ),
                        ),
                        None => None,
                    }
                }
            },
            Some(p) => {
                let ip = body.take(p);
                let fp = body.skip(p + 1);
                if ip.len() == 0 || fp.len() == 0 || fp.len() > MAX_DECIMAL_SCALE {
                    None
                } else {
                    match digits_fold(ip + fp, 0) {
                        Some(m) => Some(
                            ValueModel::Decimal(
                                DecimalValue {
                                    mantissa: (if neg {
                                        -m
                                    } else {
                                        m
                                    }) as i64,
                                    scale: fp.len() as u32,
                                },
                            ),
                        ),
                        None => None,
                    }
                }
            },
        }
    }
}

/// Folds a digit run at runtime, mirroring [`digits_fold`] over the character
/// range `[from, to)` of `s`.
fn fold_digits_exec(s: &str, from: usize, to: usize, acc0: i64) -> (r: Option<i64>)
    requires
        from <= to <= s@.len(),
        0 <= acc0,
    ensures
        match r {
            Some(v) => digits_fold(s@.subrange(from as int, to as int), acc0 as int) == Some(
                v as int,
            ) && v >= 0,
            None => digits_fold(s@.subrange(from as int, to as int), acc0 as int) is None,
        },
{
    let mut acc: i64 = acc0;
    let mut i: usize = from;
    while i < to
        invariant
            from <= i <= to <= s@.len(),
            0 <= acc,
            digits_fold(s@.subrange(from as int, to as int), acc0 as int) == digits_fold(
                s@.subrange(i as int, to as int),
                acc as int,
            ),
        decreases to - i,
    {
        let c = s.get_char(i);
        if !(c >= '0' && c <= '9') {
            return None;
        }
        let d: i64 = (c as u32 as i64) - ('0' as u32 as i64);
        if acc > (i64::MAX - d) / 10 {
            proof {
                let tail = s@.subrange(i as int, to as int);
                assert(tail[0] == c);
                assert(acc * 10 + d > i64::MAX);
            }
            return None;
        }
        proof {
            let tail = s@.subrange(i as int, to as int);
            assert(tail[0] == c);
            assert(acc * 10 + d <= i64::MAX);
            assert(tail.drop_first() =~= s@.subrange(i + 1, to as int));
        }
        acc = acc * 10 + d;
        i = i + 1;
    }
    proof {
        assert(s@.subrange(i as int, to as int).len() == 0);
    }
    Some(acc)
}

/// Reads a numeral exactly, as [`parse_numeral`] describes.
pub fn parse_number(s: &str) -> (r: Option<ScalarValue>)
    ensures
        match r {
            Some(v) => parse_numeral(s@) == Some(v@),
            None => parse_numeral(s@) is None,
        },
{
    let n = s.unicode_len();
    if n == 0 {
        return None;
    }
    let first = s.get_char(0);
    let neg = first == '-';
    let start: usize = if neg {
        1
    } else {
        0
    };
    let ghost body = if neg {
        s@.drop_first()
    } else {
        s@
    };
    // find the first dot in the body
    let mut dot: Option<usize> = None;
    let mut i: usize = start;
    while i < n
        invariant
            start <= i <= n,
            n == s@.len(),
            start == if neg {
                1int
            } else {
                0int
            },
            body == if neg {
                s@.drop_first()
            } else {
                s@
            },
            match dot {
                Some(d) => start <= d < i && s@[d as int] == '.' && (forall|j: int|
                    start <= j < d ==> s@[j] != '.'),
                None => forall|j: int| start <= j < i ==> s@[j] != '.',
            },
        decreases n - i,
    {
        if dot.is_none() {
            let c = s.get_char(i);
            if c == '.' {
                dot = Some(i);
            }
        }
        i = i + 1;
    }
    proof {
        lemma_dot_pos(body);
        assert(body.len() == n - start);
        assert forall|j: int| 0 <= j < body.len() implies body[j] == s@[j + start] by {}
    }
    match dot {
        None => {
            proof {
                assert(dot_pos(body) is None);
            }
            if n == start {
                return None;
            }
            let v = match fold_digits_exec(s, start, n, 0) {
                Some(v) => v,
                None => {
                    proof {
                        assert(body =~= s@.subrange(start as int, n as int));
                    }
                    return None;
                },
            };
            proof {
                assert(body =~= s@.subrange(start as int, n as int));
            }
            if neg {
                Some(ScalarValue::Int64(-v))
            } else {
                Some(ScalarValue::Int64(v))
            }
        },
        Some(d) => {
            proof {
                assert(body[d - start] == '.');
                assert(forall|j: int| 0 <= j < d - start ==> body[j] != '.');
                assert(dot_pos(body) == Some(d - start));
            }
            let ghost p = d - start;
            let ghost ip = body.take(p);
            let ghost fp = body.skip(p + 1);
            if d == start || n - d - 1 == 0 || n - d - 1 > MAX_DECIMAL_SCALE as usize {
                proof {
                    assert(ip.len() == p);
                    assert(fp.len() == body.len() - p - 1);
                }
                return None;
            }
            let iv = match fold_digits_exec(s, start, d, 0) {
                Some(v) => v,
                None => {
                    proof {
                        assert(ip =~= s@.subrange(start as int, d as int));
                        lemma_fold_concat(ip, fp, 0);
                    }
                    return None;
                },
            };
            let m = match fold_digits_exec(s, d + 1, n, iv) {
                Some(v) => v,
                None => {
                    proof {
                        assert(ip =~= s@.subrange(start as int, d as int));
                        assert(fp =~= s@.subrange(d + 1, n as int));
                        lemma_fold_concat(ip, fp, 0);
                    }
                    return None;
                },
            };
            proof {
                assert(ip =~= s@.subrange(start as int, d as int));
                assert(fp =~= s@.subrange(d + 1, n as int));
                lemma_fold_concat(ip, fp, 0);
                assert(fp.len() == n - d - 1);
            }
            let scale: u32 = (n - d - 1) as u32;
            let mantissa: i64 = if neg {
                -m
            } else {
                m
            };
            Some(ScalarValue::Decimal(DecimalValue { mantissa, scale }))
        },
    }
}

} // verus!
