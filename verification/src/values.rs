//! Verified parsing of the numeric payloads the grammar carries: unsigned
//! and signed decimal integers, with the exact acceptance rules of the
//! standard library's integer parsing (optional sign, decimal digits only,
//! rejection on overflow).

use vstd::prelude::*;
use vstd::string::StrSliceExecFns;

verus! {

/// Decimal digit test on a character's code point.
pub open spec fn is_digit(c: char) -> bool {
    48 <= (c as u32) <= 57
}

/// Numeric value of a decimal digit.
pub open spec fn digit_val(c: char) -> int {
    c as u32 - 48
}

pub open spec fn all_digits(s: Seq<char>) -> bool {
    forall|i: int| 0 <= i < s.len() ==> is_digit(#[trigger] s[i])
}

/// Value of a digit string, most significant first.
pub open spec fn digits_val(s: Seq<char>) -> int
    decreases s.len(),
{
    if s.len() == 0 {
        0
    } else {
        digits_val(s.drop_last()) * 10 + digit_val(s.last())
    }
}

/// The unsigned decimal grammar: an optional `+`, then one or more digits,
/// and the value must fit.
pub open spec fn dec_u32_of(s: Seq<char>) -> Option<u32> {
    let body = if s.len() > 0 && s[0] == '+' {
        s.drop_first()
    } else {
        s
    };
    if body.len() > 0 && all_digits(body) && digits_val(body) <= u32::MAX {
        Some(digits_val(body) as u32)
    } else {
        None
    }
}

/// The signed decimal grammar: an optional `+` or `-`, then one or more
/// digits, and the value must fit.
pub open spec fn dec_i32_of(s: Seq<char>) -> Option<i32> {
    if s.len() > 0 && s[0] == '-' {
        let body = s.drop_first();
        if body.len() > 0 && all_digits(body) && digits_val(body) <= 0x8000_0000 {
            Some((-digits_val(body)) as i32)
        } else {
            None
        }
    } else {
        let body = if s.len() > 0 && s[0] == '+' {
            s.drop_first()
        } else {
            s
        };
        if body.len() > 0 && all_digits(body) && digits_val(body) <= i32::MAX {
            Some(digits_val(body) as i32)
        } else {
            None
        }
    }
}

/// The value of a digit string is never negative.
pub proof fn lemma_digits_val_nonneg(s: Seq<char>)
    requires
        all_digits(s),
    ensures
        digits_val(s) >= 0,
    decreases s.len(),
{
    if s.len() > 0 {
        assert(all_digits(s.drop_last())) by {
            assert(forall|i: int|
                0 <= i < s.len() - 1 ==> #[trigger] s.drop_last()[i] == s[i]);
        }
        lemma_digits_val_nonneg(s.drop_last());
        assert(is_digit(s.last()));
    }
}

/// Extending a digit string on the right cannot shrink its value.
pub proof fn lemma_digits_val_prefix(s: Seq<char>, i: int)
    requires
        all_digits(s),
        0 <= i <= s.len(),
    ensures
        digits_val(s.take(i)) <= digits_val(s),
    decreases s.len() - i,
{
    if i < s.len() {
        lemma_digits_val_prefix(s, i + 1);
        let t = s.take(i + 1);
        assert(all_digits(t)) by {
            assert(forall|k: int| 0 <= k < i + 1 ==> #[trigger] t[k] == s[k]);
        }
        assert(t.drop_last() =~= s.take(i));
        lemma_digits_val_nonneg(t.drop_last());
        assert(digits_val(t) == digits_val(s.take(i)) * 10 + digit_val(t.last()));
        assert(is_digit(s[i]));
    } else {
        assert(s.take(i) =~= s);
    }
}

/// Parses the digit body `s[from..]` as an unsigned value bounded by
/// `bound`; mirrors `digits_val` exactly.
fn parse_digits(s: &str, from: usize, bound: u32) -> (r: Option<u32>)
    requires
        from <= s@.len(),
        bound >= 9,
    ensures
        ({
            let body = s@.skip(from as int);
            match r {
                Some(v) => body.len() > 0 && all_digits(body) && digits_val(body) == v as int
                    && v <= bound,
                None => body.len() == 0 || !all_digits(body) || digits_val(body) > bound,
            }
        }),
{
    let ghost body = s@.skip(from as int);
    let n = s.unicode_len();
    if from >= n {
        return None;
    }
    let mut acc: u32 = 0;
    let mut j: usize = from;
    loop
        invariant
            bound >= 9,
            from <= j <= n,
            n == s@.len(),
            body == s@.skip(from as int),
            all_digits(body.take(j - from)),
            acc as int == digits_val(body.take(j - from)),
            acc <= bound,
        ensures
            ({
                let out = body.take(j - from);
                all_digits(out) && acc as int == digits_val(out) && acc <= bound && (j == n
                    || !is_digit(s@[j as int]) || digits_val(body.take(j - from + 1)) > bound)
            }),
            from <= j <= n,
        decreases n - j,
    {
        if j >= n {
            break;
        }
        let c = s.get_char(j);
        let d32 = c as u32;
        if d32 < 48 || d32 > 57 {
            proof {
                assert(s@[j as int] == c);
            }
            break;
        }
        let d = d32 - 48;
        proof {
            let t = body.take(j - from + 1);
            assert(t.last() == s@[j as int]);
            assert(t.drop_last() =~= body.take(j - from));
            assert(digits_val(t) == acc as int * 10 + d);
        }
        if acc > (bound - d) / 10 {
            proof {
                assert(acc as int * 10 + d > bound) by (nonlinear_arith)
                    requires
                        acc as int > (bound as int - d as int) / 10,
                        0 <= d <= 9,
                        bound >= 0,
                ;
            }
            break;
        }
        acc = acc * 10 + d;
        j = j + 1;
    }
    if j < n {
        proof {
            if is_digit(s@[j as int]) {
                // the next digit would push the value over the bound
                assert(all_digits(body.take(j - from + 1))) by {
                    let t = body.take(j - from + 1);
                    let u = body.take(j - from);
                    assert(forall|k: int| 0 <= k < t.len() - 1 ==> #[trigger] t[k] == u[k]);
                    assert(t.last() == s@[j as int]);
                }
                if all_digits(body) {
                    lemma_digits_val_prefix(body, j - from + 1);
                }
            } else {
                assert(body[j - from] == s@[j as int]);
                assert(!all_digits(body));
            }
        }
        None
    } else {
        proof {
            assert(body.take(j - from) =~= body);
        }
        Some(acc)
    }
}

/// Unsigned decimal parsing, exactly the `dec_u32_of` grammar.
pub fn parse_u32(s: &str) -> (r: Option<u32>)
    ensures
        r == dec_u32_of(s@),
{
    let n = s.unicode_len();
    let from: usize = if n > 0 && s.get_char(0) == '+' {
        1
    } else {
        0
    };
    proof {
        if from == 1 {
            assert(s@.skip(1) =~= s@.drop_first());
        } else {
            assert(s@.skip(0) =~= s@);
        }
    }
    let r = parse_digits(s, from, 0xFFFF_FFFF);
    proof {
        if r is Some {
            let body = s@.skip(from as int);
            lemma_digits_val_nonneg(body);
        }
    }
    r
}

/// Signed decimal parsing, exactly the `dec_i32_of` grammar.
pub fn parse_i32(s: &str) -> (r: Option<i32>)
    ensures
        r == dec_i32_of(s@),
{
    let n = s.unicode_len();
    let mut neg = false;
    let mut from: usize = 0;
    if n > 0 {
        let c = s.get_char(0);
        if c == '-' {
            neg = true;
            from = 1;
        } else if c == '+' {
            from = 1;
        }
    }
    proof {
        if from == 1 {
            assert(s@.skip(1) =~= s@.drop_first());
        } else {
            assert(s@.skip(0) =~= s@);
        }
    }
    let bound: u32 = if neg {
        0x8000_0000
    } else {
        0x7FFF_FFFF
    };
    match parse_digits(s, from, bound) {
        Some(v) => {
            proof {
                lemma_digits_val_nonneg(s@.skip(from as int));
            }
            if neg {
                let w: i64 = -(v as i64);
                Some(w as i32)
            } else {
                Some(v as i32)
            }
        },
        None => None,
    }
}

} // verus!
