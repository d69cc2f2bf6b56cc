use vstd::prelude::*;

verus! {

// ---------------------------------------------------------------------------
// Decimal rendering of unsigned numbers
// ---------------------------------------------------------------------------
pub open spec fn digit_char(d: int) -> char {
    (48 + d) as char
}

/// The decimal digits of `n`, most significant first.
pub open spec fn spec_digits(n: int) -> Seq<char>
    decreases n,
{
    if n < 10 {
        seq![digit_char(n)]
    } else {
        spec_digits(n / 10).push(digit_char(n % 10))
    }
}

/// Render a number in decimal.
pub fn u64_to_string(n: u64) -> (r: String)
    ensures
        r@ == spec_digits(n as int),
    decreases n,
{
    if n < 10 {
        let c = ((48 + n as u8)) as char;
        let mut r = String::new();
        r.push(c);
        assert(r@ =~= seq![digit_char(n as int)]);
        r
    } else {
        let mut r = u64_to_string(n / 10);
        let c = ((48 + (n % 10) as u8)) as char;
        r.push(c);
        r
    }
}

// ---------------------------------------------------------------------------
// Reading signed decimal numbers
// ---------------------------------------------------------------------------
pub open spec fn is_digit(c: char) -> bool {
    48 <= (c as int) <= 57
}

pub open spec fn digit_val(c: char) -> int {
    (c as int) - 48
}

pub open spec fn all_digits(s: Seq<char>) -> bool {
    forall|i: int| 0 <= i < s.len() ==> is_digit(#[trigger] s[i])
}

pub open spec fn digits_value(s: Seq<char>) -> int
    decreases s.len(),
{
    if s.len() == 0 {
        0
    } else {
        digits_value(s.drop_last()) * 10 + digit_val(s.last())
    }
}

/// What `str::parse::<i64>` accepts: an optional sign, then at least one
/// digit, all digits, the value within the type's range.
pub open spec fn spec_parse_i64(s: Seq<char>) -> Option<int> {
    let neg = s.len() > 0 && s[0] == '-';
    let signed = s.len() > 0 && (s[0] == '-' || s[0] == '+');
    let ds = if signed {
        s.drop_first()
    } else {
        s
    };
    if ds.len() == 0 || !all_digits(ds) {
        None
    } else {
        let v = if neg {
            -digits_value(ds)
        } else {
            digits_value(ds)
        };
        if -0x8000000000000000 <= v <= 0x7fffffffffffffff {
            Some(v)
        } else {
            None
        }
    }
}

proof fn lemma_digits_nonneg(s: Seq<char>)
    requires
        all_digits(s),
    ensures
        digits_value(s) >= 0,
    decreases s.len(),
{
    if s.len() > 0 {
        assert(all_digits(s.drop_last())) by {
            assert(forall|i: int|
                0 <= i < s.drop_last().len() ==> #[trigger] s.drop_last()[i] == s[i]);
        }
        lemma_digits_nonneg(s.drop_last());
    }
}

/// A digit string's value only grows as digits are appended.
proof fn lemma_digits_prefix(s: Seq<char>, j: int)
    requires
        all_digits(s),
        0 <= j <= s.len(),
    ensures
        digits_value(s.take(j)) <= digits_value(s),
    decreases s.len() - j,
{
    assert(all_digits(s.take(j))) by {
        assert(forall|i: int| 0 <= i < j ==> #[trigger] s.take(j)[i] == s[i]);
    }
    if j == s.len() {
        assert(s.take(j) =~= s);
    } else {
        lemma_digits_prefix(s, j + 1);
        assert(s.take(j + 1).drop_last() =~= s.take(j));
        assert(digits_value(s.take(j + 1)) == digits_value(s.take(j)) * 10 + digit_val(
            s.take(j + 1).last(),
        ));
        lemma_digits_nonneg(s.take(j));
    }
}

/// Read a signed decimal number the way `str::parse::<i64>` does.
pub fn parse_i64(s: &str) -> (r: Option<i64>)
    ensures
        match r {
            Some(v) => spec_parse_i64(s@) == Some(v as int),
            None => spec_parse_i64(s@) is None,
        },
{
    let sv = crate::text::to_chars(s);
    let signed = sv.len() > 0 && (sv[0] == '-' || sv[0] == '+');
    let neg = sv.len() > 0 && sv[0] == '-';
    let start: usize = if signed {
        1
    } else {
        0
    };
    let ds = crate::text::subrange_chars(&sv, start, sv.len());
    let ghost dsq = if signed {
        s@.drop_first()
    } else {
        s@
    };
    proof {
        assert(ds@ =~= dsq);
    }
    if ds.len() == 0 {
        return None;
    }
    let bound: u64 = if neg {
        0x8000000000000000
    } else {
        0x7fffffffffffffff
    };
    let mut acc: u64 = 0;
    let mut i: usize = 0;
    while i < ds.len()
        invariant
            i <= ds@.len(),
            ds@ == dsq,
            signed == (s@.len() > 0 && (s@[0] == '-' || s@[0] == '+')),
            neg == (s@.len() > 0 && s@[0] == '-'),
            dsq == if signed {
                s@.drop_first()
            } else {
                s@
            },
            dsq.len() > 0,
            neg ==> bound == 0x8000000000000000u64,
            !neg ==> bound == 0x7fffffffffffffffu64,
            all_digits(dsq.take(i as int)),
            acc == digits_value(dsq.take(i as int)),
            acc <= bound,
        decreases ds@.len() - i,
    {
        let c = ds[i];
        if !('0' <= c && c <= '9') {
            assert(!is_digit(dsq[i as int]));
            assert(spec_parse_i64(s@) is None) by {
                if all_digits(dsq) {
                    assert(is_digit(dsq[i as int]));
                }
            }
            return None;
        }
        let d: u64 = (c as u32 as u64) - 48;
        proof {
            assert(is_digit(dsq[i as int]));
            assert(d == digit_val(dsq[i as int]));
            assert(dsq.take(i + 1).drop_last() =~= dsq.take(i as int));
            assert(dsq.take(i + 1).last() == dsq[i as int]);
        }
        if acc > (bound - d) / 10 {
            proof {
                assert(digits_value(dsq.take(i + 1)) == acc * 10 + d);
                assert(acc * 10 + d > bound);
                assert(all_digits(dsq.take(i + 1)));
                assert(spec_parse_i64(s@) is None) by {
                    if all_digits(dsq) {
                        lemma_digits_prefix(dsq, i + 1);
                        assert(digits_value(dsq) >= digits_value(dsq.take(i + 1)));
                    }
                }
            }
            return None;
        }
        proof {
            assert(acc <= (bound - d) / 10);
            assert(acc * 10 <= bound - d);
        }
        acc = acc * 10 + d;
        i = i + 1;
    }
    proof {
        assert(dsq.take(dsq.len() as int) =~= dsq);
        assert(all_digits(dsq));
        assert(acc == digits_value(dsq));
    }
    if neg {
        if acc == 0x8000000000000000 {
            Some(i64::MIN)
        } else {
            Some(-(acc as i64))
        }
    } else {
        Some(acc as i64)
    }
}

} // verus!
