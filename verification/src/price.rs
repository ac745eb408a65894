//! Turning the numeric text of a price source into a fixed-point integer
//! price: the decimal value is scaled by `PRICE_MULTIPLE` and rounded to the
//! nearest integer.

use vstd::prelude::*;

use crate::parser::first_dot;

verus! {

/// Fixed-point scale of every published price: eight decimal places.
pub const PRICE_MULTIPLE: u64 = 100_000_000;

pub open spec fn is_digit(c: char) -> bool {
    48 <= c as u32 <= 57
}

pub open spec fn dig_val(c: char) -> int {
    c as u32 - 48
}

pub open spec fn all_digits(s: Seq<char>) -> bool {
    forall|i: int| 0 <= i < s.len() ==> is_digit(s[i])
}

/// The value of a run of decimal digits, most significant first.
pub open spec fn digits_val(s: Seq<char>) -> int
    decreases s.len(),
{
    if s.len() == 0 {
        0
    } else {
        digits_val(s.drop_last()) * 10 + dig_val(s.last())
    }
}

pub open spec fn pow10(k: nat) -> int
    decreases k,
{
    if k == 0 {
        1
    } else {
        10 * pow10((k - 1) as nat)
    }
}

pub proof fn lemma_digits_val_bounds(s: Seq<char>)
    requires
        all_digits(s),
    ensures
        0 <= digits_val(s) < pow10(s.len()),
    decreases s.len(),
{
    if s.len() > 0 {
        lemma_digits_val_bounds(s.drop_last());
    }
}

/// A digit run is worth at least any of its prefixes.
pub proof fn lemma_digits_val_prefix(s: Seq<char>, k: int)
    requires
        0 <= k <= s.len(),
        all_digits(s),
    ensures
        digits_val(s) >= digits_val(s.subrange(0, k)),
    decreases s.len(),
{
    if k == s.len() {
        assert(s.subrange(0, k) =~= s);
    } else {
        let d = s.drop_last();
        assert(all_digits(d));
        lemma_digits_val_prefix(d, k);
        lemma_digits_val_bounds(d);
        assert(d.subrange(0, k) =~= s.subrange(0, k));
    }
}

/// The digits before the decimal point.
pub open spec fn int_part(s: Seq<char>) -> Seq<char> {
    s.subrange(0, first_dot(s) as int)
}

/// The digits after the decimal point, empty when there is none.
pub open spec fn frac_part(s: Seq<char>) -> Seq<char> {
    if first_dot(s) < s.len() {
        s.subrange(first_dot(s) as int + 1, s.len() as int)
    } else {
        Seq::empty()
    }
}

/// Decimal text: digits, an optional point with further digits, and at least
/// one digit in all.
pub open spec fn valid_decimal(s: Seq<char>) -> bool {
    all_digits(int_part(s)) && all_digits(frac_part(s)) && int_part(s).len() + frac_part(s).len()
        > 0
}

/// The fractional digits scaled to eight places, rounded to nearest (half
/// away from zero) on the ninth digit.
pub open spec fn frac_scaled(f: Seq<char>) -> int {
    if f.len() <= 8 {
        digits_val(f) * pow10((8 - f.len()) as nat)
    } else {
        digits_val(f.subrange(0, 8)) + if dig_val(f[8]) >= 5 {
            1int
        } else {
            0int
        }
    }
}

/// The decimal value of `s` scaled by `PRICE_MULTIPLE` and rounded to the
/// nearest integer.
pub open spec fn scaled_decimal_val(s: Seq<char>) -> int {
    digits_val(int_part(s)) * (PRICE_MULTIPLE as int) + frac_scaled(frac_part(s))
}

proof fn lemma_pow10_8()
    ensures
        pow10(8) == 100_000_000,
        pow10(7) == 10_000_000,
        pow10(6) == 1_000_000,
        pow10(5) == 100_000,
        pow10(4) == 10_000,
        pow10(3) == 1_000,
        pow10(2) == 100,
        pow10(1) == 10,
        pow10(0) == 1,
{
    assert(pow10(0) == 1);
    assert(pow10(1) == 10);
    assert(pow10(2) == 100);
    assert(pow10(3) == 1_000);
    assert(pow10(4) == 10_000);
    assert(pow10(5) == 100_000);
    assert(pow10(6) == 1_000_000);
    assert(pow10(7) == 10_000_000);
    assert(pow10(8) == 100_000_000);
}

/// Parses decimal text into the fixed-point price it denotes; `None` when
/// the text is not decimal or the scaled value does not fit.
pub fn parse_scaled_decimal(s: &str) -> (r: Option<u64>)
    ensures
        r is Some <==> (valid_decimal(s@) && scaled_decimal_val(s@) <= u64::MAX),
        r is Some ==> r->0 == scaled_decimal_val(s@),
{
    let n = s.unicode_len();
    let mut i: usize = 0;
    let mut iv: u128 = 0;
    while i < n && s.get_char(i) != '.'
        invariant
            n == s@.len(),
            i <= n,
            forall|j: int| 0 <= j < i ==> is_digit(s@[j]),
            iv <= u64::MAX,
            iv == digits_val(s@.subrange(0, i as int)),
        decreases n - i,
    {
        let c = s.get_char(i);
        let d = match crate::encoding::decode_hex_digit(c) {
            Some(d) if d < 10 => d,
            _ => {
                proof {
                    lemma_not_decimal_at(s@, i as int);
                }
                return None;
            },
        };
        proof {
            let pre = s@.subrange(0, i + 1);
            assert(pre.drop_last() =~= s@.subrange(0, i as int));
            assert(pre.last() == s@[i as int]);
        }
        let next = iv * 10 + (d as u128);
        if next > u64::MAX as u128 {
            proof {
                lemma_int_overflow(s@, i as int + 1);
            }
            return None;
        }
        iv = next;
        i = i + 1;
    }
    proof {
        crate::parser::lemma_first_dot_at(s@, i as int);
        assert(int_part(s@) =~= s@.subrange(0, i as int));
    }
    // Reject text with no digit at all.
    if i == 0 && (i == n || i + 1 == n) {
        return None;
    }
    let mut fv: u128 = 0;
    let mut m: usize = 0;
    let mut round_up = false;
    let ghost frac = frac_part(s@);
    proof {
        if i < n {
            assert(frac =~= s@.subrange(i as int + 1, n as int));
        }
        lemma_pow10_8();
    }
    if i < n {
        let fstart = i + 1;
        let mut j: usize = fstart;
        while j < n
            invariant
                n == s@.len(),
                i < n,
                fstart == i + 1,
                fstart <= j <= n,
                frac == s@.subrange(i as int + 1, n as int),
                frac == frac_part(s@),
                m as int == if j - fstart <= 8 {
                    j - fstart
                } else {
                    8int
                },
                forall|k: int| fstart <= k < j ==> is_digit(s@[k]),
                fv == digits_val(frac.subrange(0, m as int)),
                fv < 100_000_000,
                round_up == if j - fstart >= 9 {
                    dig_val(frac[8]) >= 5
                } else {
                    false
                },
            decreases n - j,
        {
            let c = s.get_char(j);
            let d = match crate::encoding::decode_hex_digit(c) {
                Some(d) if d < 10 => d,
                _ => {
                    proof {
                        assert(frac[j - fstart] == s@[j as int]);
                    }
                    return None;
                },
            };
            let idx = j - fstart;
            if idx < 8 {
                proof {
                    let prev = frac.subrange(0, idx as int);
                    let pre = frac.subrange(0, idx + 1);
                    assert(pre.drop_last() =~= prev);
                    assert(pre.last() == frac[idx as int]);
                    assert(frac[idx as int] == s@[j as int]);
                    assert(d as int == dig_val(s@[j as int]));
                    assert(digits_val(pre) == digits_val(prev) * 10 + dig_val(pre.last()));
                    assert(all_digits(pre)) by {
                        assert forall|t: int| 0 <= t < pre.len() implies is_digit(pre[t]) by {
                            assert(pre[t] == frac[t]);
                            assert(frac[t] == s@[fstart + t]);
                        }
                    }
                    lemma_digits_val_bounds(pre);
                    lemma_pow10_le(pre.len(), 8);
                    lemma_pow10_8();
                }
                fv = fv * 10 + (d as u128);
                m = m + 1;
            } else if idx == 8 {
                proof {
                    assert(frac[8] == s@[j as int]);
                    assert(d as int == dig_val(s@[j as int]));
                }
                round_up = d >= 5;
            }
            j = j + 1;
        }
    }
    proof {
        let pre = frac.subrange(0, m as int);
        assert(all_digits(pre)) by {
            assert forall|t: int| 0 <= t < m implies is_digit(pre[t]) by {
                assert(pre[t] == frac[t]);
                assert(frac[t] == s@[i + 1 + t]);
            }
        }
        lemma_digits_val_bounds(pre);
        lemma_pow10_le(m as nat, 8);
    }
    // Scale a short fraction up to eight places.
    let ghost fval = digits_val(frac.subrange(0, m as int));
    let mut pad: usize = 0;
    while pad < 8 - m
        invariant
            m <= 8,
            pad <= 8 - m,
            fval == digits_val(frac.subrange(0, m as int)),
            0 <= fval < pow10(m as nat),
            fv == fval * pow10(pad as nat),
            1 <= pow10(pad as nat) <= 100_000_000,
            pow10(m as nat) <= 100_000_000,
        decreases 8 - m - pad,
    {
        proof {
            lemma_pow10_8();
            lemma_pow10_le((pad + 1) as nat, 8);
            lemma_pow10_pos(pad as nat);
            assert(pow10((pad + 1) as nat) == 10 * pow10(pad as nat));
            assert(fv * 10 == fval * pow10((pad + 1) as nat)) by (nonlinear_arith)
                requires
                    fv == fval * pow10(pad as nat),
                    pow10((pad + 1) as nat) == 10 * pow10(pad as nat),
            ;
            assert(fv <= 100_000_000 * pow10(pad as nat)) by (nonlinear_arith)
                requires
                    fv == fval * pow10(pad as nat),
                    0 <= fval <= 100_000_000,
                    pow10(pad as nat) >= 1,
            ;
        }
        fv = fv * 10;
        pad = pad + 1;
    }
    proof {
        lemma_pow10_8();
        assert(fv == fval * pow10((8 - m) as nat));
        assert(fv <= 100_000_000 * 100_000_000) by (nonlinear_arith)
            requires
                fv == fval * pow10((8 - m) as nat),
                0 <= fval < pow10(m as nat),
                1 <= pow10((8 - m) as nat) <= 100_000_000,
                pow10(m as nat) <= 100_000_000,
        ;
        if frac.len() <= 8 {
            assert(frac.subrange(0, m as int) =~= frac);
        }
        assert(all_digits(int_part(s@))) by {
            assert forall|t: int| 0 <= t < int_part(s@).len() implies is_digit(
                int_part(s@)[t],
            ) by {
                assert(int_part(s@)[t] == s@[t]);
            }
        }
        lemma_digits_val_bounds(int_part(s@));
        if i < n {
            assert(all_digits(frac)) by {
                assert forall|t: int| 0 <= t < frac.len() implies is_digit(frac[t]) by {
                    assert(frac[t] == s@[i + 1 + t]);
                }
            }
        }
        assert(valid_decimal(s@));
        assert(frac_scaled(frac) == fv + if round_up {
            1int
        } else {
            0int
        });
    }
    proof {
        assert(PRICE_MULTIPLE == 100_000_000u64);
        assert(iv <= u64::MAX as u128);
        assert(fv <= 10_000_000_000_000_000);
        assert(iv * (PRICE_MULTIPLE as u128) <= (u64::MAX as u128) * 100_000_000) by (nonlinear_arith)
            requires
                iv <= u64::MAX as u128,
                PRICE_MULTIPLE == 100_000_000u64,
        ;
    }
    let total = iv * (PRICE_MULTIPLE as u128) + fv + if round_up {
        1
    } else {
        0
    };
    proof {
        assert(total == scaled_decimal_val(s@));
    }
    if total > u64::MAX as u128 {
        return None;
    }
    Some(total as u64)
}

/// When scanning digits stops at a character that is neither a digit nor a
/// point, the text is not decimal.
proof fn lemma_not_decimal_at(s: Seq<char>, i: int)
    requires
        0 <= i < s.len(),
        forall|j: int| 0 <= j < i ==> is_digit(s[j]),
        !is_digit(s[i]),
        s[i] != '.',
    ensures
        !valid_decimal(s),
{
    crate::parser::lemma_first_dot(s);
    let k = first_dot(s) as int;
    if k <= i {
        if k < s.len() {
            assert(s[k] == '.');
            if k < i {
                assert(is_digit(s[k]));
                assert(('.' as u32) == 46);
            }
        }
        // The point sits at or before `i`, so `i` lies in the fraction.
        if k < i {
            assert(frac_part(s)[i - k - 1] == s[i]);
        }
    } else {
        assert(int_part(s)[i] == s[i]);
    }
}

/// When the integer digits scanned so far already exceed `u64::MAX`, the
/// scaled value cannot fit.
proof fn lemma_int_overflow(s: Seq<char>, scanned: int)
    requires
        0 < scanned <= s.len(),
        forall|j: int| 0 <= j < scanned ==> is_digit(s[j]),
        digits_val(s.subrange(0, scanned)) > u64::MAX,
    ensures
        valid_decimal(s) ==> scaled_decimal_val(s) > u64::MAX,
{
    if valid_decimal(s) {
        crate::parser::lemma_first_dot(s);
        let k = first_dot(s) as int;
        if k < scanned {
            if k < s.len() {
                assert(is_digit(s[k]));
                assert(('.' as u32) == 46);
            }
        }
        assert(scanned <= k);
        lemma_digits_val_prefix(int_part(s), scanned);
        assert(int_part(s).subrange(0, scanned) =~= s.subrange(0, scanned));
        lemma_digits_val_bounds(int_part(s));
        lemma_frac_scaled_nonneg(frac_part(s));
    }
}

proof fn lemma_frac_scaled_nonneg(f: Seq<char>)
    requires
        all_digits(f),
    ensures
        frac_scaled(f) >= 0,
{
    if f.len() <= 8 {
        lemma_digits_val_bounds(f);
        lemma_pow10_pos((8 - f.len()) as nat);
    } else {
        assert(all_digits(f.subrange(0, 8)));
        lemma_digits_val_bounds(f.subrange(0, 8));
    }
}

proof fn lemma_pow10_pos(k: nat)
    ensures
        pow10(k) >= 1,
    decreases k,
{
    if k > 0 {
        lemma_pow10_pos((k - 1) as nat);
    }
}

proof fn lemma_pow10_le(a: nat, b: nat)
    requires
        a <= b,
    ensures
        pow10(a) <= pow10(b),
    decreases b,
{
    if a < b {
        lemma_pow10_le(a, (b - 1) as nat);
        lemma_pow10_pos((b - 1) as nat);
    }
}

} // verus!
