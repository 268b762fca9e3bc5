//! Decimal numbers as a form submits them, read into fixed-point units.
//!
//! A number is an optional sign, digits, and optionally a point followed by
//! digits; at least one digit must be present. Fraction digits past the sixth
//! are dropped.

use vstd::prelude::*;
use vstd::string::StrSliceExecFns;

verus! {

/// The decimal digits.
pub open spec fn is_digit(c: char) -> bool {
    '0' <= c <= '9'
}

/// The number that a digit stands for.
pub open spec fn digit_value(c: char) -> int {
    c as int - '0' as int
}

/// Every character is a digit.
pub open spec fn all_digits(s: Seq<char>) -> bool {
    forall|i: int| 0 <= i < s.len() ==> is_digit(#[trigger] s[i])
}

/// The number that a run of digits spells, most significant first.
pub open spec fn digits_value(s: Seq<char>) -> int
    decreases s.len(),
{
    if s.len() == 0 {
        0
    } else {
        digits_value(s.drop_last()) * 10 + digit_value(s.last())
    }
}

/// The length of the longest prefix made of digits.
pub open spec fn digits_prefix_len(s: Seq<char>) -> nat
    decreases s.len(),
{
    if s.len() == 0 || !is_digit(s[0]) {
        0
    } else {
        1 + digits_prefix_len(s.skip(1))
    }
}

/// Ten to the `n`.
pub open spec fn pow10(n: nat) -> int
    decreases n,
{
    if n == 0 {
        1
    } else {
        10 * pow10((n - 1) as nat)
    }
}

/// The fixed-point units that the digits after the point stand for: the
/// first six digits count, the rest are dropped.
pub open spec fn fraction_units(fraction: Seq<char>) -> int {
    let kept = if fraction.len() < 6 {
        fraction.len() as int
    } else {
        6
    };
    digits_value(fraction.take(kept)) * pow10((6 - kept) as nat)
}

/// Whether the text starts with a sign.
pub open spec fn has_sign(s: Seq<char>) -> bool {
    s.len() > 0 && (s[0] == '-' || s[0] == '+')
}

/// The text without its sign.
pub open spec fn unsigned_part(s: Seq<char>) -> Seq<char> {
    if has_sign(s) {
        s.skip(1)
    } else {
        s
    }
}

/// The digits after the point, where `rest` is what follows the whole part.
pub open spec fn fraction_part(rest: Seq<char>) -> Seq<char> {
    if rest.len() > 0 {
        rest.skip(1)
    } else {
        rest
    }
}

/// The number that the text spells, in fixed-point units, or `None` where
/// the text is no decimal number.
pub open spec fn decimal_units(s: Seq<char>) -> Option<int> {
    let body = unsigned_part(s);
    let k = digits_prefix_len(body) as int;
    let rest = body.skip(k);
    let fraction = fraction_part(rest);
    if (rest.len() == 0 || rest[0] == '.') && all_digits(fraction) && k + fraction.len() > 0 {
        let magnitude = digits_value(body.take(k)) * 1_000_000 + fraction_units(fraction);
        Some(
            if s.len() > 0 && s[0] == '-' {
                -magnitude
            } else {
                magnitude
            },
        )
    } else {
        None
    }
}

/// The number that the text spells, where it is one and fits an `i64`.
pub open spec fn decimal_of(s: Seq<char>) -> Option<i64> {
    match decimal_units(s) {
        Some(units) => if i64::MIN <= units <= i64::MAX {
            Some(units as i64)
        } else {
            None
        },
        None => None,
    }
}

/// A prefix of digits that ends at the end of the text or before a character
/// that is no digit is the longest one.
pub proof fn lemma_digits_prefix(s: Seq<char>, k: int)
    requires
        0 <= k <= s.len(),
        all_digits(s.take(k)),
        k == s.len() || !is_digit(s[k]),
    ensures
        digits_prefix_len(s) == k,
    decreases k,
{
    if k == 0 {
    } else {
        assert(s.take(k)[0] == s[0]);
        let t = s.skip(1);
        assert forall|i: int| 0 <= i < k - 1 implies is_digit(#[trigger] t.take(k - 1)[i]) by {
            assert(t.take(k - 1)[i] == s.take(k)[i + 1]);
        }
        lemma_digits_prefix(t, k - 1);
    }
}

/// Each power of ten is ten times the one before it, and none is below one.
pub proof fn lemma_pow10_step(n: nat)
    ensures
        pow10(n + 1) == 10 * pow10(n),
        pow10(n) >= 1,
    decreases n,
{
    if n > 0 {
        lemma_pow10_step((n - 1) as nat);
    }
}

/// The powers of ten up to the sixth.
pub proof fn lemma_pow10_six(n: nat)
    requires
        n <= 6,
    ensures
        1 <= pow10(n) <= 1_000_000,
        n == 6 ==> pow10(n) == 1_000_000,
        n < 6 ==> pow10(n) <= 100_000,
{
    reveal_with_fuel(pow10, 8);
}

/// A run of digits spells a number that is not negative.
pub proof fn lemma_digits_value_nonnegative(s: Seq<char>)
    requires
        all_digits(s),
    ensures
        digits_value(s) >= 0,
    decreases s.len(),
{
    if s.len() > 0 {
        let t = s.drop_last();
        assert forall|i: int| 0 <= i < t.len() implies is_digit(#[trigger] t[i]) by {
            assert(t[i] == s[i]);
        }
        lemma_digits_value_nonnegative(t);
        assert(is_digit(s[s.len() - 1]));
    }
}

/// The largest whole part that is tracked exactly; anything at or above it
/// is far outside the fixed-point range.
const WHOLE_CAP: u128 = 10_000_000_000_000_000_000;

fn digit_of(c: char) -> (d: Option<u128>)
    ensures
        is_digit(c) ==> d == Some(digit_value(c) as u128),
        !is_digit(c) ==> d is None,
{
    if '0' <= c && c <= '9' {
        Some((c as u32 - '0' as u32) as u128)
    } else {
        None
    }
}

/// A whole part, capped: the number itself below the cap, the cap from there on.
spec fn capped(value: int) -> int {
    if value < WHOLE_CAP {
        value
    } else {
        WHOLE_CAP as int
    }
}

/// Reads the digits that start at `start`: where they end, and what they
/// spell, capped.
fn scan_whole(text: &str, start: usize) -> (r: (usize, u128))
    requires
        start <= text@.len(),
    ensures
        r.0 == start + digits_prefix_len(text@.skip(start as int)),
        r.0 <= text@.len(),
        r.1 == capped(
            digits_value(text@.skip(start as int).take(r.0 - start)),
        ),
        0 <= digits_value(text@.skip(start as int).take(r.0 - start)),
{
    let n = text.unicode_len();
    let ghost body = text@.skip(start as int);
    let mut i: usize = start;
    let mut whole: u128 = 0;
    let mut scanning = true;
    assert(body.take(0) =~= Seq::<char>::empty());
    while scanning && i < n
        invariant
            start <= i <= n,
            n == text@.len(),
            body == text@.skip(start as int),
            all_digits(body.take(i - start)),
            !scanning ==> i < n && !is_digit(text@[i as int]),
            whole == capped(digits_value(body.take(i - start))),
        decreases
                n - i + if scanning {
                    1int
                } else {
                    0int
                },
    {
        let c = text.get_char(i);
        match digit_of(c) {
            None => {
                scanning = false;
            },
            Some(d) => {
                proof {
                    let before = body.take(i - start);
                    let after = body.take(i + 1 - start);
                    assert(after.drop_last() =~= before);
                    assert(after.last() == c);
                    assert forall|j: int| 0 <= j < after.len() implies is_digit(
                        #[trigger] after[j],
                    ) by {
                        if j < before.len() {
                            assert(after[j] == before[j]);
                        }
                    }
                    lemma_digits_value_nonnegative(before);
                }
                whole = whole * 10 + d;
                if whole > WHOLE_CAP {
                    whole = WHOLE_CAP;
                }
                i = i + 1;
            },
        }
    }
    proof {
        let k: int = i - start;
        assert(k == body.len() || body[k] == text@[i as int]);
        lemma_digits_prefix(body, k);
        lemma_digits_value_nonnegative(body.take(k));
    }
    (i, whole)
}

/// Reads the fraction digits that start at `first` and run to the end of the
/// text: their fixed-point units, or `None` where one is no digit.
fn scan_fraction(text: &str, first: usize) -> (r: Option<u128>)
    requires
        first <= text@.len(),
    ensures
        all_digits(text@.skip(first as int)) ==> r == Some(
            fraction_units(text@.skip(first as int)) as u128,
        ),
        all_digits(text@.skip(first as int)) ==> 0 <= fraction_units(text@.skip(first as int))
            < 1_000_000,
        !all_digits(text@.skip(first as int)) ==> r is None,
{
    let n = text.unicode_len();
    let ghost fraction = text@.skip(first as int);
    let mut i: usize = first;
    let mut units: u128 = 0;
    let mut kept: usize = 0;
    assert(fraction.take(0) =~= Seq::<char>::empty());
    proof {
        reveal_with_fuel(pow10, 2);
    }
    while i < n
        invariant
            first <= i <= n,
            n == text@.len(),
            fraction == text@.skip(first as int),
            all_digits(fraction.take(i - first)),
            kept <= 6,
            kept == if i - first < 6 {
                i - first
            } else {
                6
            },
            units == digits_value(fraction.take(kept as int)),
            0 <= units < pow10(kept as nat),
        decreases n - i,
    {
        let c = text.get_char(i);
        match digit_of(c) {
            None => {
                assert(!is_digit(fraction[i - first]));
                return None;
            },
            Some(d) => {
                proof {
                    let before = fraction.take(i - first);
                    let after = fraction.take(i + 1 - first);
                    assert forall|j: int| 0 <= j < after.len() implies is_digit(
                        #[trigger] after[j],
                    ) by {
                        if j < before.len() {
                            assert(after[j] == before[j]);
                        }
                    }
                    lemma_pow10_step(kept as nat);
                    lemma_pow10_six(kept as nat);
                }
                if kept < 6 {
                    proof {
                        let before = fraction.take(kept as int);
                        let after = fraction.take(kept + 1);
                        assert(after.drop_last() =~= before);
                        assert(after.last() == c);
                    }
                    units = units * 10 + d;
                    kept = kept + 1;
                }
                i = i + 1;
            },
        }
    }
    assert(fraction.take(fraction.len() as int) =~= fraction);
    let ghost spelled = digits_value(fraction.take(kept as int));
    let mut j: usize = kept;
    assert(pow10((j - kept) as nat) == 1) by {
        reveal_with_fuel(pow10, 2);
    }
    while j < 6
        invariant
            kept <= j <= 6,
            units == spelled * pow10((j - kept) as nat),
            0 <= units < pow10(j as nat),
        decreases 6 - j,
    {
        proof {
            lemma_pow10_step((j - kept) as nat);
            lemma_pow10_step(j as nat);
            lemma_pow10_six(j as nat);
            assert(spelled * pow10((j - kept) as nat) * 10 == spelled * (10 * pow10(
                (j - kept) as nat,
            ))) by (nonlinear_arith);
        }
        units = units * 10;
        j = j + 1;
    }
    proof {
        lemma_pow10_six(6);
    }
    Some(units)
}

/// Reads a decimal number into fixed-point units.
///
/// Returns `None` where the text is no decimal number or where the number
/// does not fit an `i64` of fixed-point units.
pub fn parse_decimal(text: &str) -> (r: Option<i64>)
    ensures
        r == decimal_of(text@),
{
    let n = text.unicode_len();
    let mut start: usize = 0;
    let mut negative = false;
    if n > 0 {
        let c = text.get_char(0);
        if c == '-' {
            negative = true;
            start = 1;
        } else if c == '+' {
            start = 1;
        }
    }
    let ghost body = unsigned_part(text@);
    assert(body == text@.skip(start as int));
    let (end, whole) = scan_whole(text, start);
    let ghost k: int = end - start;
    let ghost rest = body.skip(k);
    let ghost fraction = fraction_part(rest);
    let mut first: usize = end;
    if end < n {
        let c = text.get_char(end);
        assert(rest[0] == c);
        if c != '.' {
            return None;
        }
        first = end + 1;
    }
    assert(fraction =~= text@.skip(first as int));
    let units = match scan_fraction(text, first) {
        None => {
            return None;
        },
        Some(units) => units,
    };
    if end == start && first == n {
        return None;
    }
    if whole >= WHOLE_CAP {
        assert(decimal_of(text@) is None) by {
            let w = digits_value(body.take(k));
            assert(w * 1_000_000 >= 10_000_000_000_000_000_000 * 1_000_000) by (nonlinear_arith)
                requires
                    w >= 10_000_000_000_000_000_000,
            ;
        }
        return None;
    }
    assert(whole * 1_000_000 <= 10_000_000_000_000_000_000 * 1_000_000) by (nonlinear_arith)
        requires
            whole <= 10_000_000_000_000_000_000,
    ;
    let magnitude: u128 = whole * 1_000_000 + units;
    if negative {
        if magnitude <= 0x8000_0000_0000_0000 {
            Some((-(magnitude as i128)) as i64)
        } else {
            None
        }
    } else {
        if magnitude <= 0x7fff_ffff_ffff_ffff {
            Some(magnitude as i64)
        } else {
            None
        }
    }
}

} // verus!
