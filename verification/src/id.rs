//! Identifiers as text: thirty-two hexadecimal digits.

use vstd::prelude::*;
use vstd::string::StrSliceExecFns;
use crate::monitor::Id;
use crate::text::{digit_char, hex_digits, hex_text};

verus! {

/// The number that a hexadecimal digit stands for, in either case.
pub open spec fn hex_digit_value(c: char) -> Option<int> {
    if '0' <= c <= '9' {
        Some(c as int - '0' as int)
    } else if 'a' <= c <= 'f' {
        Some(c as int - 'a' as int + 10)
    } else if 'A' <= c <= 'F' {
        Some(c as int - 'A' as int + 10)
    } else {
        None
    }
}

/// Every character is a hexadecimal digit.
pub open spec fn all_hex(s: Seq<char>) -> bool {
    forall|i: int| 0 <= i < s.len() ==> hex_digit_value(#[trigger] s[i]) is Some
}

/// The number that a run of hexadecimal digits spells.
pub open spec fn hex_value(s: Seq<char>) -> int
    decreases s.len(),
{
    if s.len() == 0 {
        0
    } else {
        hex_value(s.drop_last()) * 16 + match hex_digit_value(s.last()) {
            Some(digit) => digit,
            None => 0,
        }
    }
}

/// Sixteen to the `n`.
pub open spec fn pow16(n: nat) -> int
    decreases n,
{
    if n == 0 {
        1
    } else {
        16 * pow16((n - 1) as nat)
    }
}

/// The identifier that a text spells: thirty-two hexadecimal digits.
pub open spec fn id_named(s: Seq<char>) -> Option<Id> {
    if s.len() == 32 && all_hex(s) {
        Some(Id(hex_value(s) as u128))
    } else {
        None
    }
}

/// The text of an identifier.
pub open spec fn id_text(id: Id) -> Seq<char> {
    hex_digits(id.0 as nat, 32)
}

/// The powers of sixteen grow, and the thirty-second is two to the 128.
pub proof fn lemma_pow16(a: nat, b: nat)
    requires
        a <= b,
    ensures
        1 <= pow16(a) <= pow16(b),
        pow16(32) == 0x1_0000_0000_0000_0000_0000_0000_0000_0000,
    decreases b,
{
    if a < b {
        lemma_pow16(a, (b - 1) as nat);
    } else if a > 0 {
        lemma_pow16((a - 1) as nat, (b - 1) as nat);
    }
    assert(pow16(32) == 0x1_0000_0000_0000_0000_0000_0000_0000_0000) by {
        reveal_with_fuel(pow16, 33);
    }
}

/// A run of hexadecimal digits spells a number below sixteen to its length.
pub proof fn lemma_hex_value_bound(s: Seq<char>)
    requires
        all_hex(s),
    ensures
        0 <= hex_value(s) < pow16(s.len()),
    decreases s.len(),
{
    if s.len() > 0 {
        let front = s.drop_last();
        assert forall|i: int| 0 <= i < front.len() implies hex_digit_value(#[trigger] front[i])
            is Some by {
            assert(front[i] == s[i]);
        }
        lemma_hex_value_bound(front);
        assert(hex_digit_value(s[s.len() - 1]) is Some);
    }
}

/// The digits written for a number spell that number again, as far as they
/// reach: the number modulo sixteen to their count.
pub proof fn lemma_hex_digits_spell(n: nat, digits: nat)
    ensures
        hex_digits(n, digits).len() == digits,
        all_hex(hex_digits(n, digits)),
        hex_value(hex_digits(n, digits)) == n % (pow16(digits) as nat),
    decreases digits,
{
    lemma_pow16(0, digits);
    if digits == 0 {
    } else {
        let front = hex_digits(n / 16, (digits - 1) as nat);
        let last = digit_char((n % 16) as int);
        let all = hex_digits(n, digits);
        lemma_hex_digits_spell(n / 16, (digits - 1) as nat);
        lemma_pow16(0, (digits - 1) as nat);
        assert(all == front.push(last));
        assert(all.drop_last() =~= front);
        assert(hex_digit_value(last) == Some((n % 16) as int));
        assert forall|i: int| 0 <= i < all.len() implies hex_digit_value(#[trigger] all[i])
            is Some by {
            if i < front.len() {
                assert(all[i] == front[i]);
            }
        }
        let p = pow16((digits - 1) as nat);
        let high = (n / 16) as int;
        let low = (n % 16) as int;
        // n = 16 * high + low, and high = p * (high / p) + high % p
        vstd::arithmetic::div_mod::lemma_fundamental_div_mod(high, p);
        vstd::arithmetic::div_mod::lemma_mod_bound(high, p);
        assert(n as int == (high / p) * (16 * p) + ((high % p) * 16 + low)) by (nonlinear_arith)
            requires
                n as int == 16 * high + low,
                high == p * (high / p) + high % p,
        ;
        assert(0 <= (high % p) * 16 + low < 16 * p) by (nonlinear_arith)
            requires
                0 <= high % p < p,
                0 <= low < 16,
        ;
        vstd::arithmetic::div_mod::lemma_fundamental_div_mod_converse(
            n as int,
            16 * p,
            high / p,
            (high % p) * 16 + low,
        );
    }
}

/// Writing an identifier and reading the text gives the identifier back.
pub proof fn lemma_id_round_trip(id: Id)
    ensures
        id_named(id_text(id)) == Some(id),
{
    lemma_hex_digits_spell(id.0 as nat, 32);
    lemma_pow16(0, 32);
    vstd::arithmetic::div_mod::lemma_small_mod(id.0 as nat, pow16(32) as nat);
}

fn hex_digit_of(c: char) -> (r: Option<u128>)
    ensures
        match hex_digit_value(c) {
            Some(digit) => r == Some(digit as u128) && 0 <= digit < 16,
            None => r is None,
        },
{
    if '0' <= c && c <= '9' {
        Some((c as u32 - '0' as u32) as u128)
    } else if 'a' <= c && c <= 'f' {
        Some((c as u32 - 'a' as u32 + 10) as u128)
    } else if 'A' <= c && c <= 'F' {
        Some((c as u32 - 'A' as u32 + 10) as u128)
    } else {
        None
    }
}

impl Id {
    /// Reads an identifier from its text: thirty-two hexadecimal digits, in
    /// either case.
    pub fn parse(text: &str) -> (r: Option<Id>)
        ensures
            r == id_named(text@),
    {
        if text.unicode_len() != 32 {
            return None;
        }
        let mut value: u128 = 0;
        let mut i: usize = 0;
        assert(text@.take(0) =~= Seq::<char>::empty());
        while i < 32
            invariant
                i <= 32,
                text@.len() == 32,
                all_hex(text@.take(i as int)),
                value == hex_value(text@.take(i as int)),
            decreases 32 - i,
        {
            let c = text.get_char(i);
            let digit = match hex_digit_of(c) {
                Some(digit) => digit,
                None => {
                    assert(hex_digit_value(text@[i as int]) is None);
                    return None;
                },
            };
            proof {
                let before = text@.take(i as int);
                let after = text@.take(i + 1);
                assert(after.drop_last() =~= before);
                assert(after.last() == c);
                assert forall|j: int| 0 <= j < after.len() implies hex_digit_value(
                    #[trigger] after[j],
                ) is Some by {
                    if j < before.len() {
                        assert(after[j] == before[j]);
                    }
                }
                lemma_hex_value_bound(after);
                lemma_pow16((i + 1) as nat, 32);
            }
            value = value * 16 + digit;
            i = i + 1;
        }
        assert(text@.take(32) =~= text@);
        Some(Id(value))
    }

    /// Writes the identifier as thirty-two hexadecimal digits in lower case.
    pub fn to_text(&self) -> (r: String)
        ensures
            r@ == id_text(*self),
    {
        hex_text(self.0, 32)
    }
}

} // verus!
