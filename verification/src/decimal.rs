//! Decimal digit strings and the 256-bit numbers they stand for.

use vstd::prelude::*;
use vstd::string::StringExecFns;
use crate::limbs::{div_rem_small, limbs4_value, mul_add_small, pow256};

verus! {

/// Why a decimal string could not be read as a 256-bit number.
#[derive(Clone, Copy, Debug, PartialEq, Eq, Structural)]
pub enum FromDecStrErr {
    /// A character outside `0`..`9`.
    InvalidCharacter,
    /// The value does not fit in 256 bits.
    InvalidLength,
}

/// Whether `c` is one of the ten ASCII decimal digits.
pub open spec fn is_decimal_digit(c: char) -> bool {
    '0' <= c && c <= '9'
}

/// The value of a decimal digit.
pub open spec fn digit_value(c: char) -> nat {
    if is_decimal_digit(c) {
        (c as nat - '0' as nat) as nat
    } else {
        0
    }
}

/// The character that writes the digit `d`.
pub open spec fn digit_char(d: nat) -> char {
    if d == 0 {
        '0'
    } else if d == 1 {
        '1'
    } else if d == 2 {
        '2'
    } else if d == 3 {
        '3'
    } else if d == 4 {
        '4'
    } else if d == 5 {
        '5'
    } else if d == 6 {
        '6'
    } else if d == 7 {
        '7'
    } else if d == 8 {
        '8'
    } else {
        '9'
    }
}

/// Whether every character of `s` is a decimal digit.
pub open spec fn all_decimal(s: Seq<char>) -> bool {
    forall|i: int| 0 <= i < s.len() ==> is_decimal_digit(#[trigger] s[i])
}

/// The number that a string of decimal digits stands for, most significant
/// digit first. The empty string stands for zero.
pub open spec fn decimal_value(s: Seq<char>) -> nat
    decreases s.len(),
{
    if s.len() == 0 {
        0
    } else {
        decimal_value(s.drop_last()) * 10 + digit_value(s.last())
    }
}

/// The shortest decimal writing of `n`: no leading zero, and `0` for zero.
pub open spec fn decimal_digits(n: nat) -> Seq<char>
    decreases n,
{
    if n < 10 {
        seq![digit_char(n)]
    } else {
        decimal_digits(n / 10).push(digit_char(n % 10))
    }
}

/// Reading a string left to right into 256 bits: the first character that
/// is no digit, or the first digit that takes the value to `2^256` or more,
/// decides the error.
pub open spec fn parse_decimal(s: Seq<char>) -> Result<nat, FromDecStrErr>
    decreases s.len(),
{
    if s.len() == 0 {
        Ok(0)
    } else {
        match parse_decimal(s.drop_last()) {
            Err(e) => Err(e),
            Ok(v) => if !is_decimal_digit(s.last()) {
                Err(FromDecStrErr::InvalidCharacter)
            } else if v * 10 + digit_value(s.last()) >= pow256() {
                Err(FromDecStrErr::InvalidLength)
            } else {
                Ok(v * 10 + digit_value(s.last()))
            },
        }
    }
}

/// Reading back the shortest decimal writing of a number gives the number.
pub proof fn lemma_decimal_round_trip(n: nat)
    ensures
        all_decimal(decimal_digits(n)),
        decimal_value(decimal_digits(n)) == n,
        decimal_digits(n).len() >= 1,
    decreases n,
{
    if n < 10 {
        let s = decimal_digits(n);
        assert(s.drop_last().len() == 0);
        assert(decimal_value(s.drop_last()) == 0);
        assert(s.last() == digit_char(n));
    } else {
        lemma_decimal_round_trip(n / 10);
        let head = decimal_digits(n / 10);
        let s = decimal_digits(n);
        assert(s.drop_last() =~= head);
        assert(s.last() == digit_char(n % 10));
        assert forall|i: int| 0 <= i < s.len() implies is_decimal_digit(#[trigger] s[i]) by {
            if i < head.len() {
                assert(s[i] == head[i]);
            }
        }
    }
}

/// Reading succeeds exactly on strings of digits alone whose value is below
/// `2^256`, and then gives that value.
pub proof fn lemma_parse_decimal_ok(s: Seq<char>)
    ensures
        parse_decimal(s) is Ok <==> all_decimal(s) && decimal_value(s) < pow256(),
        parse_decimal(s) is Ok ==> parse_decimal(s) == Ok::<nat, FromDecStrErr>(decimal_value(s)),
    decreases s.len(),
{
    if s.len() > 0 {
        let head = s.drop_last();
        lemma_parse_decimal_ok(head);
        if all_decimal(s) {
            assert(is_decimal_digit(s[s.len() - 1]));
            assert forall|i: int| 0 <= i < head.len() implies is_decimal_digit(
                #[trigger] head[i],
            ) by {
                assert(head[i] == s[i]);
            }
        }
        if all_decimal(head) && is_decimal_digit(s.last()) {
            assert forall|i: int| 0 <= i < s.len() implies is_decimal_digit(#[trigger] s[i]) by {
                if i < head.len() {
                    assert(s[i] == head[i]);
                }
            }
        }
    }
}

/// An error met while reading a prefix is the error of the whole string.
pub proof fn lemma_parse_error_stays(s: Seq<char>, k: int)
    requires
        0 <= k <= s.len(),
        parse_decimal(s.take(k)) is Err,
    ensures
        parse_decimal(s) == parse_decimal(s.take(k)),
    decreases s.len() - k,
{
    if k < s.len() {
        let next = s.take(k + 1);
        assert(next.drop_last() =~= s.take(k));
        lemma_parse_error_stays(s, k + 1);
    } else {
        assert(s.take(k) =~= s);
    }
}

/// The value of a character as a decimal digit, if it is one.
pub fn digit_of_char(c: char) -> (r: Option<u8>)
    ensures
        r is Some <==> is_decimal_digit(c),
        r is Some ==> r->0 == digit_value(c) && r->0 < 10,
{
    if '0' <= c && c <= '9' {
        let code: u32 = c as u32 - '0' as u32;
        Some(code as u8)
    } else {
        None
    }
}

/// Appends the character of the digit `d`.
pub fn push_digit(out: &mut String, d: u8)
    requires
        d < 10,
    ensures
        final(out)@ == old(out)@.push(digit_char(d as nat)),
{
    proof {
        reveal_strlit("0");
        reveal_strlit("1");
        reveal_strlit("2");
        reveal_strlit("3");
        reveal_strlit("4");
        reveal_strlit("5");
        reveal_strlit("6");
        reveal_strlit("7");
        reveal_strlit("8");
        reveal_strlit("9");
    }
    let text: &str = if d == 0 {
        "0"
    } else if d == 1 {
        "1"
    } else if d == 2 {
        "2"
    } else if d == 3 {
        "3"
    } else if d == 4 {
        "4"
    } else if d == 5 {
        "5"
    } else if d == 6 {
        "6"
    } else if d == 7 {
        "7"
    } else if d == 8 {
        "8"
    } else {
        "9"
    };
    assert(text@ =~= seq![digit_char(d as nat)]);
    out.append(text);
    assert(out@ =~= old(out)@.push(digit_char(d as nat)));
}

/// The characters of a run of digits held least significant first.
pub open spec fn reversed_digits(ds: Seq<u8>) -> Seq<char> {
    Seq::new(ds.len(), |i: int| digit_char(ds[ds.len() - 1 - i] as nat))
}

/// Reads a decimal string into four limbs.
pub fn parse_decimal_limbs(s: &str) -> (r: Result<[u64; 4], FromDecStrErr>)
    ensures
        match r {
            Ok(l) => parse_decimal(s@) == Ok::<nat, FromDecStrErr>(limbs4_value(l)),
            Err(e) => parse_decimal(s@) == Err::<nat, FromDecStrErr>(e),
        },
{
    let mut acc: [u64; 4] = [0, 0, 0, 0];
    for c in it: s.chars()
        invariant
            it.seq() == s@,
            it.index() <= s@.len(),
            parse_decimal(s@.take(it.index() as int)) == Ok::<nat, FromDecStrErr>(
                limbs4_value(acc),
            ),
    {
        let ghost k = it.index() as int;
        proof {
            assert(s@.take(k + 1).drop_last() =~= s@.take(k));
            assert(s@.take(k + 1).last() == c);
        }
        match digit_of_char(c) {
            None => {
                proof {
                    lemma_parse_error_stays(s@, k + 1);
                }
                return Err(FromDecStrErr::InvalidCharacter);
            },
            Some(d) => {
                let (next, overflow) = mul_add_small(&acc, 10, d as u64);
                if overflow > 0 {
                    proof {
                        lemma_parse_error_stays(s@, k + 1);
                    }
                    return Err(FromDecStrErr::InvalidLength);
                }
                acc = next;
            },
        }
    }
    proof {
        assert(s@.take(s@.len() as int) =~= s@);
    }
    Ok(acc)
}

/// Writes four limbs as the shortest decimal string.
pub fn limbs_to_decimal(l: &[u64; 4]) -> (out: String)
    ensures
        out@ == decimal_digits(limbs4_value(*l)),
{
    let mut digits: Vec<u8> = Vec::new();
    let (first_quotient, first_digit) = div_rem_small(l, 10);
    digits.push(first_digit as u8);
    let mut cur: [u64; 4] = first_quotient;
    proof {
        let n = limbs4_value(*l);
        assert(reversed_digits(digits@) =~= seq![digit_char(n % 10)]);
        if n >= 10 {
            assert(decimal_digits(n) =~= decimal_digits(n / 10) + reversed_digits(digits@));
        }
    }
    while !(cur[0] == 0 && cur[1] == 0 && cur[2] == 0 && cur[3] == 0)
        invariant
            digits@.len() >= 1,
            forall|i: int| 0 <= i < digits@.len() ==> digits@[i] < 10,
            decimal_digits(limbs4_value(*l)) == (if limbs4_value(cur) > 0 {
                decimal_digits(limbs4_value(cur))
            } else {
                Seq::<char>::empty()
            }) + reversed_digits(digits@),
        decreases limbs4_value(cur),
    {
        let ghost v = limbs4_value(cur);
        let ghost before = digits@;
        let (quotient, digit) = div_rem_small(&cur, 10);
        digits.push(digit as u8);
        cur = quotient;
        proof {
            assert(reversed_digits(digits@) =~= seq![digit_char(v % 10)] + reversed_digits(before));
            if v >= 10 {
                assert(decimal_digits(v) + reversed_digits(before) =~= decimal_digits(v / 10)
                    + reversed_digits(digits@));
            } else {
                assert(decimal_digits(v) + reversed_digits(before) =~= reversed_digits(digits@));
            }
        }
    }
    let mut out = String::new();
    let mut i: usize = digits.len();
    while i > 0
        invariant
            i <= digits@.len(),
            forall|j: int| 0 <= j < digits@.len() ==> digits@[j] < 10,
            out@ == reversed_digits(digits@).subrange(0, digits@.len() - i),
        decreases i,
    {
        i = i - 1;
        let ghost before = out@;
        push_digit(&mut out, digits[i]);
        proof {
            assert(out@ =~= reversed_digits(digits@).subrange(0, digits@.len() - i));
        }
    }
    proof {
        assert(out@ =~= reversed_digits(digits@));
    }
    out
}

} // verus!
