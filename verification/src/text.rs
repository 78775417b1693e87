//! Characters of a string, and integers written in decimal.

use vstd::prelude::*;
use vstd::std_specs::iter::IteratorSpec;
use vstd::string::*;

verus! {

/// The text of a string that may be absent.
pub open spec fn text_of(value: Option<String>) -> Option<Seq<char>> {
    match value {
        Some(text) => Some(text@),
        None => None,
    }
}

/// What `text` looks like when it is written for debugging: between double
/// quotes, with quotes, backslashes and characters that cannot be printed
/// written as escapes.
pub uninterp spec fn debug_text(text: Seq<char>) -> Seq<char>;

/// The standard library's `Debug` formatting of a string slice, reached
/// through `format!("{:?}", ..)`. Its result depends on the characters
/// alone; which characters are escaped is for the standard library to say,
/// so the result is only named here.
#[verifier::external_body]
pub(crate) fn debug_string(text: &str) -> (written: String)
    ensures
        written@ == debug_text(text@),
{
    format!("{:?}", text)
}

/// The characters of `s`, in order.
pub fn chars_of(s: &str) -> (chars: Vec<char>)
    ensures
        chars@ == s@,
{
    broadcast use vstd::string::group_string_axioms;

    let mut chars: Vec<char> = Vec::new();
    let mut rest = s.chars();
    loop
        invariant
            chars@ + rest.remaining() == s@,
            rest.decrease() is Some,
        ensures
            chars@ == s@,
        decreases rest.decrease()->0,
    {
        let ghost before = rest.remaining();
        match rest.next() {
            Some(c) => {
                chars.push(c);
                assert(chars@ + rest.remaining() == s@) by {
                    assert(before.drop_first() == rest.remaining());
                    assert(chars@ + rest.remaining() =~= chars@.drop_last() + before);
                }
            },
            None => {
                assert(chars@ =~= chars@ + rest.remaining());
                break ;
            },
        }
    }
    chars
}

/// The character that writes the digit `d`.
pub open spec fn digit_char(d: int) -> char {
    if d == 0 {
        '0'
    } else if d == 1 {
        '1'
    } else if d == 2 {
        '2'
    } else if d == 3 {
        '3'
    } else if d == 4 {
        '4'
    } else if d == 5 {
        '5'
    } else if d == 6 {
        '6'
    } else if d == 7 {
        '7'
    } else if d == 8 {
        '8'
    } else {
        '9'
    }
}

/// A natural number in decimal, without leading zeros.
pub open spec fn nat_decimal(n: nat) -> Seq<char>
    decreases n,
{
    if n < 10 {
        seq![digit_char(n as int)]
    } else {
        nat_decimal(n / 10).push(digit_char((n % 10) as int))
    }
}

/// An integer in decimal, with a leading `-` when negative.
pub open spec fn int_decimal(n: int) -> Seq<char> {
    if n < 0 {
        seq!['-'] + nat_decimal((-n) as nat)
    } else {
        nat_decimal(n as nat)
    }
}

/// Digits given least significant first, written most significant first.
pub open spec fn written_backwards(digits: Seq<u8>) -> Seq<char> {
    Seq::new(digits.len(), |k: int| digit_char(digits[digits.len() - 1 - k] as int))
}

fn digit_str(d: u8) -> (s: &'static str)
    requires
        d < 10,
    ensures
        s@ == seq![digit_char(d as int)],
{
    proof {
        reveal_strlit("0");
        reveal_strlit("1");
        reveal_strlit("2");
        reveal_strlit("3");
        reveal_strlit("4");
        reveal_strlit("5");
        reveal_strlit("6");
        reveal_strlit("7");
        reveal_strlit("8");
        reveal_strlit("9");
    }
    let s = if d == 0 {
        "0"
    } else if d == 1 {
        "1"
    } else if d == 2 {
        "2"
    } else if d == 3 {
        "3"
    } else if d == 4 {
        "4"
    } else if d == 5 {
        "5"
    } else if d == 6 {
        "6"
    } else if d == 7 {
        "7"
    } else if d == 8 {
        "8"
    } else {
        "9"
    };
    assert(s@ =~= seq![digit_char(d as int)]);
    s
}

/// Writes `n` in decimal.
pub fn decimal_string(n: i64) -> (text: String)
    ensures
        text@ == int_decimal(n as int),
{
    let mut text = String::new();
    let magnitude: u64 = if n < 0 {
        proof {
            reveal_strlit("-");
        }
        text.append("-");
        (-(n as i128)) as u64
    } else {
        n as u64
    };
    let ghost sign = text@;
    assert(sign =~= if n < 0 { seq!['-'] } else { Seq::<char>::empty() });

    let mut digits: Vec<u8> = Vec::new();
    let mut rest: u64 = magnitude;
    while rest >= 10
        invariant
            nat_decimal(magnitude as nat) == nat_decimal(rest as nat) + written_backwards(digits@),
            forall|k: int| 0 <= k < digits@.len() ==> digits@[k] < 10,
        decreases rest,
    {
        let ghost earlier = digits@;
        digits.push((rest % 10) as u8);
        assert(written_backwards(digits@) =~= seq![digit_char((rest % 10) as int)]
            + written_backwards(earlier));
        assert(nat_decimal((rest / 10) as nat) + written_backwards(digits@) =~= nat_decimal(
            rest as nat,
        ) + written_backwards(earlier));
        rest = rest / 10;
    }
    text.append(digit_str(rest as u8));
    let mut i: usize = digits.len();
    while i > 0
        invariant
            i <= digits@.len(),
            forall|k: int| 0 <= k < digits@.len() ==> digits@[k] < 10,
            text@ == sign + nat_decimal(rest as nat) + written_backwards(digits@).take(
                digits@.len() - i,
            ),
        decreases i,
    {
        i = i - 1;
        text.append(digit_str(digits[i]));
        assert(text@ =~= sign + nat_decimal(rest as nat) + written_backwards(digits@).take(
            digits@.len() - i,
        ));
    }
    assert(written_backwards(digits@).take(digits@.len() as int) =~= written_backwards(digits@));
    assert(text@ =~= sign + nat_decimal(magnitude as nat));
    text
}

} // verus!
