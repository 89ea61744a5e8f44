//! Decimal numbers as text: reading and writing them.

use vstd::prelude::*;
use vstd::string::*;

verus! {

/// The character of the decimal digit `d`.
pub open spec fn digit_char(d: int) -> char {
    if d == 0 {
        '0'
    } else if d == 1 {
        '1'
    } else if d == 2 {
        '2'
    } else if d == 3 {
        '3'
    } else if d == 4 {
        '4'
    } else if d == 5 {
        '5'
    } else if d == 6 {
        '6'
    } else if d == 7 {
        '7'
    } else if d == 8 {
        '8'
    } else {
        '9'
    }
}

/// `n` in decimal, without leading zeros.
pub open spec fn decimal(n: nat) -> Seq<char>
    decreases n,
{
    if n < 10 {
        seq![digit_char(n as int)]
    } else {
        decimal(n / 10).push(digit_char((n % 10) as int))
    }
}

/// `i` in decimal, with a minus sign where it is negative.
pub open spec fn signed_decimal(i: int) -> Seq<char> {
    if i < 0 {
        seq!['-'] + decimal((-i) as nat)
    } else {
        decimal(i as nat)
    }
}

/// `count` zeros.
pub open spec fn zeros(count: nat) -> Seq<char> {
    Seq::new(count, |i: int| '0')
}

/// `i` in decimal, filled up with zeros after the sign to `width`
/// characters in all; longer where the number needs more.
pub open spec fn padded_decimal(i: int, width: nat) -> Seq<char> {
    let sign = if i < 0 {
        seq!['-']
    } else {
        Seq::empty()
    };
    let digits = decimal(
        (if i < 0 {
            -i
        } else {
            i
        }) as nat,
    );
    let used = sign.len() + digits.len();
    sign + zeros(
        (if used < width {
            width - used
        } else {
            0
        }) as nat,
    ) + digits
}

/// The text of one decimal digit.
fn digit_text(d: u8) -> (text: &'static str)
    requires
        d < 10,
    ensures
        text@ == seq![digit_char(d as int)],
{
    proof {
        reveal_strlit("0");
        reveal_strlit("1");
        reveal_strlit("2");
        reveal_strlit("3");
        reveal_strlit("4");
        reveal_strlit("5");
        reveal_strlit("6");
        reveal_strlit("7");
        reveal_strlit("8");
        reveal_strlit("9");
    }
    let text = if d == 0 {
        "0"
    } else if d == 1 {
        "1"
    } else if d == 2 {
        "2"
    } else if d == 3 {
        "3"
    } else if d == 4 {
        "4"
    } else if d == 5 {
        "5"
    } else if d == 6 {
        "6"
    } else if d == 7 {
        "7"
    } else if d == 8 {
        "8"
    } else {
        "9"
    };
    assert(text@ =~= seq![digit_char(d as int)]);
    text
}

/// Appends `n` in decimal to `out`.
pub fn append_decimal(out: &mut String, n: u64)
    ensures
        final(out)@ == old(out)@ + decimal(n as nat),
    decreases n,
{
    if n >= 10 {
        append_decimal(out, n / 10);
    }
    let digit = digit_text((n % 10) as u8);
    out.append(digit);
    proof {
        if n >= 10 {
            assert(old(out)@ + decimal((n / 10) as nat) + seq![digit_char((n % 10) as int)]
                =~= old(out)@ + decimal(n as nat));
        }
    }
}

/// Appends `i` in decimal to `out`, with a minus sign where it is negative.
pub fn append_signed_decimal(out: &mut String, i: i64)
    ensures
        final(out)@ == old(out)@ + signed_decimal(i as int),
{
    if i < 0 {
        proof {
            reveal_strlit("-");
        }
        out.append("-");
        let magnitude: u64 = if i == i64::MIN {
            9_223_372_036_854_775_808u64
        } else {
            (-i) as u64
        };
        append_decimal(out, magnitude);
        proof {
            assert("-"@ =~= seq!['-']);
            assert(old(out)@ + seq!['-'] + decimal(magnitude as nat) =~= old(out)@
                + signed_decimal(i as int));
        }
    } else {
        append_decimal(out, i as u64);
    }
}

/// The number of digits of `n` in decimal.
pub fn digit_count(n: u64) -> (count: usize)
    ensures
        count == decimal(n as nat).len(),
        1 <= count <= 20,
    decreases n,
{
    if n < 10 {
        1
    } else {
        proof {
            lemma_decimal_bound(n as nat);
        }
        digit_count(n / 10) + 1
    }
}

/// A number below two to the sixty-fourth has at most twenty digits.
pub proof fn lemma_decimal_bound(n: nat)
    requires
        n <= u64::MAX,
    ensures
        decimal(n).len() <= 20,
{
    reveal_with_fuel(decimal, 21);
}

/// Appends `i` in decimal to `out`, filled up with zeros after the sign to
/// `width` characters in all.
pub fn append_padded_decimal(out: &mut String, i: i64, width: usize)
    ensures
        final(out)@ == old(out)@ + padded_decimal(i as int, width as nat),
{
    let magnitude: u64 = if i == i64::MIN {
        9_223_372_036_854_775_808u64
    } else if i < 0 {
        (-i) as u64
    } else {
        i as u64
    };
    let mut used: usize = digit_count(magnitude);
    if i < 0 {
        proof {
            reveal_strlit("-");
            assert("-"@ =~= seq!['-']);
        }
        out.append("-");
        used = used + 1;
    }
    let ghost signed = out@;
    let ghost fill: nat = (if used < width {
        width - used
    } else {
        0
    }) as nat;
    let mut filled: usize = used;
    proof {
        assert(signed + zeros(0) =~= signed);
    }
    while filled < width
        invariant
            used <= filled,
            filled <= width || filled == used,
            out@ == signed + zeros((filled - used) as nat),
        decreases width - filled,
    {
        proof {
            reveal_strlit("0");
            assert("0"@ =~= seq!['0']);
            assert(zeros((filled - used) as nat) + seq!['0'] =~= zeros((filled + 1 - used) as nat));
            assert(signed + zeros((filled - used) as nat) + seq!['0'] =~= signed + zeros(
                (filled + 1 - used) as nat,
            ));
        }
        out.append("0");
        filled = filled + 1;
    }
    proof {
        assert(filled - used == fill);
    }
    append_decimal(out, magnitude);
    proof {
        assert(out@ =~= old(out)@ + padded_decimal(i as int, width as nat));
    }
}

/// `c` is a decimal digit.
pub open spec fn is_digit(c: char) -> bool {
    '0' <= c <= '9'
}

/// The value of the decimal digit `c`.
pub open spec fn digit_value(c: char) -> nat {
    (c as int - '0' as int) as nat
}

/// The number that the digits `s` spell; zero for none.
pub open spec fn digits_value(s: Seq<char>) -> nat
    decreases s.len(),
{
    if s.len() == 0 {
        0
    } else {
        digits_value(s.drop_last()) * 10 + digit_value(s.last())
    }
}

/// `s` holds decimal digits only.
pub open spec fn all_digits(s: Seq<char>) -> bool {
    forall|i: int| 0 <= i < s.len() ==> is_digit(#[trigger] s[i])
}

/// `s` without the plus sign that may stand in front of a number.
pub open spec fn without_plus(s: Seq<char>) -> Seq<char> {
    if s.len() > 0 && s[0] == '+' {
        s.skip(1)
    } else {
        s
    }
}

/// The number that `s` spells: one or more decimal digits, after a plus sign
/// or without one, and nothing else. `None` for any other text.
pub open spec fn unsigned_number(s: Seq<char>) -> Option<nat> {
    let digits = without_plus(s);
    if digits.len() > 0 && all_digits(digits) {
        Some(digits_value(digits))
    } else {
        None
    }
}

/// The number that `s` spells, where it is one that fits 64 bits.
pub open spec fn parsed_u64(s: Seq<char>) -> Option<u64> {
    match unsigned_number(s) {
        Some(value) => if value <= u64::MAX {
            Some(value as u64)
        } else {
            None
        },
        None => None,
    }
}

/// The number that `s` spells, where it is one that fits a `usize`.
pub open spec fn parsed_usize(s: Seq<char>) -> Option<usize> {
    match unsigned_number(s) {
        Some(value) => if value <= usize::MAX {
            Some(value as usize)
        } else {
            None
        },
        None => None,
    }
}

/// More digits never spell a smaller number.
pub proof fn lemma_digits_value_grows(s: Seq<char>, n: int)
    requires
        0 <= n <= s.len(),
    ensures
        digits_value(s.take(n)) <= digits_value(s),
    decreases s.len() - n,
{
    if n < s.len() {
        lemma_digits_value_grows(s, n + 1);
        assert(s.take(n + 1).drop_last() == s.take(n));
    } else {
        assert(s.take(n) == s);
    }
}

/// Reads a number of 64 bits: decimal digits, after a plus sign or without.
/// Any other text, and a number too large, gives `None`.
pub fn parse_u64(text: &str) -> (number: Option<u64>)
    ensures
        number == parsed_u64(text@),
{
    let len = text.unicode_len();
    let start: usize = if len > 0 && text.get_char(0) == '+' {
        1
    } else {
        0
    };
    let ghost digits = without_plus(text@);
    if start == len {
        return None;
    }
    let mut value: u64 = 0;
    let mut i: usize = start;
    proof {
        assert(digits.take(0) =~= Seq::empty());
    }
    while i < len
        invariant
            start <= i <= len,
            len == text@.len(),
            start <= 1,
            digits == without_plus(text@),
            digits == text@.skip(start as int),
            digits.len() == len - start,
            all_digits(digits.take(i - start)),
            value == digits_value(digits.take(i - start)),
        decreases len - i,
    {
        let c = text.get_char(i);
        proof {
            assert(digits[i - start] == c);
            assert(digits.take(i - start + 1).drop_last() == digits.take(i - start));
            assert(digits.take(i - start + 1).last() == c);
        }
        if !(c >= '0' && c <= '9') {
            assert(!is_digit(digits[i - start]));
            return None;
        }
        let digit: u64 = (c as u32 - '0' as u32) as u64;
        if value > (u64::MAX - digit) / 10 {
            proof {
                lemma_digits_value_grows(digits, i - start + 1);
                assert(digit_value(c) == digit);
                assert(digits_value(digits.take(i - start + 1)) == value * 10 + digit);
                assert(value * 10 + digit > u64::MAX);
            }
            return None;
        }
        value = value * 10 + digit;
        i = i + 1;
        proof {
            assert forall|k: int| 0 <= k < digits.take(i - start).len() implies is_digit(
                #[trigger] digits.take(i - start)[k],
            ) by {
                if k < i - start - 1 {
                    assert(digits.take(i - start)[k] == digits.take(i - start - 1)[k]);
                }
            }
        }
    }
    proof {
        assert(digits.take(len - start) == digits);
    }
    Some(value)
}

/// Reads a number that fits a `usize`; see [`parse_u64`].
pub fn parse_usize(text: &str) -> (number: Option<usize>)
    ensures
        number == parsed_usize(text@),
{
    match parse_u64(text) {
        Some(value) => {
            if value <= usize::MAX as u64 {
                Some(value as usize)
            } else {
                None
            }
        },
        None => None,
    }
}

} // verus!
