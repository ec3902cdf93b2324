//! Numbers written out in decimal digits.

use vstd::prelude::*;

verus! {

/// The character for one decimal digit.
pub open spec fn digit_char(d: int) -> char {
    if d == 0 {
        '0'
    } else if d == 1 {
        '1'
    } else if d == 2 {
        '2'
    } else if d == 3 {
        '3'
    } else if d == 4 {
        '4'
    } else if d == 5 {
        '5'
    } else if d == 6 {
        '6'
    } else if d == 7 {
        '7'
    } else if d == 8 {
        '8'
    } else {
        '9'
    }
}

/// The decimal digits of `n`, without leading zeros; `0` for zero.
pub open spec fn decimal(n: nat) -> Seq<char>
    decreases n,
{
    if n < 10 {
        seq![digit_char(n as int)]
    } else {
        decimal(n / 10).push(digit_char((n % 10) as int))
    }
}

/// Minutes in hundredths for a number of seconds, rounded to the nearest
/// hundredth. One second is five thirds of a hundredth, so no value lies
/// halfway between two hundredths.
pub open spec fn minute_hundredths(seconds: nat) -> nat {
    (seconds * 5 + 1) / 3
}

/// A number of seconds written as minutes with two decimal places, with a
/// minus sign for a negative number.
pub open spec fn minutes_text(seconds: int) -> Seq<char> {
    let h = minute_hundredths(
        (if seconds < 0 {
            -seconds
        } else {
            seconds
        }) as nat,
    );
    let sign = if seconds < 0 {
        seq!['-']
    } else {
        Seq::<char>::empty()
    };
    sign + decimal(h / 100).push('.').push(digit_char((h / 10 % 10) as int)).push(
        digit_char((h % 10) as int),
    )
}

/// The character for the decimal digit `d`.
pub fn digit(d: u8) -> (c: char)
    requires
        d < 10,
    ensures
        c == digit_char(d as int),
{
    if d == 0 {
        '0'
    } else if d == 1 {
        '1'
    } else if d == 2 {
        '2'
    } else if d == 3 {
        '3'
    } else if d == 4 {
        '4'
    } else if d == 5 {
        '5'
    } else if d == 6 {
        '6'
    } else if d == 7 {
        '7'
    } else if d == 8 {
        '8'
    } else {
        '9'
    }
}

/// Appends the decimal digits of `n` to `text`.
pub fn push_decimal(text: &mut String, n: u128)
    ensures
        final(text)@ == old(text)@ + decimal(n as nat),
    decreases n,
{
    if n >= 10 {
        push_decimal(text, n / 10);
    }
    text.push(digit((n % 10) as u8));
    proof {
        if n >= 10 {
            assert(old(text)@ + decimal(n as nat) =~= (old(text)@ + decimal((n / 10) as nat)).push(
                digit_char((n % 10) as int),
            ));
        } else {
            assert(old(text)@ + decimal(n as nat) =~= old(text)@.push(digit_char(n as int)));
        }
    }
}

/// The decimal digits of `n`.
pub fn decimal_text(n: u64) -> (text: String)
    ensures
        text@ == decimal(n as nat),
{
    let mut text = String::new();
    push_decimal(&mut text, n as u128);
    assert(Seq::<char>::empty() + decimal(n as nat) =~= decimal(n as nat));
    text
}

/// Appends `seconds` to `text`, written as minutes with two decimal
/// places.
pub fn push_minutes(text: &mut String, seconds: i128)
    requires
        -0x1_0000_0000_0000_0000 <= seconds <= 0x1_0000_0000_0000_0000,
    ensures
        final(text)@ == old(text)@ + minutes_text(seconds as int),
{
    let magnitude: u128 = if seconds < 0 {
        text.push('-');
        (-seconds) as u128
    } else {
        seconds as u128
    };
    let h: u128 = (magnitude * 5 + 1) / 3;
    let ghost signed = text@;
    push_decimal(text, h / 100);
    text.push('.');
    text.push(digit((h / 10 % 10) as u8));
    text.push(digit((h % 10) as u8));
    proof {
        let sign = if seconds < 0 {
            seq!['-']
        } else {
            Seq::<char>::empty()
        };
        assert(signed =~= old(text)@ + sign);
        assert(text@ =~= old(text)@ + minutes_text(seconds as int));
    }
}

/// A character that stands in a number: a digit, the decimal point or the
/// minus sign.
pub open spec fn is_numeric_char(c: char) -> bool {
    c == '0' || c == '1' || c == '2' || c == '3' || c == '4' || c == '5' || c == '6' || c == '7'
        || c == '8' || c == '9' || c == '.' || c == '-'
}

/// The decimal digits of a number are digits.
pub proof fn lemma_decimal_chars(n: nat)
    ensures
        decimal(n).len() > 0,
        forall|i: int| 0 <= i < decimal(n).len() ==> is_numeric_char(#[trigger] decimal(n)[i]),
    decreases n,
{
    if n >= 10 {
        lemma_decimal_chars(n / 10);
    }
}

/// Minutes are written with digits, one decimal point and, below zero, a
/// minus sign.
pub proof fn lemma_minutes_chars(seconds: int)
    ensures
        forall|i: int|
            0 <= i < minutes_text(seconds).len() ==> is_numeric_char(
                #[trigger] minutes_text(seconds)[i],
            ),
{
    let h = minute_hundredths(
        (if seconds < 0 {
            -seconds
        } else {
            seconds
        }) as nat,
    );
    lemma_decimal_chars(h / 100);
}

} // verus!
