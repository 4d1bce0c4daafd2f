//! What holds of amounts and of their text form.

use vstd::prelude::*;
use super::amount;
use super::amount::AmountType;

verus! {

/// Subtracting what was added gives back the amount: where `x + y` is an
/// amount that `A` can hold, `x.checked_add(y)` is some `s`, and
/// `s.checked_sub(y)` is some amount of the value of `x`. Here `sum` and
/// `back` stand for what the two calls return.
pub proof fn subtraction_undoes_addition<A: AmountType>(x: A, y: A, sum: Option<A>, back: Option<A>)
    requires
        A::representable(x.value() + y.value()),
        match sum {
            Some(s) => s.value() == x.value() + y.value(),
            None => !A::representable(x.value() + y.value()),
        },
        sum matches Some(s) ==> match back {
            Some(d) => d.value() == s.value() - y.value(),
            None => !A::representable(s.value() - y.value()),
        },
    ensures
        sum is Some,
        back matches Some(d) && d.value() == x.value(),
{
    x.value_is_representable();
}

/// `digits` without its leading zeros, the last digit always kept.
pub open spec fn without_leading_zeros(digits: Seq<char>) -> Seq<char>
    decreases digits.len(),
{
    if digits.len() > 1 && digits.first() == '0' {
        without_leading_zeros(digits.drop_first())
    } else {
        digits
    }
}

/// `fraction`, of at most four digits, with zeros added up to four.
pub open spec fn padded(fraction: Seq<char>) -> Seq<char> {
    Seq::new(
        4,
        |i: int|
            if i < fraction.len() {
                fraction[i]
            } else {
                '0'
            },
    )
}

/// The canonical form of a decimal text: surrounding white space left out,
/// the minus sign kept only before a value other than zero, the whole part
/// without leading zeros, and the fraction padded to four digits.
pub open spec fn canonical(text: Seq<char>) -> Seq<char> {
    let body = amount::unsigned_part(text);
    let f = amount::fraction_digits(body)->0;
    let sign = if amount::is_negative(text) && amount::scaled_magnitude(body, f) != 0 {
        seq!['-']
    } else {
        Seq::<char>::empty()
    };
    sign + without_leading_zeros(amount::whole_digits(body, f)).push('.') + padded(
        amount::fraction_part(body, f),
    )
}

/// Whether every character is the digit zero.
spec fn all_zeros(s: Seq<char>) -> bool {
    forall|i: int| 0 <= i < s.len() ==> s[i] == '0'
}

proof fn lemma_digit(c: char)
    requires
        amount::is_digit(c),
    ensures
        amount::digit_value(c) <= 9,
        amount::digit_char(amount::digit_value(c)) == c,
        amount::digit_value(c) == 0 <==> c == '0',
{
}

proof fn lemma_drop_last_digits(s: Seq<char>)
    requires
        amount::all_digits(s),
        s.len() > 0,
    ensures
        amount::all_digits(s.drop_last()),
        amount::is_digit(s.last()),
{
    assert forall|i: int| 0 <= i < s.drop_last().len() implies amount::is_digit(
        #[trigger] s.drop_last()[i],
    ) by {
        assert(s.drop_last()[i] == s[i]);
    }
}

/// A run of digits denotes zero exactly if all of them are zeros.
proof fn lemma_zero_value(s: Seq<char>)
    requires
        amount::all_digits(s),
    ensures
        amount::digits_value(s) == 0 <==> all_zeros(s),
    decreases s.len(),
{
    if s.len() > 0 {
        lemma_drop_last_digits(s);
        lemma_zero_value(s.drop_last());
        lemma_digit(s.last());
        if all_zeros(s) {
            assert forall|i: int| 0 <= i < s.drop_last().len() implies s.drop_last()[i] == '0' by {
                assert(s.drop_last()[i] == s[i]);
            }
        }
        if amount::digits_value(s) == 0 {
            assert forall|i: int| 0 <= i < s.len() implies s[i] == '0' by {
                if i < s.len() - 1 {
                    assert(s.drop_last()[i] == s[i]);
                }
            }
        }
    }
}

/// Behind zeros only, a further digit is all that is left without the
/// leading zeros.
proof fn lemma_strip_after_zeros(s: Seq<char>, c: char)
    requires
        all_zeros(s),
    ensures
        without_leading_zeros(s.push(c)) == seq![c],
    decreases s.len(),
{
    if s.len() > 0 {
        assert(s.push(c).first() == s[0]);
        assert(s.push(c).drop_first() == s.drop_first().push(c));
        assert forall|i: int| 0 <= i < s.drop_first().len() implies s.drop_first()[i] == '0' by {
            assert(s.drop_first()[i] == s[i + 1]);
        }
        lemma_strip_after_zeros(s.drop_first(), c);
    } else {
        assert(s.push(c) == seq![c]);
    }
}

/// Behind a digit other than zero, a further digit stays behind what is left
/// without the leading zeros.
proof fn lemma_strip_push(s: Seq<char>, c: char)
    requires
        !all_zeros(s),
    ensures
        without_leading_zeros(s.push(c)) == without_leading_zeros(s).push(c),
    decreases s.len(),
{
    assert(s.len() > 0);
    assert(s.push(c).first() == s[0]);
    if s[0] == '0' {
        assert(s.len() > 1) by {
            if s.len() == 1 {
                assert(all_zeros(s));
            }
        }
        assert(s.push(c).drop_first() == s.drop_first().push(c));
        assert(!all_zeros(s.drop_first())) by {
            if all_zeros(s.drop_first()) {
                assert forall|i: int| 0 <= i < s.len() implies s[i] == '0' by {
                    if i > 0 {
                        assert(s.drop_first()[i - 1] == s[i]);
                    }
                }
            }
        }
        lemma_strip_push(s.drop_first(), c);
    }
}

/// The digits of the number that a run of digits denotes are that run
/// without its leading zeros.
proof fn lemma_digits_of_value(s: Seq<char>)
    requires
        amount::all_digits(s),
        s.len() > 0,
    ensures
        amount::nat_digits(amount::digits_value(s)) == without_leading_zeros(s),
    decreases s.len(),
{
    let head = s.drop_last();
    let c = s.last();
    lemma_drop_last_digits(s);
    lemma_digit(c);
    assert(head.push(c) == s);
    if head.len() == 0 {
        assert(amount::digits_value(head) == 0);
        assert(s == seq![c]);
    } else {
        lemma_digits_of_value(head);
        lemma_zero_value(head);
        let n = amount::digits_value(s);
        if amount::digits_value(head) == 0 {
            lemma_strip_after_zeros(head, c);
        } else {
            lemma_strip_push(head, c);
            assert(n / 10 == amount::digits_value(head) && n % 10 == amount::digit_value(c))
                by (nonlinear_arith)
                requires
                    n == amount::digits_value(head) * 10 + amount::digit_value(c),
                    amount::digit_value(c) <= 9,
            ;
        }
    }
}

/// The value of a run of digits, digit by digit, for the lengths that a
/// fraction can have.
proof fn lemma_short_value(s: Seq<char>)
    requires
        s.len() <= 4,
    ensures
        s.len() == 0 ==> amount::digits_value(s) == 0,
        s.len() == 1 ==> amount::digits_value(s) == amount::digit_value(s[0]),
        s.len() == 2 ==> amount::digits_value(s) == amount::digit_value(s[0]) * 10
            + amount::digit_value(s[1]),
        s.len() == 3 ==> amount::digits_value(s) == amount::digit_value(s[0]) * 100
            + amount::digit_value(s[1]) * 10 + amount::digit_value(s[2]),
        s.len() == 4 ==> amount::digits_value(s) == amount::digit_value(s[0]) * 1000
            + amount::digit_value(s[1]) * 100 + amount::digit_value(s[2]) * 10
            + amount::digit_value(s[3]),
    decreases s.len(),
{
    if s.len() > 0 {
        let head = s.drop_last();
        lemma_short_value(head);
        assert forall|i: int| 0 <= i < head.len() implies head[i] == s[i] by {}
    }
}

/// The four digits of a number below ten thousand, given digit by digit.
proof fn lemma_four_digits(a: nat, b: nat, c: nat, d: nat)
    requires
        a <= 9,
        b <= 9,
        c <= 9,
        d <= 9,
    ensures
        amount::four_digits(a * 1000 + b * 100 + c * 10 + d) == seq![
            amount::digit_char(a),
            amount::digit_char(b),
            amount::digit_char(c),
            amount::digit_char(d),
        ],
{
    let n = a * 1000 + b * 100 + c * 10 + d;
    assert(n / 1000 % 10 == a && n / 100 % 10 == b && n / 10 % 10 == c && n % 10 == d)
        by (nonlinear_arith)
        requires
            n == a * 1000 + b * 100 + c * 10 + d,
            a <= 9,
            b <= 9,
            c <= 9,
            d <= 9,
    ;
}

/// The four digits of a fraction in ten-thousandths are the fraction with
/// zeros added behind it.
proof fn lemma_fraction_text(s: Seq<char>)
    requires
        amount::all_digits(s),
        s.len() <= 4,
    ensures
        amount::digits_value(s) * amount::pow10(4 - s.len()) <= 9999,
        amount::four_digits(amount::digits_value(s) * amount::pow10(4 - s.len())) == padded(s),
{
    lemma_short_value(s);
    let a = if s.len() >= 1 {
        amount::digit_value(s[0])
    } else {
        0
    };
    let b = if s.len() >= 2 {
        amount::digit_value(s[1])
    } else {
        0
    };
    let c = if s.len() >= 3 {
        amount::digit_value(s[2])
    } else {
        0
    };
    let d = if s.len() >= 4 {
        amount::digit_value(s[3])
    } else {
        0
    };
    if s.len() >= 1 {
        lemma_digit(s[0]);
    }
    if s.len() >= 2 {
        lemma_digit(s[1]);
    }
    if s.len() >= 3 {
        lemma_digit(s[2]);
    }
    if s.len() >= 4 {
        lemma_digit(s[3]);
    }
    lemma_four_digits(a, b, c, d);
    assert(amount::digits_value(s) * amount::pow10(4 - s.len()) == a * 1000 + b * 100 + c * 10
        + d);
    assert(seq![
        amount::digit_char(a),
        amount::digit_char(b),
        amount::digit_char(c),
        amount::digit_char(d),
    ] =~= padded(s));
}

/// Writing what was read gives the canonical form of the text: for every
/// decimal text, the value it denotes is written as `canonical` says. An
/// amount type reads a text as the value it denotes or not at all, so this
/// holds of `to_decimal_string` after `from_decimal_str` wherever the latter
/// succeeds.
pub proof fn text_round_trip(text: Seq<char>)
    requires
        amount::decimal_value(text) is Some,
    ensures
        amount::decimal_text(amount::decimal_value(text)->0) == canonical(text),
{
    let body = amount::unsigned_part(text);
    let f = amount::fraction_digits(body)->0;
    let whole = amount::whole_digits(body, f);
    let fraction = amount::fraction_part(body, f);
    let w = amount::digits_value(whole);
    let t = amount::digits_value(fraction) * amount::pow10(4 - f);
    if f == 0 {
        assert(fraction == Seq::<char>::empty());
    }
    assert(amount::all_digits(whole) && whole.len() > 0);
    assert(amount::all_digits(fraction) && fraction.len() == f);
    lemma_digits_of_value(whole);
    lemma_fraction_text(fraction);
    let magnitude = amount::scaled_magnitude(body, f);
    assert(magnitude == w * 10000 + t);
    assert(magnitude / 10000 == w && magnitude % 10000 == t) by (nonlinear_arith)
        requires
            magnitude == w * 10000 + t,
            0 <= t <= 9999,
    ;
}

/// The same for an amount type: what `from_decimal_str` accepts,
/// `to_decimal_string` writes in canonical form.
pub proof fn parse_then_format_is_canonical<A: AmountType>(text: Seq<char>)
    requires
        A::parsed(text) is Ok,
    ensures
        amount::decimal_text(A::parsed(text)->Ok_0) == canonical(text),
{
    A::parsed_is_decimal(text);
    text_round_trip(text);
}

} // verus!
