//! Fixed-precision money: four fractional digits, checked arithmetic, and the
//! decimal text form.

use vstd::prelude::*;
use vstd::std_specs::ops::AddSpec;
use vstd::std_specs::ops::SubSpec;
use super::error::DomainError;

verus! {

/// A monetary amount with four fractional decimal digits.
///
/// The model of an amount is its number of ten-thousandths, `value()`.
pub trait AmountType: Copy + Sized + Send + Sync {
    /// The amount in ten-thousandths of a unit.
    spec fn value(&self) -> int;

    /// Whether the type can hold `v` ten-thousandths.
    spec fn representable(v: int) -> bool;

    /// What `from_decimal_str` makes of a text: the amount in ten-thousandths,
    /// or the reason for refusing it.
    spec fn parsed(text: Seq<char>) -> Result<int, DomainError>;

    /// Every amount is representable, and so is zero.
    proof fn value_is_representable(&self)
        ensures
            Self::representable(self.value()),
            Self::representable(0),
    ;

    /// A text that is accepted is a decimal numeral of that value; a text that
    /// is no decimal numeral is refused as an invalid amount.
    proof fn parsed_is_decimal(text: Seq<char>)
        ensures
            match Self::parsed(text) {
                Ok(v) => decimal_value(text) == Some(v) && Self::representable(v),
                Err(e) => (e == DomainError::InvalidAmount || e == DomainError::Overflow) && (
                decimal_value(text) is None ==> e == DomainError::InvalidAmount),
            },
    ;

    /// Reads a decimal text such as `"1.5000"`.
    fn from_decimal_str(s: &str) -> (result: Result<Self, DomainError>)
        ensures
            match result {
                Ok(amount) => Self::parsed(s@) == Ok::<int, DomainError>(amount.value()),
                Err(e) => Self::parsed(s@) == Err::<int, DomainError>(e),
            },
    ;

    /// Writes the amount with exactly four fractional digits.
    fn to_decimal_string(&self) -> (text: String)
        ensures
            text@ == decimal_text(self.value()),
    ;

    /// The sum, or `None` where the type cannot hold it.
    fn checked_add(&self, other: Self) -> (sum: Option<Self>)
        ensures
            match sum {
                Some(s) => s.value() == self.value() + other.value(),
                None => !Self::representable(self.value() + other.value()),
            },
    ;

    /// The difference, or `None` where the type cannot hold it.
    fn checked_sub(&self, other: Self) -> (difference: Option<Self>)
        ensures
            match difference {
                Some(d) => d.value() == self.value() - other.value(),
                None => !Self::representable(self.value() - other.value()),
            },
    ;

    /// The additive identity.
    fn zero() -> (z: Self)
        ensures
            z.value() == 0,
    ;

    /// Whether this amount is strictly smaller than `other`.
    fn less_than(&self, other: &Self) -> (smaller: bool)
        ensures
            smaller == (self.value() < other.value()),
    ;
}

/// Ten-thousandths in one unit.
pub const SCALE: i64 = 10_000;

/// An ASCII decimal digit.
pub open spec fn is_digit(c: char) -> bool {
    '0' <= c && c <= '9'
}

/// The number a digit stands for.
pub open spec fn digit_value(c: char) -> nat {
    (c as u32 - '0' as u32) as nat
}

/// Whether every character of `s` is a digit.
pub open spec fn all_digits(s: Seq<char>) -> bool {
    forall|i: int| 0 <= i < s.len() ==> is_digit(#[trigger] s[i])
}

/// The number that a run of digits denotes; the empty run denotes zero.
pub open spec fn digits_value(s: Seq<char>) -> nat
    decreases s.len(),
{
    if s.len() == 0 {
        0
    } else {
        digits_value(s.drop_last()) * 10 + digit_value(s.last())
    }
}

/// A character with the Unicode property White_Space.
pub open spec fn is_white_space(c: char) -> bool {
    let u = c as u32;
    ||| 0x09 <= u <= 0x0D
    ||| u == 0x20
    ||| u == 0x85
    ||| u == 0xA0
    ||| u == 0x1680
    ||| 0x2000 <= u <= 0x200A
    ||| u == 0x2028
    ||| u == 0x2029
    ||| u == 0x202F
    ||| u == 0x205F
    ||| u == 0x3000
}

/// `s` without its leading and trailing white space.
pub open spec fn trimmed(s: Seq<char>) -> Seq<char>
    decreases s.len(),
{
    if s.len() > 0 && is_white_space(s.first()) {
        trimmed(s.drop_first())
    } else if s.len() > 0 && is_white_space(s.last()) {
        trimmed(s.drop_last())
    } else {
        s
    }
}

/// Whether `body` is a non-empty run of digits, a dot, and exactly `f` digits.
pub open spec fn has_fraction(body: Seq<char>, f: int) -> bool {
    &&& 1 <= f <= 4
    &&& body.len() >= f + 2
    &&& body[body.len() - f - 1] == '.'
    &&& all_digits(body.subrange(0, body.len() - f - 1))
    &&& all_digits(body.subrange(body.len() - f, body.len() as int))
}

/// The number of fractional digits of an unsigned numeral: 0 for a plain run
/// of digits, 1 to 4 after a dot, `None` where `body` is no numeral.
pub open spec fn fraction_digits(body: Seq<char>) -> Option<int> {
    if body.len() > 0 && all_digits(body) {
        Some(0)
    } else if has_fraction(body, 1) {
        Some(1)
    } else if has_fraction(body, 2) {
        Some(2)
    } else if has_fraction(body, 3) {
        Some(3)
    } else if has_fraction(body, 4) {
        Some(4)
    } else {
        None
    }
}

/// Ten to the power `n`, for the four fractional places.
pub open spec fn pow10(n: int) -> nat {
    if n <= 0 {
        1
    } else if n == 1 {
        10
    } else if n == 2 {
        100
    } else if n == 3 {
        1000
    } else {
        10000
    }
}

/// The text without surrounding white space and without its minus sign.
pub open spec fn unsigned_part(text: Seq<char>) -> Seq<char> {
    let t = trimmed(text);
    if is_negative(text) {
        t.drop_first()
    } else {
        t
    }
}

/// Whether the text, surrounding white space aside, starts with a minus sign.
pub open spec fn is_negative(text: Seq<char>) -> bool {
    let t = trimmed(text);
    t.len() > 0 && t.first() == '-'
}

/// The digits before the dot of a numeral with `f` fractional digits.
pub open spec fn whole_digits(body: Seq<char>, f: int) -> Seq<char> {
    if f == 0 {
        body
    } else {
        body.subrange(0, body.len() - f - 1)
    }
}

/// The digits after the dot of a numeral with `f` fractional digits.
pub open spec fn fraction_part(body: Seq<char>, f: int) -> Seq<char> {
    body.subrange(body.len() - f, body.len() as int)
}

/// The magnitude, in ten-thousandths, of an unsigned numeral with `f`
/// fractional digits.
pub open spec fn scaled_magnitude(body: Seq<char>, f: int) -> nat {
    digits_value(whole_digits(body, f)) * 10000 + digits_value(fraction_part(body, f)) * pow10(
        4 - f,
    )
}

/// The value, in ten-thousandths, of a decimal text: an optional minus sign, a
/// non-empty run of digits, and optionally a dot and one to four digits, with
/// white space allowed around it. `None` for any other text.
pub open spec fn decimal_value(text: Seq<char>) -> Option<int> {
    let body = unsigned_part(text);
    match fraction_digits(body) {
        None => None,
        Some(f) => Some(
            if is_negative(text) {
                -(scaled_magnitude(body, f) as int)
            } else {
                scaled_magnitude(body, f) as int
            },
        ),
    }
}

/// The character of a number below ten.
pub open spec fn digit_char(d: nat) -> char {
    if d == 0 {
        '0'
    } else if d == 1 {
        '1'
    } else if d == 2 {
        '2'
    } else if d == 3 {
        '3'
    } else if d == 4 {
        '4'
    } else if d == 5 {
        '5'
    } else if d == 6 {
        '6'
    } else if d == 7 {
        '7'
    } else if d == 8 {
        '8'
    } else {
        '9'
    }
}

/// The decimal digits of `n`, without leading zeros.
pub open spec fn nat_digits(n: nat) -> Seq<char>
    decreases n,
{
    if n < 10 {
        seq![digit_char(n)]
    } else {
        nat_digits(n / 10).push(digit_char(n % 10))
    }
}

/// The four digits of a number below ten thousand, zero-padded.
pub open spec fn four_digits(n: nat) -> Seq<char> {
    seq![
        digit_char(n / 1000 % 10),
        digit_char(n / 100 % 10),
        digit_char(n / 10 % 10),
        digit_char(n % 10),
    ]
}

/// The text of `v` ten-thousandths: a minus sign for a strictly negative
/// value, the whole units, a dot, and exactly four fractional digits.
pub open spec fn decimal_text(v: int) -> Seq<char> {
    let magnitude = (if v < 0 {
        -v
    } else {
        v
    }) as nat;
    let sign = if v < 0 {
        seq!['-']
    } else {
        Seq::<char>::empty()
    };
    sign + nat_digits(magnitude / 10000).push('.') + four_digits(magnitude % 10000)
}


/// Amounts as a signed 64-bit count of ten-thousandths.
#[derive(Debug, Clone, Copy, PartialEq, Eq, PartialOrd, Ord, Structural)]
pub struct FixedPoint(i64);

impl FixedPoint {
    /// The amount of `raw` ten-thousandths.
    pub fn from_raw(raw: i64) -> (amount: Self)
        ensures
            amount.value() == raw,
    {
        FixedPoint(raw)
    }

    /// The amount in ten-thousandths.
    pub fn raw(&self) -> (raw: i64)
        ensures
            raw == self.value(),
    {
        self.0
    }

    /// What a decimal text is read as: the value where the text is a numeral
    /// whose magnitude fits, `InvalidAmount` where it is no numeral or its
    /// whole part alone exceeds the 64-bit range, `Overflow` where only the
    /// scaled magnitude does.
    pub open spec fn text_value(text: Seq<char>) -> Result<int, DomainError> {
        let body = unsigned_part(text);
        match fraction_digits(body) {
            None => Err(DomainError::InvalidAmount),
            Some(f) => if digits_value(whole_digits(body, f)) > i64::MAX {
                Err(DomainError::InvalidAmount)
            } else if scaled_magnitude(body, f) > i64::MAX {
                Err(DomainError::Overflow)
            } else if is_negative(text) {
                Ok(-(scaled_magnitude(body, f) as int))
            } else {
                Ok(scaled_magnitude(body, f) as int)
            },
        }
    }
}

impl Default for FixedPoint {
    fn default() -> (amount: Self)
        ensures
            amount.value() == 0,
    {
        FixedPoint(0)
    }
}

impl core::ops::Add for FixedPoint {
    type Output = FixedPoint;

    fn add(self, other: FixedPoint) -> (sum: FixedPoint) {
        FixedPoint(self.0 + other.0)
    }
}

impl vstd::std_specs::ops::AddSpecImpl for FixedPoint {
    open spec fn obeys_add_spec() -> bool {
        true
    }

    open spec fn add_req(self, other: FixedPoint) -> bool {
        Self::representable(self.value() + other.value())
    }

    closed spec fn add_spec(self, other: FixedPoint) -> FixedPoint {
        FixedPoint((self.0 + other.0) as i64)
    }
}

impl core::ops::Sub for FixedPoint {
    type Output = FixedPoint;

    fn sub(self, other: FixedPoint) -> (difference: FixedPoint) {
        FixedPoint(self.0 - other.0)
    }
}

impl vstd::std_specs::ops::SubSpecImpl for FixedPoint {
    open spec fn obeys_sub_spec() -> bool {
        true
    }

    open spec fn sub_req(self, other: FixedPoint) -> bool {
        Self::representable(self.value() - other.value())
    }

    closed spec fn sub_spec(self, other: FixedPoint) -> FixedPoint {
        FixedPoint((self.0 - other.0) as i64)
    }
}

/// Whether `c` has the Unicode property White_Space.
pub fn is_whitespace(c: char) -> (b: bool)
    ensures
        b == is_white_space(c),
{
    let u = c as u32;
    (0x09 <= u && u <= 0x0D) || u == 0x20 || u == 0x85 || u == 0xA0 || u == 0x1680 || (0x2000 <= u
        && u <= 0x200A) || u == 0x2028 || u == 0x2029 || u == 0x202F || u == 0x205F || u == 0x3000
}

/// The characters of a text.
pub fn text_chars(s: &str) -> (chars: Vec<char>)
    ensures
        chars@ == s@,
{
    let mut chars: Vec<char> = Vec::new();
    for c in it: s.chars()
        invariant
            chars@ == it.seq().take(it.index()),
            it.seq() == s@,
    {
        chars.push(c);
    }
    chars
}

/// Where the text starts and ends once its surrounding white space is left out.
pub fn trim_bounds(chars: &Vec<char>) -> (bounds: (usize, usize))
    ensures
        bounds.0 <= bounds.1 <= chars.len(),
        chars@.subrange(bounds.0 as int, bounds.1 as int) == trimmed(chars@),
{
    let n = chars.len();
    let mut lo: usize = 0;
    assert(chars@.subrange(0, n as int) == chars@);
    while lo < n && is_whitespace(chars[lo])
        invariant
            n == chars.len(),
            lo <= n,
            trimmed(chars@) == trimmed(chars@.subrange(lo as int, n as int)),
        decreases n - lo,
    {
        assert(chars@.subrange(lo as int, n as int).drop_first() == chars@.subrange(
            lo as int + 1,
            n as int,
        ));
        lo += 1;
    }
    let mut hi: usize = n;
    while hi > lo && is_whitespace(chars[hi - 1])
        invariant
            n == chars.len(),
            lo <= hi <= n,
            lo < n ==> !is_white_space(chars@[lo as int]),
            trimmed(chars@) == trimmed(chars@.subrange(lo as int, hi as int)),
        decreases hi - lo,
    {
        assert(chars@.subrange(lo as int, hi as int).drop_last() == chars@.subrange(
            lo as int,
            hi as int - 1,
        ));
        hi -= 1;
    }
    (lo, hi)
}

/// Whether the characters from `from` up to `to` are all digits.
fn digits_only(chars: &Vec<char>, from: usize, to: usize) -> (b: bool)
    requires
        from <= to <= chars.len(),
    ensures
        b == all_digits(chars@.subrange(from as int, to as int)),
{
    let mut i: usize = from;
    while i < to
        invariant
            from <= i <= to <= chars.len(),
            all_digits(chars@.subrange(from as int, i as int)),
        decreases to - i,
    {
        let c = chars[i];
        if !(c >= '0' && c <= '9') {
            assert(chars@.subrange(from as int, to as int)[i - from] == c);
            return false;
        }
        assert forall|k: int| 0 <= k < i + 1 - from implies is_digit(
            #[trigger] chars@.subrange(from as int, i as int + 1)[k],
        ) by {
            if k < i - from {
                assert(chars@.subrange(from as int, i as int)[k] == chars@[from + k]);
            }
        }
        i += 1;
    }
    true
}

/// Whether the characters from `from` up to `to` are digits, a dot and `f` digits.
fn fraction_at(chars: &Vec<char>, from: usize, to: usize, f: usize) -> (b: bool)
    requires
        from <= to <= chars.len(),
        1 <= f <= 4,
    ensures
        b == has_fraction(chars@.subrange(from as int, to as int), f as int),
{
    let ghost body = chars@.subrange(from as int, to as int);
    if to - from < f + 2 {
        return false;
    }
    let dot = to - f - 1;
    assert(body[body.len() - f - 1] == chars@[dot as int]);
    assert(body.subrange(0, body.len() - f - 1) == chars@.subrange(from as int, dot as int));
    assert(body.subrange(body.len() - f, body.len() as int) == chars@.subrange(
        dot as int + 1,
        to as int,
    ));
    chars[dot] == '.' && digits_only(chars, from, dot) && digits_only(chars, dot + 1, to)
}

/// The number of fractional digits of the numeral from `from` up to `to`, or
/// `None` where that range holds no numeral.
fn count_fraction_digits(chars: &Vec<char>, from: usize, to: usize) -> (count: Option<usize>)
    requires
        from <= to <= chars.len(),
    ensures
        match count {
            Some(f) => fraction_digits(chars@.subrange(from as int, to as int)) == Some(f as int),
            None => fraction_digits(chars@.subrange(from as int, to as int)) is None,
        },
{
    if to > from && digits_only(chars, from, to) {
        Some(0)
    } else if fraction_at(chars, from, to, 1) {
        Some(1)
    } else if fraction_at(chars, from, to, 2) {
        Some(2)
    } else if fraction_at(chars, from, to, 3) {
        Some(3)
    } else if fraction_at(chars, from, to, 4) {
        Some(4)
    } else {
        None
    }
}

/// A digit's value lies below ten.
proof fn lemma_digit_value(c: char)
    requires
        is_digit(c),
    ensures
        digit_value(c) <= 9,
        digit_char(digit_value(c)) == c,
{
}

/// Appending a digit multiplies the value by ten and adds the digit.
proof fn lemma_digits_value_push(s: Seq<char>, c: char)
    ensures
        digits_value(s.push(c)) == digits_value(s) * 10 + digit_value(c),
{
    assert(s.push(c).drop_last() == s);
}

/// The number that the digits from `from` up to `to` denote, or `None` where
/// it exceeds the signed 64-bit range.
fn read_digits(chars: &Vec<char>, from: usize, to: usize) -> (number: Option<i64>)
    requires
        from <= to <= chars.len(),
        all_digits(chars@.subrange(from as int, to as int)),
    ensures
        match number {
            Some(n) => n == digits_value(chars@.subrange(from as int, to as int)),
            None => digits_value(chars@.subrange(from as int, to as int)) > i64::MAX,
        },
{
    let mut acc: i64 = 0;
    let mut fits = true;
    let mut i: usize = from;
    assert(chars@.subrange(from as int, from as int) == Seq::<char>::empty());
    while i < to
        invariant
            from <= i <= to <= chars.len(),
            all_digits(chars@.subrange(from as int, to as int)),
            fits ==> 0 <= acc && acc == digits_value(chars@.subrange(from as int, i as int)),
            !fits ==> digits_value(chars@.subrange(from as int, i as int)) > i64::MAX,
        decreases to - i,
    {
        let c = chars[i];
        proof {
            assert(chars@.subrange(from as int, to as int)[i - from] == c);
            lemma_digit_value(c);
            lemma_digits_value_push(chars@.subrange(from as int, i as int), c);
            assert(chars@.subrange(from as int, i as int).push(c) == chars@.subrange(
                from as int,
                i as int + 1,
            ));
        }
        if fits {
            let d: i64 = (c as u32 - '0' as u32) as i64;
            match acc.checked_mul(10) {
                Some(tens) => match tens.checked_add(d) {
                    Some(next) => {
                        acc = next;
                    },
                    None => {
                        fits = false;
                    },
                },
                None => {
                    fits = false;
                },
            }
        }
        i += 1;
    }
    if fits {
        Some(acc)
    } else {
        None
    }
}

/// The weight of a fraction of `f` digits in ten-thousandths.
fn fraction_weight(f: usize) -> (w: i64)
    requires
        f <= 4,
    ensures
        w == pow10(4 - f),
{
    if f == 4 {
        1
    } else if f == 3 {
        10
    } else if f == 2 {
        100
    } else if f == 1 {
        1000
    } else {
        10000
    }
}

/// A run of `n` digits, `n` at most four, denotes a number below the `n`-th
/// power of ten.
proof fn lemma_short_digits(s: Seq<char>)
    requires
        all_digits(s),
        s.len() <= 4,
    ensures
        digits_value(s) < pow10(s.len() as int),
        digits_value(s) * pow10(4 - s.len()) <= 9999,
    decreases s.len(),
{
    if s.len() > 0 {
        assert(all_digits(s.drop_last())) by {
            assert forall|i: int| 0 <= i < s.drop_last().len() implies is_digit(
                #[trigger] s.drop_last()[i],
            ) by {
                assert(s.drop_last()[i] == s[i]);
            }
        }
        lemma_short_digits(s.drop_last());
        lemma_digit_value(s.last());
    }
}

/// The magnitude, in ten-thousandths, of the numeral from `start` up to `end`
/// with `f` fractional digits, or the reason for refusing it.
fn read_magnitude(chars: &Vec<char>, start: usize, end: usize, f: usize) -> (result: Result<
    i64,
    DomainError,
>)
    requires
        start <= end <= chars.len(),
        fraction_digits(chars@.subrange(start as int, end as int)) == Some(f as int),
    ensures
        ({
            let body = chars@.subrange(start as int, end as int);
            match result {
                Ok(m) => digits_value(whole_digits(body, f as int)) <= i64::MAX && m
                    == scaled_magnitude(body, f as int),
                Err(e) => if digits_value(whole_digits(body, f as int)) > i64::MAX {
                    e == DomainError::InvalidAmount
                } else {
                    e == DomainError::Overflow && scaled_magnitude(body, f as int) > i64::MAX
                },
            }
        }),
{
    let ghost body = chars@.subrange(start as int, end as int);
    let whole_end = if f == 0 {
        end
    } else {
        end - f - 1
    };
    proof {
        assert(whole_digits(body, f as int) == chars@.subrange(start as int, whole_end as int));
        assert(fraction_part(body, f as int) == chars@.subrange(end - f, end as int));
        if f == 0 {
            assert(fraction_part(body, 0) == Seq::<char>::empty());
        }
        lemma_short_digits(fraction_part(body, f as int));
    }
    let whole = match read_digits(chars, start, whole_end) {
        Some(w) => w,
        None => {
            return Err(DomainError::InvalidAmount);
        },
    };
    let fraction = match read_digits(chars, end - f, end) {
        Some(n) => n,
        None => {
            return Err(DomainError::Overflow);
        },
    };
    let weight = fraction_weight(f);
    let ghost tail = digits_value(fraction_part(body, f as int)) * pow10(4 - f);
    assert(fraction * weight == tail);
    match whole.checked_mul(SCALE) {
        Some(units) => match units.checked_add(fraction * weight) {
            Some(scaled) => Ok(scaled),
            None => Err(DomainError::Overflow),
        },
        None => Err(DomainError::Overflow),
    }
}

impl AmountType for FixedPoint {
    closed spec fn value(&self) -> int {
        self.0 as int
    }

    open spec fn representable(v: int) -> bool {
        i64::MIN <= v <= i64::MAX
    }

    open spec fn parsed(text: Seq<char>) -> Result<int, DomainError> {
        Self::text_value(text)
    }

    proof fn value_is_representable(&self) {
    }

    proof fn parsed_is_decimal(text: Seq<char>) {
    }

    fn from_decimal_str(s: &str) -> (result: Result<Self, DomainError>) {
        let chars = text_chars(s);
        let (lo, hi) = trim_bounds(&chars);
        let negative = lo < hi && chars[lo] == '-';
        let start = if negative {
            lo + 1
        } else {
            lo
        };
        let ghost body = chars@.subrange(start as int, hi as int);
        proof {
            assert(trimmed(s@).len() > 0 ==> trimmed(s@).first() == chars@[lo as int]);
            assert(is_negative(s@) == negative);
            assert(body == unsigned_part(s@));
        }
        let f = match count_fraction_digits(&chars, start, hi) {
            Some(f) => f,
            None => {
                return Err(DomainError::InvalidAmount);
            },
        };
        match read_magnitude(&chars, start, hi, f) {
            Ok(magnitude) => if negative {
                Ok(FixedPoint(-magnitude))
            } else {
                Ok(FixedPoint(magnitude))
            },
            Err(e) => Err(e),
        }
    }

    fn to_decimal_string(&self) -> (text: String) {
        let mut text = String::new();
        let magnitude: u64 = if self.0 < 0 {
            proof {
                reveal_strlit("-");
            }
            text.append("-");
            (0 - self.0 as i128) as u64
        } else {
            self.0 as u64
        };
        append_number(&mut text, magnitude / 10000);
        proof {
            reveal_strlit(".");
        }
        text.append(".");
        let fraction = magnitude % 10000;
        text.append(digit_text(fraction / 1000 % 10));
        text.append(digit_text(fraction / 100 % 10));
        text.append(digit_text(fraction / 10 % 10));
        text.append(digit_text(fraction % 10));
        assert(text@ == decimal_text(self.value()));
        text
    }

    fn checked_add(&self, other: Self) -> (sum: Option<Self>) {
        match self.0.checked_add(other.0) {
            Some(raw) => Some(FixedPoint(raw)),
            None => None,
        }
    }

    fn checked_sub(&self, other: Self) -> (difference: Option<Self>) {
        match self.0.checked_sub(other.0) {
            Some(raw) => Some(FixedPoint(raw)),
            None => None,
        }
    }

    fn zero() -> (z: Self) {
        FixedPoint(0)
    }

    fn less_than(&self, other: &Self) -> (smaller: bool) {
        self.0 < other.0
    }
}

/// The text of one digit.
fn digit_text(d: u64) -> (text: &'static str)
    requires
        d < 10,
    ensures
        text@ == seq![digit_char(d as nat)],
{
    proof {
        reveal_strlit("0");
        reveal_strlit("1");
        reveal_strlit("2");
        reveal_strlit("3");
        reveal_strlit("4");
        reveal_strlit("5");
        reveal_strlit("6");
        reveal_strlit("7");
        reveal_strlit("8");
        reveal_strlit("9");
    }
    if d == 0 {
        "0"
    } else if d == 1 {
        "1"
    } else if d == 2 {
        "2"
    } else if d == 3 {
        "3"
    } else if d == 4 {
        "4"
    } else if d == 5 {
        "5"
    } else if d == 6 {
        "6"
    } else if d == 7 {
        "7"
    } else if d == 8 {
        "8"
    } else {
        "9"
    }
}

/// Appends the decimal digits of `n` to `out`.
pub fn append_number(out: &mut String, n: u64)
    ensures
        final(out)@ == old(out)@ + nat_digits(n as nat),
    decreases n,
{
    if n >= 10 {
        append_number(out, n / 10);
    }
    out.append(digit_text(n % 10));
}

/// Fixed-point amounts of the same value are the same amount.
pub proof fn same_value_is_same_amount(x: FixedPoint, y: FixedPoint)
    requires
        x.value() == y.value(),
    ensures
        x == y,
{
}

/// The operators `+` and `-` give the sum and the difference wherever the
/// 64-bit range holds them.
pub proof fn operators_add_and_subtract(a: FixedPoint, b: FixedPoint)
    ensures
        FixedPoint::representable(a.value() + b.value()) ==> a.add_spec(b).value() == a.value()
            + b.value(),
        FixedPoint::representable(a.value() - b.value()) ==> a.sub_spec(b).value() == a.value()
            - b.value(),
{
}

} // verus!
