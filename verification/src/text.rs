use vstd::prelude::*;

verus! {

/// The character of a decimal digit `d` (`0 <= d < 10`).
pub open spec fn digit_char(d: int) -> char {
    (48 + d) as char
}

/// Whether `c` is one of the ASCII digits `0` to `9`.
pub open spec fn is_digit(c: char) -> bool {
    48 <= c as int <= 57
}

/// A non-empty run of ASCII digits.
pub open spec fn is_digit_run(s: Seq<char>) -> bool {
    s.len() > 0 && forall|i: int| 0 <= i < s.len() ==> is_digit(#[trigger] s[i])
}

/// The number that a run of ASCII digits writes in base ten.
pub open spec fn digits_value(s: Seq<char>) -> int
    decreases s.len(),
{
    if s.len() == 0 {
        0
    } else {
        digits_value(s.drop_last()) * 10 + (s.last() as int - 48)
    }
}

/// The shortest base-ten digits of `n`: `0` is written `0`, no other number
/// starts with a zero.
pub open spec fn decimal_digits(n: nat) -> Seq<char>
    decreases n,
{
    if n < 10 {
        seq![digit_char(n as int)]
    } else {
        decimal_digits(n / 10).push(digit_char((n % 10) as int))
    }
}

/// How an integer is displayed: a minus sign for negative numbers, then the
/// digits of its magnitude.
pub open spec fn decimal_text(v: int) -> Seq<char> {
    if v < 0 {
        seq!['-'] + decimal_digits((-v) as nat)
    } else {
        decimal_digits(v as nat)
    }
}

/// The integer that a text reads as: an optional `+` or `-` sign followed by
/// one or more ASCII digits, and nothing else.
pub open spec fn decimal_parse(t: Seq<char>) -> Option<int> {
    if t.len() > 0 && t[0] == '-' {
        if is_digit_run(t.skip(1)) {
            Some(-digits_value(t.skip(1)))
        } else {
            None
        }
    } else if t.len() > 0 && t[0] == '+' {
        if is_digit_run(t.skip(1)) {
            Some(digits_value(t.skip(1)))
        } else {
            None
        }
    } else if is_digit_run(t) {
        Some(digits_value(t))
    } else {
        None
    }
}

/// The `i32` that a text reads as: its decimal value, where it fits.
pub open spec fn i32_parse(t: Seq<char>) -> Option<i32> {
    match decimal_parse(t) {
        Some(v) => if i32::MIN <= v <= i32::MAX {
            Some(v as i32)
        } else {
            None
        },
        None => None,
    }
}

/// The text of a `bool`.
pub open spec fn bool_text(b: bool) -> Seq<char> {
    if b {
        "true"@
    } else {
        "false"@
    }
}

/// The `bool` that a text reads as: only `true` and `false` are accepted.
pub open spec fn bool_parse(t: Seq<char>) -> Option<bool> {
    if t == "true"@ {
        Some(true)
    } else if t == "false"@ {
        Some(false)
    } else {
        None
    }
}

/// std's error for a text that is no valid integer.
#[verifier::external_type_specification]
#[verifier::external_body]
pub struct ExParseIntError(std::num::ParseIntError);

/// std's error for a text that is no valid `bool`.
#[verifier::external_type_specification]
#[verifier::external_body]
pub struct ExParseBoolError(std::str::ParseBoolError);

/// `str::parse::<i32>` (std's `FromStr` for `i32`): succeeds exactly on an
/// optional sign followed by ASCII digits whose value fits in an `i32`, with
/// that value. What the error holds is left unsaid.
#[verifier::external_body]
fn parse_i32(text: &str) -> (r: Result<i32, std::num::ParseIntError>)
    ensures
        match r {
            Ok(v) => i32_parse(text@) == Some(v),
            Err(_) => i32_parse(text@) is None,
        },
{
    text.parse::<i32>()
}

/// `str::parse::<bool>` (std's `FromStr` for `bool`): succeeds exactly on
/// `true` and `false`. What the error holds is left unsaid.
#[verifier::external_body]
fn parse_bool(text: &str) -> (r: Result<bool, std::str::ParseBoolError>)
    ensures
        match r {
            Ok(b) => bool_parse(text@) == Some(b),
            Err(_) => bool_parse(text@) is None,
        },
{
    text.parse::<bool>()
}

/// The text of one decimal digit.
fn digit_text(d: u32) -> (r: String)
    requires
        d < 10,
    ensures
        r@ == seq![digit_char(d as int)],
{
    let t = match d {
        0 => "0",
        1 => "1",
        2 => "2",
        3 => "3",
        4 => "4",
        5 => "5",
        6 => "6",
        7 => "7",
        8 => "8",
        _ => "9",
    };
    proof {
        reveal_strlit("0");
        reveal_strlit("1");
        reveal_strlit("2");
        reveal_strlit("3");
        reveal_strlit("4");
        reveal_strlit("5");
        reveal_strlit("6");
        reveal_strlit("7");
        reveal_strlit("8");
        reveal_strlit("9");
    }
    let r = String::from_str(t);
    assert(r@ =~= seq![digit_char(d as int)]);
    r
}

/// The shortest decimal digits of a number.
fn digits_text(n: u32) -> (r: String)
    ensures
        r@ == decimal_digits(n as nat),
    decreases n,
{
    if n < 10 {
        digit_text(n)
    } else {
        let mut r = digits_text(n / 10);
        let last = digit_text(n % 10);
        r.append(last.as_str());
        assert(r@ =~= decimal_digits(n as nat));
        r
    }
}

/// The decimal text of an `i32`, with a leading `-` when it is negative.
fn i32_text(v: i32) -> (r: String)
    ensures
        r@ == decimal_text(v as int),
{
    if v < 0 {
        let m: u32 = (0i64 - v as i64) as u32;
        let mut r = String::from_str("-");
        let digits = digits_text(m);
        r.append(digits.as_str());
        proof {
            reveal_strlit("-");
            assert(r@ =~= decimal_text(v as int));
        }
        r
    } else {
        digits_text(v as u32)
    }
}

/// A value that a telemetry record can carry as text: how it is read from a
/// record's text and how it is written back for display.
pub trait TextValue: Sized + DeepView {
    /// Why a text did not read as a value.
    type Err;

    /// What a text reads as, or `None` where the text is not a valid value.
    spec fn text_parse(text: Seq<char>) -> Option<<Self as DeepView>::V>;

    /// The text that displays a value.
    spec fn text_of(value: <Self as DeepView>::V) -> Seq<char>;

    /// Reads a value from a text; an error exactly where the text is not a
    /// valid value.
    fn from_text(text: &str) -> (r: Result<Self, Self::Err>)
        ensures
            match r {
                Ok(v) => Self::text_parse(text@) == Some(v.deep_view()),
                Err(_) => Self::text_parse(text@) is None,
            },
    ;

    /// Writes a value as text.
    fn to_text(&self) -> (r: String)
        ensures
            r@ == Self::text_of(self.deep_view()),
    ;
}

impl TextValue for i32 {
    type Err = std::num::ParseIntError;

    open spec fn text_parse(text: Seq<char>) -> Option<i32> {
        i32_parse(text)
    }

    open spec fn text_of(value: i32) -> Seq<char> {
        decimal_text(value as int)
    }

    fn from_text(text: &str) -> (r: Result<i32, std::num::ParseIntError>) {
        parse_i32(text)
    }

    fn to_text(&self) -> (r: String) {
        i32_text(*self)
    }
}

impl TextValue for bool {
    type Err = std::str::ParseBoolError;

    open spec fn text_parse(text: Seq<char>) -> Option<bool> {
        bool_parse(text)
    }

    open spec fn text_of(value: bool) -> Seq<char> {
        bool_text(value)
    }

    fn from_text(text: &str) -> (r: Result<bool, std::str::ParseBoolError>) {
        parse_bool(text)
    }

    fn to_text(&self) -> (r: String) {
        if *self {
            String::from_str("true")
        } else {
            String::from_str("false")
        }
    }
}

impl TextValue for String {
    type Err = std::convert::Infallible;

    open spec fn text_parse(text: Seq<char>) -> Option<Seq<char>> {
        Some(text)
    }

    open spec fn text_of(value: Seq<char>) -> Seq<char> {
        value
    }

    fn from_text(text: &str) -> (r: Result<String, std::convert::Infallible>) {
        Ok(String::from_str(text))
    }

    fn to_text(&self) -> (r: String) {
        self.clone()
    }
}

} // verus!

verus! {

/// The digits of a number are a digit run that reads back as the number.
proof fn lemma_decimal_digits(n: nat)
    ensures
        is_digit_run(decimal_digits(n)),
        digits_value(decimal_digits(n)) == n,
    decreases n,
{
    if n < 10 {
        let d = decimal_digits(n);
        assert(d.drop_last() =~= Seq::<char>::empty());
        assert(digits_value(Seq::<char>::empty()) == 0);
        assert(digit_char(n as int) as int == 48 + n);
        assert(digits_value(d) == digits_value(d.drop_last()) * 10 + (d.last() as int - 48));
    } else {
        lemma_decimal_digits(n / 10);
        let d = decimal_digits(n);
        assert(d.drop_last() =~= decimal_digits(n / 10));
        assert(digit_char((n % 10) as int) as int == 48 + n % 10);
        assert(digits_value(d) == digits_value(d.drop_last()) * 10 + (d.last() as int - 48));
        assert forall|i: int| 0 <= i < d.len() implies is_digit(#[trigger] d[i]) by {
            if i < d.len() - 1 {
                assert(d[i] == decimal_digits(n / 10)[i]);
            }
        }
    }
}

/// Every `i32` reads back from its own text.
pub proof fn lemma_i32_text_round_trip(v: i32)
    ensures
        <i32 as TextValue>::text_parse(<i32 as TextValue>::text_of(v)) == Some(v),
{
    let t = decimal_text(v as int);
    if v < 0 {
        let m = (-(v as int)) as nat;
        lemma_decimal_digits(m);
        assert(t.skip(1) =~= decimal_digits(m));
        assert(t[0] == '-');
    } else {
        lemma_decimal_digits(v as nat);
        assert(is_digit(t[0]));
    }
}

/// Every `bool` reads back from its own text.
pub proof fn lemma_bool_text_round_trip(b: bool)
    ensures
        <bool as TextValue>::text_parse(<bool as TextValue>::text_of(b)) == Some(b),
{
    reveal_strlit("true");
    reveal_strlit("false");
    assert("true"@.len() != "false"@.len());
}

/// Every text reads back as itself when the value is text.
pub proof fn lemma_string_text_round_trip(t: Seq<char>)
    ensures
        <String as TextValue>::text_parse(t) == Some(t),
        <String as TextValue>::text_of(t) == t,
{
}

} // verus!

verus! {

/// The digits of a positive number do not start with a zero.
proof fn lemma_decimal_digits_lead(n: nat)
    ensures
        decimal_digits(n).len() >= 1,
        n >= 1 ==> decimal_digits(n)[0] != '0',
        n == 0 ==> decimal_digits(n).len() == 1,
    decreases n,
{
    if n < 10 {
        assert(digit_char(n as int) as int == 48 + n);
    } else {
        lemma_decimal_digits_lead(n / 10);
        assert(decimal_digits(n)[0] == decimal_digits(n / 10)[0]);
    }
}

/// The text of an `i32` is its plain decimal form: for a number that is not
/// negative, only ASCII digits, with no sign and no leading zero, whose value
/// is the number; for a negative number, a `-` followed by such digits of its
/// magnitude.
pub proof fn lemma_i32_text_is_plain_decimal(v: i32)
    ensures
        v >= 0 ==> {
            let t = <i32 as TextValue>::text_of(v);
            &&& is_digit_run(t)
            &&& digits_value(t) == v
            &&& (t[0] == '0' ==> t.len() == 1)
        },
        v < 0 ==> {
            let t = <i32 as TextValue>::text_of(v);
            &&& t.len() >= 2
            &&& t[0] == '-'
            &&& is_digit_run(t.skip(1))
            &&& digits_value(t.skip(1)) == -v
            &&& t[1] != '0'
        },
{
    if v >= 0 {
        lemma_decimal_digits(v as nat);
        lemma_decimal_digits_lead(v as nat);
    } else {
        let m = (-(v as int)) as nat;
        lemma_decimal_digits(m);
        lemma_decimal_digits_lead(m);
        let t = decimal_text(v as int);
        assert(t.skip(1) =~= decimal_digits(m));
        assert(t[1] == decimal_digits(m)[0]);
    }
}

} // verus!
