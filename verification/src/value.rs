//! Values produced by generators, and their textual forms.

use vstd::prelude::*;
use crate::text::{chars_of, string_of};

verus! {

/// Integer type of generated values.
pub type SbrdInt = i32;
/// Boolean type of generated values.
pub type SbrdBool = bool;
/// String type of generated values.
pub type SbrdString = String;

/// Default format for date-times, in chrono's strftime syntax.
pub const DATE_TIME_DEFAULT_FORMAT: &'static str = "%Y-%m-%d %H:%M:%S";
/// Default format for dates, in chrono's strftime syntax.
pub const DATE_DEFAULT_FORMAT: &'static str = "%Y-%m-%d";
/// Default format for times of day, in chrono's strftime syntax.
pub const TIME_DEFAULT_FORMAT: &'static str = "%H:%M:%S";

/// A generated value.
///
/// A real number is held as the decimal text that its `f32` value displays as
/// (the shortest text that reads back as the same number); the arithmetic on
/// real numbers happens outside this crate.
#[derive(Debug, Clone)]
pub enum DataValue {
    /// Integer
    Int(SbrdInt),
    /// Real number, as its display text
    Real(String),
    /// Boolean
    Bool(SbrdBool),
    /// String
    String(String),
    /// Null
    Null,
}

/// Decimal digit `d` (0 to 9) as a character.
pub open spec fn digit_char(d: int) -> char {
    (48 + d) as char
}

/// Decimal text of a natural number, without sign or leading zeros.
pub open spec fn nat_text(n: nat) -> Seq<char>
    decreases n,
{
    if n < 10 {
        seq![digit_char(n as int)]
    } else {
        nat_text(n / 10).push(digit_char((n % 10) as int))
    }
}

/// Decimal text of an integer, with a leading `-` when it is negative.
pub open spec fn int_text(v: int) -> Seq<char> {
    if v < 0 {
        seq!['-'] + nat_text((-v) as nat)
    } else {
        nat_text(v as nat)
    }
}

/// Text of a boolean.
pub open spec fn bool_text(b: bool) -> Seq<char> {
    if b {
        "true"@
    } else {
        "false"@
    }
}

/// The text a value contributes when joined with other texts, and when it is
/// parsed again as another type: null gives the empty text.
pub open spec fn value_text(v: DataValue) -> Seq<char> {
    match v {
        DataValue::Int(i) => int_text(i as int),
        DataValue::Real(s) => s@,
        DataValue::Bool(b) => bool_text(b),
        DataValue::String(s) => s@,
        DataValue::Null => Seq::empty(),
    }
}

/// The text a value is displayed as: like [`value_text`], but null shows as `null`.
pub open spec fn display_text(v: DataValue) -> Seq<char> {
    match v {
        DataValue::Null => "null"@,
        _ => value_text(v),
    }
}

/// Appends the decimal digits of `n` to `out`.
fn push_nat_digits(n: u128, out: &mut Vec<char>)
    ensures
        final(out)@ == old(out)@ + nat_text(n as nat),
    decreases n,
{
    if n >= 10 {
        push_nat_digits(n / 10, out);
    }
    let d: u128 = n % 10;
    let c: char = digit_of(d as u32);
    out.push(c);
    proof {
        if n < 10 {
            assert(old(out)@ + nat_text(n as nat) =~= old(out)@.push(c));
        } else {
            assert((old(out)@ + nat_text((n / 10) as nat)).push(c) =~= old(out)@ + nat_text(n as nat));
        }
    }
}

/// The character of decimal digit `d`.
fn digit_of(d: u32) -> (c: char)
    requires
        d < 10,
    ensures
        c == digit_char(d as int),
{
    match d {
        0 => '0',
        1 => '1',
        2 => '2',
        3 => '3',
        4 => '4',
        5 => '5',
        6 => '6',
        7 => '7',
        8 => '8',
        _ => '9',
    }
}

/// Decimal text of `v`.
pub fn int_to_chars(v: i32) -> (r: Vec<char>)
    ensures
        r@ == int_text(v as int),
{
    let mut out: Vec<char> = Vec::new();
    if v < 0 {
        out.push('-');
        let magnitude: u128 = if v == i32::MIN {
            2147483648u128
        } else {
            (-v) as u128
        };
        push_nat_digits(magnitude, &mut out);
    } else {
        push_nat_digits(v as u128, &mut out);
    }
    assert(out@ =~= int_text(v as int));
    out
}

/// Decimal text of `v`.
pub fn int64_to_string(v: i64) -> (r: String)
    ensures
        r@ == int_text(v as int),
{
    let mut out: Vec<char> = Vec::new();
    if v < 0 {
        out.push('-');
        let magnitude: u128 = if v == i64::MIN {
            9223372036854775808u128
        } else {
            (-v) as u128
        };
        push_nat_digits(magnitude, &mut out);
    } else {
        push_nat_digits(v as u128, &mut out);
    }
    assert(out@ =~= int_text(v as int));
    string_of(out.as_slice())
}

/// Decimal text of `n`.
pub fn nat_to_string(n: u128) -> (r: String)
    ensures
        r@ == nat_text(n as nat),
{
    let mut out: Vec<char> = Vec::new();
    push_nat_digits(n, &mut out);
    assert(out@ =~= nat_text(n as nat));
    string_of(out.as_slice())
}

/// Decimal text of `v`.
pub fn int_to_string(v: i32) -> (r: String)
    ensures
        r@ == int_text(v as int),
{
    let chars = int_to_chars(v);
    string_of(chars.as_slice())
}

/// Why a text is not the decimal text of an `i32`.
#[derive(Debug, Clone, Copy, PartialEq, Eq)]
pub enum IntParseError {
    /// The text is empty.
    Empty,
    /// A character is not a decimal digit (or the text is a lone sign).
    InvalidDigit,
    /// The number is above `i32::MAX`.
    PosOverflow,
    /// The number is below `i32::MIN`.
    NegOverflow,
}

/// Whether `c` is an ASCII decimal digit.
pub open spec fn is_digit(c: char) -> bool {
    '0' <= c && c <= '9'
}

/// Value of the digit character `c`.
pub open spec fn digit_value(c: char) -> int {
    (c as int) - 48
}

/// Reads `digits` left to right onto `acc`, adding each digit when `positive`
/// and subtracting it otherwise; the first character that is no digit, or the
/// first step that leaves the `i32` range, decides the error.
pub open spec fn read_digits(digits: Seq<char>, positive: bool, acc: int) -> Result<int, IntParseError>
    decreases digits.len(),
{
    if digits.len() == 0 {
        Ok(acc)
    } else if !is_digit(digits[0]) {
        Err(IntParseError::InvalidDigit)
    } else {
        let next = if positive {
            acc * 10 + digit_value(digits[0])
        } else {
            acc * 10 - digit_value(digits[0])
        };
        if next > i32::MAX {
            Err(IntParseError::PosOverflow)
        } else if next < i32::MIN {
            Err(IntParseError::NegOverflow)
        } else {
            read_digits(digits.drop_first(), positive, next)
        }
    }
}

/// The `i32` that `s` is the decimal text of: an optional `+` or `-` sign
/// followed by at least one decimal digit.
pub open spec fn parse_int_spec(s: Seq<char>) -> Result<int, IntParseError> {
    if s.len() == 0 {
        Err(IntParseError::Empty)
    } else if (s[0] == '+' || s[0] == '-') && s.len() == 1 {
        Err(IntParseError::InvalidDigit)
    } else if s[0] == '+' {
        read_digits(s.drop_first(), true, 0)
    } else if s[0] == '-' {
        read_digits(s.drop_first(), false, 0)
    } else {
        read_digits(s, true, 0)
    }
}

proof fn lemma_read_digits_in_range(digits: Seq<char>, positive: bool, acc: int)
    ensures
        read_digits(digits, positive, acc) matches Ok(v) ==> (v == acc && digits.len() == 0) || (i32::MIN <= v <= i32::MAX),
    decreases digits.len(),
{
    if digits.len() > 0 && is_digit(digits[0]) {
        let next = if positive {
            acc * 10 + digit_value(digits[0])
        } else {
            acc * 10 - digit_value(digits[0])
        };
        lemma_read_digits_in_range(digits.drop_first(), positive, next);
    }
}

/// Reading a digit after others continues from what the others gave.
proof fn lemma_read_digits_push(s: Seq<char>, c: char, positive: bool, acc: int)
    ensures
        read_digits(s.push(c), positive, acc) == (match read_digits(s, positive, acc) {
            Ok(a) => read_digits(seq![c], positive, a),
            Err(e) => Err(e),
        }),
    decreases s.len(),
{
    if s.len() == 0 {
        assert(s.push(c) =~= seq![c]);
    } else {
        assert(s.push(c).drop_first() =~= s.drop_first().push(c));
        assert(s.push(c)[0] == s[0]);
        if is_digit(s[0]) {
            let next = if positive {
                acc * 10 + digit_value(s[0])
            } else {
                acc * 10 - digit_value(s[0])
            };
            lemma_read_digits_push(s.drop_first(), c, positive, next);
        }
    }
}

/// The digit character of `d` is a digit of value `d`.
proof fn lemma_digit_char(d: int)
    requires
        0 <= d < 10,
    ensures
        is_digit(digit_char(d)),
        digit_value(digit_char(d)) == d,
{
    assert(((48 + d) as char) as int == 48 + d);
}

/// The decimal text of `n` reads back as `n`, added up when `positive` and
/// subtracted otherwise, while the result stays in `i32`.
proof fn lemma_nat_text_reads(n: nat, positive: bool)
    requires
        positive ==> n <= i32::MAX,
        !positive ==> n <= 0x8000_0000,
    ensures
        read_digits(nat_text(n), positive, 0) == Ok::<int, IntParseError>(if positive { n as int } else { -n }),
    decreases n,
{
    let goal: int = if positive { n as int } else { -n };
    if n < 10 {
        lemma_digit_char(n as int);
        assert(seq![digit_char(n as int)].drop_first() =~= Seq::<char>::empty());
        assert(read_digits(Seq::<char>::empty(), positive, goal) == Ok::<int, IntParseError>(goal));
    } else {
        lemma_nat_text_reads(n / 10, positive);
        lemma_digit_char((n % 10) as int);
        lemma_read_digits_push(nat_text(n / 10), digit_char((n % 10) as int), positive, 0);
        assert(seq![digit_char((n % 10) as int)].drop_first() =~= Seq::<char>::empty());
        assert((n / 10) * 10 + n % 10 == n);
        assert(read_digits(Seq::<char>::empty(), positive, goal) == Ok::<int, IntParseError>(goal));
    }
}

/// The decimal text of `n` is not empty and starts with a digit.
proof fn lemma_nat_text_starts_with_digit(n: nat)
    ensures
        nat_text(n).len() > 0,
        is_digit(nat_text(n)[0]),
    decreases n,
{
    if n < 10 {
        lemma_digit_char(n as int);
    } else {
        lemma_nat_text_starts_with_digit(n / 10);
    }
}

/// An integer's decimal text reads back as the integer.
pub proof fn law_int_text_reads_back(v: i32)
    ensures
        parse_int_spec(int_text(v as int)) == Ok::<int, IntParseError>(v as int),
{
    if v < 0 {
        let m = (-(v as int)) as nat;
        lemma_nat_text_reads(m, false);
        lemma_nat_text_starts_with_digit(m);
        let t = int_text(v as int);
        assert(t.drop_first() =~= nat_text(m));
        assert(t[0] == '-');
    } else {
        lemma_nat_text_reads(v as nat, true);
        lemma_nat_text_starts_with_digit(v as nat);
        assert(!is_digit('+') && !is_digit('-'));
    }
}

/// Parses `s` as the decimal text of an `i32`.
pub fn parse_int_chars(s: &[char]) -> (r: Result<i32, IntParseError>)
    ensures
        match r {
            Ok(v) => parse_int_spec(s@) == Ok::<int, IntParseError>(v as int),
            Err(e) => parse_int_spec(s@) == Err::<int, IntParseError>(e),
        },
{
    if s.len() == 0 {
        return Err(IntParseError::Empty);
    }
    if (s[0] == '+' || s[0] == '-') && s.len() == 1 {
        return Err(IntParseError::InvalidDigit);
    }
    let positive = s[0] != '-';
    let start: usize = if s[0] == '+' || s[0] == '-' { 1 } else { 0 };
    let ghost digits = s@.subrange(start as int, s@.len() as int);
    assert(parse_int_spec(s@) == read_digits(digits, positive, 0)) by {
        if start == 1 {
            assert(digits =~= s@.drop_first());
        } else {
            assert(digits =~= s@);
        }
    }
    let mut acc: i64 = 0;
    let mut i: usize = start;
    while i < s.len()
        invariant
            start <= i <= s.len(),
            i32::MIN <= acc <= i32::MAX,
            digits == s@.subrange(start as int, s@.len() as int),
            parse_int_spec(s@) == read_digits(digits, positive, 0),
            read_digits(digits, positive, 0) == read_digits(
                s@.subrange(i as int, s@.len() as int),
                positive,
                acc as int,
            ),
        decreases s.len() - i,
    {
        let c = s[i];
        let ghost rest = s@.subrange(i as int, s@.len() as int);
        assert(rest[0] == c);
        if !('0' <= c && c <= '9') {
            assert(read_digits(rest, positive, acc as int) == Err::<int, IntParseError>(IntParseError::InvalidDigit));
            return Err(IntParseError::InvalidDigit);
        }
        let d: i64 = (c as u32 - 48) as i64;
        assert(d == digit_value(c));
        let next: i64 = if positive {
            acc * 10 + d
        } else {
            acc * 10 - d
        };
        if next > i32::MAX as i64 {
            return Err(IntParseError::PosOverflow);
        }
        if next < i32::MIN as i64 {
            return Err(IntParseError::NegOverflow);
        }
        assert(rest.drop_first() =~= s@.subrange(i + 1, s@.len() as int));
        acc = next;
        i = i + 1;
    }
    assert(s@.subrange(i as int, s@.len() as int) =~= Seq::<char>::empty());
    Ok(acc as i32)
}

/// Parses `s` as the decimal text of an `i32`.
pub fn parse_int(s: &str) -> (r: Result<i32, IntParseError>)
    ensures
        match r {
            Ok(v) => parse_int_spec(s@) == Ok::<int, IntParseError>(v as int),
            Err(e) => parse_int_spec(s@) == Err::<int, IntParseError>(e),
        },
{
    let chars = chars_of(s);
    parse_int_chars(chars.as_slice())
}

impl IntParseError {
    /// The message that describes the error.
    pub fn message(&self) -> (r: String)
        ensures
            r@ == int_parse_error_text(*self),
    {
        match self {
            IntParseError::Empty => String::from_str("cannot parse integer from empty string"),
            IntParseError::InvalidDigit => String::from_str("invalid digit found in string"),
            IntParseError::PosOverflow => String::from_str("number too large to fit in target type"),
            IntParseError::NegOverflow => String::from_str("number too small to fit in target type"),
        }
    }
}

/// Message of an integer parse error.
pub open spec fn int_parse_error_text(e: IntParseError) -> Seq<char> {
    match e {
        IntParseError::Empty => "cannot parse integer from empty string"@,
        IntParseError::InvalidDigit => "invalid digit found in string"@,
        IntParseError::PosOverflow => "number too large to fit in target type"@,
        IntParseError::NegOverflow => "number too small to fit in target type"@,
    }
}

impl From<SbrdInt> for DataValue {
    fn from(v: SbrdInt) -> (r: Self) {
        DataValue::Int(v)
    }
}

impl vstd::std_specs::convert::FromSpecImpl<SbrdInt> for DataValue {
    open spec fn obeys_from_spec() -> bool {
        true
    }

    open spec fn from_spec(v: SbrdInt) -> Self {
        DataValue::Int(v)
    }
}

impl From<SbrdBool> for DataValue {
    fn from(v: SbrdBool) -> (r: Self) {
        DataValue::Bool(v)
    }
}

impl vstd::std_specs::convert::FromSpecImpl<SbrdBool> for DataValue {
    open spec fn obeys_from_spec() -> bool {
        true
    }

    open spec fn from_spec(v: SbrdBool) -> Self {
        DataValue::Bool(v)
    }
}

impl From<String> for DataValue {
    fn from(v: String) -> (r: Self) {
        DataValue::String(v)
    }
}

impl vstd::std_specs::convert::FromSpecImpl<String> for DataValue {
    open spec fn obeys_from_spec() -> bool {
        true
    }

    open spec fn from_spec(v: String) -> Self {
        DataValue::String(v)
    }
}

impl DataValue {
    /// A copy of this value.
    pub fn duplicate(&self) -> (r: DataValue)
        ensures
            r == *self,
    {
        match self {
            DataValue::Int(i) => DataValue::Int(*i),
            DataValue::Real(s) => DataValue::Real(s.clone()),
            DataValue::Bool(b) => DataValue::Bool(*b),
            DataValue::String(s) => DataValue::String(s.clone()),
            DataValue::Null => DataValue::Null,
        }
    }

    /// The text used when this value is joined with other texts: null gives the empty text.
    pub fn to_permutation_string(&self) -> (r: String)
        ensures
            r@ == value_text(*self),
    {
        self.to_parse_string()
    }

    /// The text used when this value is parsed as another type: null gives the empty text.
    pub fn to_parse_string(&self) -> (r: String)
        ensures
            r@ == value_text(*self),
    {
        match self {
            DataValue::Int(v) => int_to_string(*v),
            DataValue::Real(s) => s.clone(),
            DataValue::Bool(b) => {
                if *b {
                    String::from_str("true")
                } else {
                    String::from_str("false")
                }
            },
            DataValue::String(s) => s.clone(),
            DataValue::Null => String::new(),
        }
    }

    /// The text this value is displayed as: null shows as `null`.
    pub fn to_display_string(&self) -> (r: String)
        ensures
            r@ == display_text(*self),
    {
        match self {
            DataValue::Null => String::from_str("null"),
            _ => self.to_parse_string(),
        }
    }

    /// Whether this value is null.
    pub fn is_null(&self) -> (r: bool)
        ensures
            r == (*self is Null),
    {
        match self {
            DataValue::Null => true,
            _ => false,
        }
    }
}

} // verus!
