//! Values read from a word of text: strings, integers, booleans and characters,
//! each accepted on the same texts as the standard library's `str::parse`.

use vstd::prelude::*;

verus! {

/// Why a word is not a value of the requested type.
#[derive(Debug, Clone, Copy, PartialEq, Eq, Structural)]
pub enum ParseError {
    InvalidInteger,
    InvalidBool,
    InvalidChar,
}

/// A type whose values can be read from a text.
pub trait TryFromStr: Sized {
    /// The texts that are read as some value.
    spec fn parses(text: Seq<char>) -> bool;

    /// `value` is what `text` is read as.
    spec fn parses_as(text: Seq<char>, value: Self) -> bool;

    fn try_from(value: &str) -> (r: Result<Self, ParseError>)
        ensures
            r is Ok <==> Self::parses(value@),
            r matches Ok(v) ==> Self::parses_as(value@, v),
    ;
}

/// The single-word values: integers, booleans and characters. Each is read
/// from one word, and their optional and repeated forms follow one pattern.
pub trait ScalarValue: TryFromStr {

}

impl ScalarValue for u8 {

}

impl ScalarValue for u16 {

}

impl ScalarValue for u32 {

}

impl ScalarValue for u64 {

}

impl ScalarValue for u128 {

}

impl ScalarValue for usize {

}

impl ScalarValue for i8 {

}

impl ScalarValue for i16 {

}

impl ScalarValue for i32 {

}

impl ScalarValue for i64 {

}

impl ScalarValue for i128 {

}

impl ScalarValue for isize {

}

impl ScalarValue for bool {

}

impl ScalarValue for char {

}

pub open spec fn is_digit(c: char) -> bool {
    '0' <= c && c <= '9'
}

pub open spec fn digit_value(c: char) -> nat {
    (c as int - '0' as int) as nat
}

/// The number that a string of decimal digits writes.
pub open spec fn decimal_value(d: Seq<char>) -> nat
    decreases d.len(),
{
    if d.len() == 0 {
        0
    } else {
        decimal_value(d.drop_last()) * 10 + digit_value(d.last())
    }
}

/// A non-empty string of decimal digits, read as a number.
pub open spec fn digits_value(d: Seq<char>) -> Option<int> {
    if d.len() > 0 && (forall|i: int| 0 <= i < d.len() ==> is_digit(#[trigger] d[i])) {
        Some(decimal_value(d) as int)
    } else {
        None
    }
}

/// An integer written in decimal, with an optional `+` sign, or a `-` sign
/// where negative values are allowed.
pub open spec fn signed_value(s: Seq<char>, allow_minus: bool) -> Option<int> {
    if s.len() == 0 {
        None
    } else if s[0] == '+' {
        digits_value(s.drop_first())
    } else if s[0] == '-' && allow_minus {
        match digits_value(s.drop_first()) {
            Some(v) => Some(-v),
            None => None,
        }
    } else {
        digits_value(s)
    }
}

/// The integer that `s` writes, where it lies in `lo ..= hi`, as the
/// `FromStr` impls of the integer types read it (a `-` sign only when `lo < 0`).
pub open spec fn int_in_range(s: Seq<char>, lo: int, hi: int) -> Option<int> {
    match signed_value(s, lo < 0) {
        Some(v) => if lo <= v && v <= hi {
            Some(v)
        } else {
            None
        },
        None => None,
    }
}

pub open spec fn true_text() -> Seq<char> {
    seq!['t', 'r', 'u', 'e']
}

pub open spec fn false_text() -> Seq<char> {
    seq!['f', 'a', 'l', 's', 'e']
}

proof fn lemma_decimal_prefix_le(d: Seq<char>, j: int)
    requires
        0 <= j <= d.len(),
    ensures
        decimal_value(d.take(j)) <= decimal_value(d),
    decreases d.len(),
{
    if j < d.len() {
        lemma_decimal_prefix_le(d.drop_last(), j);
        assert(d.drop_last().take(j) =~= d.take(j));
    } else {
        assert(d.take(j) =~= d);
    }
}

/// The number written by the digits of `s` from `start` on, unless it does not fit in a `u128`.
fn parse_digits(s: &str, start: usize) -> (r: Option<u128>)
    requires
        start <= s@.len(),
    ensures
        r matches Some(m) ==> digits_value(s@.skip(start as int)) == Some(m as int),
        r is None ==> digits_value(s@.skip(start as int)) is None || digits_value(
            s@.skip(start as int),
        )->0 > u128::MAX,
{
    let n = s.unicode_len();
    if start == n {
        return None;
    }
    let ghost d = s@.skip(start as int);
    let mut acc: u128 = 0;
    let mut i: usize = start;
    while i < n
        invariant
            n == s@.len(),
            start <= i <= n,
            d == s@.skip(start as int),
            forall|k: int| 0 <= k < i - start ==> is_digit(#[trigger] d[k]),
            acc == decimal_value(d.take(i - start)),
        decreases n - i,
    {
        let c = s.get_char(i);
        assert(d[i - start] == c);
        if !('0' <= c && c <= '9') {
            return None;
        }
        let digit = (c as u32 - '0' as u32) as u128;
        let ghost next = d.take(i - start + 1);
        assert(next.drop_last() =~= d.take(i - start));
        assert(next.last() == c);
        let step = match acc.checked_mul(10) {
            Some(x) => x.checked_add(digit),
            None => None,
        };
        match step {
            Some(x) => {
                acc = x;
            },
            None => {
                proof {
                    if forall|k: int| 0 <= k < d.len() ==> is_digit(#[trigger] d[k]) {
                        lemma_decimal_prefix_le(d, i - start + 1);
                    }
                }
                return None;
            },
        }
        i = i + 1;
    }
    assert(d.take(n - start) =~= d);
    Some(acc)
}

/// The integer that `s` writes if it lies in `lo ..= hi`: its sign and magnitude.
fn parse_integer(s: &str, lo: i128, hi: u128) -> (r: Option<(bool, u128)>)
    requires
        lo <= 0,
    ensures
        match r {
            Some((neg, m)) => int_in_range(s@, lo as int, hi as int) == Some(
                if neg {
                    -(m as int)
                } else {
                    m as int
                },
            ),
            None => int_in_range(s@, lo as int, hi as int) is None,
        },
{
    let n = s.unicode_len();
    if n == 0 {
        return None;
    }
    let c0 = s.get_char(0);
    let (neg, start) = if c0 == '+' {
        (false, 1)
    } else if c0 == '-' && lo < 0 {
        (true, 1)
    } else {
        (false, 0)
    };
    assert(s@.skip(1) =~= s@.drop_first());
    assert(s@.skip(0) =~= s@);
    match parse_digits(s, start) {
        Some(m) => {
            if neg {
                let bound: u128 = ((-(lo + 1)) as u128) + 1;
                if m <= bound {
                    Some((true, m))
                } else {
                    None
                }
            } else {
                if m <= hi {
                    Some((false, m))
                } else {
                    None
                }
            }
        },
        None => None,
    }
}

/// The signed integer with the given sign and magnitude.
fn signed_from(neg: bool, m: u128) -> (r: i128)
    requires
        neg ==> m <= 0x8000_0000_0000_0000_0000_0000_0000_0000,
        !neg ==> m <= i128::MAX,
    ensures
        r == (if neg {
            -(m as int)
        } else {
            m as int
        }),
{
    if neg {
        if m == 0 {
            0
        } else {
            -((m - 1) as i128) - 1
        }
    } else {
        m as i128
    }
}

impl TryFromStr for String {
    open spec fn parses(text: Seq<char>) -> bool {
        true
    }

    open spec fn parses_as(text: Seq<char>, value: String) -> bool {
        value@ == text
    }

    fn try_from(value: &str) -> (r: Result<String, ParseError>) {
        Ok(String::from_str(value))
    }
}

impl TryFromStr for u8 {
    open spec fn parses(text: Seq<char>) -> bool {
        int_in_range(text, 0, u8::MAX as int) is Some
    }

    open spec fn parses_as(text: Seq<char>, value: u8) -> bool {
        int_in_range(text, 0, u8::MAX as int) == Some(value as int)
    }

    fn try_from(value: &str) -> (r: Result<u8, ParseError>) {
        match parse_integer(value, 0, u8::MAX as u128) {
            Some((_, m)) => Ok(m as u8),
            None => Err(ParseError::InvalidInteger),
        }
    }
}

impl TryFromStr for u16 {
    open spec fn parses(text: Seq<char>) -> bool {
        int_in_range(text, 0, u16::MAX as int) is Some
    }

    open spec fn parses_as(text: Seq<char>, value: u16) -> bool {
        int_in_range(text, 0, u16::MAX as int) == Some(value as int)
    }

    fn try_from(value: &str) -> (r: Result<u16, ParseError>) {
        match parse_integer(value, 0, u16::MAX as u128) {
            Some((_, m)) => Ok(m as u16),
            None => Err(ParseError::InvalidInteger),
        }
    }
}

impl TryFromStr for u32 {
    open spec fn parses(text: Seq<char>) -> bool {
        int_in_range(text, 0, u32::MAX as int) is Some
    }

    open spec fn parses_as(text: Seq<char>, value: u32) -> bool {
        int_in_range(text, 0, u32::MAX as int) == Some(value as int)
    }

    fn try_from(value: &str) -> (r: Result<u32, ParseError>) {
        match parse_integer(value, 0, u32::MAX as u128) {
            Some((_, m)) => Ok(m as u32),
            None => Err(ParseError::InvalidInteger),
        }
    }
}

impl TryFromStr for u64 {
    open spec fn parses(text: Seq<char>) -> bool {
        int_in_range(text, 0, u64::MAX as int) is Some
    }

    open spec fn parses_as(text: Seq<char>, value: u64) -> bool {
        int_in_range(text, 0, u64::MAX as int) == Some(value as int)
    }

    fn try_from(value: &str) -> (r: Result<u64, ParseError>) {
        match parse_integer(value, 0, u64::MAX as u128) {
            Some((_, m)) => Ok(m as u64),
            None => Err(ParseError::InvalidInteger),
        }
    }
}

impl TryFromStr for u128 {
    open spec fn parses(text: Seq<char>) -> bool {
        int_in_range(text, 0, u128::MAX as int) is Some
    }

    open spec fn parses_as(text: Seq<char>, value: u128) -> bool {
        int_in_range(text, 0, u128::MAX as int) == Some(value as int)
    }

    fn try_from(value: &str) -> (r: Result<u128, ParseError>) {
        match parse_integer(value, 0, u128::MAX) {
            Some((_, m)) => Ok(m),
            None => Err(ParseError::InvalidInteger),
        }
    }
}

impl TryFromStr for usize {
    open spec fn parses(text: Seq<char>) -> bool {
        int_in_range(text, 0, usize::MAX as int) is Some
    }

    open spec fn parses_as(text: Seq<char>, value: usize) -> bool {
        int_in_range(text, 0, usize::MAX as int) == Some(value as int)
    }

    fn try_from(value: &str) -> (r: Result<usize, ParseError>) {
        match parse_integer(value, 0, usize::MAX as u128) {
            Some((_, m)) => Ok(m as usize),
            None => Err(ParseError::InvalidInteger),
        }
    }
}

impl TryFromStr for i8 {
    open spec fn parses(text: Seq<char>) -> bool {
        int_in_range(text, i8::MIN as int, i8::MAX as int) is Some
    }

    open spec fn parses_as(text: Seq<char>, value: i8) -> bool {
        int_in_range(text, i8::MIN as int, i8::MAX as int) == Some(value as int)
    }

    fn try_from(value: &str) -> (r: Result<i8, ParseError>) {
        match parse_integer(value, i8::MIN as i128, i8::MAX as u128) {
            Some((neg, m)) => Ok(signed_from(neg, m) as i8),
            None => Err(ParseError::InvalidInteger),
        }
    }
}

impl TryFromStr for i16 {
    open spec fn parses(text: Seq<char>) -> bool {
        int_in_range(text, i16::MIN as int, i16::MAX as int) is Some
    }

    open spec fn parses_as(text: Seq<char>, value: i16) -> bool {
        int_in_range(text, i16::MIN as int, i16::MAX as int) == Some(value as int)
    }

    fn try_from(value: &str) -> (r: Result<i16, ParseError>) {
        match parse_integer(value, i16::MIN as i128, i16::MAX as u128) {
            Some((neg, m)) => Ok(signed_from(neg, m) as i16),
            None => Err(ParseError::InvalidInteger),
        }
    }
}

impl TryFromStr for i32 {
    open spec fn parses(text: Seq<char>) -> bool {
        int_in_range(text, i32::MIN as int, i32::MAX as int) is Some
    }

    open spec fn parses_as(text: Seq<char>, value: i32) -> bool {
        int_in_range(text, i32::MIN as int, i32::MAX as int) == Some(value as int)
    }

    fn try_from(value: &str) -> (r: Result<i32, ParseError>) {
        match parse_integer(value, i32::MIN as i128, i32::MAX as u128) {
            Some((neg, m)) => Ok(signed_from(neg, m) as i32),
            None => Err(ParseError::InvalidInteger),
        }
    }
}

impl TryFromStr for i64 {
    open spec fn parses(text: Seq<char>) -> bool {
        int_in_range(text, i64::MIN as int, i64::MAX as int) is Some
    }

    open spec fn parses_as(text: Seq<char>, value: i64) -> bool {
        int_in_range(text, i64::MIN as int, i64::MAX as int) == Some(value as int)
    }

    fn try_from(value: &str) -> (r: Result<i64, ParseError>) {
        match parse_integer(value, i64::MIN as i128, i64::MAX as u128) {
            Some((neg, m)) => Ok(signed_from(neg, m) as i64),
            None => Err(ParseError::InvalidInteger),
        }
    }
}

impl TryFromStr for i128 {
    open spec fn parses(text: Seq<char>) -> bool {
        int_in_range(text, i128::MIN as int, i128::MAX as int) is Some
    }

    open spec fn parses_as(text: Seq<char>, value: i128) -> bool {
        int_in_range(text, i128::MIN as int, i128::MAX as int) == Some(value as int)
    }

    fn try_from(value: &str) -> (r: Result<i128, ParseError>) {
        match parse_integer(value, i128::MIN, i128::MAX as u128) {
            Some((neg, m)) => Ok(signed_from(neg, m)),
            None => Err(ParseError::InvalidInteger),
        }
    }
}

impl TryFromStr for isize {
    open spec fn parses(text: Seq<char>) -> bool {
        int_in_range(text, isize::MIN as int, isize::MAX as int) is Some
    }

    open spec fn parses_as(text: Seq<char>, value: isize) -> bool {
        int_in_range(text, isize::MIN as int, isize::MAX as int) == Some(value as int)
    }

    fn try_from(value: &str) -> (r: Result<isize, ParseError>) {
        match parse_integer(value, isize::MIN as i128, isize::MAX as u128) {
            Some((neg, m)) => Ok(signed_from(neg, m) as isize),
            None => Err(ParseError::InvalidInteger),
        }
    }
}

impl TryFromStr for bool {
    open spec fn parses(text: Seq<char>) -> bool {
        text == true_text() || text == false_text()
    }

    open spec fn parses_as(text: Seq<char>, value: bool) -> bool {
        text == (if value {
            true_text()
        } else {
            false_text()
        })
    }

    fn try_from(value: &str) -> (r: Result<bool, ParseError>) {
        let n = value.unicode_len();
        if n == 4 && value.get_char(0) == 't' && value.get_char(1) == 'r' && value.get_char(2)
            == 'u' && value.get_char(3) == 'e' {
            assert(value@ =~= true_text());
            Ok(true)
        } else if n == 5 && value.get_char(0) == 'f' && value.get_char(1) == 'a'
            && value.get_char(2) == 'l' && value.get_char(3) == 's' && value.get_char(4) == 'e' {
            assert(value@ =~= false_text());
            Ok(false)
        } else {
            assert(value@ != true_text() && value@ != false_text()) by {
                if value@ == true_text() {
                    assert(value@[0] == 't' && value@[1] == 'r' && value@[2] == 'u' && value@[3]
                        == 'e');
                }
                if value@ == false_text() {
                    assert(value@[0] == 'f' && value@[1] == 'a' && value@[2] == 'l' && value@[3]
                        == 's' && value@[4] == 'e');
                }
            }
            Err(ParseError::InvalidBool)
        }
    }
}

impl TryFromStr for char {
    open spec fn parses(text: Seq<char>) -> bool {
        text.len() == 1
    }

    open spec fn parses_as(text: Seq<char>, value: char) -> bool {
        text == seq![value]
    }

    fn try_from(value: &str) -> (r: Result<char, ParseError>) {
        if value.unicode_len() == 1 {
            let c = value.get_char(0);
            assert(value@ =~= seq![c]);
            Ok(c)
        } else {
            Err(ParseError::InvalidChar)
        }
    }
}

/// The decimal digit character for `d < 10`.
pub open spec fn digit_char(d: nat) -> char {
    if d == 0 {
        '0'
    } else if d == 1 {
        '1'
    } else if d == 2 {
        '2'
    } else if d == 3 {
        '3'
    } else if d == 4 {
        '4'
    } else if d == 5 {
        '5'
    } else if d == 6 {
        '6'
    } else if d == 7 {
        '7'
    } else if d == 8 {
        '8'
    } else {
        '9'
    }
}

/// The shortest decimal writing of `n`.
pub open spec fn decimal_text(n: nat) -> Seq<char>
    decreases n,
{
    if n < 10 {
        seq![digit_char(n)]
    } else {
        decimal_text(n / 10).push(digit_char(n % 10))
    }
}

/// The decimal writing of `v`, with a `-` sign when it is negative.
pub open spec fn signed_decimal_text(v: int) -> Seq<char> {
    if v < 0 {
        seq!['-'] + decimal_text((-v) as nat)
    } else {
        decimal_text(v as nat)
    }
}

pub proof fn lemma_decimal_text(n: nat)
    ensures
        decimal_text(n).len() > 0,
        forall|i: int| 0 <= i < decimal_text(n).len() ==> is_digit(#[trigger] decimal_text(n)[i]),
        decimal_value(decimal_text(n)) == n,
    decreases n,
{
    if n < 10 {
        let t = decimal_text(n);
        assert(t.drop_last() =~= Seq::<char>::empty());
        assert(decimal_value(Seq::<char>::empty()) == 0);
        assert(digit_value(digit_char(n)) == n);
    } else {
        lemma_decimal_text(n / 10);
        let t = decimal_text(n);
        let u = decimal_text(n / 10);
        assert(t.drop_last() =~= u);
        assert(t.last() == digit_char(n % 10));
        assert(digit_value(digit_char(n % 10)) == n % 10);
        assert(n == (n / 10) * 10 + n % 10);
        assert forall|i: int| 0 <= i < t.len() implies is_digit(#[trigger] t[i]) by {
            if i < u.len() {
                assert(t[i] == u[i]);
            }
        }
    }
}

/// Every integer in `lo ..= hi` is read back from its own decimal writing.
pub proof fn lemma_int_reads_back(v: int, lo: int, hi: int)
    requires
        lo <= v <= hi,
        lo <= 0,
    ensures
        int_in_range(signed_decimal_text(v), lo, hi) == Some(v),
{
    if v < 0 {
        let d = decimal_text((-v) as nat);
        lemma_decimal_text((-v) as nat);
        let s = signed_decimal_text(v);
        assert(s[0] == '-');
        assert(s.drop_first() =~= d);
    } else {
        let d = decimal_text(v as nat);
        lemma_decimal_text(v as nat);
        assert(is_digit(d[0]));
    }
}

} // verus!
