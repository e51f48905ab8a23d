//! Reading the parts of a single token: a command prefix, then a value.

use vstd::prelude::*;

use crate::pattern::{compile_regex, regex_compiles, regex_is_match, regex_matches};
use crate::text::{starts_with, text_starts_with, trim, trimmed};
use crate::value::{ScalarValue, TryFromStr};

verus! {

/// One part of the shape of a token.
#[derive(Debug, Clone, PartialEq, Eq)]
pub enum TupleMatcherElement {
    Command(&'static str),
    Param,
    Enum(Vec<&'static str>),
}

/// The unread rest of a token.
#[derive(Debug, Clone, PartialEq, Eq)]
pub struct TupleMatcher(String);

impl View for TupleMatcher {
    type V = Seq<char>;

    closed spec fn view(&self) -> Seq<char> {
        self.0@
    }
}

impl TupleMatcher {
    pub fn new(context: String) -> (r: Self)
        ensures
            r@ == context@,
    {
        TupleMatcher(context)
    }

    /// Cuts `command` off the front of the token, if the token starts with it.
    pub fn match_command(&mut self, command: &str) -> (r: bool)
        ensures
            r == starts_with(old(self)@, command@),
            final(self)@ == (if r {
                old(self)@.skip(command@.len() as int)
            } else {
                old(self)@
            }),
    {
        if text_starts_with(self.0.as_str(), command) {
            let n = self.0.as_str().unicode_len();
            let k = command.unicode_len();
            let rest = String::from_str(self.0.as_str().substring_char(k, n));
            self.0 = rest;
            assert(old(self)@.subrange(k as int, n as int) =~= old(self)@.skip(k as int));
            true
        } else {
            false
        }
    }
}

/// A type whose values can be read from the rest of a token.
pub trait FromTupleMatcher: Sized {
    /// Reading from `before` gives `result` and leaves `after`.
    spec fn tuple_gets(before: Seq<char>, result: Option<Self>, after: Seq<char>) -> bool;

    fn get(matcher: &mut TupleMatcher) -> (r: Option<Self>)
        ensures
            Self::tuple_gets(old(matcher)@, r, final(matcher)@),
    ;
}

/// Reads a value of type `F` from the rest of the token.
pub fn tuple_matcher_get<F: FromTupleMatcher>(matcher: &mut TupleMatcher) -> (r: Option<F>)
    ensures
        F::tuple_gets(old(matcher)@, r, final(matcher)@),
{
    F::get(matcher)
}

/// The pattern that a token must contain to be read as a signed integer or a character.
pub open spec fn signed_pattern() -> Seq<char> {
    "-?\\d+"@
}

/// The pattern that a token must contain to be read as an unsigned integer.
pub open spec fn unsigned_pattern() -> Seq<char> {
    "\\d+"@
}

/// The pattern that a token must contain to be read as a boolean.
pub open spec fn bool_pattern() -> Seq<char> {
    "(true)|(false)"@
}

/// A single value is read from the whole token, provided the token contains a
/// match of `pattern`; the token is left as it was.
pub open spec fn scalar_tuple_gets<T: TryFromStr>(
    pattern: Seq<char>,
    before: Seq<char>,
    result: Option<T>,
    after: Seq<char>,
) -> bool {
    &&& after == before
    &&& (result is Some <==> (regex_compiles(pattern) && regex_is_match(pattern, before)
        && T::parses(before)))
    &&& (result matches Some(v) ==> T::parses_as(before, v))
}

/// Reads `text` as a value of type `T` when `found` holds.
pub fn read_if_found<T: TryFromStr>(found: bool, text: &str) -> (r: Option<T>)
    ensures
        r is Some <==> (found && T::parses(text@)),
        r matches Some(v) ==> T::parses_as(text@, v),
{
    if found {
        match T::try_from(text) {
            Ok(v) => Some(v),
            Err(_) => None,
        }
    } else {
        None
    }
}

fn tuple_get_scalar<T: TryFromStr>(matcher: &TupleMatcher, pattern: &str) -> (r: Option<T>)
    ensures
        scalar_tuple_gets(pattern@, matcher@, r, matcher@),
{
    let found = match compile_regex(pattern) {
        Ok(re) => regex_matches(&re, matcher.0.as_str()),
        Err(_) => false,
    };
    read_if_found(found, matcher.0.as_str())
}

/// The whole token, which is then used up; nothing from an empty token.
pub open spec fn whole_tuple_gets(before: Seq<char>, result: Option<String>, after: Seq<char>) -> bool {
    if before.len() == 0 {
        result is None && after == before
    } else {
        result matches Some(s) && s@ == before && after.len() == 0
    }
}

impl FromTupleMatcher for String {
    open spec fn tuple_gets(before: Seq<char>, result: Option<String>, after: Seq<char>) -> bool {
        whole_tuple_gets(before, result, after)
    }

    fn get(matcher: &mut TupleMatcher) -> (r: Option<String>) {
        if matcher.0.as_str().is_empty() {
            None
        } else {
            let result = matcher.0.clone();
            matcher.0 = String::new();
            Some(result)
        }
    }
}

impl FromTupleMatcher for Option<String> {
    open spec fn tuple_gets(before: Seq<char>, result: Option<Option<String>>, after: Seq<char>) -> bool {
        result matches Some(x) && whole_tuple_gets(before, x, after)
    }

    fn get(matcher: &mut TupleMatcher) -> (r: Option<Option<String>>) {
        Some(String::get(matcher))
    }
}

impl FromTupleMatcher for Vec<String> {
    open spec fn tuple_gets(before: Seq<char>, result: Option<Vec<String>>, after: Seq<char>) -> bool {
        &&& result matches Some(v)
        &&& if before.len() == 0 {
            v@.len() == 0 && after == before
        } else {
            v@.len() == 1 && v@[0]@ == before && after.len() == 0
        }
    }

    fn get(matcher: &mut TupleMatcher) -> (r: Option<Vec<String>>) {
        match String::get(matcher) {
            None => Some(Vec::new()),
            Some(s) => Some(vec![s]),
        }
    }
}

impl FromTupleMatcher for Vec<Option<String>> {
    open spec fn tuple_gets(before: Seq<char>, result: Option<Vec<Option<String>>>, after: Seq<char>) -> bool {
        &&& result matches Some(v)
        &&& if before.len() == 0 {
            v@.len() == 0 && after == before
        } else {
            v@.len() == 1 && after.len() == 0 && (v@[0] matches Some(s) && s@ == before)
        }
    }

    fn get(matcher: &mut TupleMatcher) -> (r: Option<Vec<Option<String>>>) {
        match String::get(matcher) {
            None => Some(Vec::new()),
            Some(s) => Some(vec![Some(s)]),
        }
    }
}

impl<T: ScalarValue + FromTupleMatcher> FromTupleMatcher for Option<T> {
    open spec fn tuple_gets(before: Seq<char>, result: Option<Option<T>>, after: Seq<char>) -> bool {
        result matches Some(x) && T::tuple_gets(before, x, after)
    }

    fn get(matcher: &mut TupleMatcher) -> (r: Option<Option<T>>) {
        Some(T::get(matcher))
    }
}

impl<T: ScalarValue + FromTupleMatcher> FromTupleMatcher for Vec<T> {
    open spec fn tuple_gets(before: Seq<char>, result: Option<Vec<T>>, after: Seq<char>) -> bool {
        &&& result matches Some(v)
        &&& ((v@.len() == 0 && T::tuple_gets(before, None, after)) || (v@.len() == 1
            && T::tuple_gets(before, Some(v@[0]), after)))
    }

    fn get(matcher: &mut TupleMatcher) -> (r: Option<Vec<T>>) {
        match T::get(matcher) {
            None => Some(Vec::new()),
            Some(value) => {
                let v = vec![value];
                assert(v@[0] == value);
                Some(v)
            },
        }
    }
}

impl FromTupleMatcher for u8 {
    open spec fn tuple_gets(before: Seq<char>, result: Option<u8>, after: Seq<char>) -> bool {
        scalar_tuple_gets(unsigned_pattern(), before, result, after)
    }

    fn get(matcher: &mut TupleMatcher) -> (r: Option<u8>) {
        tuple_get_scalar(matcher, "\\d+")
    }
}

impl FromTupleMatcher for u16 {
    open spec fn tuple_gets(before: Seq<char>, result: Option<u16>, after: Seq<char>) -> bool {
        scalar_tuple_gets(unsigned_pattern(), before, result, after)
    }

    fn get(matcher: &mut TupleMatcher) -> (r: Option<u16>) {
        tuple_get_scalar(matcher, "\\d+")
    }
}

impl FromTupleMatcher for u32 {
    open spec fn tuple_gets(before: Seq<char>, result: Option<u32>, after: Seq<char>) -> bool {
        scalar_tuple_gets(unsigned_pattern(), before, result, after)
    }

    fn get(matcher: &mut TupleMatcher) -> (r: Option<u32>) {
        tuple_get_scalar(matcher, "\\d+")
    }
}

impl FromTupleMatcher for u64 {
    open spec fn tuple_gets(before: Seq<char>, result: Option<u64>, after: Seq<char>) -> bool {
        scalar_tuple_gets(unsigned_pattern(), before, result, after)
    }

    fn get(matcher: &mut TupleMatcher) -> (r: Option<u64>) {
        tuple_get_scalar(matcher, "\\d+")
    }
}

impl FromTupleMatcher for u128 {
    open spec fn tuple_gets(before: Seq<char>, result: Option<u128>, after: Seq<char>) -> bool {
        scalar_tuple_gets(unsigned_pattern(), before, result, after)
    }

    fn get(matcher: &mut TupleMatcher) -> (r: Option<u128>) {
        tuple_get_scalar(matcher, "\\d+")
    }
}

impl FromTupleMatcher for usize {
    open spec fn tuple_gets(before: Seq<char>, result: Option<usize>, after: Seq<char>) -> bool {
        scalar_tuple_gets(unsigned_pattern(), before, result, after)
    }

    fn get(matcher: &mut TupleMatcher) -> (r: Option<usize>) {
        tuple_get_scalar(matcher, "\\d+")
    }
}

impl FromTupleMatcher for i8 {
    open spec fn tuple_gets(before: Seq<char>, result: Option<i8>, after: Seq<char>) -> bool {
        scalar_tuple_gets(signed_pattern(), before, result, after)
    }

    fn get(matcher: &mut TupleMatcher) -> (r: Option<i8>) {
        tuple_get_scalar(matcher, "-?\\d+")
    }
}

impl FromTupleMatcher for i16 {
    open spec fn tuple_gets(before: Seq<char>, result: Option<i16>, after: Seq<char>) -> bool {
        scalar_tuple_gets(signed_pattern(), before, result, after)
    }

    fn get(matcher: &mut TupleMatcher) -> (r: Option<i16>) {
        tuple_get_scalar(matcher, "-?\\d+")
    }
}

impl FromTupleMatcher for i32 {
    open spec fn tuple_gets(before: Seq<char>, result: Option<i32>, after: Seq<char>) -> bool {
        scalar_tuple_gets(signed_pattern(), before, result, after)
    }

    fn get(matcher: &mut TupleMatcher) -> (r: Option<i32>) {
        tuple_get_scalar(matcher, "-?\\d+")
    }
}

impl FromTupleMatcher for i64 {
    open spec fn tuple_gets(before: Seq<char>, result: Option<i64>, after: Seq<char>) -> bool {
        scalar_tuple_gets(signed_pattern(), before, result, after)
    }

    fn get(matcher: &mut TupleMatcher) -> (r: Option<i64>) {
        tuple_get_scalar(matcher, "-?\\d+")
    }
}

impl FromTupleMatcher for i128 {
    open spec fn tuple_gets(before: Seq<char>, result: Option<i128>, after: Seq<char>) -> bool {
        scalar_tuple_gets(signed_pattern(), before, result, after)
    }

    fn get(matcher: &mut TupleMatcher) -> (r: Option<i128>) {
        tuple_get_scalar(matcher, "-?\\d+")
    }
}

impl FromTupleMatcher for isize {
    open spec fn tuple_gets(before: Seq<char>, result: Option<isize>, after: Seq<char>) -> bool {
        scalar_tuple_gets(signed_pattern(), before, result, after)
    }

    fn get(matcher: &mut TupleMatcher) -> (r: Option<isize>) {
        tuple_get_scalar(matcher, "-?\\d+")
    }
}

impl FromTupleMatcher for char {
    open spec fn tuple_gets(before: Seq<char>, result: Option<char>, after: Seq<char>) -> bool {
        scalar_tuple_gets(signed_pattern(), before, result, after)
    }

    fn get(matcher: &mut TupleMatcher) -> (r: Option<char>) {
        tuple_get_scalar(matcher, "-?\\d+")
    }
}

impl FromTupleMatcher for bool {
    open spec fn tuple_gets(before: Seq<char>, result: Option<bool>, after: Seq<char>) -> bool {
        scalar_tuple_gets(bool_pattern(), before, result, after)
    }

    fn get(matcher: &mut TupleMatcher) -> (r: Option<bool>) {
        tuple_get_scalar(matcher, "(true)|(false)")
    }
}

/// Reads one of the listed words from the front of the token: the first word
/// of `values` that the token starts with is read as a value of type `F`; on
/// success it is cut off and the rest trimmed. Nothing is read from an empty
/// token, nor when no listed word starts it.
pub fn tuple_matcher_get_enum<F: TryFromStr>(matcher: &mut TupleMatcher, values: Vec<&str>) -> (r:
    Option<F>)
    ensures
        old(matcher)@.len() == 0 ==> r is None && final(matcher)@ == old(matcher)@,
        (forall|j: int| 0 <= j < values@.len() ==> !starts_with(old(matcher)@, #[trigger] values@[j]@))
            ==> r is None && final(matcher)@ == old(matcher)@,
        forall|k: int|
            #![trigger values@[k]]
            0 <= k < values@.len() && old(matcher)@.len() > 0 && starts_with(
                old(matcher)@,
                values@[k]@,
            ) && (forall|j: int| 0 <= j < k ==> !starts_with(old(matcher)@, #[trigger] values@[j]@))
                ==> {
                &&& (r is Some <==> F::parses(values@[k]@))
                &&& (r matches Some(v) ==> F::parses_as(values@[k]@, v) && final(matcher)@
                    == trimmed(old(matcher)@.skip(values@[k]@.len() as int)))
                &&& (r is None ==> final(matcher)@ == old(matcher)@)
            },
{
    if matcher.0.as_str().is_empty() {
        return None;
    }
    let mut i: usize = 0;
    while i < values.len()
        invariant
            i <= values@.len(),
            matcher@ == old(matcher)@,
            old(matcher)@.len() > 0,
            forall|j: int| 0 <= j < i ==> !starts_with(old(matcher)@, #[trigger] values@[j]@),
        decreases values@.len() - i,
    {
        let x = values[i];
        if text_starts_with(matcher.0.as_str(), x) {
            return match F::try_from(x) {
                Ok(value) => {
                    let n = matcher.0.as_str().unicode_len();
                    let k = x.unicode_len();
                    let rest = String::from_str(trim(matcher.0.as_str().substring_char(k, n)));
                    assert(old(matcher)@.subrange(k as int, n as int) =~= old(matcher)@.skip(
                        k as int,
                    ));
                    matcher.0 = rest;
                    Some(value)
                },
                Err(_) => None,
            };
        }
        i = i + 1;
    }
    None
}

} // verus!
