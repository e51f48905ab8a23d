//! Properties that hold of the library as a whole.

use vstd::prelude::*;

use crate::command_matcher::{
    accepts, gather_end, gathered_text, is_gathered, lemma_gather_end_bounds, parsed_prefix_len,
    take_run, word_gets, words_gets, CommandMatcher, ElementKind, FromCommandMatcher,
    MessageElement,
};
use crate::event::{eval_all, eval_any, eval_arg, EventArg};
use crate::pattern::{regex_compiles, regex_is_match};
use crate::text::{
    first_word, is_trimmed, is_white_space, join_with_space, lemma_join_ends, lemma_run_len_is,
    lemma_split_white_pieces, lemma_trimmed_is_trimmed, lemma_trimmed_of_trimmed,
    rest_after_first_word, run_len, split_white, starts_with, trimmed,
};
use crate::tuple_matcher::{whole_tuple_gets, FromTupleMatcher};
use crate::value::{
    decimal_text, int_in_range, is_digit, lemma_decimal_text, lemma_int_reads_back,
    signed_decimal_text, TryFromStr,
};

verus! {

/// With no conditions at all, "all" and "not" hold and "any" fails, whatever the text.
pub proof fn law_empty_conditions(v: Vec<EventArg>, text: Seq<char>)
    requires
        v@.len() == 0,
    ensures
        eval_arg(EventArg::All(v), text) == Ok::<bool, Seq<char>>(true),
        eval_arg(EventArg::Any(v), text) == Ok::<bool, Seq<char>>(false),
        eval_arg(EventArg::Not(v), text) == Ok::<bool, Seq<char>>(true),
{
}

/// When no condition errs, "all" holds exactly when every condition holds.
pub proof fn law_all_holds_iff_every(args: Seq<EventArg>, text: Seq<char>)
    requires
        forall|i: int| 0 <= i < args.len() ==> (#[trigger] eval_arg(args[i], text)) is Ok,
    ensures
        eval_all(args, text) == Ok::<bool, Seq<char>>(
            forall|i: int| 0 <= i < args.len() ==> #[trigger] eval_arg(args[i], text) == Ok::<
                bool,
                Seq<char>,
            >(true),
        ),
    decreases args.len(),
{
    if args.len() > 0 {
        let t = args.drop_first();
        assert forall|i: int| 0 <= i < t.len() implies (#[trigger] eval_arg(t[i], text)) is Ok by {
            assert(t[i] == args[i + 1]);
            assert(eval_arg(args[i + 1], text) is Ok);
        }
        law_all_holds_iff_every(t, text);
        assert(eval_arg(args[0], text) is Ok);
        if eval_arg(args[0], text) == Ok::<bool, Seq<char>>(true) {
            if forall|i: int| 0 <= i < t.len() ==> #[trigger] eval_arg(t[i], text) == Ok::<
                bool,
                Seq<char>,
            >(true) {
                assert forall|i: int| 0 <= i < args.len() implies #[trigger] eval_arg(args[i], text)
                    == Ok::<bool, Seq<char>>(true) by {
                    if i > 0 {
                        assert(args[i] == t[i - 1]);
                    }
                }
            } else {
                let i = choose|i: int|
                    0 <= i < t.len() && !(#[trigger] eval_arg(t[i], text) == Ok::<bool, Seq<char>>(
                        true,
                    ));
                assert(args[i + 1] == t[i]);
                assert(!(eval_arg(args[i + 1], text) == Ok::<bool, Seq<char>>(true)));
            }
        }
    }
}

/// When no condition errs, "any" holds exactly when some condition holds.
pub proof fn law_any_holds_iff_some(args: Seq<EventArg>, text: Seq<char>)
    requires
        forall|i: int| 0 <= i < args.len() ==> (#[trigger] eval_arg(args[i], text)) is Ok,
    ensures
        eval_any(args, text) == Ok::<bool, Seq<char>>(
            exists|i: int| 0 <= i < args.len() && #[trigger] eval_arg(args[i], text) == Ok::<
                bool,
                Seq<char>,
            >(true),
        ),
    decreases args.len(),
{
    if args.len() > 0 {
        let t = args.drop_first();
        assert forall|i: int| 0 <= i < t.len() implies (#[trigger] eval_arg(t[i], text)) is Ok by {
            assert(t[i] == args[i + 1]);
            assert(eval_arg(args[i + 1], text) is Ok);
        }
        law_any_holds_iff_some(t, text);
        assert(eval_arg(args[0], text) is Ok);
        if eval_arg(args[0], text) == Ok::<bool, Seq<char>>(false) {
            if exists|i: int| 0 <= i < t.len() && #[trigger] eval_arg(t[i], text) == Ok::<
                bool,
                Seq<char>,
            >(true) {
                let i = choose|i: int|
                    0 <= i < t.len() && #[trigger] eval_arg(t[i], text) == Ok::<bool, Seq<char>>(
                        true,
                    );
                assert(args[i + 1] == t[i]);
                assert(eval_arg(args[i + 1], text) == Ok::<bool, Seq<char>>(true));
            } else {
                assert forall|i: int| 0 <= i < args.len() implies !(#[trigger] eval_arg(
                    args[i],
                    text,
                ) == Ok::<bool, Seq<char>>(true)) by {
                    if i > 0 {
                        assert(args[i] == t[i - 1]);
                    }
                }
            }
        } else {
            assert(eval_arg(args[0], text) == Ok::<bool, Seq<char>>(true));
        }
    }
}

/// "Not" is the negation of "any" over the same conditions, and errs where it errs.
pub proof fn law_not_negates_any(v: Vec<EventArg>, text: Seq<char>)
    ensures
        eval_arg(EventArg::Not(v), text) == match eval_arg(EventArg::Any(v), text) {
            Ok(b) => Ok::<bool, Seq<char>>(!b),
            Err(p) => Err(p),
        },
{
}

/// Cutting a command off a token that starts with it leaves exactly what followed.
pub proof fn law_command_prefix_cut(command: Seq<char>, rest: Seq<char>)
    ensures
        starts_with(command + rest, command),
        (command + rest).skip(command.len() as int) == rest,
{
    assert((command + rest).take(command.len() as int) =~= command);
    assert((command + rest).skip(command.len() as int) =~= rest);
}

/// A token is read as a whole at most once: a second read finds nothing.
pub proof fn law_whole_token_read_once(
    before: Seq<char>,
    first: Option<String>,
    middle: Seq<char>,
    second: Option<String>,
    after: Seq<char>,
)
    requires
        whole_tuple_gets(before, first, middle),
        whole_tuple_gets(middle, second, after),
    ensures
        second is None,
        after.len() == 0,
{
}

/// Gathered text is trimmed: a new reader, and a reader that has just taken
/// an element, hold trimmed pending text.
pub proof fn law_gathered_text_trimmed(elems: Seq<MessageElement>, i: nat, m: Seq<char>)
    ensures
        is_trimmed(gathered_text(elems, i, m)),
{
    lemma_trimmed_is_trimmed(m + crate::command_matcher::texts_between(
        elems,
        i,
        crate::command_matcher::gather_end(elems, i),
    ));
}

/// What is left after the first word is cut off is trimmed: reading a
/// command, a token, a word value or a listed word leaves trimmed text.
pub proof fn law_rest_after_word_trimmed(m: Seq<char>)
    ensures
        is_trimmed(rest_after_first_word(m)),
{
    lemma_trimmed_is_trimmed(m.skip(crate::text::run_len(m, false) as int));
}

/// Reading one word value from trimmed pending text leaves it trimmed.
pub proof fn law_word_read_keeps_trimmed<T: TryFromStr>(
    before: CommandMatcher,
    result: Option<T>,
    after: CommandMatcher,
)
    requires
        is_trimmed(before.matching@),
        word_gets(before, result, after),
    ensures
        is_trimmed(after.matching@),
{
    law_rest_after_word_trimmed(before.matching@);
}

proof fn lemma_parsed_prefix_len_bound<T: TryFromStr>(pieces: Seq<Seq<char>>)
    ensures
        parsed_prefix_len::<T>(pieces) <= pieces.len(),
    decreases pieces.len(),
{
    if pieces.len() > 0 && T::parses(pieces[0]) {
        lemma_parsed_prefix_len_bound::<T>(pieces.drop_first());
    }
}

/// Reading leading word values from trimmed pending text leaves it trimmed:
/// the words left over, joined with single spaces, have no white space at
/// either end.
pub proof fn law_words_read_keeps_trimmed<T: TryFromStr>(
    before: CommandMatcher,
    result: Option<Vec<T>>,
    after: CommandMatcher,
)
    requires
        is_trimmed(before.matching@),
        words_gets(before, result, after),
    ensures
        is_trimmed(after.matching@),
{
    let m = before.matching@;
    let pieces = split_white(m);
    let k = parsed_prefix_len::<T>(pieces);
    lemma_parsed_prefix_len_bound::<T>(pieces);
    lemma_split_white_pieces(m);
    if m.len() > 0 && k > 0 && k < pieces.len() {
        let q = pieces.skip(k as int);
        assert(q[0] == pieces[k as int]);
        assert(q.last() == pieces.last());
        assert(q[0].len() > 0);
        lemma_join_ends(q);
        assert(!crate::text::is_white_space(pieces[k as int][0]));
        assert(!crate::text::is_white_space(pieces.last()[pieces.last().len() - 1]));
    }
    if m.len() > 0 && k > 0 && k >= pieces.len() {
        assert(pieces.skip(k as int) =~= Seq::<Seq<char>>::empty());
    }
}

/// Taking a run of elements from trimmed pending text leaves it trimmed.
pub proof fn law_taking_elements_keeps_trimmed(
    elems: Seq<MessageElement>,
    kinds: Seq<ElementKind>,
    i: nat,
    m: Seq<char>,
)
    requires
        is_trimmed(m),
    ensures
        is_trimmed(take_run(elems, kinds, i, m).2),
    decreases elems.len() - i,
{
    if i < elems.len() && accepts(kinds, elems[i as int]) {
        lemma_gather_end_bounds(elems, i + 1);
        law_gathered_text_trimmed(elems, i + 1, m);
        law_taking_elements_keeps_trimmed(
            elems,
            kinds,
            crate::command_matcher::gather_end(elems, i + 1),
            gathered_text(elems, i + 1, m),
        );
    }
}

/// The equality condition holds exactly when the text equals the string (a
/// text that merely starts with it, or contains it, does not satisfy it);
/// the trimmed form compares the trimmed text, and neither ever errs.
pub proof fn law_equality_conditions(s: String, text: Seq<char>)
    ensures
        eval_arg(EventArg::Eq(s), text) == Ok::<bool, Seq<char>>(s@ == text),
        eval_arg(EventArg::Eq(s), text) == Ok::<bool, Seq<char>>(s@.len() == text.len() && forall|i: int|
            0 <= i < text.len() ==> s@[i] == #[trigger] text[i]),
        eval_arg(EventArg::TrimEq(s), text) == eval_arg(EventArg::Eq(s), trimmed(text)),
{
    if s@.len() == text.len() && forall|i: int| 0 <= i < text.len() ==> s@[i] == #[trigger] text[i] {
        assert(s@ =~= text);
    }
}

/// A regular-expression condition errs exactly when its pattern does not
/// compile, naming the pattern; otherwise it holds exactly when the pattern
/// matches somewhere in the text. The trimmed form searches the trimmed text.
pub proof fn law_regex_conditions(p: String, text: Seq<char>)
    ensures
        (eval_arg(EventArg::Regexp(p), text) is Err) <==> !regex_compiles(p@),
        eval_arg(EventArg::Regexp(p), text) matches Err(q) ==> q == p@,
        eval_arg(EventArg::Regexp(p), text) matches Ok(b) ==> b == regex_is_match(p@, text),
        eval_arg(EventArg::TrimRegexp(p), text) == eval_arg(EventArg::Regexp(p), trimmed(text)),
{
}

/// Gathering text stops exactly at the first element of a known kind: text
/// and passed-over elements are gathered, an element of any known kind never is.
pub proof fn law_gathering_stops_exactly_at_items(elems: Seq<MessageElement>, i: nat)
    requires
        i <= elems.len(),
    ensures
        forall|k: ElementKind| !#[trigger] is_gathered(MessageElement::Item(k)),
        i <= gather_end(elems, i) <= elems.len(),
        forall|j: int| i <= j < gather_end(elems, i) ==> !((#[trigger] elems[j]) is Item),
        gather_end(elems, i) < elems.len() ==> elems[gather_end(elems, i) as int] is Item,
{
    lemma_gather_end_bounds(elems, i);
    assert forall|j: int| i <= j < gather_end(elems, i) implies !((#[trigger] elems[j]) is Item) by {
        assert(is_gathered(elems[j]));
    }
}

/// The only ASCII white-space characters are space, tab, line feed, vertical
/// tab, form feed and carriage return.
pub proof fn law_ascii_white_space(c: char)
    requires
        c <= '\u{7f}',
    ensures
        is_white_space(c) <==> (c == ' ' || c == '\t' || c == '\n' || c == '\u{b}' || c == '\u{c}'
            || c == '\r'),
{
}

/// Beyond ASCII, white space is exactly: next line, no-break space, ogham
/// space mark, the spaces U+2000 to U+200A, line and paragraph separator,
/// narrow no-break space, medium mathematical space and ideographic space.
pub proof fn law_non_ascii_white_space(c: char)
    requires
        c > '\u{7f}',
    ensures
        is_white_space(c) <==> (c == '\u{85}' || c == '\u{a0}' || c == '\u{1680}' || ('\u{2000}'
            <= c && c <= '\u{200a}') || c == '\u{2028}' || c == '\u{2029}' || c == '\u{202f}' || c
            == '\u{205f}' || c == '\u{3000}'),
{
}

proof fn lemma_spaceless_is_one_word(s: Seq<char>)
    requires
        forall|i: int| 0 <= i < s.len() ==> !is_white_space(#[trigger] s[i]),
    ensures
        run_len(s, false) == s.len(),
        first_word(s) == s,
        split_white(s) == seq![s],
        rest_after_first_word(s).len() == 0,
{
    lemma_run_len_is(s, false, s.len() as int);
    assert(s.take(s.len() as int) =~= s);
    assert(s.skip(s.len() as int) =~= Seq::<char>::empty());
    lemma_trimmed_of_trimmed(Seq::<char>::empty());
}

/// Only white space separates words: a text of printable ASCII characters
/// other than the space (letters, digits, punctuation such as `,` or `.`)
/// is a single word, and splitting gives it back whole.
pub proof fn law_printable_text_is_one_word(s: Seq<char>)
    requires
        forall|i: int| 0 <= i < s.len() ==> '!' <= #[trigger] s[i] && s[i] <= '~',
    ensures
        first_word(s) == s,
        split_white(s) == seq![s],
        rest_after_first_word(s).len() == 0,
{
    lemma_spaceless_is_one_word(s);
}

proof fn lemma_signed_text_spaceless(v: int)
    ensures
        signed_decimal_text(v).len() > 0,
        forall|i: int|
            0 <= i < signed_decimal_text(v).len() ==> !is_white_space(
                #[trigger] signed_decimal_text(v)[i],
            ),
{
    let t = signed_decimal_text(v);
    if v < 0 {
        let d = decimal_text((-v) as nat);
        lemma_decimal_text((-v) as nat);
        assert forall|i: int| 0 <= i < t.len() implies !is_white_space(#[trigger] t[i]) by {
            if i > 0 {
                assert(t[i] == d[i - 1]);
                assert(is_digit(d[i - 1]));
            }
        }
    } else {
        lemma_decimal_text(v as nat);
        assert forall|i: int| 0 <= i < t.len() implies !is_white_space(#[trigger] t[i]) by {
            assert(is_digit(t[i]));
        }
    }
}

/// Every `u8` is read back from its own decimal writing (with a `-` sign when negative).
pub proof fn law_u8_reads_back(v: u8)
    ensures
        <u8 as TryFromStr>::parses(signed_decimal_text(v as int)),
        <u8 as TryFromStr>::parses_as(signed_decimal_text(v as int), v),
{
    lemma_int_reads_back(v as int, 0, u8::MAX as int);
}

/// A reader whose pending text is the decimal writing of a `u8` reads that
/// value back as a `u8` argument, and nothing is left pending.
pub proof fn law_command_u8_reads_back(v: u8, before: CommandMatcher, r: Option<u8>, after: CommandMatcher)
    requires
        before.matching@ == signed_decimal_text(v as int),
        <u8 as FromCommandMatcher>::command_gets(before, r, after),
    ensures
        r == Some(v),
        after.matching@.len() == 0,
        after.idx == before.idx,
{
    lemma_int_reads_back(v as int, 0, u8::MAX as int);
    lemma_signed_text_spaceless(v as int);
    lemma_spaceless_is_one_word(signed_decimal_text(v as int));
}

/// Every `u16` is read back from its own decimal writing (with a `-` sign when negative).
pub proof fn law_u16_reads_back(v: u16)
    ensures
        <u16 as TryFromStr>::parses(signed_decimal_text(v as int)),
        <u16 as TryFromStr>::parses_as(signed_decimal_text(v as int), v),
{
    lemma_int_reads_back(v as int, 0, u16::MAX as int);
}

/// A reader whose pending text is the decimal writing of a `u16` reads that
/// value back as a `u16` argument, and nothing is left pending.
pub proof fn law_command_u16_reads_back(v: u16, before: CommandMatcher, r: Option<u16>, after: CommandMatcher)
    requires
        before.matching@ == signed_decimal_text(v as int),
        <u16 as FromCommandMatcher>::command_gets(before, r, after),
    ensures
        r == Some(v),
        after.matching@.len() == 0,
        after.idx == before.idx,
{
    lemma_int_reads_back(v as int, 0, u16::MAX as int);
    lemma_signed_text_spaceless(v as int);
    lemma_spaceless_is_one_word(signed_decimal_text(v as int));
}

/// Every `u32` is read back from its own decimal writing (with a `-` sign when negative).
pub proof fn law_u32_reads_back(v: u32)
    ensures
        <u32 as TryFromStr>::parses(signed_decimal_text(v as int)),
        <u32 as TryFromStr>::parses_as(signed_decimal_text(v as int), v),
{
    lemma_int_reads_back(v as int, 0, u32::MAX as int);
}

/// A reader whose pending text is the decimal writing of a `u32` reads that
/// value back as a `u32` argument, and nothing is left pending.
pub proof fn law_command_u32_reads_back(v: u32, before: CommandMatcher, r: Option<u32>, after: CommandMatcher)
    requires
        before.matching@ == signed_decimal_text(v as int),
        <u32 as FromCommandMatcher>::command_gets(before, r, after),
    ensures
        r == Some(v),
        after.matching@.len() == 0,
        after.idx == before.idx,
{
    lemma_int_reads_back(v as int, 0, u32::MAX as int);
    lemma_signed_text_spaceless(v as int);
    lemma_spaceless_is_one_word(signed_decimal_text(v as int));
}

/// Every `u64` is read back from its own decimal writing (with a `-` sign when negative).
pub proof fn law_u64_reads_back(v: u64)
    ensures
        <u64 as TryFromStr>::parses(signed_decimal_text(v as int)),
        <u64 as TryFromStr>::parses_as(signed_decimal_text(v as int), v),
{
    lemma_int_reads_back(v as int, 0, u64::MAX as int);
}

/// A reader whose pending text is the decimal writing of a `u64` reads that
/// value back as a `u64` argument, and nothing is left pending.
pub proof fn law_command_u64_reads_back(v: u64, before: CommandMatcher, r: Option<u64>, after: CommandMatcher)
    requires
        before.matching@ == signed_decimal_text(v as int),
        <u64 as FromCommandMatcher>::command_gets(before, r, after),
    ensures
        r == Some(v),
        after.matching@.len() == 0,
        after.idx == before.idx,
{
    lemma_int_reads_back(v as int, 0, u64::MAX as int);
    lemma_signed_text_spaceless(v as int);
    lemma_spaceless_is_one_word(signed_decimal_text(v as int));
}

/// Every `u128` is read back from its own decimal writing (with a `-` sign when negative).
pub proof fn law_u128_reads_back(v: u128)
    ensures
        <u128 as TryFromStr>::parses(signed_decimal_text(v as int)),
        <u128 as TryFromStr>::parses_as(signed_decimal_text(v as int), v),
{
    lemma_int_reads_back(v as int, 0, u128::MAX as int);
}

/// A reader whose pending text is the decimal writing of a `u128` reads that
/// value back as a `u128` argument, and nothing is left pending.
pub proof fn law_command_u128_reads_back(v: u128, before: CommandMatcher, r: Option<u128>, after: CommandMatcher)
    requires
        before.matching@ == signed_decimal_text(v as int),
        <u128 as FromCommandMatcher>::command_gets(before, r, after),
    ensures
        r == Some(v),
        after.matching@.len() == 0,
        after.idx == before.idx,
{
    lemma_int_reads_back(v as int, 0, u128::MAX as int);
    lemma_signed_text_spaceless(v as int);
    lemma_spaceless_is_one_word(signed_decimal_text(v as int));
}

/// Every `usize` is read back from its own decimal writing (with a `-` sign when negative).
pub proof fn law_usize_reads_back(v: usize)
    ensures
        <usize as TryFromStr>::parses(signed_decimal_text(v as int)),
        <usize as TryFromStr>::parses_as(signed_decimal_text(v as int), v),
{
    lemma_int_reads_back(v as int, 0, usize::MAX as int);
}

/// A reader whose pending text is the decimal writing of a `usize` reads that
/// value back as a `usize` argument, and nothing is left pending.
pub proof fn law_command_usize_reads_back(v: usize, before: CommandMatcher, r: Option<usize>, after: CommandMatcher)
    requires
        before.matching@ == signed_decimal_text(v as int),
        <usize as FromCommandMatcher>::command_gets(before, r, after),
    ensures
        r == Some(v),
        after.matching@.len() == 0,
        after.idx == before.idx,
{
    lemma_int_reads_back(v as int, 0, usize::MAX as int);
    lemma_signed_text_spaceless(v as int);
    lemma_spaceless_is_one_word(signed_decimal_text(v as int));
}

/// Every `i8` is read back from its own decimal writing (with a `-` sign when negative).
pub proof fn law_i8_reads_back(v: i8)
    ensures
        <i8 as TryFromStr>::parses(signed_decimal_text(v as int)),
        <i8 as TryFromStr>::parses_as(signed_decimal_text(v as int), v),
{
    lemma_int_reads_back(v as int, i8::MIN as int, i8::MAX as int);
}

/// A reader whose pending text is the decimal writing of a `i8` reads that
/// value back as a `i8` argument, and nothing is left pending.
pub proof fn law_command_i8_reads_back(v: i8, before: CommandMatcher, r: Option<i8>, after: CommandMatcher)
    requires
        before.matching@ == signed_decimal_text(v as int),
        <i8 as FromCommandMatcher>::command_gets(before, r, after),
    ensures
        r == Some(v),
        after.matching@.len() == 0,
        after.idx == before.idx,
{
    lemma_int_reads_back(v as int, i8::MIN as int, i8::MAX as int);
    lemma_signed_text_spaceless(v as int);
    lemma_spaceless_is_one_word(signed_decimal_text(v as int));
}

/// Every `i16` is read back from its own decimal writing (with a `-` sign when negative).
pub proof fn law_i16_reads_back(v: i16)
    ensures
        <i16 as TryFromStr>::parses(signed_decimal_text(v as int)),
        <i16 as TryFromStr>::parses_as(signed_decimal_text(v as int), v),
{
    lemma_int_reads_back(v as int, i16::MIN as int, i16::MAX as int);
}

/// A reader whose pending text is the decimal writing of a `i16` reads that
/// value back as a `i16` argument, and nothing is left pending.
pub proof fn law_command_i16_reads_back(v: i16, before: CommandMatcher, r: Option<i16>, after: CommandMatcher)
    requires
        before.matching@ == signed_decimal_text(v as int),
        <i16 as FromCommandMatcher>::command_gets(before, r, after),
    ensures
        r == Some(v),
        after.matching@.len() == 0,
        after.idx == before.idx,
{
    lemma_int_reads_back(v as int, i16::MIN as int, i16::MAX as int);
    lemma_signed_text_spaceless(v as int);
    lemma_spaceless_is_one_word(signed_decimal_text(v as int));
}

/// Every `i32` is read back from its own decimal writing (with a `-` sign when negative).
pub proof fn law_i32_reads_back(v: i32)
    ensures
        <i32 as TryFromStr>::parses(signed_decimal_text(v as int)),
        <i32 as TryFromStr>::parses_as(signed_decimal_text(v as int), v),
{
    lemma_int_reads_back(v as int, i32::MIN as int, i32::MAX as int);
}

/// A reader whose pending text is the decimal writing of a `i32` reads that
/// value back as a `i32` argument, and nothing is left pending.
pub proof fn law_command_i32_reads_back(v: i32, before: CommandMatcher, r: Option<i32>, after: CommandMatcher)
    requires
        before.matching@ == signed_decimal_text(v as int),
        <i32 as FromCommandMatcher>::command_gets(before, r, after),
    ensures
        r == Some(v),
        after.matching@.len() == 0,
        after.idx == before.idx,
{
    lemma_int_reads_back(v as int, i32::MIN as int, i32::MAX as int);
    lemma_signed_text_spaceless(v as int);
    lemma_spaceless_is_one_word(signed_decimal_text(v as int));
}

/// Every `i64` is read back from its own decimal writing (with a `-` sign when negative).
pub proof fn law_i64_reads_back(v: i64)
    ensures
        <i64 as TryFromStr>::parses(signed_decimal_text(v as int)),
        <i64 as TryFromStr>::parses_as(signed_decimal_text(v as int), v),
{
    lemma_int_reads_back(v as int, i64::MIN as int, i64::MAX as int);
}

/// A reader whose pending text is the decimal writing of a `i64` reads that
/// value back as a `i64` argument, and nothing is left pending.
pub proof fn law_command_i64_reads_back(v: i64, before: CommandMatcher, r: Option<i64>, after: CommandMatcher)
    requires
        before.matching@ == signed_decimal_text(v as int),
        <i64 as FromCommandMatcher>::command_gets(before, r, after),
    ensures
        r == Some(v),
        after.matching@.len() == 0,
        after.idx == before.idx,
{
    lemma_int_reads_back(v as int, i64::MIN as int, i64::MAX as int);
    lemma_signed_text_spaceless(v as int);
    lemma_spaceless_is_one_word(signed_decimal_text(v as int));
}

/// Every `i128` is read back from its own decimal writing (with a `-` sign when negative).
pub proof fn law_i128_reads_back(v: i128)
    ensures
        <i128 as TryFromStr>::parses(signed_decimal_text(v as int)),
        <i128 as TryFromStr>::parses_as(signed_decimal_text(v as int), v),
{
    lemma_int_reads_back(v as int, i128::MIN as int, i128::MAX as int);
}

/// A reader whose pending text is the decimal writing of a `i128` reads that
/// value back as a `i128` argument, and nothing is left pending.
pub proof fn law_command_i128_reads_back(v: i128, before: CommandMatcher, r: Option<i128>, after: CommandMatcher)
    requires
        before.matching@ == signed_decimal_text(v as int),
        <i128 as FromCommandMatcher>::command_gets(before, r, after),
    ensures
        r == Some(v),
        after.matching@.len() == 0,
        after.idx == before.idx,
{
    lemma_int_reads_back(v as int, i128::MIN as int, i128::MAX as int);
    lemma_signed_text_spaceless(v as int);
    lemma_spaceless_is_one_word(signed_decimal_text(v as int));
}

/// Every `isize` is read back from its own decimal writing (with a `-` sign when negative).
pub proof fn law_isize_reads_back(v: isize)
    ensures
        <isize as TryFromStr>::parses(signed_decimal_text(v as int)),
        <isize as TryFromStr>::parses_as(signed_decimal_text(v as int), v),
{
    lemma_int_reads_back(v as int, isize::MIN as int, isize::MAX as int);
}

/// A reader whose pending text is the decimal writing of a `isize` reads that
/// value back as a `isize` argument, and nothing is left pending.
pub proof fn law_command_isize_reads_back(v: isize, before: CommandMatcher, r: Option<isize>, after: CommandMatcher)
    requires
        before.matching@ == signed_decimal_text(v as int),
        <isize as FromCommandMatcher>::command_gets(before, r, after),
    ensures
        r == Some(v),
        after.matching@.len() == 0,
        after.idx == before.idx,
{
    lemma_int_reads_back(v as int, isize::MIN as int, isize::MAX as int);
    lemma_signed_text_spaceless(v as int);
    lemma_spaceless_is_one_word(signed_decimal_text(v as int));
}

/// A token is read as a `u8` exactly when it contains a match of `\d+` and
/// writes an integer in range; the value is the one it writes, and the token
/// is left as it was.
pub proof fn law_tuple_u8_read(before: Seq<char>, r: Option<u8>, after: Seq<char>)
    requires
        <u8 as FromTupleMatcher>::tuple_gets(before, r, after),
    ensures
        after == before,
        r is Some <==> (regex_compiles("\\d+"@) && regex_is_match("\\d+"@, before) && int_in_range(
            before,
            0,
            u8::MAX as int,
        ) is Some),
        r matches Some(x) ==> int_in_range(before, 0, u8::MAX as int) == Some(x as int),
{
}

/// A token is read as a `u16` exactly when it contains a match of `\d+` and
/// writes an integer in range; the value is the one it writes, and the token
/// is left as it was.
pub proof fn law_tuple_u16_read(before: Seq<char>, r: Option<u16>, after: Seq<char>)
    requires
        <u16 as FromTupleMatcher>::tuple_gets(before, r, after),
    ensures
        after == before,
        r is Some <==> (regex_compiles("\\d+"@) && regex_is_match("\\d+"@, before) && int_in_range(
            before,
            0,
            u16::MAX as int,
        ) is Some),
        r matches Some(x) ==> int_in_range(before, 0, u16::MAX as int) == Some(x as int),
{
}

/// A token is read as a `u32` exactly when it contains a match of `\d+` and
/// writes an integer in range; the value is the one it writes, and the token
/// is left as it was.
pub proof fn law_tuple_u32_read(before: Seq<char>, r: Option<u32>, after: Seq<char>)
    requires
        <u32 as FromTupleMatcher>::tuple_gets(before, r, after),
    ensures
        after == before,
        r is Some <==> (regex_compiles("\\d+"@) && regex_is_match("\\d+"@, before) && int_in_range(
            before,
            0,
            u32::MAX as int,
        ) is Some),
        r matches Some(x) ==> int_in_range(before, 0, u32::MAX as int) == Some(x as int),
{
}

/// A token is read as a `u64` exactly when it contains a match of `\d+` and
/// writes an integer in range; the value is the one it writes, and the token
/// is left as it was.
pub proof fn law_tuple_u64_read(before: Seq<char>, r: Option<u64>, after: Seq<char>)
    requires
        <u64 as FromTupleMatcher>::tuple_gets(before, r, after),
    ensures
        after == before,
        r is Some <==> (regex_compiles("\\d+"@) && regex_is_match("\\d+"@, before) && int_in_range(
            before,
            0,
            u64::MAX as int,
        ) is Some),
        r matches Some(x) ==> int_in_range(before, 0, u64::MAX as int) == Some(x as int),
{
}

/// A token is read as a `u128` exactly when it contains a match of `\d+` and
/// writes an integer in range; the value is the one it writes, and the token
/// is left as it was.
pub proof fn law_tuple_u128_read(before: Seq<char>, r: Option<u128>, after: Seq<char>)
    requires
        <u128 as FromTupleMatcher>::tuple_gets(before, r, after),
    ensures
        after == before,
        r is Some <==> (regex_compiles("\\d+"@) && regex_is_match("\\d+"@, before) && int_in_range(
            before,
            0,
            u128::MAX as int,
        ) is Some),
        r matches Some(x) ==> int_in_range(before, 0, u128::MAX as int) == Some(x as int),
{
}

/// A token is read as a `usize` exactly when it contains a match of `\d+` and
/// writes an integer in range; the value is the one it writes, and the token
/// is left as it was.
pub proof fn law_tuple_usize_read(before: Seq<char>, r: Option<usize>, after: Seq<char>)
    requires
        <usize as FromTupleMatcher>::tuple_gets(before, r, after),
    ensures
        after == before,
        r is Some <==> (regex_compiles("\\d+"@) && regex_is_match("\\d+"@, before) && int_in_range(
            before,
            0,
            usize::MAX as int,
        ) is Some),
        r matches Some(x) ==> int_in_range(before, 0, usize::MAX as int) == Some(x as int),
{
}

/// A token is read as a `i8` exactly when it contains a match of `-?\d+` and
/// writes an integer in range; the value is the one it writes, and the token
/// is left as it was.
pub proof fn law_tuple_i8_read(before: Seq<char>, r: Option<i8>, after: Seq<char>)
    requires
        <i8 as FromTupleMatcher>::tuple_gets(before, r, after),
    ensures
        after == before,
        r is Some <==> (regex_compiles("-?\\d+"@) && regex_is_match("-?\\d+"@, before) && int_in_range(
            before,
            i8::MIN as int,
            i8::MAX as int,
        ) is Some),
        r matches Some(x) ==> int_in_range(before, i8::MIN as int, i8::MAX as int) == Some(x as int),
{
}

/// A token is read as a `i16` exactly when it contains a match of `-?\d+` and
/// writes an integer in range; the value is the one it writes, and the token
/// is left as it was.
pub proof fn law_tuple_i16_read(before: Seq<char>, r: Option<i16>, after: Seq<char>)
    requires
        <i16 as FromTupleMatcher>::tuple_gets(before, r, after),
    ensures
        after == before,
        r is Some <==> (regex_compiles("-?\\d+"@) && regex_is_match("-?\\d+"@, before) && int_in_range(
            before,
            i16::MIN as int,
            i16::MAX as int,
        ) is Some),
        r matches Some(x) ==> int_in_range(before, i16::MIN as int, i16::MAX as int) == Some(x as int),
{
}

/// A token is read as a `i32` exactly when it contains a match of `-?\d+` and
/// writes an integer in range; the value is the one it writes, and the token
/// is left as it was.
pub proof fn law_tuple_i32_read(before: Seq<char>, r: Option<i32>, after: Seq<char>)
    requires
        <i32 as FromTupleMatcher>::tuple_gets(before, r, after),
    ensures
        after == before,
        r is Some <==> (regex_compiles("-?\\d+"@) && regex_is_match("-?\\d+"@, before) && int_in_range(
            before,
            i32::MIN as int,
            i32::MAX as int,
        ) is Some),
        r matches Some(x) ==> int_in_range(before, i32::MIN as int, i32::MAX as int) == Some(x as int),
{
}

/// A token is read as a `i64` exactly when it contains a match of `-?\d+` and
/// writes an integer in range; the value is the one it writes, and the token
/// is left as it was.
pub proof fn law_tuple_i64_read(before: Seq<char>, r: Option<i64>, after: Seq<char>)
    requires
        <i64 as FromTupleMatcher>::tuple_gets(before, r, after),
    ensures
        after == before,
        r is Some <==> (regex_compiles("-?\\d+"@) && regex_is_match("-?\\d+"@, before) && int_in_range(
            before,
            i64::MIN as int,
            i64::MAX as int,
        ) is Some),
        r matches Some(x) ==> int_in_range(before, i64::MIN as int, i64::MAX as int) == Some(x as int),
{
}

/// A token is read as a `i128` exactly when it contains a match of `-?\d+` and
/// writes an integer in range; the value is the one it writes, and the token
/// is left as it was.
pub proof fn law_tuple_i128_read(before: Seq<char>, r: Option<i128>, after: Seq<char>)
    requires
        <i128 as FromTupleMatcher>::tuple_gets(before, r, after),
    ensures
        after == before,
        r is Some <==> (regex_compiles("-?\\d+"@) && regex_is_match("-?\\d+"@, before) && int_in_range(
            before,
            i128::MIN as int,
            i128::MAX as int,
        ) is Some),
        r matches Some(x) ==> int_in_range(before, i128::MIN as int, i128::MAX as int) == Some(x as int),
{
}

/// A token is read as a `isize` exactly when it contains a match of `-?\d+` and
/// writes an integer in range; the value is the one it writes, and the token
/// is left as it was.
pub proof fn law_tuple_isize_read(before: Seq<char>, r: Option<isize>, after: Seq<char>)
    requires
        <isize as FromTupleMatcher>::tuple_gets(before, r, after),
    ensures
        after == before,
        r is Some <==> (regex_compiles("-?\\d+"@) && regex_is_match("-?\\d+"@, before) && int_in_range(
            before,
            isize::MIN as int,
            isize::MAX as int,
        ) is Some),
        r matches Some(x) ==> int_in_range(before, isize::MIN as int, isize::MAX as int) == Some(x as int),
{
}

/// A token is read as a boolean exactly when it is `true` or `false` and the
/// pattern `(true)|(false)`, which names both texts, matches in it; the value
/// is the one the token writes, and the token is left as it was.
pub proof fn law_tuple_bool_read(before: Seq<char>, r: Option<bool>, after: Seq<char>)
    requires
        <bool as FromTupleMatcher>::tuple_gets(before, r, after),
    ensures
        after == before,
        r is Some <==> (regex_compiles("(true)|(false)"@) && regex_is_match("(true)|(false)"@, before)
            && (before == seq!['t', 'r', 'u', 'e'] || before == seq!['f', 'a', 'l', 's', 'e'])),
        r matches Some(b) ==> (b <==> before == seq!['t', 'r', 'u', 'e']),
        r matches Some(b) ==> (!b <==> before == seq!['f', 'a', 'l', 's', 'e']),
{
    assert(seq!['t', 'r', 'u', 'e'] != seq!['f', 'a', 'l', 's', 'e']) by {
        assert(seq!['t', 'r', 'u', 'e'].len() != seq!['f', 'a', 'l', 's', 'e'].len());
    }
}

/// A token is read as a character exactly when it is a single character and
/// the pattern `-?\d+` matches in it; the token is left as it was.
pub proof fn law_tuple_char_read(before: Seq<char>, r: Option<char>, after: Seq<char>)
    requires
        <char as FromTupleMatcher>::tuple_gets(before, r, after),
    ensures
        after == before,
        r is Some <==> (regex_compiles("-?\\d+"@) && regex_is_match("-?\\d+"@, before) && before.len()
            == 1),
        r matches Some(c) ==> before == seq![c],
{
}

/// Both boolean texts are read, each as its own value.
pub proof fn law_bool_reads_back(b: bool)
    ensures
        <bool as TryFromStr>::parses(
            if b {
                seq!['t', 'r', 'u', 'e']
            } else {
                seq!['f', 'a', 'l', 's', 'e']
            },
        ),
        <bool as TryFromStr>::parses_as(
            if b {
                seq!['t', 'r', 'u', 'e']
            } else {
                seq!['f', 'a', 'l', 's', 'e']
            },
            b,
        ),
        !<bool as TryFromStr>::parses_as(
            if b {
                seq!['t', 'r', 'u', 'e']
            } else {
                seq!['f', 'a', 'l', 's', 'e']
            },
            !b,
        ),
{
    assert(seq!['t', 'r', 'u', 'e'] != seq!['f', 'a', 'l', 's', 'e']) by {
        assert(seq!['t', 'r', 'u', 'e'].len() != seq!['f', 'a', 'l', 's', 'e'].len());
    }
}

/// Every character is read back from the text made of it alone, and no
/// other character is.
pub proof fn law_char_reads_back(c: char, d: char)
    ensures
        <char as TryFromStr>::parses(seq![c]),
        <char as TryFromStr>::parses_as(seq![c], c),
        <char as TryFromStr>::parses_as(seq![c], d) ==> d == c,
{
    if <char as TryFromStr>::parses_as(seq![c], d) {
        assert(seq![c][0] == seq![d][0]);
    }
}

/// A message that is a single piece of text gives a reader past it whose
/// pending text is that text, trimmed.
pub proof fn law_single_text_message(t: String)
    ensures
        gather_end(seq![MessageElement::Text(t)], 0) == 1,
        gathered_text(seq![MessageElement::Text(t)], 0, Seq::empty()) == trimmed(t@),
{
    let e = seq![MessageElement::Text(t)];
    assert(gather_end(e, 1) == 1);
    assert(crate::command_matcher::texts_between(e, 0, 0) =~= Seq::<char>::empty());
    assert(crate::command_matcher::texts_between(e, 0, 1) =~= t@);
    assert(Seq::<char>::empty() + t@ =~= t@);
}

/// Texts separated by passed-over elements are gathered in order, one after another.
pub proof fn law_texts_gathered_in_order(a: String, b: String)
    ensures
        gather_end(seq![MessageElement::Text(a), MessageElement::Other, MessageElement::Text(b)], 0)
            == 3,
        gathered_text(
            seq![MessageElement::Text(a), MessageElement::Other, MessageElement::Text(b)],
            0,
            Seq::empty(),
        ) == trimmed(a@ + b@),
{
    let e = seq![MessageElement::Text(a), MessageElement::Other, MessageElement::Text(b)];
    assert(gather_end(e, 3) == 3);
    assert(gather_end(e, 2) == 3);
    assert(gather_end(e, 1) == 3);
    let tb1 = crate::command_matcher::texts_between(e, 0, 1);
    assert(crate::command_matcher::texts_between(e, 0, 0) =~= Seq::<char>::empty());
    assert(tb1 =~= a@);
    assert(crate::command_matcher::texts_between(e, 0, 2) =~= a@);
    assert(crate::command_matcher::texts_between(e, 0, 3) =~= a@ + b@);
    assert(Seq::<char>::empty() + (a@ + b@) =~= a@ + b@);
}

/// Trimming removes exactly the white space at both ends: the result is the
/// part of the text between a leading and a trailing run of white space,
/// and it neither starts nor ends with white space.
pub proof fn law_trim_removes_end_white_space(s: Seq<char>)
    ensures
        exists|a: int, b: int|
            0 <= a <= b <= s.len() && #[trigger] s.subrange(a, b) == trimmed(s) && (forall|j: int|
                0 <= j < a ==> is_white_space(#[trigger] s[j])) && (forall|j: int|
                b <= j < s.len() ==> is_white_space(#[trigger] s[j])),
        trimmed(s).len() > 0 ==> !is_white_space(trimmed(s)[0]) && !is_white_space(
            trimmed(s).last(),
        ),
{
    let a = run_len(s, true) as int;
    crate::text::lemma_run_len_bound(s, true);
    crate::text::lemma_run_len_prefix(s, true);
    let t = s.skip(a);
    let m = crate::text::trailing_white_len(t) as int;
    crate::text::lemma_trailing_white_len_facts(t);
    lemma_trailing_white_len_suffix(t);
    let b = s.len() - m;
    assert(s.subrange(a, b) =~= trimmed(s));
    assert forall|j: int| b <= j < s.len() implies is_white_space(#[trigger] s[j]) by {
        assert(s[j] == t[j - a]);
    }
    lemma_trimmed_is_trimmed(s);
}

proof fn lemma_trailing_white_len_suffix(s: Seq<char>)
    ensures
        forall|j: int|
            s.len() - crate::text::trailing_white_len(s) <= j < s.len() ==> is_white_space(
                #[trigger] s[j],
            ),
    decreases s.len(),
{
    if s.len() > 0 && is_white_space(s.last()) {
        let t = s.drop_last();
        lemma_trailing_white_len_suffix(t);
        crate::text::lemma_trailing_white_len_facts(t);
        assert forall|j: int|
            s.len() - crate::text::trailing_white_len(s) <= j < s.len() implies is_white_space(
            #[trigger] s[j],
        ) by {
            if j < s.len() - 1 {
                assert(s[j] == t[j]);
            }
        }
    }
}

/// A text read as an integer is an optional sign (`-` only where negative
/// values are allowed) followed by at least one ASCII digit and nothing
/// else, and its value lies in the range.
pub proof fn law_integer_text_shape(s: Seq<char>, lo: int, hi: int)
    requires
        int_in_range(s, lo, hi) is Some,
    ensures
        lo <= int_in_range(s, lo, hi)->0 <= hi,
        s.len() > 0,
        forall|i: int| 1 <= i < s.len() ==> '0' <= #[trigger] s[i] && s[i] <= '9',
        ('0' <= s[0] && s[0] <= '9') || (s[0] == '+' && s.len() > 1) || (s[0] == '-' && lo < 0
            && s.len() > 1),
        s[0] == '-' ==> int_in_range(s, lo, hi)->0 <= 0,
{
    if s[0] == '+' || (s[0] == '-' && lo < 0) {
        let d = s.drop_first();
        assert forall|i: int| 1 <= i < s.len() implies '0' <= #[trigger] s[i] && s[i] <= '9' by {
            assert(s[i] == d[i - 1]);
            assert(crate::value::is_digit(d[i - 1]));
        }
    } else {
        assert forall|i: int| 1 <= i < s.len() implies '0' <= #[trigger] s[i] && s[i] <= '9' by {
            assert(crate::value::is_digit(s[i]));
        }
        assert(crate::value::is_digit(s[0]));
    }
}

} // verus!
