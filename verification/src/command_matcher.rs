//! Reading a command and its arguments from the elements of a message:
//! runs of text are gathered into one trimmed text that is read word by
//! word; other elements (mentions, faces, images, ...) are taken one at a
//! time where no text is pending.

use vstd::prelude::*;

use crate::text::{
    first_word, join_space, join_with_space, rest_after_first_word, split_first_word,
    split_white, split_white_space, text_eq, texts, trim, trimmed,
};
use crate::tuple_matcher::TupleMatcher;
use crate::value::{ScalarValue, TryFromStr};

verus! {

/// The kinds of non-text elements of a message.
#[derive(Debug, Clone, Copy, PartialEq, Eq, Structural)]
pub enum ElementKind {
    At,
    Face,
    MarketFace,
    Dice,
    FingerGuessing,
    LightApp,
    RichMsg,
    FriendImage,
    GroupImage,
    FlashImage,
    VideoFile,
}

/// One element of a message, as far as reading arguments from it goes.
#[derive(Debug, Clone, PartialEq, Eq)]
pub enum MessageElement {
    /// A piece of text.
    Text(String),
    /// An element of one of the known kinds.
    Item(ElementKind),
    /// An element that reading passes over, as if it were empty text.
    Other,
}

/// The state of reading a message: the index of the next element, the
/// elements, and the text gathered but not yet read.
pub struct CommandMatcher {
    pub idx: usize,
    pub elements: Vec<MessageElement>,
    pub matching: String,
}

/// Text and passed-over elements are gathered; an element of a known kind stops gathering.
pub open spec fn is_gathered(e: MessageElement) -> bool {
    e is Text || e is Other
}

/// The text an element contributes when gathered.
pub open spec fn text_of(e: MessageElement) -> Seq<char> {
    match e {
        MessageElement::Text(s) => s@,
        _ => Seq::empty(),
    }
}

/// Where gathering from index `i` stops: the first element from `i` on that
/// is of a known kind, or the end.
pub open spec fn gather_end(elems: Seq<MessageElement>, i: nat) -> nat
    decreases elems.len() - i,
{
    if i < elems.len() && is_gathered(elems[i as int]) {
        gather_end(elems, i + 1)
    } else {
        i
    }
}

/// The texts of the elements `from .. to`, one after another.
pub open spec fn texts_between(elems: Seq<MessageElement>, from: nat, to: nat) -> Seq<char>
    decreases to - from,
{
    if from < to {
        texts_between(elems, from, (to - 1) as nat) + text_of(elems[to - 1])
    } else {
        Seq::empty()
    }
}

/// The pending text once the run of text that starts at `i` has been
/// appended to `m` and the whole trimmed.
pub open spec fn gathered_text(elems: Seq<MessageElement>, i: nat, m: Seq<char>) -> Seq<char> {
    trimmed(m + texts_between(elems, i, gather_end(elems, i)))
}

pub proof fn lemma_gather_end_bounds(elems: Seq<MessageElement>, i: nat)
    ensures
        i <= gather_end(elems, i),
        i <= elems.len() ==> gather_end(elems, i) <= elems.len(),
        gather_end(elems, i) < elems.len() ==> !is_gathered(elems[gather_end(elems, i) as int]),
        forall|j: int| i <= j < gather_end(elems, i) ==> is_gathered(#[trigger] elems[j]),
    decreases elems.len() - i,
{
    if i < elems.len() && is_gathered(elems[i as int]) {
        lemma_gather_end_bounds(elems, i + 1);
    }
}

impl CommandMatcher {
    /// Gathers the run of text from the current element on into the
    /// pending text, and trims it.
    pub fn push_text(&mut self)
        ensures
            final(self).elements == old(self).elements,
            final(self).idx == gather_end(old(self).elements@, old(self).idx as nat),
            final(self).matching@ == gathered_text(
                old(self).elements@,
                old(self).idx as nat,
                old(self).matching@,
            ),
    {
        let ghost elems = self.elements@;
        let ghost i0 = self.idx as nat;
        let ghost m0 = self.matching@;
        loop
            invariant_except_break
                self.elements@ == elems,
                self.elements == old(self).elements,
                i0 <= self.idx,
                self.idx == i0 || self.idx <= elems.len(),
                gather_end(elems, self.idx as nat) == gather_end(elems, i0),
                self.matching@ == m0 + texts_between(elems, i0, self.idx as nat),
            ensures
                self.elements == old(self).elements,
                self.idx == gather_end(elems, i0),
                self.matching@ == m0 + texts_between(elems, i0, self.idx as nat),
            decreases elems.len() - self.idx,
        {
            if self.idx >= self.elements.len() {
                break ;
            }
            let i = self.idx;
            let step = match &self.elements[i] {
                MessageElement::Text(st) => {
                    self.matching.append(st.as_str());
                    true
                },
                MessageElement::Other => true,
                MessageElement::Item(_) => false,
            };
            if !step {
                break ;
            }
            proof {
                assert(texts_between(elems, i0, (i + 1) as nat) == texts_between(elems, i0, i as nat)
                    + text_of(elems[i as int]));
            }
            self.idx = i + 1;
            assert(self.matching@ =~= m0 + texts_between(elems, i0, self.idx as nat));
        }
        let build = String::from_str(trim(self.matching.as_str()));
        self.matching = build;
    }

    /// A reader at the first element of `value`, with the text at its start gathered.
    pub fn new(value: Vec<MessageElement>) -> (r: CommandMatcher)
        ensures
            r.elements@ == value@,
            r.idx == gather_end(value@, 0),
            r.matching@ == gathered_text(value@, 0, Seq::empty()),
    {
        let mut matcher = CommandMatcher { idx: 0, elements: value, matching: String::new() };
        matcher.push_text();
        matcher
    }

    /// Reads the first word of the pending text if it is `command_name`.
    pub fn match_command(&mut self, command_name: &str) -> (r: bool)
        ensures
            r == (command_name@ == first_word(old(self).matching@)),
            final(self).idx == old(self).idx,
            final(self).elements == old(self).elements,
            final(self).matching@ == (if r {
                rest_after_first_word(old(self).matching@)
            } else {
                old(self).matching@
            }),
    {
        let (first, rest) = split_first_word(self.matching.as_str());
        if text_eq(command_name, first.as_str()) {
            self.matching = rest;
            true
        } else {
            false
        }
    }

    /// Whether anything is left to read: pending text or further elements.
    pub fn not_blank(&self) -> (r: bool)
        ensures
            r == (self.matching@.len() > 0 || self.idx < self.elements@.len()),
    {
        !self.matching.as_str().is_empty() || self.idx < self.elements.len()
    }

    /// Reads the first word of the pending text as a token to be read part by part.
    pub fn tuple_matcher(&mut self) -> (r: Option<TupleMatcher>)
        ensures
            final(self).idx == old(self).idx,
            final(self).elements == old(self).elements,
            old(self).matching@.len() == 0 ==> r is None && final(self).matching@ == old(
                self,
            ).matching@,
            old(self).matching@.len() > 0 ==> (r matches Some(t) && t@ == first_word(
                old(self).matching@,
            )) && final(self).matching@ == rest_after_first_word(old(self).matching@),
    {
        if !self.matching.as_str().is_empty() {
            let (first, rest) = split_first_word(self.matching.as_str());
            self.matching = rest;
            return Some(TupleMatcher::new(first));
        }
        None
    }
}

/// A type whose values can be read from a message.
pub trait FromCommandMatcher: Sized {
    /// Reading from the state `before` gives `result` and leaves the state `after`.
    spec fn command_gets(before: CommandMatcher, result: Option<Self>, after: CommandMatcher) -> bool;

    fn get(s: &mut CommandMatcher) -> (r: Option<Self>)
        ensures
            Self::command_gets(*old(s), r, *final(s)),
    ;
}

/// Reads a value of type `F` from the message.
pub fn matcher_get<F: FromCommandMatcher>(matcher: &mut CommandMatcher) -> (r: Option<F>)
    ensures
        F::command_gets(*old(matcher), r, *final(matcher)),
{
    F::get(matcher)
}

/// Only the pending text may differ.
pub open spec fn only_text_changes(before: CommandMatcher, after: CommandMatcher) -> bool {
    after.idx == before.idx && after.elements == before.elements
}

/// One value is read from the first word of the pending text, which is then
/// cut off (the rest trimmed); nothing is read, and nothing changes, when no
/// text is pending or the word is not a value.
pub open spec fn word_gets<T: TryFromStr>(
    before: CommandMatcher,
    result: Option<T>,
    after: CommandMatcher,
) -> bool {
    let m = before.matching@;
    let w = first_word(m);
    &&& only_text_changes(before, after)
    &&& (result is Some <==> (m.len() > 0 && T::parses(w)))
    &&& (result matches Some(v) ==> T::parses_as(w, v) && after.matching@ == rest_after_first_word(m))
    &&& (result is None ==> after.matching@ == m)
}

/// The number of leading pieces that are values.
pub open spec fn parsed_prefix_len<T: TryFromStr>(pieces: Seq<Seq<char>>) -> nat
    decreases pieces.len(),
{
    if pieces.len() > 0 && T::parses(pieces[0]) {
        1 + parsed_prefix_len::<T>(pieces.drop_first())
    } else {
        0
    }
}

pub proof fn lemma_parsed_prefix_len_is<T: TryFromStr>(pieces: Seq<Seq<char>>, k: int)
    requires
        0 <= k <= pieces.len(),
        forall|j: int| 0 <= j < k ==> T::parses(#[trigger] pieces[j]),
        k == pieces.len() || !T::parses(pieces[k]),
    ensures
        parsed_prefix_len::<T>(pieces) == k,
    decreases k,
{
    if k > 0 {
        let t = pieces.drop_first();
        assert forall|j: int| 0 <= j < k - 1 implies T::parses(#[trigger] t[j]) by {
            assert(t[j] == pieces[j + 1]);
        }
        if k - 1 < t.len() {
            assert(t[k - 1] == pieces[k]);
        }
        assert(T::parses(pieces[0]));
        lemma_parsed_prefix_len_is::<T>(t, k - 1);
    }
}

/// Values are read from the leading words of the pending text, as many as
/// are values; the rest of the words, joined with single spaces, stay
/// pending. When the first word is no value (or no text is pending), nothing
/// is read and nothing changes.
pub open spec fn words_gets<T: TryFromStr>(
    before: CommandMatcher,
    result: Option<Vec<T>>,
    after: CommandMatcher,
) -> bool {
    let m = before.matching@;
    let pieces = split_white(m);
    let k = parsed_prefix_len::<T>(pieces);
    &&& only_text_changes(before, after)
    &&& result matches Some(v)
    &&& if m.len() == 0 || k == 0 {
        v@.len() == 0 && after.matching@ == m
    } else {
        &&& v@.len() == k
        &&& forall|i: int| 0 <= i < k ==> T::parses_as(pieces[i], #[trigger] v@[i])
        &&& after.matching@ == join_with_space(pieces.skip(k as int))
    }
}

fn get_word<T: TryFromStr>(s: &mut CommandMatcher) -> (r: Option<T>)
    ensures
        word_gets(*old(s), r, *final(s)),
{
    if s.matching.as_str().is_empty() {
        return None;
    }
    let (first, rest) = split_first_word(s.matching.as_str());
    match T::try_from(first.as_str()) {
        Ok(v) => {
            s.matching = rest;
            Some(v)
        },
        Err(_) => None,
    }
}

fn get_words<T: TryFromStr>(s: &mut CommandMatcher) -> (r: Option<Vec<T>>)
    ensures
        words_gets(*old(s), r, *final(s)),
{
    let mut result: Vec<T> = Vec::new();
    if s.matching.as_str().is_empty() {
        return Some(result);
    }
    let pieces = split_white_space(s.matching.as_str());
    let ghost ps = texts(pieces@);
    let mut rest: Vec<String> = Vec::new();
    let mut i: usize = 0;
    while i < pieces.len()
        invariant
            ps == texts(pieces@),
            ps == split_white(s.matching@),
            *s == *old(s),
            i <= pieces@.len(),
            forall|j: int| 0 <= j < result@.len() ==> T::parses(#[trigger] ps[j]),
            forall|j: int| 0 <= j < result@.len() ==> T::parses_as(ps[j], #[trigger] result@[j]),
            rest@.len() == 0 ==> result@.len() == i,
            rest@.len() > 0 ==> {
                &&& 0 < result@.len() < i
                &&& !T::parses(ps[result@.len() as int])
                &&& texts(rest@) == ps.subrange(result@.len() as int, i as int)
            },
        decreases pieces@.len() - i,
    {
        assert(ps[i as int] == pieces@[i as int]@);
        let ghost before_rest = texts(rest@);
        if !rest.is_empty() {
            rest.push(pieces[i].clone());
            assert(texts(rest@) =~= ps.subrange(result@.len() as int, i + 1));
        } else {
            match T::try_from(pieces[i].as_str()) {
                Ok(v) => {
                    result.push(v);
                },
                Err(_) => {
                    if result.is_empty() {
                        proof {
                            lemma_parsed_prefix_len_is::<T>(ps, 0);
                        }
                        return Some(result);
                    } else {
                        rest.push(pieces[i].clone());
                        assert(texts(rest@) =~= ps.subrange(result@.len() as int, i + 1));
                    }
                },
            }
        }
        i = i + 1;
    }
    proof {
        let k = result@.len() as int;
        lemma_parsed_prefix_len_is::<T>(ps, k);
        if rest@.len() == 0 {
            assert(ps.skip(k) =~= Seq::<Seq<char>>::empty());
            assert(texts(rest@) =~= ps.skip(k));
        } else {
            assert(texts(rest@) =~= ps.skip(k));
        }
    }
    s.matching = join_space(&rest);
    Some(result)
}

impl FromCommandMatcher for String {
    open spec fn command_gets(before: CommandMatcher, result: Option<String>, after: CommandMatcher) -> bool {
        word_gets(before, result, after)
    }

    fn get(s: &mut CommandMatcher) -> (r: Option<String>) {
        get_word(s)
    }
}

impl FromCommandMatcher for Option<String> {
    open spec fn command_gets(before: CommandMatcher, result: Option<Option<String>>, after: CommandMatcher) -> bool {
        result matches Some(x) && word_gets(before, x, after)
    }

    fn get(s: &mut CommandMatcher) -> (r: Option<Option<String>>) {
        Some(get_word(s))
    }
}

impl FromCommandMatcher for Vec<String> {
    /// Every piece of the pending text between runs of white space is read,
    /// and no text is left pending.
    open spec fn command_gets(before: CommandMatcher, result: Option<Vec<String>>, after: CommandMatcher) -> bool {
        &&& only_text_changes(before, after)
        &&& result matches Some(v)
        &&& texts(v@) == split_white(before.matching@)
        &&& after.matching@.len() == 0
    }

    fn get(s: &mut CommandMatcher) -> (r: Option<Vec<String>>) {
        let result = split_white_space(s.matching.as_str());
        s.matching = String::new();
        Some(result)
    }
}

impl<T: ScalarValue + FromCommandMatcher> FromCommandMatcher for Option<T> {
    open spec fn command_gets(before: CommandMatcher, result: Option<Option<T>>, after: CommandMatcher) -> bool {
        result matches Some(x) && word_gets(before, x, after)
    }

    fn get(s: &mut CommandMatcher) -> (r: Option<Option<T>>) {
        Some(get_word(s))
    }
}

impl<T: ScalarValue + FromCommandMatcher> FromCommandMatcher for Vec<T> {
    open spec fn command_gets(before: CommandMatcher, result: Option<Vec<T>>, after: CommandMatcher) -> bool {
        words_gets(before, result, after)
    }

    fn get(s: &mut CommandMatcher) -> (r: Option<Vec<T>>) {
        get_words(s)
    }
}

impl FromCommandMatcher for u8 {
    open spec fn command_gets(before: CommandMatcher, result: Option<u8>, after: CommandMatcher) -> bool {
        word_gets(before, result, after)
    }

    fn get(s: &mut CommandMatcher) -> (r: Option<u8>) {
        get_word(s)
    }
}

impl FromCommandMatcher for u16 {
    open spec fn command_gets(before: CommandMatcher, result: Option<u16>, after: CommandMatcher) -> bool {
        word_gets(before, result, after)
    }

    fn get(s: &mut CommandMatcher) -> (r: Option<u16>) {
        get_word(s)
    }
}

impl FromCommandMatcher for u32 {
    open spec fn command_gets(before: CommandMatcher, result: Option<u32>, after: CommandMatcher) -> bool {
        word_gets(before, result, after)
    }

    fn get(s: &mut CommandMatcher) -> (r: Option<u32>) {
        get_word(s)
    }
}

impl FromCommandMatcher for u64 {
    open spec fn command_gets(before: CommandMatcher, result: Option<u64>, after: CommandMatcher) -> bool {
        word_gets(before, result, after)
    }

    fn get(s: &mut CommandMatcher) -> (r: Option<u64>) {
        get_word(s)
    }
}

impl FromCommandMatcher for u128 {
    open spec fn command_gets(before: CommandMatcher, result: Option<u128>, after: CommandMatcher) -> bool {
        word_gets(before, result, after)
    }

    fn get(s: &mut CommandMatcher) -> (r: Option<u128>) {
        get_word(s)
    }
}

impl FromCommandMatcher for usize {
    open spec fn command_gets(before: CommandMatcher, result: Option<usize>, after: CommandMatcher) -> bool {
        word_gets(before, result, after)
    }

    fn get(s: &mut CommandMatcher) -> (r: Option<usize>) {
        get_word(s)
    }
}

impl FromCommandMatcher for i8 {
    open spec fn command_gets(before: CommandMatcher, result: Option<i8>, after: CommandMatcher) -> bool {
        word_gets(before, result, after)
    }

    fn get(s: &mut CommandMatcher) -> (r: Option<i8>) {
        get_word(s)
    }
}

impl FromCommandMatcher for i16 {
    open spec fn command_gets(before: CommandMatcher, result: Option<i16>, after: CommandMatcher) -> bool {
        word_gets(before, result, after)
    }

    fn get(s: &mut CommandMatcher) -> (r: Option<i16>) {
        get_word(s)
    }
}

impl FromCommandMatcher for i32 {
    open spec fn command_gets(before: CommandMatcher, result: Option<i32>, after: CommandMatcher) -> bool {
        word_gets(before, result, after)
    }

    fn get(s: &mut CommandMatcher) -> (r: Option<i32>) {
        get_word(s)
    }
}

impl FromCommandMatcher for i64 {
    open spec fn command_gets(before: CommandMatcher, result: Option<i64>, after: CommandMatcher) -> bool {
        word_gets(before, result, after)
    }

    fn get(s: &mut CommandMatcher) -> (r: Option<i64>) {
        get_word(s)
    }
}

impl FromCommandMatcher for i128 {
    open spec fn command_gets(before: CommandMatcher, result: Option<i128>, after: CommandMatcher) -> bool {
        word_gets(before, result, after)
    }

    fn get(s: &mut CommandMatcher) -> (r: Option<i128>) {
        get_word(s)
    }
}

impl FromCommandMatcher for isize {
    open spec fn command_gets(before: CommandMatcher, result: Option<isize>, after: CommandMatcher) -> bool {
        word_gets(before, result, after)
    }

    fn get(s: &mut CommandMatcher) -> (r: Option<isize>) {
        get_word(s)
    }
}

impl FromCommandMatcher for bool {
    open spec fn command_gets(before: CommandMatcher, result: Option<bool>, after: CommandMatcher) -> bool {
        word_gets(before, result, after)
    }

    fn get(s: &mut CommandMatcher) -> (r: Option<bool>) {
        get_word(s)
    }
}

impl FromCommandMatcher for char {
    open spec fn command_gets(before: CommandMatcher, result: Option<char>, after: CommandMatcher) -> bool {
        word_gets(before, result, after)
    }

    fn get(s: &mut CommandMatcher) -> (r: Option<char>) {
        get_word(s)
    }
}

/// Reads the first word of the pending text when it is one of `values`, as
/// a value of type `F`; on success the word is cut off and the rest trimmed.
/// Nothing is read, and nothing changes, otherwise.
pub fn matcher_get_enum<F: TryFromStr>(matcher: &mut CommandMatcher, values: Vec<&str>) -> (r:
    Option<F>)
    ensures
        only_text_changes(*old(matcher), *final(matcher)),
        ({
            let m = old(matcher).matching@;
            let w = first_word(m);
            let listed = exists|j: int| 0 <= j < values@.len() && #[trigger] values@[j]@ == w;
            &&& (r is Some <==> (m.len() > 0 && listed && F::parses(w)))
            &&& (r matches Some(v) ==> F::parses_as(w, v) && final(matcher).matching@
                == rest_after_first_word(m))
            &&& (r is None ==> final(matcher).matching@ == m)
        }),
{
    if matcher.matching.as_str().is_empty() {
        return None;
    }
    let (first, rest) = split_first_word(matcher.matching.as_str());
    let mut listed = false;
    let mut i: usize = 0;
    while i < values.len()
        invariant
            i <= values@.len(),
            listed <==> exists|j: int| 0 <= j < i && #[trigger] values@[j]@ == first@,
        decreases values@.len() - i,
    {
        if text_eq(values[i], first.as_str()) {
            listed = true;
        }
        i = i + 1;
    }
    if listed {
        match F::try_from(first.as_str()) {
            Ok(v) => {
                matcher.matching = rest;
                Some(v)
            },
            Err(_) => None,
        }
    } else {
        None
    }
}

/// The element is of one of the kinds.
pub open spec fn accepts(kinds: Seq<ElementKind>, e: MessageElement) -> bool {
    e matches MessageElement::Item(k) && kinds.contains(k)
}

/// No text is pending and the next element is of one of the kinds.
pub open spec fn element_ready(m: CommandMatcher, kinds: Seq<ElementKind>) -> bool {
    &&& m.matching@.len() == 0
    &&& m.idx < m.elements@.len()
    &&& accepts(kinds, m.elements@[m.idx as int])
}

/// `after` is `before` once the next element is taken and the text that follows it gathered.
pub open spec fn taken_next(before: CommandMatcher, after: CommandMatcher) -> bool {
    &&& after.elements == before.elements
    &&& after.idx == gather_end(before.elements@, (before.idx + 1) as nat)
    &&& after.matching@ == gathered_text(before.elements@, (before.idx + 1) as nat, before.matching@)
}

/// Taking elements of the kinds one after another from index `i`, with `m`
/// pending, gathering the text after each, for as long as the next element
/// is of one of the kinds: the indices taken, where reading then stands, and
/// the text then pending.
pub open spec fn take_run(elems: Seq<MessageElement>, kinds: Seq<ElementKind>, i: nat, m: Seq<char>) -> (Seq<usize>, nat, Seq<char>)
    decreases elems.len() - i,
{
    if i < elems.len() && accepts(kinds, elems[i as int]) {
        let i2 = gather_end(elems, i + 1);
        let m2 = gathered_text(elems, i + 1, m);
        proof {
            lemma_gather_end_bounds(elems, i + 1);
        }
        let t = take_run(elems, kinds, i2, m2);
        (seq![i as usize] + t.0, t.1, t.2)
    } else {
        (Seq::empty(), i, m)
    }
}

fn kind_in(kinds: &[ElementKind], k: ElementKind) -> (r: bool)
    ensures
        r == kinds@.contains(k),
{
    let mut i: usize = 0;
    while i < kinds.len()
        invariant
            i <= kinds@.len(),
            forall|j: int| 0 <= j < i ==> kinds@[j] != k,
        decreases kinds@.len() - i,
    {
        if kinds[i] == k {
            assert(kinds@[i as int] == k);
            return true;
        }
        i = i + 1;
    }
    false
}

impl CommandMatcher {
    fn next_accepted(&self, kinds: &[ElementKind]) -> (r: bool)
        ensures
            r == (self.idx < self.elements@.len() && accepts(kinds@, self.elements@[self.idx as int])),
    {
        if self.idx >= self.elements.len() {
            return false;
        }
        match &self.elements[self.idx] {
            MessageElement::Item(k) => kind_in(kinds, *k),
            _ => false,
        }
    }

    fn take_next(&mut self)
        requires
            old(self).idx < old(self).elements@.len(),
        ensures
            taken_next(*old(self), *final(self)),
    {
        let n = self.elements.len();
        assert(self.idx < n);
        self.idx = self.idx + 1;
        self.push_text();
    }

    /// Takes the next element if no text is pending and it is of one of the
    /// kinds, and gathers the text after it; gives its index.
    pub fn get_element(&mut self, kinds: &[ElementKind]) -> (r: Option<usize>)
        ensures
            element_ready(*old(self), kinds@) ==> r == Some(old(self).idx) && taken_next(
                *old(self),
                *final(self),
            ),
            !element_ready(*old(self), kinds@) ==> r is None && *final(self) == *old(self),
    {
        if !self.matching.as_str().is_empty() {
            return None;
        }
        if self.next_accepted(kinds) {
            let result = self.idx;
            self.take_next();
            Some(result)
        } else {
            None
        }
    }

    /// As `get_element`, but a missing element is read as `None`.
    pub fn get_optional_element(&mut self, kinds: &[ElementKind]) -> (r: Option<Option<usize>>)
        ensures
            element_ready(*old(self), kinds@) ==> r == Some(Some(old(self).idx)) && taken_next(
                *old(self),
                *final(self),
            ),
            !element_ready(*old(self), kinds@) ==> r == Some(None::<usize>) && *final(self)
                == *old(self),
    {
        Some(self.get_element(kinds))
    }

    /// Takes elements of the kinds one after another, gathering the text
    /// after each, while the next element is of one of the kinds; gives their
    /// indices. Nothing is taken while text is pending at the start.
    pub fn get_elements(&mut self, kinds: &[ElementKind]) -> (r: Option<Vec<usize>>)
        ensures
            old(self).matching@.len() > 0 ==> (r matches Some(v) && v@.len() == 0) && *final(self)
                == *old(self),
            old(self).matching@.len() == 0 ==> {
                let t = take_run(old(self).elements@, kinds@, old(self).idx as nat, old(self).matching@);
                &&& r matches Some(v)
                &&& v@ == t.0
                &&& final(self).elements == old(self).elements
                &&& final(self).idx == t.1
                &&& final(self).matching@ == t.2
            },
    {
        let mut result: Vec<usize> = Vec::new();
        if !self.matching.as_str().is_empty() {
            return Some(result);
        }
        let ghost elems = self.elements@;
        let ghost whole = take_run(elems, kinds@, self.idx as nat, self.matching@);
        loop
            invariant_except_break
                self.elements == old(self).elements,
                self.elements@ == elems,
                ({
                    let t = take_run(elems, kinds@, self.idx as nat, self.matching@);
                    &&& result@ + t.0 == whole.0
                    &&& t.1 == whole.1
                    &&& t.2 == whole.2
                }),
            ensures
                self.elements == old(self).elements,
                result@ == whole.0,
                self.idx == whole.1,
                self.matching@ == whole.2,
            decreases elems.len() - self.idx,
        {
            if !self.next_accepted(kinds) {
                assert(result@ + Seq::<usize>::empty() =~= result@);
                break ;
            }
            let ghost prev = result@;
            let ghost i = self.idx;
            let ghost m = self.matching@;
            result.push(self.idx);
            proof {
                lemma_gather_end_bounds(elems, (i + 1) as nat);
            }
            self.take_next();
            proof {
                let t2 = take_run(elems, kinds@, self.idx as nat, self.matching@);
                assert(take_run(elems, kinds@, i as nat, m).0 == seq![i as usize] + t2.0);
                assert(result@ + t2.0 =~= prev + (seq![i as usize] + t2.0));
            }
        }
        Some(result)
    }
}

} // verus!
