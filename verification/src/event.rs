//! Conditions on the text of an incoming event: equality, regular
//! expressions, and their combinations with all / any / not.

use vstd::prelude::*;

use crate::pattern::{compile_regex, regex_compiles, regex_is_match, regex_matches};
use crate::text::{trim, trimmed};

verus! {

/// A condition on the text of an event.
#[derive(Debug)]
pub enum EventArg {
    /// Every condition holds (none at all counts as holding).
    All(Vec<EventArg>),
    /// Some condition holds (none at all counts as failing).
    Any(Vec<EventArg>),
    /// No condition holds (none at all counts as holding).
    Not(Vec<EventArg>),
    /// The regular expression matches somewhere in the text.
    Regexp(String),
    /// The text equals the string.
    Eq(String),
    /// The regular expression matches somewhere in the trimmed text.
    TrimRegexp(String),
    /// The trimmed text equals the string.
    TrimEq(String),
}

/// An incoming event, by its kind, with the text of its message.
#[derive(Clone, Debug)]
pub enum HandEvent {
    MessageEvent(String),
    FriendMessageEvent(String),
    GroupMessageEvent(String),
    GroupTempMessageEvent(String),
}

/// A pattern of a condition did not compile.
#[derive(Debug)]
pub struct MatchError {
    /// The pattern that failed.
    pub pattern: String,
    /// Why it failed.
    pub error: regex::Error,
}

/// Two lists of conditions that agree one by one on a text agree as a whole.
pub proof fn lemma_eval_lists_agree(a: Seq<EventArg>, b: Seq<EventArg>, text: Seq<char>)
    requires
        a.len() == b.len(),
        forall|i: int| 0 <= i < a.len() ==> eval_arg(#[trigger] a[i], text) == eval_arg(b[i], text),
    ensures
        eval_all(a, text) == eval_all(b, text),
        eval_any(a, text) == eval_any(b, text),
    decreases a.len(),
{
    if a.len() > 0 {
        assert(eval_arg(a[0], text) == eval_arg(b[0], text));
        let (a1, b1) = (a.drop_first(), b.drop_first());
        assert forall|i: int| 0 <= i < a1.len() implies eval_arg(#[trigger] a1[i], text) == eval_arg(b1[i], text) by {
            assert(a1[i] == a[i + 1]);
            assert(b1[i] == b[i + 1]);
        }
        lemma_eval_lists_agree(a1, b1, text);
    }
}

impl Clone for EventArg {
    fn clone(&self) -> (r: Self)
        ensures
            forall|text: Seq<char>| #[trigger] eval_arg(r, text) == eval_arg(*self, text),
        decreases self,
    {
        match self {
            EventArg::All(v) => {
                let c = clone_args(v);
                proof {
                    assert forall|text: Seq<char>| #[trigger] eval_arg(EventArg::All(c), text) == eval_arg(*self, text) by {
                        lemma_eval_lists_agree(c@, v@, text);
                    }
                }
                EventArg::All(c)
            },
            EventArg::Any(v) => {
                let c = clone_args(v);
                proof {
                    assert forall|text: Seq<char>| #[trigger] eval_arg(EventArg::Any(c), text) == eval_arg(*self, text) by {
                        lemma_eval_lists_agree(c@, v@, text);
                    }
                }
                EventArg::Any(c)
            },
            EventArg::Not(v) => {
                let c = clone_args(v);
                proof {
                    assert forall|text: Seq<char>| #[trigger] eval_arg(EventArg::Not(c), text) == eval_arg(*self, text) by {
                        lemma_eval_lists_agree(c@, v@, text);
                    }
                }
                EventArg::Not(c)
            },
            EventArg::Regexp(s) => EventArg::Regexp(s.clone()),
            EventArg::Eq(s) => EventArg::Eq(s.clone()),
            EventArg::TrimRegexp(s) => EventArg::TrimRegexp(s.clone()),
            EventArg::TrimEq(s) => EventArg::TrimEq(s.clone()),
        }
    }
}

fn clone_args(v: &Vec<EventArg>) -> (r: Vec<EventArg>)
    ensures
        r@.len() == v@.len(),
        forall|i: int, text: Seq<char>| 0 <= i < v@.len() ==> #[trigger] eval_arg(r@[i], text) == eval_arg(v@[i], text),
    decreases v,
{
    let mut r: Vec<EventArg> = Vec::new();
    let mut i: usize = 0;
    while i < v.len()
        invariant
            i <= v@.len(),
            r@.len() == i,
            forall|k: int, text: Seq<char>| 0 <= k < i ==> #[trigger] eval_arg(r@[k], text) == eval_arg(v@[k], text),
        decreases v@.len() - i,
    {
        assert(decreases_to!(v => v@[i as int]));
        let c = v[i].clone();
        r.push(c);
        i = i + 1;
    }
    r
}

impl HandEvent {
    /// The text of the event's message.
    pub open spec fn text(self) -> Seq<char> {
        match self {
            HandEvent::MessageEvent(c) => c@,
            HandEvent::FriendMessageEvent(c) => c@,
            HandEvent::GroupMessageEvent(c) => c@,
            HandEvent::GroupTempMessageEvent(c) => c@,
        }
    }

    fn message(&self) -> (r: &String)
        ensures
            r@ == self.text(),
    {
        match self {
            HandEvent::MessageEvent(c) => c,
            HandEvent::FriendMessageEvent(c) => c,
            HandEvent::GroupMessageEvent(c) => c,
            HandEvent::GroupTempMessageEvent(c) => c,
        }
    }

    /// The text of the event's message; this never fails.
    pub fn content(&self) -> (r: Result<&String, MatchError>)
        ensures
            r is Ok,
            r matches Ok(c) ==> c@ == self.text(),
    {
        Ok(self.message())
    }
}

/// The outcome of a regular expression on a text: whether it matches, or,
/// when the pattern does not compile, the pattern.
pub open spec fn regex_outcome(pattern: Seq<char>, text: Seq<char>) -> Result<bool, Seq<char>> {
    if regex_compiles(pattern) {
        Ok(regex_is_match(pattern, text))
    } else {
        Err(pattern)
    }
}

/// The outcome of one condition on a text: whether it holds, or the first
/// pattern (in the order of evaluation) that does not compile.
pub open spec fn eval_arg(arg: EventArg, text: Seq<char>) -> Result<bool, Seq<char>>
    decreases arg,
{
    match arg {
        EventArg::All(v) => eval_all(v@, text),
        EventArg::Any(v) => eval_any(v@, text),
        EventArg::Not(v) => match eval_any(v@, text) {
            Ok(b) => Ok(!b),
            Err(p) => Err(p),
        },
        EventArg::Regexp(p) => regex_outcome(p@, text),
        EventArg::Eq(s) => Ok(s@ == text),
        EventArg::TrimRegexp(p) => regex_outcome(p@, trimmed(text)),
        EventArg::TrimEq(s) => Ok(s@ == trimmed(text)),
    }
}

/// The conditions are evaluated in order; the first that fails or errs decides.
pub open spec fn eval_all(args: Seq<EventArg>, text: Seq<char>) -> Result<bool, Seq<char>>
    decreases args,
{
    if args.len() == 0 {
        Ok(true)
    } else {
        match eval_arg(args[0], text) {
            Ok(true) => eval_all(args.drop_first(), text),
            other => other,
        }
    }
}

/// The conditions are evaluated in order; the first that holds or errs decides.
pub open spec fn eval_any(args: Seq<EventArg>, text: Seq<char>) -> Result<bool, Seq<char>>
    decreases args,
{
    if args.len() == 0 {
        Ok(false)
    } else {
        match eval_arg(args[0], text) {
            Ok(false) => eval_any(args.drop_first(), text),
            other => other,
        }
    }
}

/// An executable outcome agrees with an outcome of the model: the same
/// answer, or an error on the same pattern.
pub open spec fn agrees(r: Result<bool, MatchError>, m: Result<bool, Seq<char>>) -> bool {
    match r {
        Ok(b) => m == Ok::<bool, Seq<char>>(b),
        Err(e) => m == Err::<bool, Seq<char>>(e.pattern@),
    }
}

fn regex_on(pattern: &String, text: &str) -> (r: Result<bool, MatchError>)
    ensures
        agrees(r, regex_outcome(pattern@, text@)),
{
    match compile_regex(pattern.as_str()) {
        Ok(re) => Ok(regex_matches(&re, text)),
        Err(error) => Err(MatchError { pattern: pattern.clone(), error }),
    }
}

fn text_equals(s: &String, text: &str) -> (r: bool)
    ensures
        r == (s@ == text@),
{
    let t = String::from_str(text);
    *s == t
}

fn eval_item(arg: &EventArg, text: &str) -> (r: Result<bool, MatchError>)
    ensures
        agrees(r, eval_arg(*arg, text@)),
    decreases arg,
{
    match arg {
        EventArg::All(v) => all_of(v, text),
        EventArg::Any(v) => any_of(v, text),
        EventArg::Not(v) => match any_of(v, text) {
            Ok(b) => Ok(!b),
            Err(e) => Err(e),
        },
        EventArg::Regexp(p) => regex_on(p, text),
        EventArg::Eq(s) => Ok(text_equals(s, text)),
        EventArg::TrimRegexp(p) => regex_on(p, trim(text)),
        EventArg::TrimEq(s) => Ok(text_equals(s, trim(text))),
    }
}

fn all_of(args: &Vec<EventArg>, text: &str) -> (r: Result<bool, MatchError>)
    ensures
        agrees(r, eval_all(args@, text@)),
    decreases args,
{
    let mut i: usize = 0;
    assert(args@.skip(0) =~= args@);
    while i < args.len()
        invariant
            i <= args@.len(),
            eval_all(args@.skip(i as int), text@) == eval_all(args@, text@),
        decreases args@.len() - i,
    {
        let ghost rest = args@.skip(i as int);
        assert(rest[0] == args@[i as int]);
        assert(rest.drop_first() =~= args@.skip(i + 1));
        assert(decreases_to!(args => args@[i as int]));
        match eval_item(&args[i], text) {
            Ok(true) => {},
            Ok(false) => return Ok(false),
            Err(e) => return Err(e),
        }
        i = i + 1;
    }
    Ok(true)
}

fn any_of(args: &Vec<EventArg>, text: &str) -> (r: Result<bool, MatchError>)
    ensures
        agrees(r, eval_any(args@, text@)),
    decreases args,
{
    let mut i: usize = 0;
    assert(args@.skip(0) =~= args@);
    while i < args.len()
        invariant
            i <= args@.len(),
            eval_any(args@.skip(i as int), text@) == eval_any(args@, text@),
        decreases args@.len() - i,
    {
        let ghost rest = args@.skip(i as int);
        assert(rest[0] == args@[i as int]);
        assert(rest.drop_first() =~= args@.skip(i + 1));
        assert(decreases_to!(args => args@[i as int]));
        match eval_item(&args[i], text) {
            Ok(false) => {},
            Ok(true) => return Ok(true),
            Err(e) => return Err(e),
        }
        i = i + 1;
    }
    Ok(false)
}

/// Whether every condition holds on the event's text, evaluated in order
/// and stopping at the first that fails; no conditions at all hold.
pub fn match_event_args_all(args: Vec<EventArg>, event: HandEvent) -> (r: Result<bool, MatchError>)
    ensures
        agrees(r, eval_all(args@, event.text())),
{
    all_of(&args, event.message().as_str())
}

/// Whether some condition holds on the event's text, evaluated in order
/// and stopping at the first that holds; no conditions at all fail.
pub fn match_event_args_any(args: Vec<EventArg>, event: HandEvent) -> (r: Result<bool, MatchError>)
    ensures
        agrees(r, eval_any(args@, event.text())),
{
    any_of(&args, event.message().as_str())
}

/// Whether no condition holds on the event's text, evaluated in order and
/// stopping at the first that holds; no conditions at all hold.
pub fn match_event_args_not(args: Vec<EventArg>, event: HandEvent) -> (r: Result<bool, MatchError>)
    ensures
        agrees(r, eval_arg(EventArg::Not(args), event.text())),
{
    match any_of(&args, event.message().as_str()) {
        Ok(b) => Ok(!b),
        Err(e) => Err(e),
    }
}

/// Whether the regular expression matches somewhere in the event's text.
pub fn match_event_args_regexp(args: String, event: HandEvent) -> (r: Result<bool, MatchError>)
    ensures
        agrees(r, regex_outcome(args@, event.text())),
{
    regex_on(&args, event.message().as_str())
}

/// Whether the event's text equals `args`.
pub fn match_event_args_eq(args: String, event: HandEvent) -> (r: Result<bool, MatchError>)
    ensures
        r == Ok::<bool, MatchError>(args@ == event.text()),
{
    Ok(text_equals(&args, event.message().as_str()))
}

/// Whether the regular expression matches somewhere in the event's trimmed text.
pub fn match_event_args_trim_regexp(args: String, event: HandEvent) -> (r: Result<bool, MatchError>)
    ensures
        agrees(r, regex_outcome(args@, trimmed(event.text()))),
{
    regex_on(&args, trim(event.message().as_str()))
}

/// Whether the event's trimmed text equals `args`.
pub fn match_event_args_trim_eq(args: String, event: HandEvent) -> (r: Result<bool, MatchError>)
    ensures
        r == Ok::<bool, MatchError>(args@ == trimmed(event.text())),
{
    Ok(text_equals(&args, trim(event.message().as_str())))
}

/// Whether one condition holds on the event's text.
pub fn match_event_item(arg: EventArg, event: HandEvent) -> (r: Result<bool, MatchError>)
    ensures
        agrees(r, eval_arg(arg, event.text())),
{
    eval_item(&arg, event.message().as_str())
}

} // verus!
