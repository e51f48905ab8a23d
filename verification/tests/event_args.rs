use proc_qq::event::{
    match_event_args_all, match_event_args_any, match_event_args_eq, match_event_args_not,
    match_event_args_regexp, match_event_args_trim_eq, match_event_args_trim_regexp,
    match_event_item, EventArg, HandEvent,
};

fn event(text: &str) -> HandEvent {
    HandEvent::GroupMessageEvent(text.to_string())
}

#[test]
fn content_gives_message_text() {
    let e = HandEvent::FriendMessageEvent("hello".to_string());
    assert_eq!(e.content().unwrap(), "hello");
    let e = HandEvent::MessageEvent(String::new());
    assert_eq!(e.content().unwrap(), "");
}

#[test]
fn empty_all_holds_empty_any_fails_empty_not_holds() {
    assert!(match_event_args_all(vec![], event("x")).unwrap());
    assert!(!match_event_args_any(vec![], event("x")).unwrap());
    assert!(match_event_args_not(vec![], event("x")).unwrap());
}

#[test]
fn eq_and_trim_eq() {
    assert!(match_event_args_eq("ping".to_string(), event("ping")).unwrap());
    assert!(!match_event_args_eq("ping".to_string(), event(" ping ")).unwrap());
    assert!(match_event_args_trim_eq("ping".to_string(), event(" \u{3000}ping\t\n")).unwrap());
    assert!(!match_event_args_trim_eq("ping".to_string(), event("pong")).unwrap());
}

#[test]
fn regexp_searches_anywhere() {
    assert!(match_event_args_regexp("^h.l+o$".to_string(), event("hello")).unwrap());
    assert!(!match_event_args_regexp("^h.l+o$".to_string(), event("hello!")).unwrap());
    assert!(match_event_args_regexp("\\d".to_string(), event("abc3def")).unwrap());
    assert!(!match_event_args_regexp("^abc$".to_string(), event(" abc ")).unwrap());
    assert!(match_event_args_trim_regexp("^abc$".to_string(), event(" abc ")).unwrap());
}

#[test]
fn invalid_pattern_is_reported() {
    let err = match_event_args_regexp("(unclosed".to_string(), event("x")).unwrap_err();
    assert_eq!(err.pattern, "(unclosed");
    let err = match_event_args_trim_regexp("a[".to_string(), event("x")).unwrap_err();
    assert_eq!(err.pattern, "a[");
}

#[test]
fn combinations_evaluate_in_order() {
    let args = vec![EventArg::Eq("a".to_string()), EventArg::Regexp("(".to_string())];
    // The first condition fails, so the bad pattern is never compiled.
    assert!(!match_event_args_all(args, event("b")).unwrap());
    let args = vec![EventArg::Eq("a".to_string()), EventArg::Regexp("(".to_string())];
    assert_eq!(match_event_args_all(args, event("a")).unwrap_err().pattern, "(");
    let args = vec![EventArg::Eq("a".to_string()), EventArg::Regexp("(".to_string())];
    assert!(match_event_args_any(args, event("a")).unwrap());
    let args = vec![EventArg::Eq("a".to_string()), EventArg::Eq("b".to_string())];
    assert!(!match_event_args_not(args, event("b")).unwrap());
    let args = vec![EventArg::Eq("a".to_string()), EventArg::Eq("b".to_string())];
    assert!(match_event_args_not(args, event("c")).unwrap());
}

#[test]
fn nested_conditions() {
    let arg = EventArg::All(vec![
        EventArg::TrimRegexp("^/".to_string()),
        EventArg::Any(vec![
            EventArg::TrimEq("/help".to_string()),
            EventArg::TrimEq("/?".to_string()),
        ]),
        EventArg::Not(vec![EventArg::Regexp("admin".to_string())]),
    ]);
    assert!(match_event_item(arg.clone(), event("  /help ")).unwrap());
    assert!(match_event_item(arg.clone(), event("/?")).unwrap());
    assert!(!match_event_item(arg.clone(), event("/start")).unwrap());
    assert!(!match_event_item(arg, event("help")).unwrap());
}

#[test]
fn cloned_condition_behaves_the_same() {
    let arg = EventArg::Any(vec![EventArg::Eq("x".to_string()), EventArg::Not(vec![])]);
    let copy = arg.clone();
    assert_eq!(
        match_event_item(arg, event("y")).unwrap(),
        match_event_item(copy, event("y")).unwrap()
    );
}
