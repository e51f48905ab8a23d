use proc_qq::command_matcher::{matcher_get, matcher_get_enum, CommandMatcher, ElementKind, MessageElement};
use proc_qq::tuple_matcher::{read_if_found, tuple_matcher_get, tuple_matcher_get_enum, TupleMatcher};

fn text(s: &str) -> MessageElement {
    MessageElement::Text(s.to_string())
}

fn tm(s: &str) -> TupleMatcher {
    TupleMatcher::new(s.to_string())
}

#[test]
fn tuple_match_command_cuts_prefix() {
    let mut m = tm("add42");
    assert!(m.match_command("add"));
    assert_eq!(m, tm("42"));
    assert!(!m.match_command("x"));
    assert_eq!(m, tm("42"));
    let mut m = tm("xadd");
    assert!(!m.match_command("add"));
    assert!(m.match_command(""));
    assert_eq!(m, tm("xadd"));
}

#[test]
fn tuple_strings_take_the_whole_token() {
    let mut m = tm("abc");
    assert_eq!(tuple_matcher_get::<String>(&mut m), Some("abc".to_string()));
    assert_eq!(m, tm(""));
    assert_eq!(tuple_matcher_get::<String>(&mut m), None);
    assert_eq!(tuple_matcher_get::<Option<String>>(&mut m), Some(None));
    assert_eq!(tuple_matcher_get::<Vec<String>>(&mut m), Some(vec![]));
    assert_eq!(tuple_matcher_get::<Vec<Option<String>>>(&mut m), Some(vec![]));
    let mut m = tm("x");
    assert_eq!(tuple_matcher_get::<Vec<Option<String>>>(&mut m), Some(vec![Some("x".to_string())]));
    let mut m = tm("y");
    assert_eq!(tuple_matcher_get::<Vec<String>>(&mut m), Some(vec!["y".to_string()]));
    let mut m = tm("z");
    assert_eq!(tuple_matcher_get::<Option<String>>(&mut m), Some(Some("z".to_string())));
}

#[test]
fn tuple_scalars_read_without_consuming() {
    let mut m = tm("42");
    assert_eq!(tuple_matcher_get::<u32>(&mut m), Some(42));
    assert_eq!(m, tm("42"));
    assert_eq!(tuple_matcher_get::<i8>(&mut tm("-5")), Some(-5));
    assert_eq!(tuple_matcher_get::<u8>(&mut tm("-5")), None);
    assert_eq!(tuple_matcher_get::<u8>(&mut tm("x5")), None);
    assert_eq!(tuple_matcher_get::<u8>(&mut tm("abc")), None);
    assert_eq!(tuple_matcher_get::<bool>(&mut tm("true")), Some(true));
    assert_eq!(tuple_matcher_get::<bool>(&mut tm("yes")), None);
    assert_eq!(tuple_matcher_get::<char>(&mut tm("7")), Some('7'));
    assert_eq!(tuple_matcher_get::<char>(&mut tm("a")), None);
    assert_eq!(tuple_matcher_get::<Option<u64>>(&mut tm("9")), Some(Some(9)));
    assert_eq!(tuple_matcher_get::<Option<u64>>(&mut tm("q")), Some(None));
    assert_eq!(tuple_matcher_get::<Vec<i64>>(&mut tm("-3")), Some(vec![-3]));
    assert_eq!(tuple_matcher_get::<Vec<i64>>(&mut tm("")), Some(vec![]));
    assert_eq!(tuple_matcher_get::<usize>(&mut tm("10")), Some(10));
    assert_eq!(tuple_matcher_get::<isize>(&mut tm("-10")), Some(-10));
    assert_eq!(tuple_matcher_get::<i128>(&mut tm("1")), Some(1));
    assert_eq!(tuple_matcher_get::<u128>(&mut tm("1")), Some(1));
    assert_eq!(tuple_matcher_get::<i16>(&mut tm("1")), Some(1));
    assert_eq!(tuple_matcher_get::<i32>(&mut tm("1")), Some(1));
    assert_eq!(tuple_matcher_get::<u16>(&mut tm("1")), Some(1));
}

#[test]
fn read_if_found_reads_only_when_found() {
    assert_eq!(read_if_found::<u8>(true, "12"), Some(12));
    assert_eq!(read_if_found::<u8>(false, "12"), None);
    assert_eq!(read_if_found::<u8>(true, "x"), None);
}

#[test]
fn tuple_enum_takes_first_listed_prefix() {
    let mut m = tm("red apple");
    assert_eq!(tuple_matcher_get_enum::<String>(&mut m, vec!["blue", "re", "red"]), Some("re".to_string()));
    assert_eq!(m, tm("d apple"));
    let mut m = tm("12 left");
    assert_eq!(tuple_matcher_get_enum::<u8>(&mut m, vec!["1", "12"]), Some(1));
    assert_eq!(m, tm("2 left"));
    let mut m = tm("abc");
    assert_eq!(tuple_matcher_get_enum::<u8>(&mut m, vec!["ab"]), None);
    assert_eq!(m, tm("abc"));
    assert_eq!(tuple_matcher_get_enum::<String>(&mut tm(""), vec![""]), None);
    assert_eq!(tuple_matcher_get_enum::<String>(&mut tm("zz"), vec!["a"]), None);
}

#[test]
fn command_matcher_gathers_leading_text() {
    let m = CommandMatcher::new(vec![
        text("  /roll "),
        MessageElement::Other,
        text("2d6  "),
        MessageElement::Item(ElementKind::At),
        text(" tail"),
    ]);
    assert_eq!(m.idx, 3);
    assert_eq!(m.matching, "/roll 2d6");
    assert!(m.not_blank());
    let m = CommandMatcher::new(vec![]);
    assert_eq!(m.idx, 0);
    assert_eq!(m.matching, "");
    assert!(!m.not_blank());
}

#[test]
fn command_matcher_reads_commands_and_words() {
    let mut m = CommandMatcher::new(vec![text("ban  alice 30 true x")]);
    assert!(!m.match_command("ba"));
    assert!(m.match_command("ban"));
    assert_eq!(m.matching, "alice 30 true x");
    assert_eq!(matcher_get::<u32>(&mut m), None);
    assert_eq!(m.matching, "alice 30 true x");
    assert_eq!(matcher_get::<String>(&mut m), Some("alice".to_string()));
    assert_eq!(matcher_get::<Option<u32>>(&mut m), Some(Some(30)));
    assert_eq!(matcher_get::<Option<u32>>(&mut m), Some(None));
    assert_eq!(matcher_get::<bool>(&mut m), Some(true));
    assert_eq!(matcher_get::<char>(&mut m), Some('x'));
    assert_eq!(m.matching, "");
    assert_eq!(matcher_get::<String>(&mut m), None);
    assert_eq!(matcher_get::<Option<String>>(&mut m), Some(None));
}

#[test]
fn command_matcher_repeated_words() {
    let mut m = CommandMatcher::new(vec![text("1 2 3 x 4 y")]);
    assert_eq!(matcher_get::<Vec<i32>>(&mut m), Some(vec![1, 2, 3]));
    assert_eq!(m.matching, "x 4 y");
    assert_eq!(matcher_get::<Vec<i32>>(&mut m), Some(vec![]));
    assert_eq!(m.matching, "x 4 y");
    assert_eq!(matcher_get::<Vec<String>>(&mut m), Some(vec!["x".to_string(), "4".to_string(), "y".to_string()]));
    assert_eq!(m.matching, "");
    assert_eq!(matcher_get::<Vec<String>>(&mut m), Some(vec!["".to_string()]));
    let mut m = CommandMatcher::new(vec![text("5 6")]);
    assert_eq!(matcher_get::<Vec<u8>>(&mut m), Some(vec![5, 6]));
    assert_eq!(m.matching, "");
    assert_eq!(matcher_get::<Vec<u8>>(&mut m), Some(vec![]));
}

#[test]
fn command_matcher_tuple_and_enum() {
    let mut m = CommandMatcher::new(vec![text("set3 mode fast")]);
    let t = m.tuple_matcher().unwrap();
    assert_eq!(t, TupleMatcher::new("set3".to_string()));
    assert_eq!(m.matching, "mode fast");
    assert_eq!(matcher_get_enum::<String>(&mut m, vec!["fast", "slow"]), None);
    assert_eq!(matcher_get_enum::<String>(&mut m, vec!["mode"]), Some("mode".to_string()));
    assert_eq!(matcher_get_enum::<u8>(&mut m, vec!["fast"]), None);
    assert_eq!(m.matching, "fast");
    let mut m = CommandMatcher::new(vec![]);
    assert!(m.tuple_matcher().is_none());
}

#[test]
fn command_matcher_elements() {
    let images = [ElementKind::FriendImage, ElementKind::GroupImage, ElementKind::FlashImage];
    let mut m = CommandMatcher::new(vec![
        text("pic"),
        MessageElement::Item(ElementKind::GroupImage),
        MessageElement::Item(ElementKind::FlashImage),
        text(" next "),
        MessageElement::Item(ElementKind::At),
    ]);
    assert!(m.match_command("pic"));
    assert_eq!(m.get_element(&[ElementKind::At]), None);
    assert_eq!(m.get_elements(&images), Some(vec![1, 2]));
    assert_eq!(m.idx, 4);
    assert_eq!(m.matching, "next");
    assert_eq!(m.get_optional_element(&[ElementKind::At]), Some(None));
    assert_eq!(matcher_get::<String>(&mut m), Some("next".to_string()));
    assert_eq!(m.get_optional_element(&[ElementKind::At]), Some(Some(4)));
    assert_eq!(m.idx, 5);
    assert_eq!(m.get_element(&[ElementKind::At]), None);
    assert_eq!(m.get_elements(&[ElementKind::At]), Some(vec![]));
}
