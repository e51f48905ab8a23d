use proc_qq::text::{first_word_end, is_white_space_char, join_space, split_first_word, split_white_space, text_eq, text_starts_with, trim};
use proc_qq::value::{ParseError, TryFromStr};

#[test]
fn white_space_is_the_unicode_set() {
    for c in ['\t', '\n', '\u{b}', '\u{c}', '\r', ' ', '\u{85}', '\u{a0}', '\u{1680}', '\u{2000}', '\u{200a}', '\u{2028}', '\u{2029}', '\u{202f}', '\u{205f}', '\u{3000}'] {
        assert!(is_white_space_char(c));
        assert!(c.is_whitespace());
    }
    for c in ['a', '0', '\u{200b}', '\u{feff}', '_', '\u{180e}'] {
        assert!(!is_white_space_char(c));
        assert!(!c.is_whitespace());
    }
}

#[test]
fn trim_agrees_with_std() {
    for s in ["", "   ", " a ", "a", "\u{3000}ab c\u{a0}", "x \t", "\n\ny"] {
        assert_eq!(trim(s), s.trim());
    }
}

#[test]
fn split_agrees_with_runs_of_white_space() {
    assert_eq!(split_white_space(""), vec![""]);
    assert_eq!(split_white_space("a"), vec!["a"]);
    assert_eq!(split_white_space("a  b\tc"), vec!["a", "b", "c"]);
    assert_eq!(split_white_space(" a "), vec!["", "a", ""]);
    assert_eq!(split_white_space("   "), vec!["", ""]);
    let re = regex::Regex::new("\\s+").unwrap();
    for s in ["x\u{3000}y  z", " lead", "trail\n", "a\u{85}b"] {
        let ours = split_white_space(s);
        let theirs: Vec<String> = re.split(s).map(String::from).collect();
        assert_eq!(ours, theirs);
    }
}

#[test]
fn first_word_and_rest() {
    assert_eq!(first_word_end("ab cd"), 2);
    assert_eq!(first_word_end(" ab"), 0);
    let (w, r) = split_first_word("cmd  arg1 arg2 ");
    assert_eq!(w, "cmd");
    assert_eq!(r, "arg1 arg2");
    let (w, r) = split_first_word("");
    assert_eq!(w, "");
    assert_eq!(r, "");
}

#[test]
fn prefix_equality_join() {
    assert!(text_starts_with("hello", "he"));
    assert!(text_starts_with("hello", ""));
    assert!(!text_starts_with("he", "hello"));
    assert!(!text_starts_with("hello", "hx"));
    assert!(text_eq("abc", "abc"));
    assert!(!text_eq("abc", "abcd"));
    assert_eq!(join_space(&vec!["a".to_string(), "b".to_string(), "".to_string()]), "a b ");
    assert_eq!(join_space(&vec![]), "");
}

#[test]
fn integers_parse_as_std_parses() {
    assert_eq!(<u8 as TryFromStr>::try_from("255"), Ok(255));
    assert_eq!(<u8 as TryFromStr>::try_from("256"), Err(ParseError::InvalidInteger));
    assert_eq!(<u8 as TryFromStr>::try_from("+7"), Ok(7));
    assert_eq!(<u8 as TryFromStr>::try_from("-0"), Err(ParseError::InvalidInteger));
    assert_eq!(<u8 as TryFromStr>::try_from(""), Err(ParseError::InvalidInteger));
    assert_eq!(<u8 as TryFromStr>::try_from("+"), Err(ParseError::InvalidInteger));
    assert_eq!(<i8 as TryFromStr>::try_from("-128"), Ok(-128));
    assert_eq!(<i8 as TryFromStr>::try_from("-129"), Err(ParseError::InvalidInteger));
    assert_eq!(<i8 as TryFromStr>::try_from("-"), Err(ParseError::InvalidInteger));
    assert_eq!(<i128 as TryFromStr>::try_from("-170141183460469231731687303715884105728"), Ok(i128::MIN));
    assert_eq!(<u128 as TryFromStr>::try_from("340282366920938463463374607431768211455"), Ok(u128::MAX));
    assert_eq!(<u128 as TryFromStr>::try_from("340282366920938463463374607431768211456"), Err(ParseError::InvalidInteger));
    assert_eq!(<u64 as TryFromStr>::try_from("99999999999999999999999999999999999999999"), Err(ParseError::InvalidInteger));
    assert_eq!(<i32 as TryFromStr>::try_from("12a"), Err(ParseError::InvalidInteger));
    assert_eq!(<u32 as TryFromStr>::try_from("\u{0663}"), Err(ParseError::InvalidInteger));
    assert_eq!(<isize as TryFromStr>::try_from("-42"), Ok(-42));
    assert_eq!(<usize as TryFromStr>::try_from("42"), Ok(42));
    assert_eq!(<i16 as TryFromStr>::try_from("+32767"), Ok(32767));
    assert_eq!(<u16 as TryFromStr>::try_from(" 1"), Err(ParseError::InvalidInteger));
    assert_eq!(<i64 as TryFromStr>::try_from("-9223372036854775808"), Ok(i64::MIN));
}

#[test]
fn integers_agree_with_std_on_samples() {
    for s in ["0", "00012", "+0", "-0", "-1", "127", "128", "-128", "-129", "1_000", "", "+", "-", "9".repeat(40).as_str(), "٣"] {
        assert_eq!(<i8 as TryFromStr>::try_from(s).ok(), s.parse::<i8>().ok(), "{}", s);
        assert_eq!(<u8 as TryFromStr>::try_from(s).ok(), s.parse::<u8>().ok(), "{}", s);
        assert_eq!(<i64 as TryFromStr>::try_from(s).ok(), s.parse::<i64>().ok(), "{}", s);
        assert_eq!(<u128 as TryFromStr>::try_from(s).ok(), s.parse::<u128>().ok(), "{}", s);
    }
}

#[test]
fn bools_chars_strings() {
    assert_eq!(<bool as TryFromStr>::try_from("true"), Ok(true));
    assert_eq!(<bool as TryFromStr>::try_from("false"), Ok(false));
    assert_eq!(<bool as TryFromStr>::try_from("True"), Err(ParseError::InvalidBool));
    assert_eq!(<char as TryFromStr>::try_from("字"), Ok('字'));
    assert_eq!(<char as TryFromStr>::try_from("ab"), Err(ParseError::InvalidChar));
    assert_eq!(<char as TryFromStr>::try_from(""), Err(ParseError::InvalidChar));
    assert_eq!(<String as TryFromStr>::try_from("any text"), Ok("any text".to_string()));
}
