use citeproc::numeric::NumericToken::{Affixed, Ampersand, Comma, Hyphen, Num};
use citeproc::numeric::{num_ish, num_tokens, sep, NumericToken, NumericValue};

fn affixed(s: &str) -> NumericToken {
    Affixed(s.to_string())
}

#[test]
fn test_numeric_value() {
    assert_eq!(
        NumericValue::from("2-5, 9"),
        NumericValue::Tokens(vec![Num(2), Hyphen, Num(5), Comma, Num(9)])
    );
    assert_eq!(
        NumericValue::from("2 - 5, 9, edition"),
        NumericValue::Str("2 - 5, 9, edition".to_string())
    );
    assert_eq!(
        NumericValue::from("[1.2.3]"),
        NumericValue::Tokens(vec![affixed("[1.2.3]")])
    );
    assert_eq!(
        NumericValue::from("[3], (5), [17.1.89(4(1))(2)(a)(i)]"),
        NumericValue::Tokens(vec![
            affixed("[3]"),
            Comma,
            affixed("(5)"),
            Comma,
            affixed("[17.1.89(4(1))(2)(a)(i)]")
        ])
    );
}

#[test]
fn test_page_first() {
    assert_eq!(
        NumericValue::from("2-5, 9").page_first().unwrap(),
        NumericValue::Tokens(vec![Num(2)])
    );
}

#[test]
fn parses_the_documented_examples() {
    assert_eq!(
        NumericValue::from("2, 4"),
        NumericValue::Tokens(vec![Num(2), Comma, Num(4)])
    );
    assert_eq!(
        NumericValue::from("2-4, 5"),
        NumericValue::Tokens(vec![Num(2), Hyphen, Num(4), Comma, Num(5)])
    );
    assert_eq!(
        NumericValue::from("2 -4 , 5"),
        NumericValue::Tokens(vec![Num(2), Hyphen, Num(4), Comma, Num(5)])
    );
    assert_eq!(
        NumericValue::from("2 -4    , 5"),
        NumericValue::Tokens(vec![Num(2), Hyphen, Num(4), Comma, Num(5)])
    );
    assert_eq!(NumericValue::from("2nd"), NumericValue::Tokens(vec![affixed("2nd")]));
    assert_eq!(NumericValue::from("L2"), NumericValue::Tokens(vec![affixed("L2")]));
    assert_eq!(NumericValue::from("L2tp"), NumericValue::Tokens(vec![affixed("L2tp")]));
    assert_eq!(NumericValue::from("2b"), NumericValue::Tokens(vec![affixed("2b")]));
    assert_eq!(
        NumericValue::from("2nd-4th"),
        NumericValue::Tokens(vec![affixed("2nd"), Hyphen, affixed("4th")])
    );
    assert_eq!(
        NumericValue::from("2 & 4"),
        NumericValue::Tokens(vec![Num(2), Ampersand, Num(4)])
    );
}

#[test]
fn falls_back_to_the_string() {
    for s in ["2nd edition", "-5", "5,,7", "5 7 9 11", "5,", "", " 5", "5 ", "edition", "5, edition"] {
        assert_eq!(NumericValue::from(s), NumericValue::Str(s.to_string()));
        assert!(!NumericValue::from(s).is_numeric());
        assert_eq!(NumericValue::from(s).to_string(), s);
        assert!(NumericValue::from(s).page_first().is_none());
    }
}

#[test]
fn numbers_that_do_not_fit_are_not_numeric() {
    assert_eq!(
        NumericValue::from("4294967295"),
        NumericValue::Tokens(vec![Num(4294967295)])
    );
    assert_eq!(
        NumericValue::from("4294967296"),
        NumericValue::Str("4294967296".to_string())
    );
    assert_eq!(
        NumericValue::from("99999999999999999999999"),
        NumericValue::Str("99999999999999999999999".to_string())
    );
    assert_eq!(NumericValue::from("007"), NumericValue::Tokens(vec![Num(7)]));
}

#[test]
fn writes_the_normal_form() {
    assert_eq!(NumericValue::from("2 -4 , 5").to_string(), "2-4, 5");
    assert_eq!(NumericValue::from("2&4").to_string(), "2 & 4");
    assert_eq!(NumericValue::from("2nd-4th").to_string(), "2nd-4th");
    assert_eq!(NumericValue::from("0").to_string(), "0");
    assert_eq!(NumericValue::from("1203").to_string(), "1203");
    assert_eq!(NumericValue::num(4294967295).to_string(), "4294967295");
}

#[test]
fn reading_what_was_written_gives_the_same_tokens() {
    for s in ["2 -4 , 5", "2&4", "2nd - 4th , [3]", "007", "12", "L2tp&9"] {
        let first = NumericValue::from(s);
        assert!(first.is_numeric());
        let again = NumericValue::from(first.to_string().as_str());
        assert_eq!(first, again);
    }
}

#[test]
fn multiple_means_more_than_one_token() {
    assert!(!NumericValue::from("5").is_multiple());
    assert!(NumericValue::from("5-7").is_multiple());
    assert!(!NumericValue::from("5 7").is_multiple());
    assert!(!NumericValue::num(3).is_multiple());
}

#[test]
fn first_page_needs_a_leading_number() {
    assert!(NumericValue::from("2nd-5").page_first().is_none());
    assert_eq!(NumericValue::from("12").page_first().unwrap(), NumericValue::num(12));
}

#[test]
fn clone_keeps_the_value() {
    let v = NumericValue::from("2nd-4, 5");
    assert_eq!(v.clone(), v);
}

#[test]
fn test_num_token_parser() {
    assert_eq!(num_ish("2"), Some(("".to_string(), Num(2))));
    assert_eq!(num_ish("2b"), Some(("".to_string(), NumericToken::Affixed("2b".to_string()))));
    assert_eq!(sep("- "), Some(("".to_string(), Hyphen)));
    assert_eq!(sep(", "), Some(("".to_string(), Comma)));
    assert_eq!(
        num_tokens("2, 3"),
        Some(("".to_string(), vec![Num(2), Comma, Num(3)]))
    );
    assert_eq!(
        num_tokens("2 - 5, 9"),
        Some(("".to_string(), vec![Num(2), Hyphen, Num(5), Comma, Num(9)]))
    );
    assert_eq!(
        num_tokens("2 - 5, 9, edition"),
        Some((
            ", edition".to_string(),
            vec![Num(2), Hyphen, Num(5), Comma, Num(9)]
        ))
    );
}

#[test]
fn what_is_left_starts_where_reading_stopped() {
    assert_eq!(num_tokens("5,,7"), Some((",,7".to_string(), vec![Num(5)])));
    assert_eq!(num_tokens("5 7 9 11"), Some((" 7 9 11".to_string(), vec![Num(5)])));
    assert_eq!(num_tokens("5,"), Some((",".to_string(), vec![Num(5)])));
    assert_eq!(num_tokens("5 "), Some((" ".to_string(), vec![Num(5)])));
    assert_eq!(num_tokens("2nd edition"), Some((" edition".to_string(), vec![affixed("2nd")])));
    assert_eq!(num_tokens("-5"), None);
    assert_eq!(num_tokens(""), None);
    assert_eq!(num_tokens("1-99999999999"), Some(("-99999999999".to_string(), vec![Num(1)])));
    assert_eq!(num_ish("12 rest"), Some((" rest".to_string(), Num(12))));
    assert_eq!(num_ish("rest"), None);
    assert_eq!(num_ish(" 2"), None);
    assert_eq!(sep("  &  x"), Some(("x".to_string(), Ampersand)));
    assert_eq!(sep("x"), None);
    assert_eq!(sep("   "), None);
    assert_eq!(sep(""), None);
}
