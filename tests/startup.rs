use sleepers::arguments::{parse_count, requested_sleepers, ArgumentError};
use sleepers::niceness::{niceness_to_set, TARGET_NICENESS};

fn args(list: &[Option<&str>]) -> Vec<Option<String>> {
    list.iter().map(|a| a.map(|s| s.to_string())).collect()
}

#[test]
fn no_argument_gives_one_sleeper() {
    assert_eq!(requested_sleepers(&args(&[])), Ok(1));
}

#[test]
fn one_argument_gives_its_count() {
    assert_eq!(requested_sleepers(&args(&[Some("20000")])), Ok(20000));
    assert_eq!(requested_sleepers(&args(&[Some("0")])), Ok(0));
}

#[test]
fn two_arguments_are_too_many() {
    assert_eq!(
        requested_sleepers(&args(&[Some("3"), Some("4")])),
        Err(ArgumentError::TooMany)
    );
}

#[test]
fn bad_first_argument_is_reported_before_surplus() {
    assert_eq!(
        requested_sleepers(&args(&[Some("x"), Some("4")])),
        Err(ArgumentError::NotACount)
    );
    assert_eq!(requested_sleepers(&args(&[None])), Err(ArgumentError::NotUnicode));
}

#[test]
fn counts_parse_like_usize() {
    for text in ["", "+", "-1", "-0", "12a", " 1", "1 ", "0x10", "18446744073709551616", "99999999999999999999999"] {
        assert_eq!(parse_count(text), text.parse::<usize>().ok(), "{text:?}");
    }
    for text in ["0", "+7", "007", "18446744073709551615", "8192"] {
        assert_eq!(parse_count(text), text.parse::<usize>().ok(), "{text:?}");
    }
    assert_eq!(parse_count("+42"), Some(42));
}

#[test]
fn niceness_only_ever_rises() {
    assert_eq!(niceness_to_set(0, TARGET_NICENESS), Some(15));
    assert_eq!(niceness_to_set(15, 15), Some(15));
    assert_eq!(niceness_to_set(-5, 15), Some(15));
    assert_eq!(niceness_to_set(19, 15), None);
}
