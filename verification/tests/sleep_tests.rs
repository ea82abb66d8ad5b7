use coreutils::sleep::{split_duration, SleepError};

fn split(tok: &str) -> (String, Result<u64, SleepError>) {
    split_duration(&tok.to_string())
}

#[test]
fn bare_number_is_seconds() {
    let (prefix, unit) = split("10");
    assert_eq!(prefix, "10");
    assert_eq!(unit.unwrap(), 1000);
}

#[test]
fn unit_suffixes() {
    assert_eq!(split("5s").0, "5");
    assert_eq!(split("5s").1.unwrap(), 1000);
    assert_eq!(split("1.5m").0, "1.5");
    assert_eq!(split("1.5m").1.unwrap(), 60000);
    assert_eq!(split("2h").1.unwrap(), 3600000);
    assert_eq!(split("0.5d").1.unwrap(), 86400000);
}

#[test]
fn bare_unit_has_empty_prefix() {
    let (prefix, unit) = split("h");
    assert_eq!(prefix, "");
    assert_eq!(unit.unwrap(), 3600000);
}

#[test]
fn text_after_the_unit_is_ignored() {
    let (prefix, unit) = split("7s123x");
    assert_eq!(prefix, "7");
    assert_eq!(unit.unwrap(), 1000);
}

#[test]
fn unknown_unit_is_invalid_and_carries_the_token() {
    match split("3x").1 {
        Err(SleepError::InvalidInterval(t)) => assert_eq!(t, "3x"),
        _ => panic!("expected the invalid-interval error"),
    }
}

#[test]
fn empty_token_scans_to_default_seconds() {
    let (prefix, unit) = split("");
    assert_eq!(prefix, "");
    assert_eq!(unit.unwrap(), 1000);
}
