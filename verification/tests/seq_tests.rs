use coreutils::seq_tool::{is_option, parse_options, Options, SeqAction, SeqError};

fn args(list: &[&str]) -> Vec<String> {
    list.iter().map(|s| s.to_string()).collect()
}

#[test]
fn default_options_use_newline() {
    let o = Options::new();
    assert_eq!(o.separator, "\n");
}

#[test]
fn option_recognition() {
    assert!(!is_option(None));
    let yes = ["-s", "--separator", "-h", "--Version", "-V1"];
    for a in yes {
        assert!(is_option(Some(&a.to_string())), "{}", a);
    }
    let no = ["", "-", "--", "5", "-5", "--5x", "x-s", " -s"];
    for a in no {
        assert!(!is_option(Some(&a.to_string())), "{}", a);
    }
}

#[test]
fn no_options_means_run_with_defaults() {
    let r = parse_options(&args(&["3", "7"])).unwrap();
    match r {
        (SeqAction::Run(o), next) => {
            assert_eq!(o.separator, "\n");
            assert_eq!(next, 0);
        }
        _ => panic!("expected a run"),
    }
}

#[test]
fn separator_option_takes_the_next_argument() {
    let r = parse_options(&args(&["-s", ";", "1", "5"])).unwrap();
    match r {
        (SeqAction::Run(o), next) => {
            assert_eq!(o.separator, ";");
            assert_eq!(next, 2);
        }
        _ => panic!("expected a run"),
    }
    let r = parse_options(&args(&["--separator", "-s", "4"])).unwrap();
    match r {
        (SeqAction::Run(o), next) => {
            assert_eq!(o.separator, "-s");
            assert_eq!(next, 2);
        }
        _ => panic!("expected a run"),
    }
}

#[test]
fn separator_without_value_is_an_error() {
    assert!(matches!(
        parse_options(&args(&["-s"])),
        Err(SeqError::MissingSeparatorValue)
    ));
}

#[test]
fn help_and_version_stop_parsing() {
    assert!(matches!(
        parse_options(&args(&["-h", "3"])).unwrap(),
        (SeqAction::Help, 1)
    ));
    assert!(matches!(
        parse_options(&args(&["--help"])).unwrap(),
        (SeqAction::Help, 1)
    ));
    assert!(matches!(
        parse_options(&args(&["-s", "x", "-V"])).unwrap(),
        (SeqAction::Version, 3)
    ));
    assert!(matches!(
        parse_options(&args(&["--version", "9"])).unwrap(),
        (SeqAction::Version, 1)
    ));
}

#[test]
fn unknown_option_is_reported_with_its_text() {
    match parse_options(&args(&["-q", "3"])) {
        Err(SeqError::UnknownOption(s)) => assert_eq!(s, "-q"),
        _ => panic!("expected the unknown-option error"),
    }
}
