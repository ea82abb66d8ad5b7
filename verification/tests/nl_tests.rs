use coreutils::nl::{Config, ConfigError, NumberingStyle, RunState, Section, StyleError};
use coreutils::nl::{number_lines, step, style_validator};
use coreutils::render::NumberFormat;

fn default_config() -> Config {
    Config::new(
        NumberingStyle::NoNumber,
        NumberingStyle::NonEmpty,
        NumberingStyle::NoNumber,
        "\\:",
        1,
        1,
        NumberFormat::RightJustified,
        "\t".to_string(),
        1,
        6,
        false,
    )
    .unwrap()
}

fn run(cfg: &Config, state: &mut RunState, lines: &[&str]) -> Vec<String> {
    let owned: Vec<String> = lines.iter().map(|l| l.to_string()).collect();
    number_lines(cfg, state, &owned)
}

#[test]
fn style_letters_parse() {
    assert!(matches!(NumberingStyle::from_str("a"), Ok(NumberingStyle::All)));
    assert!(matches!(NumberingStyle::from_str("t"), Ok(NumberingStyle::NonEmpty)));
    assert!(matches!(NumberingStyle::from_str("n"), Ok(NumberingStyle::NoNumber)));
    assert!(matches!(NumberingStyle::from_str("pBRE"), Err(StyleError::RegexUnsupported)));
    assert!(matches!(NumberingStyle::from_str("p"), Err(StyleError::RegexUnsupported)));
    assert!(matches!(NumberingStyle::from_str("x"), Err(StyleError::UnknownStyle)));
    assert!(matches!(NumberingStyle::from_str(""), Err(StyleError::UnknownStyle)));
    assert!(matches!(NumberingStyle::from_str("at"), Err(StyleError::UnknownStyle)));
}

#[test]
fn validator_follows_parser() {
    assert!(matches!(style_validator("a".to_string()), Ok(())));
    assert!(matches!(style_validator("pX".to_string()), Err(StyleError::RegexUnsupported)));
    assert!(matches!(style_validator("q".to_string()), Err(StyleError::UnknownStyle)));
}

#[test]
fn delimiter_normalization() {
    let c = Config::new(
        NumberingStyle::NoNumber,
        NumberingStyle::NonEmpty,
        NumberingStyle::NoNumber,
        "x",
        1,
        1,
        NumberFormat::RightJustified,
        "\t".to_string(),
        1,
        6,
        false,
    )
    .unwrap();
    assert_eq!(c.delimiter, "x:");
    assert!(matches!(
        Config::new(
            NumberingStyle::NoNumber,
            NumberingStyle::NonEmpty,
            NumberingStyle::NoNumber,
            "",
            1,
            1,
            NumberFormat::RightJustified,
            "\t".to_string(),
            1,
            6,
            false,
        ),
        Err(ConfigError::EmptyDelimiter)
    ));
    assert!(matches!(
        Config::new(
            NumberingStyle::NoNumber,
            NumberingStyle::NonEmpty,
            NumberingStyle::NoNumber,
            "abc",
            1,
            1,
            NumberFormat::RightJustified,
            "\t".to_string(),
            1,
            6,
            false,
        ),
        Err(ConfigError::OversizedDelimiter)
    ));
}

#[test]
fn body_nonempty_numbering() {
    // Input ["foo", "", "bar"] under the default configuration: non-empty
    // lines get the counter, the lone blank line (join threshold 1) gets the
    // blank field.
    let cfg = default_config();
    let mut st = RunState::initial(&cfg);
    let out = run(&cfg, &mut st, &["foo", "", "bar"]);
    assert_eq!(out, vec!["     1\tfoo", "      \t", "     2\tbar"]);
    assert_eq!(st.line_no, 3);
}

#[test]
fn header_delimiter_switches_and_resets() {
    // The delimiter repeated three times switches to the header section and
    // resets the counter when renumbering is on.
    let cfg = default_config();
    let mut st = RunState::initial(&cfg);
    let out = run(&cfg, &mut st, &["one", "two"]);
    assert_eq!(out, vec!["     1\tone", "     2\ttwo"]);
    assert_eq!(st.line_no, 3);
    let out = run(&cfg, &mut st, &["\\:\\:\\:"]);
    assert_eq!(out, vec![""]);
    assert_eq!(st.current_section, Section::Header);
    assert_eq!(st.line_no, 1);
}

#[test]
fn delimiter_repetitions_pick_sections() {
    let cfg = default_config();
    for (line, section) in [
        ("\\:", Section::Footer),
        ("\\:\\:", Section::Body),
        ("\\:\\:\\:", Section::Header),
    ] {
        let mut st = RunState::initial(&cfg);
        let out = step(&cfg, &mut st, &line.to_string());
        assert_eq!(out, "");
        assert_eq!(st.current_section, section);
    }
}

#[test]
fn no_renumber_keeps_counter_across_sections() {
    let mut cfg = default_config();
    cfg.no_renumber = true;
    let mut st = RunState::initial(&cfg);
    let out = run(&cfg, &mut st, &["one", "two", "\\:\\:", "three"]);
    assert_eq!(out, vec!["     1\tone", "     2\ttwo", "", "     3\tthree"]);
    assert_eq!(st.line_no, 4);
    // Without the flag the same boundary resets the counter to start.
    cfg.no_renumber = false;
    let mut st = RunState::initial(&cfg);
    let out = run(&cfg, &mut st, &["one", "two", "\\:\\:", "three"]);
    assert_eq!(out, vec!["     1\tone", "     2\ttwo", "", "     1\tthree"]);
}

#[test]
fn style_none_never_touches_counter() {
    let mut cfg = default_config();
    cfg.style_body = NumberingStyle::NoNumber;
    let mut st = RunState::initial(&cfg);
    let out = run(&cfg, &mut st, &["a", "", "b"]);
    assert_eq!(out, vec!["      \ta", "      \t", "      \tb"]);
    assert_eq!(st.line_no, 1);
}

#[test]
fn style_all_numbers_blank_lines() {
    let mut cfg = default_config();
    cfg.style_body = NumberingStyle::All;
    let mut st = RunState::initial(&cfg);
    let out = run(&cfg, &mut st, &["a", "", "b"]);
    assert_eq!(out, vec!["     1\ta", "     2\t", "     3\tb"]);
}

#[test]
fn join_blank_lines_accumulates() {
    let mut cfg = default_config();
    cfg.style_body = NumberingStyle::All;
    cfg.join_blank_lines = 2;
    let mut st = RunState::initial(&cfg);
    let out = run(&cfg, &mut st, &["a", "", "", "b"]);
    // The first blank line of the pair is passed through bare; the second
    // completes the join unit and is numbered under style All.
    assert_eq!(out, vec!["     1\ta", "", "     2\t", "     3\tb"]);
    assert_eq!(st.empties_accumulated, 0);
}

#[test]
fn join_threshold_not_reached() {
    let mut cfg = default_config();
    cfg.join_blank_lines = 3;
    let mut st = RunState::initial(&cfg);
    let out = run(&cfg, &mut st, &["", ""]);
    assert_eq!(out, vec!["", ""]);
    assert_eq!(st.empties_accumulated, 2);
}

#[test]
fn increment_and_start_arithmetic() {
    let mut cfg = default_config();
    cfg.style_body = NumberingStyle::All;
    cfg.increment = 10;
    cfg.start = 5;
    let mut st = RunState::initial(&cfg);
    let out = run(&cfg, &mut st, &["a", "b", "c"]);
    assert_eq!(out, vec!["     5\ta", "    15\tb", "    25\tc"]);
    assert_eq!(st.line_no, 35);
}

#[test]
fn stripping_number_fields_recovers_input() {
    // Feeding the output back through a strip of the number field gives the
    // input lines verbatim: with style All and single-digit separators every
    // field here is exactly width 6 plus the tab.
    let mut cfg = default_config();
    cfg.style_body = NumberingStyle::All;
    let input = vec!["alpha", "", "beta gamma", "  indented", "delta"];
    let mut st = RunState::initial(&cfg);
    let out = run(&cfg, &mut st, &input);
    let stripped: Vec<&str> = out.iter().map(|l| &l[7..]).collect();
    assert_eq!(stripped, input);
}

#[test]
fn separator_and_formats() {
    let mut cfg = default_config();
    cfg.style_body = NumberingStyle::All;
    cfg.separator = ">>".to_string();
    cfg.width = 3;
    cfg.format = NumberFormat::LeftJustified;
    let mut st = RunState::initial(&cfg);
    let out = run(&cfg, &mut st, &["x"]);
    assert_eq!(out, vec!["1  >>x"]);
    cfg.format = NumberFormat::RightJustifiedZeroPadded;
    let mut st = RunState::initial(&cfg);
    let out = run(&cfg, &mut st, &["x"]);
    assert_eq!(out, vec!["001>>x"]);
}

#[test]
fn sections_use_their_own_styles() {
    let cfg = Config::new(
        NumberingStyle::All,
        NumberingStyle::NonEmpty,
        NumberingStyle::NoNumber,
        "\\:",
        1,
        1,
        NumberFormat::RightJustified,
        "\t".to_string(),
        1,
        6,
        false,
    )
    .unwrap();
    let mut st = RunState::initial(&cfg);
    let out = run(
        &cfg,
        &mut st,
        &["\\:\\:\\:", "head", "\\:\\:", "body", "\\:", "foot"],
    );
    assert_eq!(
        out,
        vec!["", "     1\thead", "", "     1\tbody", "", "      \tfoot"]
    );
    assert_eq!(st.current_section, Section::Footer);
}
