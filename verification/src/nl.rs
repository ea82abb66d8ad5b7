//! The line-numbering filter.
//!
//! Input lines are classified into header/body/footer sections by delimiter
//! lines: the section delimiter repeated once marks the start of the footer,
//! twice the body, three times the header. Each section has a numbering
//! style: number every line, number only non-empty lines, or number none.
//! The filter is a per-line state machine over `RunState`; `step` consumes
//! one line and yields one output line, `number_lines` folds `step` over a
//! whole input.
use vstd::prelude::*;
use vstd::string::*;

use crate::render::{NumberFormat, render_number, rendered_number, repeat_char};

verus! {

/// Which lines of a section receive a rendered counter.
#[derive(Clone, Copy, PartialEq, Eq, Structural, Debug)]
pub enum NumberingStyle {
    /// Number every line.
    All,
    /// Number only non-empty lines.
    NonEmpty,
    /// Number no line; emit a blank field instead.
    NoNumber,
}

/// Why a numbering-style letter was rejected.
#[derive(Clone, Copy, PartialEq, Eq, Structural, Debug)]
pub enum StyleError {
    /// A `p`-prefixed style selects numbering by regular expression, which
    /// is reserved but not supported.
    RegexUnsupported,
    /// Not one of the known style letters.
    UnknownStyle,
}

/// The numbering context that delimiter lines switch between.
#[derive(Clone, Copy, PartialEq, Eq, Structural, Debug)]
pub enum Section {
    Header,
    Body,
    Footer,
}

/// What `NumberingStyle::from_str` accepts: `a`, `t` and `n` are the three
/// styles; anything starting with `p` is the reserved regex style.
pub open spec fn spec_parse_style(s: Seq<char>) -> Result<NumberingStyle, StyleError> {
    if s == seq!['a'] {
        Ok(NumberingStyle::All)
    } else if s == seq!['t'] {
        Ok(NumberingStyle::NonEmpty)
    } else if s == seq!['n'] {
        Ok(NumberingStyle::NoNumber)
    } else if s.len() >= 1 && s[0] == 'p' {
        Err(StyleError::RegexUnsupported)
    } else {
        Err(StyleError::UnknownStyle)
    }
}

impl NumberingStyle {
    /// Parse a style letter as given on the command line.
    pub fn from_str(s: &str) -> (r: Result<NumberingStyle, StyleError>)
        ensures
            r == spec_parse_style(s@),
    {
        let n = s.unicode_len();
        if n == 1 {
            let c = s.get_char(0);
            proof {
                assert(s@ =~= seq![s@[0]]);
            }
            if c == 'a' {
                Ok(NumberingStyle::All)
            } else if c == 't' {
                Ok(NumberingStyle::NonEmpty)
            } else if c == 'n' {
                Ok(NumberingStyle::NoNumber)
            } else if c == 'p' {
                Err(StyleError::RegexUnsupported)
            } else {
                Err(StyleError::UnknownStyle)
            }
        } else if n >= 1 {
            let c = s.get_char(0);
            if c == 'p' {
                Err(StyleError::RegexUnsupported)
            } else {
                Err(StyleError::UnknownStyle)
            }
        } else {
            Err(StyleError::UnknownStyle)
        }
    }
}

/// Accept a style argument exactly when `NumberingStyle::from_str` does.
pub fn style_validator(s: String) -> (r: Result<(), StyleError>)
    ensures
        r == match spec_parse_style(s@) {
            Ok(_) => Ok::<(), StyleError>(()),
            Err(e) => Err::<(), StyleError>(e),
        },
{
    match NumberingStyle::from_str(s.as_str()) {
        Ok(_) => Ok(()),
        Err(e) => Err(e),
    }
}

/// Why a raw section delimiter was rejected.
#[derive(Clone, Copy, PartialEq, Eq, Structural, Debug)]
pub enum ConfigError {
    EmptyDelimiter,
    OversizedDelimiter,
}

/// The filter's configuration, fixed before the first line is read.
pub struct Config {
    pub style_header: NumberingStyle,
    pub style_body: NumberingStyle,
    pub style_footer: NumberingStyle,
    /// Normalized section delimiter: one or two characters.
    pub delimiter: String,
    /// Added to the counter after each numbered line.
    pub increment: u64,
    /// How many consecutive empty lines form one numbering decision.
    pub join_blank_lines: u64,
    pub format: NumberFormat,
    /// Inserted between the rendered field and the line text.
    pub separator: String,
    /// Initial counter value, and the reset value at section boundaries.
    pub start: u64,
    /// Minimum width of the rendered field.
    pub width: usize,
    /// Suppress the counter reset at section boundaries.
    pub no_renumber: bool,
}

/// Mathematical image of `Config`: strings as character sequences, counters
/// as unbounded integers.
pub struct ConfigModel {
    pub style_header: NumberingStyle,
    pub style_body: NumberingStyle,
    pub style_footer: NumberingStyle,
    pub delimiter: Seq<char>,
    pub increment: int,
    pub join_blank_lines: int,
    pub format: NumberFormat,
    pub separator: Seq<char>,
    pub start: int,
    pub width: int,
    pub no_renumber: bool,
}

impl View for Config {
    type V = ConfigModel;

    open spec fn view(&self) -> ConfigModel {
        ConfigModel {
            style_header: self.style_header,
            style_body: self.style_body,
            style_footer: self.style_footer,
            delimiter: self.delimiter@,
            increment: self.increment as int,
            join_blank_lines: self.join_blank_lines as int,
            format: self.format,
            separator: self.separator@,
            start: self.start as int,
            width: self.width as int,
            no_renumber: self.no_renumber,
        }
    }
}

impl ConfigModel {
    /// A well-formed configuration has a delimiter of one or two characters.
    pub open spec fn wf(self) -> bool {
        1 <= self.delimiter.len() <= 2
    }

    /// The numbering style configured for a section.
    pub open spec fn style_of(self, s: Section) -> NumberingStyle {
        match s {
            Section::Header => self.style_header,
            Section::Body => self.style_body,
            Section::Footer => self.style_footer,
        }
    }

    /// The section a delimiter line switches to: the delimiter once starts
    /// the footer, twice the body, three times the header. Any other line is
    /// no section boundary.
    pub open spec fn delimiter_section(self, line: Seq<char>) -> Option<Section> {
        if line == self.delimiter {
            Some(Section::Footer)
        } else if line == self.delimiter + self.delimiter {
            Some(Section::Body)
        } else if line == self.delimiter + self.delimiter + self.delimiter {
            Some(Section::Header)
        } else {
            None
        }
    }

    /// The field put before a numbered line: the rendered counter, then the
    /// separator.
    pub open spec fn number_field(self, n: int) -> Seq<char> {
        rendered_number(n, self.width, self.format) + self.separator
    }

    /// The field put before an unnumbered line: spaces of the field width,
    /// then the separator.
    pub open spec fn blank_field(self) -> Seq<char> {
        repeat_char(' ', self.width) + self.separator
    }
}

impl Config {
    /// Build a configuration, normalizing the raw delimiter: a single
    /// character is right-padded with `:`; an empty or over-long delimiter
    /// is rejected before any input is read.
    pub fn new(
        style_header: NumberingStyle,
        style_body: NumberingStyle,
        style_footer: NumberingStyle,
        delimiter: &str,
        increment: u64,
        join_blank_lines: u64,
        format: NumberFormat,
        separator: String,
        start: u64,
        width: usize,
        no_renumber: bool,
    ) -> (r: Result<Config, ConfigError>)
        ensures
            delimiter@.len() == 0 ==> r == Err::<Config, ConfigError>(ConfigError::EmptyDelimiter),
            delimiter@.len() > 2 ==> r == Err::<Config, ConfigError>(
                ConfigError::OversizedDelimiter,
            ),
            1 <= delimiter@.len() <= 2 ==> r is Ok && ({
                let c = r->Ok_0;
                &&& c@.wf()
                &&& c@.delimiter == if delimiter@.len() == 1 {
                    delimiter@ + seq![':']
                } else {
                    delimiter@
                }
                &&& c@.style_header == style_header
                &&& c@.style_body == style_body
                &&& c@.style_footer == style_footer
                &&& c@.increment == increment as int
                &&& c@.join_blank_lines == join_blank_lines as int
                &&& c@.format == format
                &&& c@.separator == separator@
                &&& c@.start == start as int
                &&& c@.width == width as int
                &&& c@.no_renumber == no_renumber
            }),
    {
        let dlen = delimiter.unicode_len();
        if dlen == 0 {
            Err(ConfigError::EmptyDelimiter)
        } else if dlen > 2 {
            Err(ConfigError::OversizedDelimiter)
        } else {
            let mut d = String::from_str(delimiter);
            if dlen == 1 {
                proof {
                    reveal_strlit(":");
                    assert(":"@ =~= seq![':']);
                }
                d.append(":");
            }
            Ok(
                (Config {
                    style_header,
                    style_body,
                    style_footer,
                    delimiter: d,
                    increment,
                    join_blank_lines,
                    format,
                    separator,
                    start,
                    width,
                    no_renumber,
                }),
            )
        }
    }
}

/// The filter's mutable state: the active section, the running counter and
/// the count of blank lines accumulated towards one join decision.
pub struct RunState {
    pub current_section: Section,
    pub line_no: u64,
    pub empties_accumulated: u64,
}

/// Mathematical image of `RunState`.
pub struct StateModel {
    pub current_section: Section,
    pub line_no: int,
    pub empties_accumulated: int,
}

impl View for RunState {
    type V = StateModel;

    open spec fn view(&self) -> StateModel {
        StateModel {
            current_section: self.current_section,
            line_no: self.line_no as int,
            empties_accumulated: self.empties_accumulated as int,
        }
    }
}

impl RunState {
    /// The state at filter start: in the body section, counter at `start`,
    /// no blank lines accumulated.
    pub fn initial(cfg: &Config) -> (r: RunState)
        ensures
            r@.current_section == Section::Body,
            r@.line_no == cfg@.start,
            r@.empties_accumulated == 0,
    {
        RunState { current_section: Section::Body, line_no: cfg.start, empties_accumulated: 0 }
    }
}

/// One transition of the filter: the state after consuming `line`, and the
/// output line emitted for it.
///
/// A delimiter line emits one blank line, switches the section, and resets
/// the counter to `start` unless `no_renumber`. Otherwise, under style
/// `NoNumber` the line is blank-padded and nothing changes; an empty line is
/// accumulated and decided only when the join threshold is reached (numbered
/// under `All`, blank-padded otherwise); a non-empty line is numbered and
/// advances the counter by `increment`.
pub open spec fn spec_step(cfg: ConfigModel, st: StateModel, line: Seq<char>) -> (StateModel, Seq<
    char,
>) {
    match cfg.delimiter_section(line) {
        Some(sec) => (
            StateModel {
                current_section: sec,
                line_no: if cfg.no_renumber {
                    st.line_no
                } else {
                    cfg.start
                },
                empties_accumulated: st.empties_accumulated,
            },
            Seq::<char>::empty(),
        ),
        None => {
            let style = cfg.style_of(st.current_section);
            if style == NumberingStyle::NoNumber {
                (st, cfg.blank_field() + line)
            } else if line.len() == 0 {
                if st.empties_accumulated + 1 == cfg.join_blank_lines {
                    if style == NumberingStyle::All {
                        (
                            StateModel {
                                line_no: st.line_no + cfg.increment,
                                empties_accumulated: 0,
                                ..st
                            },
                            cfg.number_field(st.line_no) + line,
                        )
                    } else {
                        (StateModel { empties_accumulated: 0, ..st }, cfg.blank_field() + line)
                    }
                } else {
                    (
                        StateModel { empties_accumulated: st.empties_accumulated + 1, ..st },
                        line,
                    )
                }
            } else {
                (
                    StateModel { line_no: st.line_no + cfg.increment, empties_accumulated: 0, ..st },
                    cfg.number_field(st.line_no) + line,
                )
            }
        },
    }
}

fn blank_field(cfg: &Config) -> (r: String)
    ensures
        r@ == cfg@.blank_field(),
{
    let mut r = String::new();
    crate::render::push_spaces(&mut r, cfg.width);
    r.append(cfg.separator.as_str());
    proof {
        assert(r@ =~= cfg@.blank_field());
    }
    r
}

fn number_field(cfg: &Config, n: u64) -> (r: String)
    ensures
        r@ == cfg@.number_field(n as int),
{
    let mut r = render_number(n, cfg.width, cfg.format);
    r.append(cfg.separator.as_str());
    proof {
        assert(r@ =~= cfg@.number_field(n as int));
    }
    r
}

/// Consume one input line: mutate the state as `spec_step` says and return
/// the output line emitted for it.
pub fn step(cfg: &Config, state: &mut RunState, line: &String) -> (out: String)
    requires
        old(state).line_no + cfg.increment <= u64::MAX,
        old(state).empties_accumulated < u64::MAX,
    ensures
        final(state)@ == spec_step(cfg@, old(state)@, line@).0,
        out@ == spec_step(cfg@, old(state)@, line@).1,
{
    let d1 = cfg.delimiter.clone();
    let mut d2 = cfg.delimiter.clone();
    d2.append(cfg.delimiter.as_str());
    let mut d3 = d2.clone();
    d3.append(cfg.delimiter.as_str());
    if *line == d1 {
        if !cfg.no_renumber {
            state.line_no = cfg.start;
        }
        state.current_section = Section::Footer;
        String::new()
    } else if *line == d2 {
        if !cfg.no_renumber {
            state.line_no = cfg.start;
        }
        state.current_section = Section::Body;
        String::new()
    } else if *line == d3 {
        if !cfg.no_renumber {
            state.line_no = cfg.start;
        }
        state.current_section = Section::Header;
        String::new()
    } else {
        let style = match state.current_section {
            Section::Header => cfg.style_header,
            Section::Body => cfg.style_body,
            Section::Footer => cfg.style_footer,
        };
        if style == NumberingStyle::NoNumber {
            let mut out = blank_field(cfg);
            out.append(line.as_str());
            proof {
                assert(out@ =~= spec_step(cfg@, old(state)@, line@).1);
            }
            out
        } else if line.as_str().is_empty() {
            state.empties_accumulated = state.empties_accumulated + 1;
            if state.empties_accumulated == cfg.join_blank_lines {
                state.empties_accumulated = 0;
                if style == NumberingStyle::All {
                    let mut out = number_field(cfg, state.line_no);
                    state.line_no = state.line_no + cfg.increment;
                    out.append(line.as_str());
                    proof {
                        assert(out@ =~= spec_step(cfg@, old(state)@, line@).1);
                    }
                    out
                } else {
                    let mut out = blank_field(cfg);
                    out.append(line.as_str());
                    proof {
                        assert(out@ =~= spec_step(cfg@, old(state)@, line@).1);
                    }
                    out
                }
            } else {
                line.clone()
            }
        } else {
            let mut out = number_field(cfg, state.line_no);
            state.line_no = state.line_no + cfg.increment;
            state.empties_accumulated = 0;
            out.append(line.as_str());
            proof {
                assert(out@ =~= spec_step(cfg@, old(state)@, line@).1);
            }
            out
        }
    }
}

/// The filter folded over a whole input: the final state and the sequence of
/// output lines, one per input line.
pub open spec fn spec_run(cfg: ConfigModel, st: StateModel, lines: Seq<Seq<char>>) -> (StateModel,
    Seq<Seq<char>>)
    decreases lines.len(),
{
    if lines.len() == 0 {
        (st, Seq::<Seq<char>>::empty())
    } else {
        let first = spec_step(cfg, st, lines[0]);
        let rest = spec_run(cfg, first.0, lines.drop_first());
        (rest.0, seq![first.1] + rest.1)
    }
}

/// Running one more line extends the run by one step at the end.
pub proof fn lemma_spec_run_snoc(cfg: ConfigModel, st: StateModel, lines: Seq<Seq<char>>, i: int)
    requires
        0 <= i < lines.len(),
    ensures
        ({
            let prev = spec_run(cfg, st, lines.take(i));
            let stepped = spec_step(cfg, prev.0, lines[i]);
            spec_run(cfg, st, lines.take(i + 1)).0 == stepped.0 && spec_run(
                cfg,
                st,
                lines.take(i + 1),
            ).1 == prev.1.push(stepped.1)
        }),
    decreases i,
{
    reveal_with_fuel(spec_run, 3);
    if i == 0 {
        assert(lines.take(0) =~= Seq::<Seq<char>>::empty());
        assert(lines.take(1) =~= seq![lines[0]]);
        assert(lines.take(1).drop_first() =~= Seq::<Seq<char>>::empty());
        assert(spec_run(cfg, st, lines.take(1)).1 =~= spec_run(cfg, st, lines.take(0)).1.push(
            spec_step(cfg, st, lines[0]).1,
        ));
    } else {
        let tail = lines.drop_first();
        let st1 = spec_step(cfg, st, lines[0]).0;
        lemma_spec_run_snoc(cfg, st1, tail, i - 1);
        assert(lines.take(i)[0] == lines[0]);
        assert(lines.take(i + 1)[0] == lines[0]);
        assert(lines.take(i).drop_first() =~= tail.take(i - 1));
        assert(lines.take(i + 1).drop_first() =~= tail.take(i));
        assert(tail[i - 1] == lines[i]);
        assert(spec_run(cfg, st, lines.take(i + 1)).1 =~= spec_run(cfg, st, lines.take(i)).1.push(
            spec_step(cfg, spec_run(cfg, st, lines.take(i)).0, lines[i]).1,
        ));
    }
}

/// One step moves the counter to itself, itself plus the increment, or the
/// start value, and the blank-line count to itself, itself plus one, or zero.
pub proof fn lemma_step_bounds(cfg: ConfigModel, st: StateModel, line: Seq<char>)
    ensures
        ({
            let st2 = spec_step(cfg, st, line).0;
            &&& (st2.line_no == st.line_no || st2.line_no == st.line_no + cfg.increment
                || st2.line_no == cfg.start)
            &&& (st2.empties_accumulated == st.empties_accumulated || st2.empties_accumulated
                == st.empties_accumulated + 1 || st2.empties_accumulated == 0)
        }),
{
}

/// Feed every line of `lines` through `step` in order, mutating `state`, and
/// collect the output lines: one per input line, exactly as `spec_run` says.
pub fn number_lines(cfg: &Config, state: &mut RunState, lines: &Vec<String>) -> (out: Vec<String>)
    requires
        (if old(state).line_no >= cfg.start {
            old(state).line_no as int
        } else {
            cfg.start as int
        }) + cfg.increment as int * lines@.len() <= u64::MAX as int,
        old(state).empties_accumulated + lines@.len() < u64::MAX,
    ensures
        final(state)@ == spec_run(cfg@, old(state)@, lines.deep_view()).0,
        out.deep_view() == spec_run(cfg@, old(state)@, lines.deep_view()).1,
        out@.len() == lines@.len(),
{
    let ghost st0 = old(state)@;
    let ghost lm = lines.deep_view();
    let ghost maxv: int = if old(state).line_no >= cfg.start {
        old(state).line_no as int
    } else {
        cfg.start as int
    };
    let mut out: Vec<String> = Vec::new();
    let mut i: usize = 0;
    proof {
        assert(lm.take(0) =~= Seq::<Seq<char>>::empty());
    }
    while i < lines.len()
        invariant
            i <= lines.len(),
            lm == lines.deep_view(),
            lm.len() == lines@.len(),
            maxv == if st0.line_no >= cfg@.start {
                st0.line_no
            } else {
                cfg@.start
            },
            maxv + cfg.increment as int * lines@.len() <= u64::MAX as int,
            st0.empties_accumulated + lines@.len() < u64::MAX,
            state@ == spec_run(cfg@, st0, lm.take(i as int)).0,
            out.deep_view() == spec_run(cfg@, st0, lm.take(i as int)).1,
            out@.len() == i,
            state.line_no as int <= maxv + cfg.increment as int * i as int,
            state.empties_accumulated as int <= st0.empties_accumulated + i as int,
        decreases lines@.len() - i,
    {
        proof {
            assert(cfg.increment as int * i as int + cfg.increment as int == cfg.increment as int
                * (i as int + 1)) by (nonlinear_arith);
            assert(cfg.increment as int * (i as int + 1) <= cfg.increment as int * lines@.len())
                by (nonlinear_arith)
                requires
                    i as int + 1 <= lines@.len(),
                    cfg.increment as int >= 0,
            ;
        }
        let ghost prev_out = out.deep_view();
        let ghost prev_st = state@;
        let o = step(cfg, state, &lines[i]);
        proof {
            assert(lm[i as int] == lines@[i as int]@);
            lemma_spec_run_snoc(cfg@, st0, lm, i as int);
            lemma_step_bounds(cfg@, prev_st, lm[i as int]);
        }
        out.push(o);
        proof {
            assert(out.deep_view() =~= prev_out.push(o@));
        }
        i = i + 1;
    }
    proof {
        assert(lm.take(lines@.len() as int) =~= lm);
    }
    out
}

/// Under style `All` with all lines non-empty and none a delimiter, the
/// `n`-th output line carries the counter `start + n * increment` (counting
/// from zero), the section never changes, and the counter ends at
/// `start + len * increment`.
pub proof fn lemma_style_all_counter_arithmetic(
    cfg: ConfigModel,
    st: StateModel,
    lines: Seq<Seq<char>>,
)
    requires
        cfg.style_of(st.current_section) == NumberingStyle::All,
        forall|i: int|
            0 <= i < lines.len() ==> (#[trigger] cfg.delimiter_section(lines[i])) is None
                && lines[i].len() > 0,
    ensures
        spec_run(cfg, st, lines).1.len() == lines.len(),
        forall|i: int|
            0 <= i < lines.len() ==> #[trigger] spec_run(cfg, st, lines).1[i] == cfg.number_field(
                st.line_no + i * cfg.increment,
            ) + lines[i],
        spec_run(cfg, st, lines).0.line_no == st.line_no + lines.len() * cfg.increment,
        spec_run(cfg, st, lines).0.current_section == st.current_section,
    decreases lines.len(),
{
    if lines.len() == 0 {
    } else {
        let st1 = spec_step(cfg, st, lines[0]).0;
        let tail = lines.drop_first();
        assert(forall|i: int|
            0 <= i < tail.len() ==> tail[i] == lines[i + 1] && (#[trigger] cfg.delimiter_section(
                tail[i],
            )) is None && tail[i].len() > 0);
        lemma_style_all_counter_arithmetic(cfg, st1, tail);
        assert forall|i: int| 0 <= i < lines.len() implies #[trigger] spec_run(cfg, st, lines).1[i]
            == cfg.number_field(st.line_no + i * cfg.increment) + lines[i] by {
            if i == 0 {
                assert(spec_run(cfg, st, lines).1[0] == cfg.number_field(st.line_no) + lines[0]);
                assert(st.line_no + 0 * cfg.increment == st.line_no);
            } else {
                assert(spec_run(cfg, st, lines).1[i] == spec_run(cfg, st1, tail).1[i - 1]);
                assert(spec_run(cfg, st1, tail).1[i - 1] == cfg.number_field(
                    st1.line_no + (i - 1) * cfg.increment,
                ) + tail[i - 1]);
                assert(st1.line_no == st.line_no + cfg.increment);
                assert(st.line_no + cfg.increment + (i - 1) * cfg.increment == st.line_no + i
                    * cfg.increment) by (nonlinear_arith);
            }
        }
        assert(st1.line_no + tail.len() * cfg.increment == st.line_no + lines.len()
            * cfg.increment) by (nonlinear_arith)
            requires
                st1.line_no == st.line_no + cfg.increment,
                tail.len() + 1 == lines.len(),
        ;
    }
}

/// Under style `NonEmpty`, a blank line never advances the counter.
pub proof fn lemma_nonempty_blank_keeps_counter(cfg: ConfigModel, st: StateModel, line: Seq<char>)
    requires
        cfg.style_of(st.current_section) == NumberingStyle::NonEmpty,
        cfg.delimiter_section(line) is None,
        line.len() == 0,
    ensures
        spec_step(cfg, st, line).0.line_no == st.line_no,
{
}

/// Under style `NonEmpty`, a non-blank line is numbered and advances the
/// counter exactly as it would under style `All`: a configuration that
/// differs only in the active section's style produces the same output line
/// and the same new counter.
pub proof fn lemma_nonempty_matches_all_on_nonblank(
    cfg_t: ConfigModel,
    cfg_a: ConfigModel,
    st: StateModel,
    line: Seq<char>,
)
    requires
        cfg_t.style_of(st.current_section) == NumberingStyle::NonEmpty,
        cfg_a.style_of(st.current_section) == NumberingStyle::All,
        cfg_a == (ConfigModel {
            style_header: cfg_a.style_header,
            style_body: cfg_a.style_body,
            style_footer: cfg_a.style_footer,
            ..cfg_t
        }),
        cfg_t.delimiter_section(line) is None,
        line.len() > 0,
    ensures
        spec_step(cfg_t, st, line).0.line_no == st.line_no + cfg_t.increment,
        spec_step(cfg_a, st, line).0 == spec_step(cfg_t, st, line).0,
        spec_step(cfg_a, st, line).1 == spec_step(cfg_t, st, line).1,
{
}

/// Under style `NoNumber`, a non-delimiter line changes nothing: the state
/// (the counter in particular) is untouched and the line comes out behind a
/// blank field.
pub proof fn lemma_style_none_keeps_state(cfg: ConfigModel, st: StateModel, line: Seq<char>)
    requires
        cfg.style_of(st.current_section) == NumberingStyle::NoNumber,
        cfg.delimiter_section(line) is None,
    ensures
        spec_step(cfg, st, line).0 == st,
        spec_step(cfg, st, line).1 == cfg.blank_field() + line,
{
}

/// With every section's style `NoNumber` and the counter at `start` (as it
/// is at filter start), the counter never changes, whatever the input holds:
/// content lines never advance it and a section boundary can only reset it
/// to the value it already has.
pub proof fn lemma_style_none_counter_constant(
    cfg: ConfigModel,
    st: StateModel,
    lines: Seq<Seq<char>>,
)
    requires
        cfg.style_header == NumberingStyle::NoNumber,
        cfg.style_body == NumberingStyle::NoNumber,
        cfg.style_footer == NumberingStyle::NoNumber,
        st.line_no == cfg.start,
    ensures
        spec_run(cfg, st, lines).0.line_no == cfg.start,
    decreases lines.len(),
{
    if lines.len() == 0 {
    } else {
        let st1 = spec_step(cfg, st, lines[0]).0;
        assert(st1.line_no == cfg.start);
        lemma_style_none_counter_constant(cfg, st1, lines.drop_first());
    }
}

/// A delimiter line repeated once emits exactly one blank output line and
/// switches to the footer section; twice, to the body; three times, to the
/// header.
pub proof fn lemma_delimiter_switches_section(cfg: ConfigModel, st: StateModel)
    requires
        cfg.wf(),
    ensures
        spec_step(cfg, st, cfg.delimiter).1 == Seq::<char>::empty(),
        spec_step(cfg, st, cfg.delimiter).0.current_section == Section::Footer,
        spec_step(cfg, st, cfg.delimiter + cfg.delimiter).1 == Seq::<char>::empty(),
        spec_step(cfg, st, cfg.delimiter + cfg.delimiter).0.current_section == Section::Body,
        spec_step(cfg, st, cfg.delimiter + cfg.delimiter + cfg.delimiter).1 == Seq::<char>::empty(),
        spec_step(cfg, st, cfg.delimiter + cfg.delimiter + cfg.delimiter).0.current_section
            == Section::Header,
{
    assert((cfg.delimiter + cfg.delimiter).len() == 2 * cfg.delimiter.len());
    assert((cfg.delimiter + cfg.delimiter + cfg.delimiter).len() == 3 * cfg.delimiter.len());
}

/// With `no_renumber` set, a section boundary leaves the counter unchanged;
/// without it, every section boundary resets the counter to `start`.
pub proof fn lemma_section_boundary_reset(cfg: ConfigModel, st: StateModel, line: Seq<char>)
    requires
        cfg.delimiter_section(line) is Some,
    ensures
        cfg.no_renumber ==> spec_step(cfg, st, line).0.line_no == st.line_no,
        !cfg.no_renumber ==> spec_step(cfg, st, line).0.line_no == cfg.start,
{
}

/// A non-delimiter line comes out verbatim behind its (possibly empty)
/// number field: stripping that field from the output reproduces the input
/// line.
pub proof fn lemma_step_output_keeps_line(cfg: ConfigModel, st: StateModel, line: Seq<char>)
    requires
        cfg.delimiter_section(line) is None,
    ensures
        ({
            let out = spec_step(cfg, st, line).1;
            line.len() <= out.len() && out.subrange(
                out.len() - line.len(),
                out.len() as int,
            ) == line
        }),
{
    let out = spec_step(cfg, st, line).1;
    assert(out.subrange(out.len() - line.len(), out.len() as int) =~= line);
}

/// Round trip over a whole run: when no input line is a delimiter, every
/// output line ends with its input line verbatim, so stripping the number
/// fields reproduces the input.
pub proof fn lemma_round_trip(cfg: ConfigModel, st: StateModel, lines: Seq<Seq<char>>)
    requires
        forall|i: int|
            0 <= i < lines.len() ==> (#[trigger] cfg.delimiter_section(lines[i])) is None,
    ensures
        spec_run(cfg, st, lines).1.len() == lines.len(),
        forall|i: int|
            0 <= i < lines.len() ==> ({
                let out = #[trigger] spec_run(cfg, st, lines).1[i];
                lines[i].len() <= out.len() && out.subrange(
                    out.len() - lines[i].len(),
                    out.len() as int,
                ) == lines[i]
            }),
    decreases lines.len(),
{
    if lines.len() == 0 {
    } else {
        let st1 = spec_step(cfg, st, lines[0]).0;
        let tail = lines.drop_first();
        assert(forall|i: int|
            0 <= i < tail.len() ==> tail[i] == lines[i + 1] && (#[trigger] cfg.delimiter_section(
                tail[i],
            )) is None);
        lemma_round_trip(cfg, st1, tail);
        lemma_step_output_keeps_line(cfg, st, lines[0]);
        assert forall|i: int| 0 <= i < lines.len() implies ({
            let out = #[trigger] spec_run(cfg, st, lines).1[i];
            lines[i].len() <= out.len() && out.subrange(out.len() - lines[i].len(), out.len() as int)
                == lines[i]
        }) by {
            if i == 0 {
                assert(spec_run(cfg, st, lines).1[0] == spec_step(cfg, st, lines[0]).1);
            } else {
                assert(spec_run(cfg, st, lines).1[i] == spec_run(cfg, st1, tail).1[i - 1]);
            }
        }
    }
}

/// The filter emits exactly one output line per input line.
pub proof fn lemma_one_output_per_line(cfg: ConfigModel, st: StateModel, lines: Seq<Seq<char>>)
    ensures
        spec_run(cfg, st, lines).1.len() == lines.len(),
    decreases lines.len(),
{
    if lines.len() == 0 {
    } else {
        lemma_one_output_per_line(cfg, spec_step(cfg, st, lines[0]).0, lines.drop_first());
    }
}

} // verus!
