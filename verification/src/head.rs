//! Decisions of the first-lines printer.
//!
//! The tool prints the first lines (or bytes) of each file; here live its
//! decisions: whether to count lines or bytes and how many, and whether each
//! file gets a name header. The reading and printing stay outside.
use vstd::prelude::*;

verus! {

/// Options of the first-lines printer, as parsed from the command line.
pub struct HeadOptions {
    /// Files to read; empty means standard input.
    pub files: Vec<String>,
    /// How many lines to print when counting lines.
    pub lines: usize,
    /// When set, print this many bytes instead of lines.
    pub bytes: Option<usize>,
    /// Always print each file's name.
    pub verbose: bool,
    /// Never print a file's name.
    pub quiet: bool,
}

/// Whether the printer counts lines or bytes.
#[derive(Clone, Copy, PartialEq, Eq, Structural, Debug)]
pub enum HeadMode {
    Lines,
    Bytes,
}

/// Pick the unit and the count: bytes when a byte count was given, else
/// lines with the line count.
pub fn get_func_and_count(opts: &HeadOptions) -> (r: (HeadMode, usize))
    ensures
        r == match opts.bytes {
            Some(b) => (HeadMode::Bytes, b),
            None => (HeadMode::Lines, opts.lines),
        },
{
    match opts.bytes {
        Some(b) => (HeadMode::Bytes, b),
        None => (HeadMode::Lines, opts.lines),
    }
}

/// What to print from standard input.
pub struct StdinPrinter {
    pub mode: HeadMode,
    pub count: usize,
}

impl StdinPrinter {
    /// Take the unit and count from the options.
    pub fn new(opts: &HeadOptions) -> (r: StdinPrinter)
        ensures
            (r.mode, r.count) == match opts.bytes {
                Some(b) => (HeadMode::Bytes, b),
                None => (HeadMode::Lines, opts.lines),
            },
    {
        let (mode, count) = get_func_and_count(opts);
        StdinPrinter { mode, count }
    }
}

/// What to print from the named files, and whether to precede each with its
/// name.
pub struct FilePrinter<'a> {
    pub mode: HeadMode,
    pub count: usize,
    pub verbose: bool,
    pub files: &'a Vec<String>,
}

impl<'a> FilePrinter<'a> {
    /// Take the unit and count from the options. File names are printed when
    /// asked for, or by default as soon as there is more than one file and
    /// quiet was not asked for.
    pub fn new(opts: &'a HeadOptions) -> (r: FilePrinter<'a>)
        ensures
            (r.mode, r.count) == match opts.bytes {
                Some(b) => (HeadMode::Bytes, b),
                None => (HeadMode::Lines, opts.lines),
            },
            r.verbose == (opts.verbose || !(opts.files@.len() == 1 || opts.quiet)),
            r.files@ == opts.files@,
    {
        let (mode, count) = get_func_and_count(opts);
        FilePrinter {
            mode,
            count,
            verbose: opts.verbose || !(opts.files.len() == 1 || opts.quiet),
            files: &opts.files,
        }
    }
}

} // verus!
