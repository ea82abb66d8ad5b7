use coreutils::head::{get_func_and_count, FilePrinter, HeadMode, HeadOptions, StdinPrinter};

fn opts(files: &[&str], lines: usize, bytes: Option<usize>, verbose: bool, quiet: bool) -> HeadOptions {
    HeadOptions {
        files: files.iter().map(|s| s.to_string()).collect(),
        lines,
        bytes,
        verbose,
        quiet,
    }
}

#[test]
fn line_mode_by_default() {
    let o = opts(&[], 10, None, false, false);
    assert_eq!(get_func_and_count(&o), (HeadMode::Lines, 10));
}

#[test]
fn byte_count_wins_when_given() {
    let o = opts(&[], 10, Some(5), false, false);
    assert_eq!(get_func_and_count(&o), (HeadMode::Bytes, 5));
}

#[test]
fn stdin_printer_takes_mode_and_count() {
    let o = opts(&[], 3, None, false, false);
    let p = StdinPrinter::new(&o);
    assert_eq!((p.mode, p.count), (HeadMode::Lines, 3));
    let o = opts(&[], 3, Some(9), false, false);
    let p = StdinPrinter::new(&o);
    assert_eq!((p.mode, p.count), (HeadMode::Bytes, 9));
}

#[test]
fn file_printer_headers_for_many_files() {
    let o = opts(&["a", "b"], 10, None, false, false);
    assert!(FilePrinter::new(&o).verbose);
    let o = opts(&["a"], 10, None, false, false);
    assert!(!FilePrinter::new(&o).verbose);
    let o = opts(&["a", "b"], 10, None, false, true);
    assert!(!FilePrinter::new(&o).verbose);
    let o = opts(&["a"], 10, None, true, false);
    assert!(FilePrinter::new(&o).verbose);
}
