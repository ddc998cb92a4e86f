//! What language servers complain about, and which servers are asked.
use kubide::lsp::{span_on_line, worst_on_line, Diagnostic, Plan, Pos, Servers, Severity};
use kubide::path::Path;

fn diag(sl: usize, sc: usize, el: usize, ec: usize, severity: Severity) -> Diagnostic {
    Diagnostic {
        start: Pos { line: sl, col: sc },
        end: Pos { line: el, col: ec },
        severity,
        message: String::new(),
        source: None,
    }
}

#[test]
fn a_multi_line_complaint_covers_each_line_it_crosses() {
    let d = diag(2, 4, 4, 1, Severity::Error);
    assert_eq!(span_on_line(&d, 1, 10), None);
    assert_eq!(span_on_line(&d, 2, 10), Some((4, 10)));
    assert_eq!(span_on_line(&d, 3, 10), Some((0, 10)));
    assert_eq!(span_on_line(&d, 4, 10), Some((0, 1)));
    // An empty range is drawn one cell wide rather than not at all.
    assert_eq!(span_on_line(&diag(0, 3, 0, 3, Severity::Hint), 0, 10), Some((3, 4)));
}

#[test]
fn the_error_wins_the_line_over_the_warning() {
    let items = [diag(1, 0, 1, 2, Severity::Warning), diag(1, 5, 1, 6, Severity::Error)];
    assert_eq!(worst_on_line(&items, 1).map(|d| d.severity), Some(Severity::Error));
    assert_eq!(worst_on_line(&items, 2), None);
}

/// A server that could not be started is not tried again.
#[test]
fn a_missing_server_is_not_tried_twice() {
    let mut s = Servers::new();
    assert_eq!(s.sync(true, "rust", 2), Plan::Spawn);
    s.spawned("rust", false);
    assert_eq!(s.sync(true, "rust", 2), Plan::Skip);
    assert_eq!(s.sync(false, "toml", 2), Plan::Skip);
}

/// Errors and warnings are counted over all files, and a file that is read
/// again replaces what was said of it.
#[test]
fn complaints_are_counted_over_all_files() {
    let mut s = Servers::new();
    let a = Path::parse("C:\\p\\a.rs");
    s.published(a.dup(), vec![diag(0, 0, 0, 1, Severity::Error), diag(1, 0, 1, 1, Severity::Warning)]);
    s.published(Path::parse("C:\\p\\b.rs"), vec![diag(0, 0, 0, 1, Severity::Error)]);
    assert_eq!(s.counts(), (2, 1));
    s.published(a.dup(), Vec::new());
    assert_eq!(s.counts(), (1, 0));
    assert!(s.diagnostics(&a).map(|d| d.is_empty()).unwrap_or(true));
}

/// Saving is noticed when a modified file is no longer modified.
#[test]
fn a_save_is_noticed_once() {
    let mut s = Servers::new();
    let a = Path::parse("C:\\p\\a.rs");
    s.sync(true, "rust", 2);
    s.spawned("rust", true);
    s.synced(&a);
    assert!(!s.note_modified("rust", &a, true));
    assert!(s.note_modified("rust", &a, false));
    assert!(!s.note_modified("rust", &a, false));
    assert_eq!(s.close_except(&Vec::new()), vec![a]);
}

/// A file that is read again counts once, and a file is closed once however
/// often it was handed over.
#[test]
fn a_file_stands_once() {
    let mut s = Servers::new();
    let a = Path::parse("C:\\p\\a.rs");
    s.published(a.dup(), vec![diag(0, 0, 0, 1, Severity::Error), diag(1, 0, 1, 1, Severity::Error)]);
    s.published(a.dup(), vec![diag(0, 0, 0, 1, Severity::Warning)]);
    assert_eq!(s.counts(), (0, 1));
    let b = Path::parse("C:\\p\\b.rs");
    s.synced(&a);
    s.synced(&b);
    s.synced(&a);
    assert_eq!(s.close_except(&vec![b.dup()]), vec![a]);
    assert_eq!(s.close_except(&vec![b]), vec![]);
}
