use pdfgreper::pipeline::{snippet, Mode, RunLog, SideEffect, SNIPPET_BYTES};
use pdfgreper::query::parse_bool_query;

#[test]
fn snippet_short_text_flattens_newlines() {
    assert_eq!(snippet("line one\nline two"), "line one line two");
    assert_eq!(snippet(""), "");
}

#[test]
fn snippet_bounded_to_200_bytes() {
    let text = "ab\ncd".repeat(100);
    let s = snippet(&text);
    assert_eq!(SNIPPET_BYTES, 200);
    assert_eq!(s.len(), 200);
    assert!(!s.contains('\n'));
    assert_eq!(&s[0..5], "ab cd");
}

#[test]
fn snippet_never_splits_a_character() {
    // 199 ASCII bytes, then a two-byte character that would end at byte 201.
    let text = format!("{}é tail", "x".repeat(199));
    let s = snippet(&text);
    assert_eq!(s.len(), 199);
    assert_eq!(s, "x".repeat(199));
    let exact = format!("{}é tail", "x".repeat(198));
    assert_eq!(snippet(&exact).len(), 200);
    assert!(snippet(&exact).ends_with('é'));
}

#[test]
fn record_counts_rows_and_failures() {
    let e = parse_bool_query("ache").unwrap();
    let mut log = RunLog::new();
    let docs: Vec<(&str, Result<String, String>)> = vec![
        ("d/one.pdf", Ok("About AChE\nactivity".to_string())),
        ("d/two.pdf", Err("extractor failed".to_string())),
        ("d/three.pdf", Ok("nothing here".to_string())),
        ("d/four.pdf", Err("unreadable output".to_string())),
        ("d/five.pdf", Ok("ache".to_string())),
    ];
    let mut effects = Vec::new();
    for (path, outcome) in docs {
        let name = path.trim_start_matches("d/").to_string();
        effects.push(log.record(&e, Mode::Copy, path.to_string(), name, outcome));
    }
    assert_eq!(log.rows.len(), 3);
    assert_eq!(log.failures.len(), 2);
    assert_eq!(log.failures[0].path, "d/two.pdf");
    assert_eq!(log.failures[0].message, "extractor failed");
    assert_eq!(log.failures[1].path, "d/four.pdf");
    assert_eq!(log.rows[0].file, "one.pdf");
    assert!(log.rows[0].matched);
    assert_eq!(log.rows[0].snippet, "About AChE activity");
    assert_eq!(log.rows[1].file, "three.pdf");
    assert!(!log.rows[1].matched);
    assert_eq!(log.rows[1].snippet, "");
    assert_eq!(log.rows[2].file, "five.pdf");
    assert_eq!(
        effects,
        vec![
            SideEffect::CopyFile,
            SideEffect::Nothing,
            SideEffect::Nothing,
            SideEffect::Nothing,
            SideEffect::CopyFile
        ]
    );
}

#[test]
fn move_mode_moves_matches_only() {
    let e = parse_bool_query("worm").unwrap();
    let mut log = RunLog::new();
    let hit = log.record(&e, Mode::Move, "a.pdf".to_string(), "a.pdf".to_string(), Ok("Earthworm".to_string()));
    let miss = log.record(&e, Mode::Move, "b.pdf".to_string(), "b.pdf".to_string(), Ok("fish".to_string()));
    assert_eq!(hit, SideEffect::MoveFile);
    assert_eq!(miss, SideEffect::Nothing);
}

#[test]
fn record_text_uses_given_fold() {
    let e = parse_bool_query("ache").unwrap();
    let mut log = RunLog::new();
    let r = log.record_text(&e, Mode::Copy, "x.pdf".to_string(), "ACHE", "ache");
    assert_eq!(r, SideEffect::CopyFile);
    assert_eq!(log.rows[0].snippet, "ACHE");
    let r2 = log.record_text(&e, Mode::Copy, "y.pdf".to_string(), "ache", "ACHE");
    assert_eq!(r2, SideEffect::Nothing);
    assert!(!log.rows[1].matched);
}

#[test]
fn record_failure_appends() {
    let mut log = RunLog::new();
    log.record_failure("p.pdf".to_string(), "boom".to_string());
    assert_eq!(log.failures.len(), 1);
    assert_eq!(log.rows.len(), 0);
}
