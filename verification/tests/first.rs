use modresolve::{First, FirstReport, ProgramInfo, Span, StatementInfo, StatementKind};

fn import(start: u32, end: u32, reference_starts: Vec<u32>) -> StatementInfo {
    StatementInfo { span: Span { start, end }, kind: StatementKind::Import { reference_starts } }
}

fn other(start: u32, end: u32) -> StatementInfo {
    StatementInfo { span: Span { start, end }, kind: StatementKind::Other }
}

fn run(source: &str, directive_end: Option<u32>, statements: Vec<StatementInfo>) -> FirstReport {
    let text: Vec<u8> = source.as_bytes().to_vec();
    let program = ProgramInfo { directive_end, statements };
    First.run_once(&text, &program)
}

#[test]
fn first_test() {
    // The statements of a module parsed from a file such as index.js:
    // the leading import, one export, then two more imports.
    let input = "import { x } from './foo';\
                export { x };\
                import { y } from './bar';\
                import { z } from './baz';";
    let expected = "import { x } from './foo';\
                import { y } from './bar';\
                import { z } from './baz';\
                export { x };";
    let report = run(
        input,
        None,
        vec![
            import(0, 26, vec![]),
            other(26, 39),
            import(39, 65, vec![]),
            import(65, 91, vec![]),
        ],
    );
    assert_eq!(String::from_utf8(report.text).unwrap(), expected);
    assert_eq!(report.diagnostics.len(), 2);
    assert_eq!(report.diagnostics[0].span, Span { start: 39, end: 65 });
    assert_eq!(report.diagnostics[1].span, Span { start: 65, end: 91 });
    assert!(report.diagnostics[0].fix.is_some());
    assert_eq!(
        report.diagnostics[1].fix.as_ref().map(|f| String::from_utf8(f.clone()).unwrap()),
        Some(expected.to_string())
    );
}

#[test]
fn imports_at_the_top_are_clean() {
    let input = "import { x } from './foo';import { y } from './bar';export { x, y };";
    let report = run(
        input,
        None,
        vec![import(0, 26, vec![]), import(26, 52, vec![]), other(52, 69)],
    );
    assert_eq!(report.diagnostics.len(), 0);
    assert_eq!(String::from_utf8(report.text).unwrap(), input);
}

#[test]
fn directive_overlapping_the_first_statement_stands_down() {
    let input = "'use strict';export { x };import { y } from './bar';";
    let report = run(
        input,
        Some(13),
        vec![other(13, 26), import(26, 52, vec![])],
    );
    assert_eq!(report.diagnostics.len(), 0);
    assert_eq!(String::from_utf8(report.text).unwrap(), input);
}

#[test]
fn early_reference_disqualifies_the_fix() {
    // A binding of the late import is referenced before the directive's
    // end, so the import is reported without a fix — and so is every
    // import after it.
    let input = "'use x'; var a = 1;import { x } from './foo';import { z } from './baz';";
    let report = run(
        input,
        Some(8),
        vec![other(9, 19), import(19, 45, vec![5]), import(45, 71, vec![])],
    );
    assert_eq!(report.diagnostics.len(), 2);
    assert!(report.diagnostics[0].fix.is_none());
    assert!(report.diagnostics[1].fix.is_none());
    assert_eq!(String::from_utf8(report.text).unwrap(), input);
}

#[test]
fn late_reference_keeps_the_fix() {
    // The one reference starts after the directive's end, so the reorder
    // stays on; the import moves to where the leading import block ends,
    // which is the very front when no import stood on top.
    let input = "'use x'; var a = 1;import { x } from './foo';";
    let expected = "import { x } from './foo';'use x'; var a = 1;";
    let report = run(
        input,
        Some(8),
        vec![other(9, 19), import(19, 45, vec![60])],
    );
    assert_eq!(report.diagnostics.len(), 1);
    assert_eq!(String::from_utf8(report.text).unwrap(), expected);
}

#[test]
fn build_code_swaps_the_import_forward() {
    let source: Vec<u8> = b"AABBBCC".to_vec();
    let fixed = modresolve::build_code(&source, 2, Span { start: 5, end: 7 });
    assert_eq!(fixed, b"AACCBBB".to_vec());
}
