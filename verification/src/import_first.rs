use vstd::prelude::*;

use crate::span::Span;

verus! {

/// What a statement of a program contributes to the import-order check.
pub enum StatementKind {
    /// An import declaration, with the start positions of the resolved
    /// references to its local bindings, in source order.
    Import { reference_starts: Vec<u32> },
    /// Any other statement.
    Other,
}

/// Spec-level image of a statement kind.
pub enum StatementKindView {
    Import { reference_starts: Seq<u32> },
    Other,
}

impl DeepView for StatementKind {
    type V = StatementKindView;

    open spec fn deep_view(&self) -> StatementKindView {
        match self {
            StatementKind::Import { reference_starts } => StatementKindView::Import {
                reference_starts: reference_starts@,
            },
            StatementKind::Other => StatementKindView::Other,
        }
    }
}

/// One top-level statement: its source span and its kind.
pub struct StatementInfo {
    pub span: Span,
    pub kind: StatementKind,
}

/// Spec-level image of a statement.
pub struct StatementView {
    pub span: Span,
    pub kind: StatementKindView,
}

impl DeepView for StatementInfo {
    type V = StatementView;

    open spec fn deep_view(&self) -> StatementView {
        StatementView { span: self.span, kind: self.kind.deep_view() }
    }
}

/// The body of a module as the check consumes it: the end of the leading
/// directive if one exists, and the top-level statements in source order.
pub struct ProgramInfo {
    pub directive_end: Option<u32>,
    pub statements: Vec<StatementInfo>,
}

/// A report for one import found below a non-import statement; when the
/// reorder is safe it carries the whole rewritten text as its fix.
pub struct FirstDiagnostic {
    pub span: Span,
    pub fix: Option<Vec<u8>>,
}

/// Spec-level image of a diagnostic.
pub struct FirstDiagnosticView {
    pub span: Span,
    pub fix: Option<Seq<u8>>,
}

impl DeepView for FirstDiagnostic {
    type V = FirstDiagnosticView;

    open spec fn deep_view(&self) -> FirstDiagnosticView {
        FirstDiagnosticView { span: self.span, fix: self.fix.deep_view() }
    }
}

/// Everything one run of the check produces: the diagnostics in source
/// order and the text with all applied fixes.
pub struct FirstReport {
    pub diagnostics: Vec<FirstDiagnostic>,
    pub text: Vec<u8>,
}

/// The text with the import at `span` moved directly behind the imports
/// already collected at the front: front part, then the import, then what
/// stood between, then the rest.
pub open spec fn spec_build_code(text: Seq<u8>, last_end: int, span: Span) -> Seq<u8> {
    text.subrange(0, last_end) + text.subrange(span.start as int, span.end as int)
        + text.subrange(last_end, span.start as int) + text.subrange(
        span.end as int,
        text.len() as int,
    )
}

/// Append `src[from..to]` to `out`.
fn push_range(out: &mut Vec<u8>, src: &Vec<u8>, from: usize, to: usize)
    requires
        from <= to <= src.len(),
    ensures
        final(out)@ == old(out)@ + src@.subrange(from as int, to as int),
{
    let mut i: usize = from;
    while i < to
        invariant
            from <= i <= to <= src.len(),
            out@ == old(out)@ + src@.subrange(from as int, i as int),
        decreases to - i,
    {
        out.push(src[i]);
        proof {
            assert(src@.subrange(from as int, i + 1) =~= src@.subrange(from as int, i as int).push(
                src@[i as int],
            ));
        }
        i += 1;
    }
}

/// Move the import at `span` directly behind the block of imports that
/// ends at `last_import_statement_end`, keeping everything else in order.
pub fn build_code(source_text: &Vec<u8>, last_import_statement_end: usize, span: Span) -> (r: Vec<
    u8,
>)
    requires
        last_import_statement_end <= span.start as usize,
        span.start <= span.end,
        span.end as usize <= source_text.len(),
    ensures
        r@ == spec_build_code(source_text@, last_import_statement_end as int, span),
        r@.len() == source_text@.len(),
{
    let mut fixed_code: Vec<u8> = Vec::new();
    push_range(&mut fixed_code, source_text, 0, last_import_statement_end);
    push_range(&mut fixed_code, source_text, span.start as usize, span.end as usize);
    push_range(&mut fixed_code, source_text, last_import_statement_end, span.start as usize);
    push_range(&mut fixed_code, source_text, span.end as usize, source_text.len());
    fixed_code
}

/// Whether any reference starts before `bound`.
pub open spec fn ref_before(refs: Seq<u32>, bound: u32) -> bool {
    exists|i: int| 0 <= i < refs.len() && refs[i] < bound
}

fn any_reference_before(refs: &Vec<u32>, bound: u32) -> (r: bool)
    ensures
        r == ref_before(refs@, bound),
{
    let mut i: usize = 0;
    while i < refs.len()
        invariant
            0 <= i <= refs.len(),
            forall|j: int| 0 <= j < i ==> refs@[j] >= bound,
        decreases refs.len() - i,
    {
        if refs[i] < bound {
            return true;
        }
        i += 1;
    }
    false
}

/// The state the check threads through the statements.
pub struct FirstState {
    /// Whether a non-import statement has been passed.
    pub has_non_import: bool,
    /// Whether reordering is still known to be safe.
    pub should_fix: bool,
    /// Where the block of leading imports currently ends.
    pub last_end: int,
    /// The text with the fixes applied so far.
    pub text: Seq<u8>,
    /// The diagnostics reported so far.
    pub diagnostics: Seq<FirstDiagnosticView>,
}

pub open spec fn first_initial_state(text: Seq<u8>) -> FirstState {
    FirstState {
        has_non_import: false,
        should_fix: true,
        last_end: 0,
        text: text,
        diagnostics: Seq::<FirstDiagnosticView>::empty(),
    }
}

/// One statement's effect. A non-import only marks that imports below it
/// are out of order. An import below a non-import is reported: with the
/// rewritten text as a fix while no reference to a reported import's
/// bindings starts before the directive's end (a reference can disqualify
/// the fix only when a directive bound exists); once disqualified, later
/// imports are reported without a fix. Every import widens the leading
/// import block by its own length.
pub open spec fn first_step(
    st: FirstState,
    stmt: StatementView,
    directive_end: Option<u32>,
) -> FirstState {
    match stmt.kind {
        StatementKindView::Other => FirstState {
            has_non_import: true,
            should_fix: st.should_fix,
            last_end: st.last_end,
            text: st.text,
            diagnostics: st.diagnostics,
        },
        StatementKindView::Import { reference_starts } => {
            let grown = st.last_end + stmt.span.end as int - stmt.span.start as int;
            if !st.has_non_import {
                FirstState {
                    has_non_import: st.has_non_import,
                    should_fix: st.should_fix,
                    last_end: grown,
                    text: st.text,
                    diagnostics: st.diagnostics,
                }
            } else {
                let still_fix = st.should_fix && !(directive_end matches Some(bound)
                    && ref_before(reference_starts, bound));
                if still_fix {
                    let fixed = spec_build_code(st.text, st.last_end, stmt.span);
                    FirstState {
                        has_non_import: true,
                        should_fix: true,
                        last_end: grown,
                        text: fixed,
                        diagnostics: st.diagnostics.push(
                            FirstDiagnosticView { span: stmt.span, fix: Some(fixed) },
                        ),
                    }
                } else {
                    FirstState {
                        has_non_import: true,
                        should_fix: false,
                        last_end: grown,
                        text: st.text,
                        diagnostics: st.diagnostics.push(
                            FirstDiagnosticView { span: stmt.span, fix: None },
                        ),
                    }
                }
            }
        },
    }
}

pub open spec fn first_run_from(
    st: FirstState,
    stmts: Seq<StatementView>,
    directive_end: Option<u32>,
) -> FirstState
    decreases stmts.len(),
{
    if stmts.len() == 0 {
        st
    } else {
        first_run_from(first_step(st, stmts[0], directive_end), stmts.drop_first(), directive_end)
    }
}

/// The whole check. When a directive overlaps the first statement the
/// check stands down entirely; otherwise the statements are processed in
/// order from the initial state.
pub open spec fn spec_run_once(
    text: Seq<u8>,
    directive_end: Option<u32>,
    stmts: Seq<StatementView>,
) -> FirstState {
    if stmts.len() > 0 && (directive_end matches Some(e) && e >= stmts[0].span.start) {
        first_initial_state(text)
    } else {
        first_run_from(first_initial_state(text), stmts, directive_end)
    }
}

/// Statement spans are ordered, disjoint and within the text.
pub open spec fn wf_statements(text_len: int, stmts: Seq<StatementView>) -> bool {
    &&& forall|i: int|
        0 <= i < stmts.len() ==> (#[trigger] stmts[i]).span.start <= stmts[i].span.end
            && stmts[i].span.end as int <= text_len
    &&& forall|i: int|
        0 <= i < stmts.len() - 1 ==> (#[trigger] stmts[i]).span.end <= stmts[i + 1].span.start
}

spec fn next_position(stmts: Seq<StatementView>, i: int, text_len: int) -> int {
    if i < stmts.len() {
        stmts[i].span.start as int
    } else {
        text_len
    }
}

/// Reports any import that stands below a non-import statement; reorders
/// the imports back to the top where that is known to be safe.
#[derive(Debug, Default, Clone)]
pub struct First;

impl First {
    pub fn run_once(&self, source_text: &Vec<u8>, program: &ProgramInfo) -> (r: FirstReport)
        requires
            wf_statements(source_text@.len() as int, program.statements.deep_view()),
        ensures
            ({
                let outcome = spec_run_once(
                    source_text@,
                    program.directive_end,
                    program.statements.deep_view(),
                );
                r.diagnostics.deep_view() == outcome.diagnostics && r.text@ == outcome.text
            }),
    {
        let ghost stmt_views = program.statements.deep_view();
        let ghost text_len = source_text@.len() as int;
        let n = program.statements.len();

        if n > 0 {
            if let Some(e) = program.directive_end {
                if e >= program.statements[0].span.start {
                    let mut text: Vec<u8> = Vec::new();
                    push_range(&mut text, source_text, 0, source_text.len());
                    let empty_diagnostics: Vec<FirstDiagnostic> = Vec::new();
                    proof {
                        assert(source_text@.subrange(0, text_len) =~= source_text@);
                        assert(empty_diagnostics.deep_view() =~= Seq::<
                            FirstDiagnosticView,
                        >::empty());
                    }
                    return FirstReport { diagnostics: empty_diagnostics, text };
                }
            }
        }

        let mut has_non_import = false;
        let mut should_fix = true;
        let mut last_import_statement_end: usize = 0;
        let mut text: Vec<u8> = Vec::new();
        push_range(&mut text, source_text, 0, source_text.len());
        let mut diagnostics: Vec<FirstDiagnostic> = Vec::new();
        let mut i: usize = 0;

        proof {
            assert(source_text@.subrange(0, text_len) =~= source_text@);
            assert(diagnostics.deep_view() =~= Seq::<FirstDiagnosticView>::empty());
            assert(stmt_views.subrange(0, n as int) =~= stmt_views);
        }

        while i < n
            invariant
                0 <= i <= n,
                n == program.statements.len(),
                stmt_views == program.statements.deep_view(),
                stmt_views.len() == n,
                text_len == source_text@.len() as int,
                wf_statements(text_len, stmt_views),
                text@.len() == text_len,
                last_import_statement_end as int <= next_position(stmt_views, i as int, text_len),
                first_run_from(first_initial_state(source_text@), stmt_views, program.directive_end)
                    == first_run_from(
                    FirstState {
                        has_non_import: has_non_import,
                        should_fix: should_fix,
                        last_end: last_import_statement_end as int,
                        text: text@,
                        diagnostics: diagnostics.deep_view(),
                    },
                    stmt_views.subrange(i as int, n as int),
                    program.directive_end,
                ),
            decreases n - i,
        {
            let ghost st = FirstState {
                has_non_import: has_non_import,
                should_fix: should_fix,
                last_end: last_import_statement_end as int,
                text: text@,
                diagnostics: diagnostics.deep_view(),
            };
            let ghost remaining = stmt_views.subrange(i as int, n as int);
            proof {
                assert(remaining[0] == stmt_views[i as int]);
                assert(remaining.drop_first() =~= stmt_views.subrange(i + 1, n as int));
                assert(stmt_views[i as int] == program.statements[i as int].deep_view());
            }
            let statement = &program.statements[i];
            match &statement.kind {
                StatementKind::Other => {
                    has_non_import = true;
                },
                StatementKind::Import { reference_starts } => {
                    let span = statement.span;
                    if has_non_import {
                        if should_fix {
                            if let Some(bound) = program.directive_end {
                                if any_reference_before(reference_starts, bound) {
                                    should_fix = false;
                                }
                            }
                        }
                        if should_fix {
                            let fixed_content = build_code(&text, last_import_statement_end, span);
                            let mut fixed_copy: Vec<u8> = Vec::new();
                            push_range(&mut fixed_copy, &fixed_content, 0, fixed_content.len());
                            proof {
                                assert(fixed_content@.subrange(0, fixed_content@.len() as int)
                                    =~= fixed_content@);
                            }
                            let ghost old_diags = diagnostics.deep_view();
                            text = fixed_content;
                            diagnostics.push(
                                FirstDiagnostic { span, fix: Some(fixed_copy) },
                            );
                            proof {
                                assert(fixed_copy.deep_view() =~= text@);
                                assert(diagnostics.deep_view() =~= old_diags.push(
                                    FirstDiagnosticView { span, fix: Some(text@) },
                                ));
                            }
                        } else {
                            let ghost old_diags = diagnostics.deep_view();
                            diagnostics.push(FirstDiagnostic { span, fix: None });
                            proof {
                                assert(diagnostics.deep_view() =~= old_diags.push(
                                    FirstDiagnosticView { span, fix: None },
                                ));
                            }
                        }
                    }
                    last_import_statement_end = last_import_statement_end + (span.end - span.start)
                        as usize;
                },
            }
            proof {
                assert(FirstState {
                    has_non_import: has_non_import,
                    should_fix: should_fix,
                    last_end: last_import_statement_end as int,
                    text: text@,
                    diagnostics: diagnostics.deep_view(),
                } == first_step(st, stmt_views[i as int], program.directive_end));
            }
            i += 1;
        }
        proof {
            assert(stmt_views.subrange(n as int, n as int) =~= Seq::<StatementView>::empty());
        }
        FirstReport { diagnostics, text }
    }
}

} // verus!
