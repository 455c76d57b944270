//! Per-document bookkeeping of a search run: report rows, extraction
//! failures, snippets, and which side effect a match calls for.
use vstd::prelude::*;
use vstd::utf8::{encode_utf8, encode_scalar, has_width_1_encoding, has_width_2_encoding, has_width_3_encoding};
use crate::query::{Expr, ExprView, eval_spec, eval_expr};
use crate::text::{lower_of, lowercase, push_char};

verus! {

/// Largest snippet, in UTF-8 bytes.
pub const SNIPPET_BYTES: usize = 200;

/// What happens to the source file of a matching document.
#[derive(Debug, Clone, Copy, PartialEq, Eq, Structural)]
pub enum Mode {
    /// Copy it into the destination folder; the source stays.
    Copy,
    /// Rename it into the destination folder; the source goes.
    Move,
}

/// The file operation that one processed document calls for.
#[derive(Debug, Clone, Copy, PartialEq, Eq, Structural)]
pub enum SideEffect {
    Nothing,
    CopyFile,
    MoveFile,
}

/// Number of bytes in the UTF-8 encoding of `c`.
pub open spec fn utf8_width(c: char) -> nat {
    let v = c as u32;
    if has_width_1_encoding(v) {
        1
    } else if has_width_2_encoding(v) {
        2
    } else if has_width_3_encoding(v) {
        3
    } else {
        4
    }
}

/// The characters of `s` from the left whose encodings fit together in
/// `budget` bytes, each newline replaced by a space.
pub open spec fn snippet_chars(s: Seq<char>, budget: int) -> Seq<char>
    decreases s.len(),
{
    if s.len() == 0 || utf8_width(s[0]) > budget {
        Seq::empty()
    } else {
        seq![if s[0] == '\n' { ' ' } else { s[0] }] + snippet_chars(
            s.drop_first(),
            budget - utf8_width(s[0]),
        )
    }
}

/// The snippet of a document's text.
pub open spec fn snippet_of(text: Seq<char>) -> Seq<char> {
    snippet_chars(text, SNIPPET_BYTES as int)
}

fn char_width(c: char) -> (w: usize)
    ensures
        w == utf8_width(c),
{
    let v = c as u32;
    if v <= 0x7F {
        1
    } else if v <= 0x7FF {
        2
    } else if v <= 0xFFFF && !(0xD800 <= v && v <= 0xDFFF) {
        3
    } else {
        4
    }
}

/// The first characters of `text` that fit in [`SNIPPET_BYTES`] bytes of
/// UTF-8 (never a split character), with newlines flattened to spaces.
pub fn snippet(text: &str) -> (r: String)
    ensures
        r@ == snippet_of(text@),
{
    let n = text.unicode_len();
    let mut out = String::new();
    let mut budget: usize = SNIPPET_BYTES;
    let mut i: usize = 0;
    proof {
        assert(text@.subrange(0, n as int) =~= text@);
        assert(out@ + snippet_of(text@) =~= snippet_of(text@));
    }
    while i < n
        invariant
            n == text@.len(),
            i <= n,
            budget <= SNIPPET_BYTES,
            snippet_of(text@) == out@ + snippet_chars(text@.subrange(i as int, n as int), budget as int),
        decreases n - i,
    {
        let c = text.get_char(i);
        let w = char_width(c);
        let ghost rest = text@.subrange(i as int, n as int);
        assert(rest[0] == c);
        assert(rest.drop_first() =~= text@.subrange(i as int + 1, n as int));
        if w > budget {
            assert(snippet_chars(rest, budget as int) =~= Seq::<char>::empty());
            assert(out@ + Seq::<char>::empty() =~= out@);
            return out;
        }
        let ghost before = out@;
        if c == '\n' {
            push_char(&mut out, ' ');
        } else {
            push_char(&mut out, c);
        }
        assert(before + snippet_chars(rest, budget as int) =~= out@ + snippet_chars(
            text@.subrange(i as int + 1, n as int),
            budget - w,
        ));
        budget = budget - w;
        i = i + 1;
    }
    let ghost rest = text@.subrange(n as int, n as int);
    assert(snippet_chars(rest, budget as int) =~= Seq::<char>::empty());
    assert(out@ + Seq::<char>::empty() =~= out@);
    out
}

proof fn lemma_snippet_chars_bound(s: Seq<char>, budget: int)
    requires
        budget >= 0,
    ensures
        encode_utf8(snippet_chars(s, budget)).len() <= budget,
        forall|i: int| 0 <= i < snippet_chars(s, budget).len() ==> snippet_chars(s, budget)[i] != '\n',
    decreases s.len(),
{
    if s.len() == 0 || utf8_width(s[0]) > budget {
        assert(encode_utf8(Seq::<char>::empty()) =~= Seq::<u8>::empty());
    } else {
        let c = if s[0] == '\n' { ' ' } else { s[0] };
        let rest = snippet_chars(s.drop_first(), budget - utf8_width(s[0]));
        lemma_snippet_chars_bound(s.drop_first(), budget - utf8_width(s[0]));
        let r = seq![c] + rest;
        assert(r[0] == c);
        assert(r.drop_first() =~= rest);
        assert(encode_scalar(c as u32).len() == utf8_width(c));
        assert(utf8_width(c) == utf8_width(s[0]));
        assert(encode_utf8(r) == encode_scalar(c as u32) + encode_utf8(rest));
        assert forall|i: int| 0 <= i < r.len() implies r[i] != '\n' by {
            if i > 0 {
                assert(r[i] == rest[i - 1]);
            }
        }
    }
}

/// A snippet never exceeds [`SNIPPET_BYTES`] bytes of UTF-8 and holds no newline.
pub proof fn lemma_snippet_bound(text: Seq<char>)
    ensures
        encode_utf8(snippet_of(text)).len() <= SNIPPET_BYTES,
        forall|i: int| 0 <= i < snippet_of(text).len() ==> snippet_of(text)[i] != '\n',
{
    lemma_snippet_chars_bound(text, SNIPPET_BYTES as int);
}

/// One row of the report: file name, whether it matched, and the snippet
/// (empty when it did not match).
pub struct ReportRow {
    pub file: String,
    pub matched: bool,
    pub snippet: String,
}

pub ghost struct RowView {
    pub file: Seq<char>,
    pub matched: bool,
    pub snippet: Seq<char>,
}

impl View for ReportRow {
    type V = RowView;

    open spec fn view(&self) -> RowView {
        RowView { file: self.file@, matched: self.matched, snippet: self.snippet@ }
    }
}

/// A document whose text could not be extracted, and why.
pub struct FailureRecord {
    pub path: String,
    pub message: String,
}

pub ghost struct FailureView {
    pub path: Seq<char>,
    pub message: Seq<char>,
}

impl View for FailureRecord {
    type V = FailureView;

    open spec fn view(&self) -> FailureView {
        FailureView { path: self.path@, message: self.message@ }
    }
}

/// The two accumulators of a run, in the order the documents came.
pub struct RunLog {
    pub rows: Vec<ReportRow>,
    pub failures: Vec<FailureRecord>,
}

pub ghost struct LogView {
    pub rows: Seq<RowView>,
    pub failures: Seq<FailureView>,
}

impl View for RunLog {
    type V = LogView;

    open spec fn view(&self) -> LogView {
        LogView {
            rows: self.rows@.map_values(|r: ReportRow| r@),
            failures: self.failures@.map_values(|f: FailureRecord| f@),
        }
    }
}

/// A document as the pipeline meets it: its path, its file name, and the
/// extracted text or the extractor's error message.
pub ghost struct DocView {
    pub path: Seq<char>,
    pub name: Seq<char>,
    pub outcome: Result<Seq<char>, Seq<char>>,
}

/// The report row of a document whose text is `text` and folded text `folded`.
pub open spec fn row_for(expr: ExprView, name: Seq<char>, text: Seq<char>, folded: Seq<char>) -> RowView {
    let m = eval_spec(expr, folded);
    RowView { file: name, matched: m, snippet: if m { snippet_of(text) } else { Seq::empty() } }
}

/// The side effect of a document that matched or not.
pub open spec fn effect_for(mode: Mode, matched: bool) -> SideEffect {
    if !matched {
        SideEffect::Nothing
    } else if mode == Mode::Copy {
        SideEffect::CopyFile
    } else {
        SideEffect::MoveFile
    }
}

/// The log after one more document.
pub open spec fn log_step(log: LogView, expr: ExprView, d: DocView) -> LogView {
    match d.outcome {
        Ok(t) => LogView {
            rows: log.rows.push(row_for(expr, d.name, t, lower_of(t))),
            failures: log.failures,
        },
        Err(m) => LogView {
            rows: log.rows,
            failures: log.failures.push(FailureView { path: d.path, message: m }),
        },
    }
}

/// The log after a whole run over `docs`, in order.
pub open spec fn run_spec(expr: ExprView, docs: Seq<DocView>) -> LogView
    decreases docs.len(),
{
    if docs.len() == 0 {
        LogView { rows: Seq::empty(), failures: Seq::empty() }
    } else {
        log_step(run_spec(expr, docs.drop_last()), expr, docs.last())
    }
}

pub open spec fn extracted(d: DocView) -> bool {
    d.outcome is Ok
}

pub open spec fn not_extracted(d: DocView) -> bool {
    d.outcome is Err
}

pub open spec fn failure_of(d: DocView) -> FailureView {
    FailureView { path: d.path, message: d.outcome->Err_0 }
}

/// A run never stops at a failed extraction: over any documents the report
/// has one row per extracted document, named after it, in order, and the
/// failures name exactly the documents that failed, in order.
pub proof fn lemma_partial_failure(expr: ExprView, docs: Seq<DocView>)
    ensures
        run_spec(expr, docs).rows.len() == docs.filter(|d: DocView| extracted(d)).len(),
        run_spec(expr, docs).rows.map_values(|r: RowView| r.file) == docs.filter(
            |d: DocView| extracted(d),
        ).map_values(|d: DocView| d.name),
        run_spec(expr, docs).failures == docs.filter(|d: DocView| not_extracted(d)).map_values(
            |d: DocView| failure_of(d),
        ),
    decreases docs.len(),
{
    let ok = |d: DocView| extracted(d);
    let bad = |d: DocView| not_extracted(d);
    if docs.len() == 0 {
        reveal_with_fuel(Seq::<DocView>::filter, 1);
        assert(docs.filter(ok) =~= Seq::<DocView>::empty());
        assert(docs.filter(bad) =~= Seq::<DocView>::empty());
        assert(run_spec(expr, docs).rows.map_values(|r: RowView| r.file) =~= Seq::<Seq<char>>::empty());
        assert(docs.filter(ok).map_values(|d: DocView| d.name) =~= Seq::<Seq<char>>::empty());
        assert(docs.filter(bad).map_values(|d: DocView| failure_of(d)) =~= Seq::<FailureView>::empty());
    } else {
        let init = docs.drop_last();
        let d = docs.last();
        lemma_partial_failure(expr, init);
        let prev = run_spec(expr, init);
        reveal_with_fuel(Seq::<DocView>::filter, 1);
        assert(docs.filter(ok) == if ok(d) { init.filter(ok).push(d) } else { init.filter(ok) });
        assert(docs.filter(bad) == if bad(d) { init.filter(bad).push(d) } else { init.filter(bad) });
        if ok(d) {
            let row = row_for(expr, d.name, d.outcome->Ok_0, lower_of(d.outcome->Ok_0));
            assert(prev.rows.push(row).map_values(|r: RowView| r.file) =~= prev.rows.map_values(
                |r: RowView| r.file,
            ).push(d.name));
            assert(init.filter(ok).push(d).map_values(|d: DocView| d.name) =~= init.filter(
                ok,
            ).map_values(|d: DocView| d.name).push(d.name));
        } else {
            assert(init.filter(bad).push(d).map_values(|d: DocView| failure_of(d)) =~= init.filter(
                bad,
            ).map_values(|d: DocView| failure_of(d)).push(failure_of(d)));
        }
    }
}

/// Matching ignores case: two texts with the same case fold get the same
/// match decision and call for the same side effect.
pub proof fn lemma_match_ignores_case(expr: ExprView, mode: Mode, name: Seq<char>, t1: Seq<char>, t2: Seq<char>)
    requires
        lower_of(t1) == lower_of(t2),
    ensures
        row_for(expr, name, t1, lower_of(t1)).matched == row_for(expr, name, t2, lower_of(t2)).matched,
        effect_for(mode, eval_spec(expr, lower_of(t1))) == effect_for(mode, eval_spec(expr, lower_of(t2))),
{
}

impl RunLog {
    /// An empty log.
    pub fn new() -> (r: RunLog)
        ensures
            r@ == (LogView { rows: Seq::empty(), failures: Seq::empty() }),
    {
        let r = RunLog { rows: Vec::new(), failures: Vec::new() };
        assert(r@.rows =~= Seq::<RowView>::empty());
        assert(r@.failures =~= Seq::<FailureView>::empty());
        r
    }

    /// Records a failed extraction.
    pub fn record_failure(&mut self, path: String, message: String)
        ensures
            final(self)@ == (LogView {
                rows: old(self)@.rows,
                failures: old(self)@.failures.push(FailureView { path: path@, message: message@ }),
            }),
    {
        let ghost before = self@;
        self.failures.push(FailureRecord { path, message });
        assert(self@.rows =~= before.rows);
        assert(self@.failures =~= before.failures.push(FailureView { path: path@, message: message@ }));
    }

    /// Records a document whose text was extracted, given that text and its
    /// case-folded form: evaluates the query on the folded text, appends the
    /// row, and says which side effect the match calls for.
    pub fn record_text(&mut self, expr: &Expr, mode: Mode, name: String, text: &str, folded: &str) -> (r: SideEffect)
        ensures
            final(self)@ == (LogView {
                rows: old(self)@.rows.push(row_for(expr@, name@, text@, folded@)),
                failures: old(self)@.failures,
            }),
            r == effect_for(mode, eval_spec(expr@, folded@)),
    {
        let ghost before = self@;
        let matched = eval_expr(expr, folded);
        let snip = if matched {
            snippet(text)
        } else {
            String::new()
        };
        let row = ReportRow { file: name, matched, snippet: snip };
        assert(row@ == row_for(expr@, name@, text@, folded@));
        self.rows.push(row);
        assert(self@.rows =~= before.rows.push(row_for(expr@, name@, text@, folded@)));
        assert(self@.failures =~= before.failures);
        if !matched {
            SideEffect::Nothing
        } else {
            match mode {
                Mode::Copy => SideEffect::CopyFile,
                Mode::Move => SideEffect::MoveFile,
            }
        }
    }

    /// Records one document given the extractor's outcome: a failure goes to
    /// the failure list, a text is folded once and recorded as a report row.
    pub fn record(
        &mut self,
        expr: &Expr,
        mode: Mode,
        path: String,
        name: String,
        outcome: Result<String, String>,
    ) -> (r: SideEffect)
        ensures
            ({
                let d = DocView {
                    path: path@,
                    name: name@,
                    outcome: match outcome {
                        Ok(t) => Ok(t@),
                        Err(m) => Err(m@),
                    },
                };
                final(self)@ == log_step(old(self)@, expr@, d)
            }),
            r == match outcome {
                Ok(t) => effect_for(mode, eval_spec(expr@, lower_of(t@))),
                Err(_) => SideEffect::Nothing,
            },
    {
        match outcome {
            Ok(text) => {
                let folded = lowercase(text.as_str());
                self.record_text(expr, mode, name, text.as_str(), folded.as_str())
            },
            Err(message) => {
                self.record_failure(path, message);
                SideEffect::Nothing
            },
        }
    }
}

} // verus!
