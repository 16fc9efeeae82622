//! The comment collector: recovers logical doc-comment blocks from one
//! file's scanned comment and whitespace tokens, and parses each block into
//! an entry.

use vstd::prelude::*;

use crate::doc_comment::DocComment;
use crate::doc_entry::DocEntry;
use crate::error::Error;
use crate::syntax::{ScanItem, ScanTokenKind, StmtShape};
use crate::text::ws;

verus! {

/// The doc comments recovered from one source file.
pub struct SourceFile {
    doc_comments: Vec<DocComment>,
    file_id: usize,
}

/// One recovered doc comment as its plain parts.
pub struct CommentModel {
    pub text: Seq<char>,
    pub start: int,
    pub line: int,
    pub stmt: Option<StmtShape>,
}

/// The parts of a doc comment.
pub open spec fn comment_model(c: DocComment) -> CommentModel {
    CommentModel {
        text: c.spec_comment(),
        start: c.spec_start() as int,
        line: c.spec_line() as int,
        stmt: c.spec_stmt(),
    }
}

/// The parts of a list of doc comments.
pub open spec fn comment_models(v: Seq<DocComment>) -> Seq<CommentModel> {
    v.map_values(|c: DocComment| comment_model(c))
}

/// What the collector carries while scanning: the buffered run of doc
/// lines, the last seen line number, and the comments produced so far.
pub struct ScanState {
    pub buffer: Seq<ScanItem>,
    pub last_line: int,
    pub comments: Seq<CommentModel>,
}

/// One buffered line's contribution: its `--` marker and its content.
pub open spec fn buffer_piece(item: ScanItem) -> Seq<char> {
    "--"@ + (match item.token.kind {
        ScanTokenKind::SingleLineComment { comment } => comment@,
        _ => Seq::<char>::empty(),
    })
}

/// The buffered lines rejoined, newline-separated, each keeping its marker.
pub open spec fn join_buffer(buffer: Seq<ScanItem>) -> Seq<char>
    decreases buffer.len(),
{
    if buffer.len() == 0 {
        Seq::<char>::empty()
    } else if buffer.len() == 1 {
        buffer_piece(buffer[0])
    } else {
        join_buffer(buffer.drop_last()) + seq!['\n'] + buffer_piece(buffer.last())
    }
}

/// A start position clamped so the comment's whole range stays addressable.
pub open spec fn spec_clamp(start: int, len: int) -> int {
    if start + len <= usize::MAX {
        start
    } else {
        usize::MAX - len
    }
}

/// The line after the given one, saturating at the largest line.
pub open spec fn spec_next_line(line: int) -> int {
    if line < usize::MAX {
        line + 1
    } else {
        line
    }
}

/// A block comment's start, shifted past its opener, saturating.
pub open spec fn spec_past_opener(bytes: int) -> int {
    if bytes + 5 <= usize::MAX {
        bytes + 5
    } else {
        bytes
    }
}

/// Flushing the buffer: nothing when it is empty; otherwise one comment of
/// the rejoined lines, starting at the first buffered token, its output
/// line after the last one, decorating the last token's statement.
pub open spec fn spec_flush(st: ScanState) -> ScanState {
    if st.buffer.len() == 0 {
        st
    } else {
        let text = join_buffer(st.buffer);
        ScanState {
            buffer: Seq::<ScanItem>::empty(),
            last_line: st.last_line,
            comments: st.comments.push(
                CommentModel {
                    text,
                    start: spec_clamp(st.buffer[0].token.start.bytes as int, text.len() as int),
                    line: spec_next_line(st.buffer.last().token.end.line as int),
                    stmt: st.buffer.last().stmt,
                },
            ),
        }
    }
}

/// Whether every character is a dash; true of the empty text.
pub open spec fn all_dashes(s: Seq<char>) -> bool {
    forall|k: int| 0 <= k < s.len() ==> s[k] == '-'
}

/// Whether a doc line's body carries a module annotation: its first
/// non-whitespace character starts `@module`.
pub open spec fn module_annotation(rest: Seq<char>) -> bool {
    rest.len() > 1 && exists|i: int|
        0 <= i < rest.len() && !ws(#[trigger] rest[i]) && (forall|k: int| 0 <= k < i ==> ws(rest[k]))
            && crate::doc_entry::is_prefix("@module"@, rest.skip(i))
}

/// One scanned token's effect on the collector's state.
pub open spec fn spec_scan_step(st: ScanState, item: ScanItem) -> ScanState {
    match item.token.kind {
        ScanTokenKind::MultiLineComment { blocks, comment } => {
            if blocks == 1 {
                ScanState {
                    buffer: Seq::<ScanItem>::empty(),
                    last_line: item.token.end.line as int,
                    comments: st.comments.push(
                        CommentModel {
                            text: comment@,
                            start: spec_clamp(
                                spec_past_opener(item.token.start.bytes as int),
                                comment@.len() as int,
                            ),
                            line: spec_next_line(item.token.end.line as int),
                            stmt: item.stmt,
                        },
                    ),
                }
            } else {
                st
            }
        },
        ScanTokenKind::SingleLineComment { comment } => {
            let st1 = ScanState { last_line: item.token.start.line as int, ..st };
            if comment@.len() > 0 && comment@[0] == '-' {
                let rest = comment@.skip(1);
                if all_dashes(crate::text::spec_trim(rest)) {
                    st1
                } else if module_annotation(rest) {
                    st1
                } else {
                    ScanState { buffer: st1.buffer.push(item), ..st1 }
                }
            } else {
                spec_flush(st1)
            }
        },
        ScanTokenKind::Whitespace => {
            let line = item.token.start.line as int;
            let st1 = ScanState { last_line: line, ..st };
            if line > st.last_line {
                spec_flush(st1)
            } else {
                st1
            }
        },
        ScanTokenKind::Unsupported => st,
    }
}

/// Every scanned token applied in order.
pub open spec fn spec_scan(items: Seq<ScanItem>, st: ScanState) -> ScanState
    decreases items.len(),
{
    if items.len() == 0 {
        st
    } else {
        spec_scan_step(spec_scan(items.drop_last(), st), items.last())
    }
}

/// The collector's starting state.
pub open spec fn scan_init() -> ScanState {
    ScanState { buffer: Seq::<ScanItem>::empty(), last_line: 0, comments: Seq::<CommentModel>::empty() }
}

/// The comments one file's scan recovers: every token applied in order, and
/// whatever stays buffered flushed once more at the end.
pub open spec fn spec_collect(items: Seq<ScanItem>) -> Seq<CommentModel> {
    spec_flush(spec_scan(items, scan_init())).comments
}

/// A start position clamped so the comment's whole range stays addressable.
fn clamp_start(start: usize, len: usize) -> (r: usize)
    ensures
        r == spec_clamp(start as int, len as int),
        r + len <= usize::MAX,
{
    if len <= usize::MAX - start {
        start
    } else {
        usize::MAX - len
    }
}

/// The following line number, saturating at the largest representable line.
fn next_line(line: usize) -> (r: usize)
    ensures
        r == spec_next_line(line as int),
{
    if line < usize::MAX {
        line + 1
    } else {
        line
    }
}

/// Flushes the buffered run of adjacent single-line doc comments into one
/// doc comment, if the buffer holds anything, exactly as `spec_flush` says.
fn flush(buffer: &mut Vec<ScanItem>, file_id: usize, relative_path: &str) -> (r: Option<
    DocComment,
>)
    ensures
        final(buffer)@.len() == 0,
        r is Some <==> old(buffer)@.len() > 0,
        match r {
            Some(c) => {
                let b = old(buffer)@;
                &&& c.spec_comment() == join_buffer(b)
                &&& c.spec_start() == spec_clamp(
                    b[0].token.start.bytes as int,
                    join_buffer(b).len() as int,
                )
                &&& c.spec_line() == spec_next_line(b.last().token.end.line as int)
                &&& c.spec_stmt() == b.last().stmt
                &&& c.spec_file_id() == file_id
                &&& c.spec_path() == relative_path@
            },
            None => true,
        },
{
    let ghost b = buffer@;
    let n = buffer.len();
    if n == 0 {
        return None;
    }
    let mut text = String::new();
    let first_start = buffer[0].token.start.bytes;
    let last_end_line = buffer[n - 1].token.end.line;
    let mut i: usize = 0;
    proof {
        assert(join_buffer(b.take(0)) =~= Seq::<char>::empty());
    }
    while i < n
        invariant
            n == buffer@.len(),
            b == buffer@,
            0 <= i <= n,
            text@ == join_buffer(b.take(i as int)),
        decreases n - i,
    {
        proof {
            reveal_strlit("\n");
            reveal_strlit("--");
            assert(b.take(i + 1).drop_last() =~= b.take(i as int));
            assert(b.take(i + 1).last() == b[i as int]);
            if i + 1 == 1 {
                assert(b.take(1)[0] == b[0]);
            }
        }
        if i > 0 {
            text.append("\n");
        }
        text.append("--");
        match &buffer[i].token.kind {
            ScanTokenKind::SingleLineComment { comment } => {
                text.append(comment.as_str());
            },
            _ => {},
        }
        proof {
            assert(text@ =~= join_buffer(b.take(i + 1)));
        }
        i = i + 1;
    }
    proof {
        assert(b.take(n as int) =~= b);
        assert(b[n - 1] == b.last());
    }
    let stmt = match buffer.pop() {
        Some(item) => item.stmt,
        None => None,
    };
    let mut drained = Vec::new();
    core::mem::swap(buffer, &mut drained);
    let text_len = text.as_str().unicode_len();
    let start = clamp_start(first_start, text_len);
    let target_line = next_line(last_end_line);
    Some(DocComment::new(text, start, target_line, file_id, String::from_str(relative_path), stmt))
}

/// How many doc comments of a list fail to yield an entry.
pub open spec fn failing_comments(cs: Seq<DocComment>) -> int
    decreases cs.len(),
{
    if cs.len() == 0 {
        0
    } else {
        failing_comments(cs.drop_last()) + (if crate::doc_entry::spec_entry_ok(
            cs.last().spec_comment(),
            cs.last().spec_stmt(),
        ) {
            0int
        } else {
            1int
        })
    }
}

impl SourceFile {
    pub closed spec fn spec_file_id(&self) -> usize {
        self.file_id
    }

    pub closed spec fn spec_comments(&self) -> Seq<DocComment> {
        self.doc_comments@
    }

    /// Recovers the file's doc comments from its scanned tokens, walked in
    /// order, exactly as `spec_collect` says: a one-level block comment
    /// becomes its own doc comment at once, clearing any buffered lines; a
    /// line comment with an extra dash joins the buffer, unless it is a pure
    /// dash separator or carries a module annotation; an ordinary line
    /// comment or a blank line flushes the buffer; whatever remains buffered
    /// at the end is flushed once more.
    #[verifier::rlimit(100)]
    pub fn from_scan(items: Vec<ScanItem>, file_id: usize, relative_path: &str) -> (r: SourceFile)
        ensures
            r.spec_file_id() == file_id,
            comment_models(r.spec_comments()) == spec_collect(items@),
            forall|i: int|
                0 <= i < r.spec_comments().len() ==> (#[trigger] r.spec_comments()[i]).spec_file_id()
                    == file_id && r.spec_comments()[i].spec_path() == relative_path@,
    {
        let ghost all = items@;
        let mut items = items;
        let mut buffer: Vec<ScanItem> = Vec::new();
        let mut last_line: usize = 0;
        let mut doc_comments: Vec<DocComment> = Vec::new();
        let ghost mut p: int = 0;

        proof {
            assert(all.take(0) =~= Seq::<ScanItem>::empty());
            assert(spec_scan(all.take(0), scan_init()) == scan_init());
            assert(buffer@ =~= scan_init().buffer);
            assert(comment_models(doc_comments@) =~= scan_init().comments);
            assert(items@ =~= all.skip(0));
        }
        while items.len() > 0
            invariant
                0 <= p <= all.len(),
                items@ =~= all.skip(p),
                buffer@ == spec_scan(all.take(p), scan_init()).buffer,
                last_line as int == spec_scan(all.take(p), scan_init()).last_line,
                comment_models(doc_comments@) == spec_scan(all.take(p), scan_init()).comments,
                forall|i: int|
                    0 <= i < doc_comments@.len() ==> (#[trigger] doc_comments@[i]).spec_file_id()
                        == file_id && doc_comments@[i].spec_path() == relative_path@,
            decreases items@.len(),
        {
            let ghost st = spec_scan(all.take(p), scan_init());
            let ghost current = all[p];
            let item = items.remove(0);
            proof {
                assert(item == all[p]);
                assert(items@ =~= all.skip(p + 1));
                assert(all.take(p + 1).drop_last() =~= all.take(p));
                assert(all.take(p + 1).last() == current);
            }
            let ScanItem { token, stmt } = item;
            match token.kind {
                ScanTokenKind::MultiLineComment { blocks, comment } => {
                    if blocks == 1 {
                        last_line = token.end.line;
                        let mut scrapped = Vec::new();
                        core::mem::swap(&mut buffer, &mut scrapped);
                        let comment_len = comment.as_str().unicode_len();
                        let opener: usize = 5;
                        let raw_start = if token.start.bytes <= usize::MAX - opener {
                            token.start.bytes + opener
                        } else {
                            token.start.bytes
                        };
                        let start = clamp_start(raw_start, comment_len);
                        let target_line = next_line(token.end.line);
                        let ghost before = comment_models(doc_comments@);
                        doc_comments.push(
                            DocComment::new(
                                comment,
                                start,
                                target_line,
                                file_id,
                                String::from_str(relative_path),
                                stmt,
                            ),
                        );
                        proof {
                            assert(comment_models(doc_comments@) =~= before.push(
                                comment_model(doc_comments@.last()),
                            ));
                            assert(comment_models(doc_comments@) =~= spec_scan_step(
                                st,
                                current,
                            ).comments);
                            assert(buffer@ =~= spec_scan_step(st, current).buffer);
                        }
                    }
                },
                ScanTokenKind::SingleLineComment { comment } => {
                    last_line = token.start.line;
                    let body = crate::span::Span::dummy(comment.as_str());
                    let bn = body.len();
                    if bn > 0 && body.char_at(0) == '-' {
                        let rest = body.slice(1, bn - 1);
                        proof {
                            assert(rest@ =~= comment@.skip(1));
                        }
                        let trimmed = rest.trim();
                        let tn = trimmed.len();
                        let mut k: usize = 0;
                        while k < tn && trimmed.char_at(k) == '-'
                            invariant
                                tn == trimmed@.len(),
                                0 <= k <= tn,
                                forall|t: int| 0 <= t < k ==> trimmed@[t] == '-',
                            decreases tn - k,
                        {
                            k = k + 1;
                        }
                        let dashes_only = k == tn;
                        if dashes_only {
                            proof {
                                assert(all_dashes(crate::text::spec_trim(comment@.skip(1))));
                            }
                        } else {
                            let mut dropped_module = false;
                            if rest.len() > 1 {
                                match rest.first_non_ws() {
                                    Some(fnw) => {
                                        let tag_body = rest.slice(fnw, rest.len() - fnw);
                                        proof {
                                            assert(tag_body@ =~= rest@.skip(fnw as int));
                                        }
                                        if tag_body.starts_with("@module") {
                                            dropped_module = true;
                                            proof {
                                                assert(module_annotation(comment@.skip(1)));
                                            }
                                        }
                                    },
                                    None => {},
                                }
                            }
                            proof {
                                if !dropped_module {
                                    assert(!module_annotation(comment@.skip(1))) by {
                                        if module_annotation(comment@.skip(1)) {
                                            let rv = comment@.skip(1);
                                            let i = choose|i: int|
                                                0 <= i < rv.len() && !ws(#[trigger] rv[i]) && (
                                                forall|t: int| 0 <= t < i ==> ws(rv[t]))
                                                    && crate::doc_entry::is_prefix(
                                                    "@module"@,
                                                    rv.skip(i),
                                                );
                                            assert(rv.len() > 1);
                                        }
                                    }
                                }
                            }
                            if !dropped_module {
                                let rebuilt = ScanItem {
                                    token: crate::syntax::ScanToken {
                                        kind: ScanTokenKind::SingleLineComment { comment },
                                        start: token.start,
                                        end: token.end,
                                    },
                                    stmt,
                                };
                                proof {
                                    assert(rebuilt == current);
                                }
                                buffer.push(rebuilt);
                            }
                        }
                    } else {
                        let ghost before = comment_models(doc_comments@);
                        match flush(&mut buffer, file_id, relative_path) {
                            Some(doc_comment) => {
                                doc_comments.push(doc_comment);
                                proof {
                                    assert(comment_models(doc_comments@) =~= before.push(
                                        comment_model(doc_comments@.last()),
                                    ));
                                }
                            },
                            None => {},
                        }
                    }
                    proof {
                        assert(buffer@ =~= spec_scan_step(st, current).buffer);
                        assert(comment_models(doc_comments@) =~= spec_scan_step(
                            st,
                            current,
                        ).comments);
                    }
                },
                ScanTokenKind::Whitespace => {
                    let line = token.start.line;
                    let is_consecutive_newline = line > last_line;
                    last_line = line;
                    if is_consecutive_newline {
                        let ghost before = comment_models(doc_comments@);
                        match flush(&mut buffer, file_id, relative_path) {
                            Some(doc_comment) => {
                                doc_comments.push(doc_comment);
                                proof {
                                    assert(comment_models(doc_comments@) =~= before.push(
                                        comment_model(doc_comments@.last()),
                                    ));
                                }
                            },
                            None => {},
                        }
                    }
                    proof {
                        assert(buffer@ =~= spec_scan_step(st, current).buffer);
                        assert(comment_models(doc_comments@) =~= spec_scan_step(
                            st,
                            current,
                        ).comments);
                    }
                },
                ScanTokenKind::Unsupported => {},
            }
            proof {
                p = p + 1;
            }
        }
        proof {
            assert(all.take(p) =~= all);
        }
        let ghost before_final = comment_models(doc_comments@);
        match flush(&mut buffer, file_id, relative_path) {
            Some(doc_comment) => {
                doc_comments.push(doc_comment);
                proof {
                    assert(comment_models(doc_comments@) =~= before_final.push(
                        comment_model(doc_comments@.last()),
                    ));
                    assert(comment_models(doc_comments@) =~= spec_collect(all));
                }
            },
            None => {
                proof {
                    assert(comment_models(doc_comments@) =~= spec_collect(all));
                }
            },
        }
        SourceFile { doc_comments, file_id }
    }

    /// The recovered doc comments, in source order.
    pub fn doc_comments(&self) -> (r: &Vec<DocComment>)
        ensures
            r@ == self.spec_comments(),
    {
        &self.doc_comments
    }

    /// The file the comments came from.
    pub fn file_id(&self) -> (r: usize)
        ensures
            r == self.spec_file_id(),
    {
        self.file_id
    }

    /// Parses every doc comment of the file into an entry, collecting the
    /// diagnostics of the comments that fail, in order.  The file parses
    /// exactly when every comment does, one entry per comment in order, each
    /// carrying its comment's classification.
    pub fn parse(&self) -> (r: Result<Vec<DocEntry>, Error>)
        ensures
            r is Ok <==> (forall|i: int|
                0 <= i < self.spec_comments().len()
                    ==> crate::doc_entry::spec_entry_ok(
                    (#[trigger] self.spec_comments()[i]).spec_comment(),
                    self.spec_comments()[i].spec_stmt(),
                )),
            match r {
                Ok(entries) => entries@.len() == self.spec_comments().len() && (forall|i: int|
                    0 <= i < entries@.len() ==> (match crate::doc_entry::spec_comment_models(
                        (#[trigger] self.spec_comments()[i]).spec_comment(),
                    ) {
                        Some(ms) => (match crate::doc_entry::m_kind(
                            ms,
                            self.spec_comments()[i].spec_stmt(),
                        ) {
                            Some(k) => crate::doc_entry::entry_matches_kind(entries@[i], k),
                            None => false,
                        }),
                        None => false,
                    })),
                Err(e) => e is ParseErrors && (match e {
                    Error::ParseErrors(ds) => ds.spec_errors().len() > 0 && ds.spec_errors().len()
                        >= failing_comments(self.spec_comments()),
                    _ => false,
                }),
            },
    {
        let mut doc_entries: Vec<DocEntry> = Vec::new();
        let mut errors: Vec<crate::diagnostic::Diagnostic> = Vec::new();
        let n = self.doc_comments.len();
        let mut i: usize = 0;
        proof {
            assert(failing_comments(self.spec_comments().take(0)) == 0);
        }
        while i < n
            invariant
                n == self.spec_comments().len(),
                0 <= i <= n,
                (errors@.len() == 0) <==> (forall|k: int|
                    0 <= k < i ==> crate::doc_entry::spec_entry_ok(
                        (#[trigger] self.spec_comments()[k]).spec_comment(),
                        self.spec_comments()[k].spec_stmt(),
                    )),
                errors@.len() >= failing_comments(self.spec_comments().take(i as int)),
                errors@.len() == 0 ==> doc_entries@.len() == i,
                errors@.len() == 0 ==> (forall|k: int|
                    0 <= k < i ==> (match crate::doc_entry::spec_comment_models(
                        (#[trigger] self.spec_comments()[k]).spec_comment(),
                    ) {
                        Some(ms) => (match crate::doc_entry::m_kind(
                            ms,
                            self.spec_comments()[k].spec_stmt(),
                        ) {
                            Some(kk) => crate::doc_entry::entry_matches_kind(
                                doc_entries@[k],
                                kk,
                            ),
                            None => false,
                        }),
                        None => false,
                    })),
            decreases n - i,
        {
            proof {
                assert(self.spec_comments().take(i + 1).drop_last() =~= self.spec_comments().take(
                    i as int,
                ));
                assert(self.spec_comments().take(i + 1).last() == self.spec_comments()[i as int]);
            }
            match DocEntry::parse(&self.doc_comments[i]) {
                Ok(entry) => {
                    doc_entries.push(entry);
                },
                Err(ds) => {
                    let ghost before = errors@.len() as int;
                    let mut list = ds.into_iter();
                    let ghost incoming = list@.len() as int;
                    while list.len() > 0
                        invariant
                            errors@.len() + list@.len() == before + incoming,
                            errors@.len() + list@.len() > 0,
                        decreases list@.len(),
                    {
                        let d = list.remove(0);
                        errors.push(d);
                    }
                },
            }
            i = i + 1;
        }
        proof {
            assert(self.spec_comments().take(n as int) =~= self.spec_comments());
        }
        if errors.len() > 0 {
            Err(Error::ParseErrors(crate::diagnostic::Diagnostics::from(errors)))
        } else {
            Ok(doc_entries)
        }
    }
}

} // verus!
