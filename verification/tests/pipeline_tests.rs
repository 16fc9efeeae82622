use moonwave::doc_comment::DocComment;
use moonwave::doc_entry::DocEntry;
use moonwave::source_file::SourceFile;
use moonwave::syntax::{Position, ScanItem, ScanToken, ScanTokenKind};
use moonwave::{generate_docs, into_classes};

fn comment(text: &str, line: usize) -> DocComment {
    DocComment::new(text.to_owned(), 0, line, 0, "init.lua".to_owned(), None)
}

fn parse(text: &str, line: usize) -> DocEntry {
    ok_of(DocEntry::parse(&comment(text, line)))
}

fn ok_of<T, E>(r: Result<T, E>) -> T {
    match r {
        Ok(v) => v,
        Err(_) => panic!("expected success"),
    }
}

fn err_of<T, E>(r: Result<T, E>) -> E {
    match r {
        Ok(_) => panic!("expected failure"),
        Err(e) => e,
    }
}

#[test]
fn duplicate_class_names_both_appear() {
    let entries = vec![
        parse("--- First.\n--- @class Foo", 1),
        parse("--- Second.\n--- @class Foo", 2),
    ];
    let classes = ok_of(into_classes(entries));
    assert_eq!(classes.len(), 2);
    assert_eq!(classes[0].class.name, "Foo");
    assert_eq!(classes[1].class.name, "Foo");
}

#[test]
fn orphan_property_is_a_failure() {
    let entries = vec![
        parse("--- Present.\n--- @class Here", 1),
        parse("--- Orphaned.\n--- @within Nowhere\n--- @prop Value number", 2),
    ];
    let err = err_of(into_classes(entries));
    let diagnostics = err.into_iter();
    assert_eq!(diagnostics.len(), 1);
    assert_eq!(
        diagnostics[0].text,
        "This entry's parent class \"Nowhere\" is missing a doc entry"
    );
}

#[test]
fn classes_come_out_sorted_with_members() {
    let entries = vec![
        parse("--- Z.\n--- @class Zebra", 1),
        parse("--- A.\n--- @class Aardvark", 2),
        parse("--- Member.\n--- @within Zebra\n--- @prop Stripes number", 3),
        parse("--- Fn.\n--- @within Aardvark\n--- @function dig", 4),
    ];
    let classes = ok_of(into_classes(entries));
    assert_eq!(classes.len(), 2);
    assert_eq!(classes[0].class.name, "Aardvark");
    assert_eq!(classes[1].class.name, "Zebra");
    assert_eq!(classes[0].functions.len(), 1);
    assert_eq!(classes[0].functions[0].name, "dig");
    assert_eq!(classes[1].properties.len(), 1);
    assert_eq!(classes[1].properties[0].name, "Stripes");
}

#[test]
fn index_alias_resolves_members() {
    let entries = vec![
        parse("--- Container.\n--- @class Box\n--- @__index Inner", 1),
        parse("--- Aliased.\n--- @within Box.Inner\n--- @prop Lid string", 2),
    ];
    let classes = ok_of(into_classes(entries));
    assert_eq!(classes.len(), 1);
    assert_eq!(classes[0].properties.len(), 1);
    assert_eq!(classes[0].properties[0].name, "Lid");
}

fn doc_line(text: &str, line: usize, start: usize) -> ScanItem {
    ScanItem {
        token: ScanToken {
            kind: ScanTokenKind::SingleLineComment {
                comment: text.to_owned(),
            },
            start: Position { bytes: start, line },
            end: Position {
                bytes: start + text.len() + 2,
                line,
            },
        },
        stmt: None,
    }
}

fn whitespace(line: usize, start: usize) -> ScanItem {
    ScanItem {
        token: ScanToken {
            kind: ScanTokenKind::Whitespace,
            start: Position { bytes: start, line },
            end: Position { bytes: start + 1, line },
        },
        stmt: None,
    }
}

#[test]
fn collector_joins_adjacent_doc_lines() {
    // Lines "--- One." and "--- Two." on consecutive source lines: the
    // single-line-comment token text is what follows the leading "--".
    let items = vec![
        doc_line("- One.", 1, 0),
        whitespace(1, 8),
        doc_line("- Two.", 2, 9),
    ];
    let file = SourceFile::from_scan(items, 0, "init.lua");
    let comments = file.doc_comments();
    assert_eq!(comments.len(), 1);
    assert_eq!(comments[0].comment(), "--- One.\n--- Two.");
    assert_eq!(comments[0].start(), 0);
    assert_eq!(comments[0].output_source().line, 3);
}

#[test]
fn collector_flushes_on_blank_line() {
    let items = vec![
        doc_line("- One.", 1, 0),
        whitespace(1, 8),
        whitespace(3, 9),
        doc_line("- Two.", 4, 12),
    ];
    let file = SourceFile::from_scan(items, 0, "init.lua");
    let comments = file.doc_comments();
    assert_eq!(comments.len(), 2);
    assert_eq!(comments[0].comment(), "--- One.");
    assert_eq!(comments[1].comment(), "--- Two.");
}

#[test]
fn collector_drops_separators_and_module_lines() {
    let items = vec![
        doc_line("----------", 1, 0),
        doc_line("-@module some.path", 2, 12),
        doc_line("- Real doc.", 3, 40),
    ];
    let file = SourceFile::from_scan(items, 0, "init.lua");
    let comments = file.doc_comments();
    assert_eq!(comments.len(), 1);
    assert_eq!(comments[0].comment(), "--- Real doc.");
}

#[test]
fn collector_takes_block_comments_alone() {
    let items = vec![
        doc_line("- Buffered.", 1, 0),
        ScanItem {
            token: ScanToken {
                kind: ScanTokenKind::MultiLineComment {
                    blocks: 1,
                    comment: "\n    A block comment.\n".to_owned(),
                },
                start: Position { bytes: 20, line: 2 },
                end: Position { bytes: 50, line: 4 },
            },
            stmt: None,
        },
    ];
    let file = SourceFile::from_scan(items, 0, "init.lua");
    let comments = file.doc_comments();
    assert_eq!(comments.len(), 1);
    assert_eq!(comments[0].comment(), "\n    A block comment.\n");
    assert_eq!(comments[0].start(), 25);
    assert_eq!(comments[0].output_source().line, 5);
}

#[test]
fn ordinary_comment_flushes_without_joining() {
    let items = vec![
        doc_line("- Doc.", 1, 0),
        doc_line(" plain comment", 2, 10),
        doc_line("- Later doc.", 3, 30),
    ];
    let file = SourceFile::from_scan(items, 0, "init.lua");
    let comments = file.doc_comments();
    assert_eq!(comments.len(), 2);
    assert_eq!(comments[0].comment(), "--- Doc.");
    assert_eq!(comments[1].comment(), "--- Later doc.");
}

fn sample_file() -> SourceFile {
    let items = vec![
        doc_line("- A tidy container.", 1, 0),
        whitespace(1, 21),
        doc_line("- @class Box", 2, 22),
        whitespace(2, 36),
        whitespace(4, 37),
        doc_line("- Keeps things.", 5, 40),
        whitespace(5, 57),
        doc_line("- @within Box", 6, 58),
        whitespace(6, 73),
        doc_line("- @prop Contents string", 7, 74),
    ];
    SourceFile::from_scan(items, 0, "init.lua")
}

fn render(classes: &[moonwave::OutputClass]) -> String {
    let mut out = String::new();
    for c in classes {
        out.push_str(&c.class.name);
        out.push(';');
        out.push_str(&c.class.desc);
        out.push(';');
        for p in &c.properties {
            out.push_str(&p.name);
            out.push(':');
            out.push_str(&p.lua_type);
            out.push(';');
        }
        for f in &c.functions {
            out.push_str(&f.name);
            out.push(';');
        }
        out.push('|');
    }
    out
}

#[test]
fn pipeline_is_deterministic() {
    let first = ok_of(generate_docs(&vec![sample_file()]));
    let second = ok_of(generate_docs(&vec![sample_file()]));
    assert_eq!(render(&first), render(&second));
    assert_eq!(first.len(), 1);
    assert_eq!(first[0].class.name, "Box");
    assert_eq!(first[0].properties.len(), 1);
    assert_eq!(first[0].properties[0].name, "Contents");
    assert_eq!(first[0].properties[0].lua_type, "string");
}
