use moonwave::span::Span;

#[test]
fn correct_deref() {
    let text = "abcdef";
    let span = Span::dummy(text);

    let deref_check: &str = span.as_str();
    assert_eq!(deref_check, text);

    let slice = span.slice(1, 3);
    let deref_slice_check: &str = slice.as_str();
    assert_eq!(deref_slice_check, "bcd");

    let slice = slice.slice(1, 2);
    let deref_slice_check: &str = slice.as_str();
    assert_eq!(deref_slice_check, "cd");
}

#[test]
fn lines() {
    let text = "hello\nworld!\nipsum";
    let span = Span::dummy(text);

    let lines: Vec<String> = span.lines().iter().map(|line| line.as_str().to_owned()).collect();
    assert_eq!(lines, &["hello", "world!", "ipsum"]);
}

#[test]
fn trim() {
    let text = "    hello       ";
    let span = Span::dummy(text);

    assert_eq!(span.trim().as_str(), "hello");
}

#[test]
fn splitn_pieces() {
    let span = Span::dummy("name type -- the description");
    let pieces = span.splitn(2, "--");
    assert_eq!(pieces.len(), 2);
    assert_eq!(pieces[0].as_str(), "name type ");
    assert_eq!(pieces[1].as_str(), " the description");

    let none = Span::dummy("no separator here").splitn(2, "--");
    assert_eq!(none.len(), 1);
    assert_eq!(none[0].as_str(), "no separator here");
}

#[test]
fn slice_round_trip() {
    let text = "0123456789";
    let span = Span::dummy(text);
    for o in 0..text.len() {
        for l in 0..(text.len() - o) {
            assert_eq!(span.slice(o, l).as_str(), &text[o..o + l]);
        }
    }
}

#[test]
fn span_equality_is_by_text() {
    let a = Span::dummy("xxabcyy").slice(2, 3);
    let b = Span::dummy("abc");
    assert!(a == b);
    assert!(a.start() != b.start());
}

#[test]
fn strip_prefix_keeps_position() {
    let span = Span::dummy("    indented");
    let stripped = span.strip_prefix("    ").unwrap();
    assert_eq!(stripped.as_str(), "indented");
    assert_eq!(stripped.start(), 4);
    assert!(span.strip_prefix("XYZ").is_none());
}
