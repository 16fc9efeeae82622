use moonwave::span::Span;
use moonwave::tags::{validate_global_tags, validate_tags, Tag};

fn tag(line: &str) -> Tag {
    ok_of(Tag::try_from(Span::dummy(line)))
}

fn ok_of<T, E>(r: Result<T, E>) -> T {
    match r {
        Ok(v) => v,
        Err(_) => panic!("expected success"),
    }
}

fn err_of<T, E>(r: Result<T, E>) -> E {
    match r {
        Ok(_) => panic!("expected failure"),
        Err(e) => e,
    }
}

#[test]
fn within_and_class_conflict() {
    let tags = vec![tag("@within Foo"), tag("@class Bar")];
    let diagnostics = validate_tags(&tags);
    assert_eq!(diagnostics.len(), 1);
    assert_eq!(diagnostics[0].text, "This tag is mutually exclusive...");
    assert_eq!(diagnostics[0].additional().len(), 1);
    assert_eq!(diagnostics[0].additional()[0].text, "...with this tag.");
}

#[test]
fn exclusion_is_order_independent() {
    let one_way = vec![tag("@within Foo"), tag("@class Bar")];
    let other_way = vec![tag("@class Bar"), tag("@within Foo")];
    assert_eq!(validate_tags(&one_way).len(), 1);
    assert_eq!(validate_tags(&other_way).len(), 1);

    let fine_one_way = vec![tag("@within Foo"), tag("@param a number")];
    let fine_other_way = vec![tag("@param a number"), tag("@within Foo")];
    assert_eq!(validate_tags(&fine_one_way).len(), 0);
    assert_eq!(validate_tags(&fine_other_way).len(), 0);
}

#[test]
fn property_requires_within() {
    let missing = vec![tag("@prop Value number")];
    let diagnostics = validate_tags(&missing);
    assert_eq!(diagnostics.len(), 1);
    assert_eq!(
        diagnostics[0].text,
        "The @within tag must also be present when using this tag."
    );

    let fine = vec![tag("@prop Value number"), tag("@within Foo")];
    assert_eq!(validate_tags(&fine).len(), 0);
}

#[test]
fn repeated_single_use_tag() {
    let tags = vec![tag("@within Foo"), tag("@within Bar"), tag("@param a number")];
    let diagnostics = validate_tags(&tags);
    assert_eq!(diagnostics.len(), 1);
    assert_eq!(
        diagnostics[0].text,
        "This tag cannot appear multiple times in a single doc entry."
    );

    let repeatable = vec![
        tag("@within Foo"),
        tag("@param a number"),
        tag("@param b number"),
    ];
    assert_eq!(validate_tags(&repeatable).len(), 0);
}

#[test]
fn function_and_readonly_conflict() {
    let tags = vec![
        tag("@function f"),
        tag("@within Foo"),
        tag("@readonly"),
    ];
    assert_eq!(validate_tags(&tags).len(), 1);
}

#[test]
fn unreleased_and_since_conflict() {
    let tags = vec![tag("@unreleased"), tag("@since v2")];
    assert_eq!(validate_tags(&tags).len(), 1);
}

#[test]
fn global_duplicate_class_names() {
    let duplicated = vec![tag("@class Foo"), tag("@class Foo")];
    assert!(!validate_global_tags(&duplicated).is_empty());

    let distinct = vec![tag("@class Foo"), tag("@class Bar")];
    assert!(validate_global_tags(&distinct).is_empty());
}
