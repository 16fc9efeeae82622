use moonwave::doc_comment::DocComment;
use moonwave::doc_entry::DocEntry;
use moonwave::syntax::{
    FunctionBodyShape, ParameterInfo, ParameterShape, StmtShape,
};

fn comment(text: &str, stmt: Option<StmtShape>) -> DocComment {
    DocComment::new(text.to_owned(), 0, 1, 0, "init.lua".to_owned(), stmt)
}

fn add_function_stmt() -> StmtShape {
    StmtShape::FunctionDeclaration {
        names: vec!["M".to_owned(), "add".to_owned()],
        method_name: None,
        body: FunctionBodyShape {
            parameters: vec![
                ParameterInfo {
                    parameter: ParameterShape::Name("a".to_owned()),
                    type_specifier: None,
                },
                ParameterInfo {
                    parameter: ParameterShape::Name("b".to_owned()),
                    type_specifier: None,
                },
            ],
            return_type: None,
        },
    }
}

fn ok_of<T, E>(r: Result<T, E>) -> T {
    match r {
        Ok(v) => v,
        Err(_) => panic!("expected success"),
    }
}

fn err_of<T, E>(r: Result<T, E>) -> E {
    match r {
        Ok(_) => panic!("expected failure"),
        Err(e) => e,
    }
}

#[test]
fn adds_two_numbers() {
    let doc = comment(
        "--- Adds two numbers.\n--- @param a number\n--- @param b number\n--- @return number",
        Some(add_function_stmt()),
    );
    let entry = ok_of(DocEntry::parse(&doc));
    match entry {
        DocEntry::Function(function) => {
            assert_eq!(function.name, "add");
            assert_eq!(function.within, "M");
            assert_eq!(function.desc, "Adds two numbers.");
            assert_eq!(function.params.len(), 2);
            assert_eq!(function.params[0].name, "a");
            assert_eq!(function.params[0].lua_type, "number");
            assert_eq!(function.params[1].name, "b");
            assert_eq!(function.params[1].lua_type, "number");
            assert_eq!(function.returns.len(), 1);
            assert_eq!(function.returns[0].lua_type, "number");
        }
        _ => panic!("expected a function entry"),
    }
}

#[test]
fn within_and_class_is_one_diagnostic() {
    let doc = comment("--- A confused comment.\n--- @class Foo\n--- @within Bar", None);
    let err = err_of(DocEntry::parse(&doc));
    let diagnostics = err.into_iter();
    assert_eq!(diagnostics.len(), 1);
    assert_eq!(diagnostics[0].text, "This tag is mutually exclusive...");
    assert_eq!(diagnostics[0].additional().len(), 1);
}

#[test]
fn param_without_matching_declaration() {
    let with_signature = comment(
        "--- Documented.\n--- @param x string",
        Some(add_function_stmt()),
    );
    let err = err_of(DocEntry::parse(&with_signature));
    let diagnostics = err.into_iter();
    assert_eq!(diagnostics.len(), 1);
    assert_eq!(
        diagnostics[0].text,
        "Param \"x\" does not actually exist in function"
    );

    let without_signature = comment(
        "--- Documented.\n--- @function f\n--- @within M\n--- @param x string",
        None,
    );
    let entry = ok_of(DocEntry::parse(&without_signature));
    match entry {
        DocEntry::Function(function) => {
            assert_eq!(function.params.len(), 1);
            assert_eq!(function.params[0].name, "x");
            assert_eq!(function.params[0].lua_type, "string");
        }
        _ => panic!("expected a function entry"),
    }
}

#[test]
fn untyped_parameter_is_rejected() {
    let doc = comment("--- Underdocumented.\n--- @param a number", Some(add_function_stmt()));
    let err = err_of(DocEntry::parse(&doc));
    let diagnostics = err.into_iter();
    assert_eq!(diagnostics.len(), 1);
    assert!(diagnostics[0].text.contains("has no type"));
}

#[test]
fn empty_triple_dash_is_rejected() {
    let doc = comment("---", None);
    let err = err_of(DocEntry::parse(&doc));
    let diagnostics = err.into_iter();
    assert_eq!(
        diagnostics[0].text,
        "The first line of a doc comment must have text after the triple dash"
    );
}

#[test]
fn mixed_indentation_is_rejected() {
    let doc = comment("\n    indented\n  less indented body", None);
    let err = err_of(DocEntry::parse(&doc));
    let diagnostics = err.into_iter();
    assert!(diagnostics[0].text.starts_with("This doc comment has mixed indentation."));
}

#[test]
fn class_comment_builds_class_entry() {
    let doc = comment(
        "--- A tidy container.\n--- @class Foo\n--- @__index Items\n--- @tag storage\n--- @since v2.1",
        None,
    );
    let entry = ok_of(DocEntry::parse(&doc));
    match entry {
        DocEntry::Class(class) => {
            assert_eq!(class.name, "Foo");
            assert_eq!(class.desc, "A tidy container.");
            assert_eq!(class.__index, "Items");
            assert_eq!(class.tags.len(), 1);
            assert_eq!(class.tags[0].name.as_str(), "storage");
            assert_eq!(class.since.as_deref(), Some("v2.1"));
        }
        _ => panic!("expected a class entry"),
    }
}

#[test]
fn class_rejects_function_only_tags() {
    let doc = comment("--- Bad.\n--- @class Foo\n--- @param a number", None);
    let err = err_of(DocEntry::parse(&doc));
    let diagnostics = err.into_iter();
    assert!(diagnostics.len() >= 1);
}

#[test]
fn explicit_kinds_require_within() {
    let doc = comment("--- Orphan.\n--- @function lonely", None);
    let err = err_of(DocEntry::parse(&doc));
    let diagnostics = err.into_iter();
    assert_eq!(
        diagnostics[0].text,
        "Must specify containing class with @within tag"
    );
}

#[test]
fn tag_positions_stay_inside_the_comment() {
    let text = "--- Described.\n--- @within Place\n--- @prop Value number";
    let doc = comment(text, None);
    let entry = ok_of(DocEntry::parse(&doc));
    match entry {
        DocEntry::Property(property) => {
            assert_eq!(property.name, "Value");
            assert_eq!(property.within, "Place");
            assert_eq!(property.lua_type, "number");
        }
        _ => panic!("expected a property entry"),
    }

    let bad = comment("--- Described.\n--- @within Place\n--- @bogus tag", None);
    let err = err_of(DocEntry::parse(&bad));
    let diagnostics = err.into_iter();
    for d in &diagnostics {
        assert!(d.start() + d.len() <= text.len() + 10);
    }
}

#[test]
fn question_mark_marks_parameter_optional() {
    let stmt = StmtShape::FunctionDeclaration {
        names: vec!["M".to_owned(), "maybe".to_owned()],
        method_name: None,
        body: FunctionBodyShape {
            parameters: vec![ParameterInfo {
                parameter: ParameterShape::Name("x".to_owned()),
                type_specifier: None,
            }],
            return_type: None,
        },
    };
    let doc = comment("--- Maybe.\n--- @param x? number -- sometimes", Some(stmt));
    let entry = ok_of(DocEntry::parse(&doc));
    match entry {
        DocEntry::Function(function) => {
            assert_eq!(function.params.len(), 1);
            assert_eq!(function.params[0].name, "x?");
            assert_eq!(function.params[0].lua_type, "number");
            assert_eq!(function.params[0].desc, "sometimes");
        }
        _ => panic!("expected a function entry"),
    }
}

#[test]
fn method_declaration_uses_namespace() {
    let stmt = StmtShape::FunctionDeclaration {
        names: vec!["Thing".to_owned()],
        method_name: Some("go".to_owned()),
        body: FunctionBodyShape {
            parameters: vec![],
            return_type: None,
        },
    };
    let doc = comment("--- Goes.", Some(stmt));
    let entry = ok_of(DocEntry::parse(&doc));
    match entry {
        DocEntry::Function(function) => {
            assert_eq!(function.name, "go");
            assert_eq!(function.within, "Thing");
        }
        _ => panic!("expected a function entry"),
    }
}
