use moonwave::span::Span;
use moonwave::tags::kind::{KindTag, KindTagType};
use moonwave::tags::marker::{MarkerTag, MarkerTagType, ServerTag};
use moonwave::tags::{
    CustomTag, DeprecatedTag, ErrorTag, ExternalTag, FieldTag, IncludeTag, ParamTag, ReturnTag,
    SinceTag, Tag, TypeTag, WithinTag,
};

fn ok_of<T, E>(r: Result<T, E>) -> T {
    match r {
        Ok(v) => v,
        Err(_) => panic!("expected success"),
    }
}

fn err_of<T, E>(r: Result<T, E>) -> E {
    match r {
        Ok(_) => panic!("expected failure"),
        Err(e) => e,
    }
}

#[test]
fn param_everything_sandwich() {
    let source = Span::dummy("COOL_NAME foo -- HEY! This is a sweet description");

    let value = ok_of(ParamTag::parse(source));
    assert_eq!(value.name.as_str(), "COOL_NAME");
    assert_eq!(value.desc.as_str(), "HEY! This is a sweet description");
    assert_eq!(value.lua_type.as_str(), "foo");
}

#[test]
fn param_lovecraftian_type() {
    let source = Span::dummy("foo Roact.Element<{ oh_no: string -> coroutine }> -- I'm sorry.");
    let value = ok_of(ParamTag::parse(source));
    assert_eq!(value.name.as_str(), "foo");
    assert_eq!(value.desc.as_str(), "I'm sorry.");
    assert_eq!(
        value.lua_type.as_str(),
        "Roact.Element<{ oh_no: string -> coroutine }>"
    );
}

#[test]
fn param_no_description() {
    let source = Span::dummy("coffee tasty");
    let value = ok_of(ParamTag::parse(source));
    assert_eq!(value.name.as_str(), "coffee");
    assert_eq!(value.desc.as_str(), "");
    assert_eq!(value.lua_type.as_str(), "tasty");
}

#[test]
fn return_tag_everything_sandwich() {
    let source = Span::dummy("foo -- HEY! This is a sweet description");

    let value = ok_of(ReturnTag::parse(source));
    assert_eq!(value.desc.as_str(), "HEY! This is a sweet description");
    assert_eq!(value.lua_type.as_str(), "foo");
}

#[test]
fn return_tag_lovecraftian_type() {
    let source = Span::dummy("Roact.Element<{ oh_no: string -> coroutine }> -- I'm sorry.");
    let value = ok_of(ReturnTag::parse(source));
    assert_eq!(value.desc.as_str(), "I'm sorry.");
    assert_eq!(
        value.lua_type.as_str(),
        "Roact.Element<{ oh_no: string -> coroutine }>"
    );
}

#[test]
fn return_tag_no_description() {
    let source = Span::dummy("tasty");
    let value = ok_of(ReturnTag::parse(source));
    assert_eq!(value.desc.as_str(), "");
    assert_eq!(value.lua_type.as_str(), "tasty");
}

#[test]
fn just_description() {
    let source = Span::dummy("-- What am I even documenting here?");
    let value = ReturnTag::parse(source);
    let err = err_of(value);
    assert_eq!(err.text, "Return type is required");
    assert_eq!(err.start(), 0);
    assert_eq!(err.len(), 35);
    assert_eq!(err.file_id(), 0);
    assert_eq!(err.additional().len(), 0);
}

#[test]
fn return_tag_snapshot() {
    let value = ok_of(ReturnTag::parse(Span::dummy("coffee")));
    assert_eq!(value.desc.as_str(), "");
    assert_eq!(value.lua_type.as_str(), "coffee");
}

#[test]
fn error_tag() {
    let source = Span::dummy(r#""very bad error" -- Very bad error "#);

    let value = ok_of(ErrorTag::parse(source));

    assert_eq!(value.lua_type.as_str(), "\"very bad error\"");
    assert_eq!(value.desc.as_str(), "Very bad error");
}

#[test]
fn no_desc() {
    let source = Span::dummy(r#""very bad error" "#);
    let value = ok_of(ErrorTag::parse(source));

    assert_eq!(value.lua_type.as_str(), "\"very bad error\"");
    assert_eq!(value.desc.as_str(), "");
}

#[test]
fn nothing() {
    let source = Span::dummy("");

    let value = ErrorTag::parse(source);
    let err = err_of(value);
    assert_eq!(err.text, "Error type is required");
    assert_eq!(err.start(), 0);
    assert_eq!(err.len(), 0);
    assert_eq!(err.file_id(), 0);
}

#[test]
fn deprecated() {
    let source = Span::dummy("v5.3 -- This is very deprecated. Never use this. Keep scrollin'.");

    let value = ok_of(DeprecatedTag::parse(source));

    assert_eq!(value.version.as_ref().unwrap().as_str(), "v5.3");
    assert_eq!(
        value.desc.as_ref().unwrap().as_str(),
        "This is very deprecated. Never use this. Keep scrollin'."
    );
}

#[test]
fn since() {
    let source = Span::dummy("v5.14");

    let value = ok_of(SinceTag::parse(source));

    assert_eq!(value.version.as_str(), "v5.14");
}

#[test]
fn kind_snapshot() {
    let value = ok_of(KindTag::parse(Span::dummy("hey there"), KindTagType::Function));
    assert_eq!(value.name.as_str(), "hey there");
    assert!(value.kind_type == KindTagType::Function);

    let value = ok_of(KindTag::parse(Span::dummy("hey there"), KindTagType::Property));
    assert_eq!(value.name.as_str(), "hey there");
    assert!(value.kind_type == KindTagType::Property);

    let value = ok_of(KindTag::parse(Span::dummy("This is a class"), KindTagType::Class));
    assert_eq!(value.name.as_str(), "This is a class");
    assert!(value.kind_type == KindTagType::Class);

    let err = err_of(KindTag::parse(Span::dummy(""), KindTagType::Class));
    assert_eq!(err.text, "This kind tag has stuff after it");
    assert_eq!(err.start(), 0);
    assert_eq!(err.len(), 0);
    assert_eq!(err.file_id(), 0);
}

#[test]
fn marker_snapshot() {
    assert!(ServerTag::parse().is_ok());
    assert!(ServerTag::parse().is_ok());

    let server = ok_of(MarkerTag::parse(MarkerTagType::Server));
    assert!(server.marker_type == MarkerTagType::Server);
    let client = ok_of(MarkerTag::parse(MarkerTagType::Client));
    assert!(client.marker_type == MarkerTagType::Client);
}

#[test]
fn custom_tag() {
    let source = Span::dummy("example");

    let value = ok_of(CustomTag::parse(source));

    assert_eq!(value.name.as_str(), "example");
}

#[test]
fn within_snapshot() {
    let value = ok_of(WithinTag::parse(Span::dummy("hey there")));
    assert_eq!(value.name.as_str(), "hey there");

    let err = err_of(WithinTag::parse(Span::dummy("")));
    assert_eq!(err.text, "This tag has stuff after it");
    assert_eq!(err.start(), 0);
    assert_eq!(err.len(), 0);
    assert_eq!(err.file_id(), 0);
}

#[test]
fn type_tag_optional_type() {
    let value = ok_of(TypeTag::parse(Span::dummy("Alias number")));
    assert_eq!(value.name.as_str(), "Alias");
    assert_eq!(value.lua_type.as_ref().unwrap().as_str(), "number");

    let bare = ok_of(TypeTag::parse(Span::dummy("Alias")));
    assert_eq!(bare.name.as_str(), "Alias");
    assert!(bare.lua_type.is_none());
}

#[test]
fn field_tag_requires_type() {
    let value = ok_of(FieldTag::parse(Span::dummy("x number -- the x")));
    assert_eq!(value.name.as_str(), "x");
    assert_eq!(value.lua_type.as_str(), "number");
    assert_eq!(value.desc.as_str(), "the x");

    let err = err_of(FieldTag::parse(Span::dummy("lonely")));
    assert_eq!(err.text, "Field type is required");
}

#[test]
fn external_tag_requires_url() {
    let value = ok_of(ExternalTag::parse(Span::dummy("Promise https://example.test/promise")));
    assert_eq!(value.name.as_str(), "Promise");
    assert_eq!(value.url.as_str(), "https://example.test/promise");

    let err = err_of(ExternalTag::parse(Span::dummy("Promise")));
    assert_eq!(err.text, "A url is required");
}

#[test]
fn include_tag_requires_path() {
    let value = ok_of(IncludeTag::parse(Span::dummy("docs/extra.md")));
    assert_eq!(value.path.as_str(), "docs/extra.md");

    let err = err_of(IncludeTag::parse(Span::dummy("")));
    assert_eq!(err.text, "This tag has stuff after it");
}

#[test]
fn dispatch_by_name() {
    let tag = ok_of(Tag::try_from(Span::dummy("@param a number -- first")));
    match tag {
        Tag::Param(p) => {
            assert_eq!(p.name.as_str(), "a");
            assert_eq!(p.lua_type.as_str(), "number");
            assert_eq!(p.desc.as_str(), "first");
            assert_eq!(p.source.as_str(), "@param a number -- first");
        }
        _ => panic!("expected a param tag"),
    }

    let unknown = Tag::try_from(Span::dummy("@bogus whatever"));
    assert_eq!(err_of(unknown).text, "Unknown tag");

    let field = ok_of(Tag::try_from(Span::dummy(".x number -- a field")));
    match field {
        Tag::Field(f) => {
            assert_eq!(f.name.as_str(), "x");
            assert_eq!(f.lua_type.as_str(), "number");
            assert_eq!(f.desc.as_str(), "a field");
        }
        _ => panic!("expected a field tag"),
    }

    let marker = ok_of(Tag::try_from(Span::dummy("@yields")));
    assert!(matches!(marker, Tag::Yields(_)));

    let needs_text = Tag::try_from(Span::dummy("@within"));
    assert_eq!(
        err_of(needs_text).text,
        "This tag requires text following it"
    );
}
