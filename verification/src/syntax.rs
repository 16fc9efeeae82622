//! The library's model of the Lua and Luau syntax it reads.
//!
//! The pipeline consumes a parsed syntax tree only through the shapes below:
//! comment and whitespace tokens with their positions, the statement a doc
//! comment decorates, and the type annotations a signature is inferred from.
//! Whoever runs the parser converts its nodes into these plain values; the
//! classifier and the entry builders then work on them alone.

use vstd::prelude::*;

verus! {

/// What kind of trivia a token carries around itself.
#[derive(PartialEq, Eq, Structural, Clone, Copy)]
pub enum TriviaKind {
    Whitespace,
    SingleLineComment,
    MultiLineComment,
    Unsupported,
}

/// One piece of trivia: its kind and its exact source text.
pub struct Trivia {
    pub kind: TriviaKind,
    pub text: String,
}

/// A token with its surrounding trivia, each piece carrying its exact source
/// text.
pub struct TokenNode {
    pub leading: Vec<Trivia>,
    pub text: String,
    pub trailing: Vec<Trivia>,
}

/// A type annotation node.  `raw` is the node's exact source text; `kind`
/// breaks the node open as far as the signature inference needs.
pub struct TypeNode {
    pub raw: String,
    pub kind: TypeKind,
}

/// A type node together with the punctuation that follows it in a list.
pub struct TypePair {
    pub value: TypeNode,
    pub punctuation: Option<TokenNode>,
}

/// An optionally named argument inside a callback type.
pub struct TypeArg {
    pub name: Option<NameColon>,
    pub type_info: TypeNode,
}

/// The `name:` part of a named callback argument.
pub struct NameColon {
    pub identifier: TokenNode,
    pub colon: TokenNode,
}

/// A callback argument together with the punctuation that follows it.
pub struct TypeArgPair {
    pub value: TypeArg,
    pub punctuation: Option<TokenNode>,
}

/// The key of one field of a table type.
pub enum TypeFieldKey {
    Name(TokenNode),
    IndexSignature { open_bracket: TokenNode, inner: Box<TypeNode>, close_bracket: TokenNode },
    Unsupported,
}

/// One field of a table type, with the trivia around the whole field kept so
/// a same-line comment can become the field's description.
pub struct TypeFieldNode {
    pub access: Option<TokenNode>,
    pub key: TypeFieldKey,
    pub colon: TokenNode,
    pub value: TypeNode,
    pub leading_trivia: Vec<Trivia>,
    pub trailing_trivia: Vec<Trivia>,
}

/// A table-type field together with the punctuation that follows it.
pub struct TypeFieldPair {
    pub field: TypeFieldNode,
    pub punctuation: Option<TokenNode>,
}

/// One parameter of a generic declaration.
pub enum GenericParameterInfo {
    Name(TokenNode),
    Variadic { name: TokenNode, ellipsis: TokenNode },
    Unsupported,
}

/// A generic-declaration parameter with its optional default.
pub struct GenericDeclarationParameter {
    pub parameter: GenericParameterInfo,
    pub equals: Option<TokenNode>,
    pub default_type: Option<TypeNode>,
}

/// The `<...>` generics of a callback type.
pub struct GenericDeclaration {
    pub open_arrow: TokenNode,
    pub generics: Vec<GenericDeclarationParameter>,
    pub close_arrow: TokenNode,
}

/// A type reached through a module prefix.
pub enum IndexedTypeKind {
    Basic(TokenNode),
    Generic { base: TokenNode, open_arrow: TokenNode, generics: Vec<TypePair>, close_arrow: TokenNode },
    Unsupported,
}

/// The broken-open form of a type annotation.
pub enum TypeKind {
    Array { open_brace: TokenNode, access: Option<TokenNode>, inner: Box<TypeNode>, close_brace: TokenNode },
    Basic(TokenNode),
    Str(TokenNode),
    Boolean(TokenNode),
    Callback {
        generics: Option<GenericDeclaration>,
        open_paren: TokenNode,
        arguments: Vec<TypeArgPair>,
        close_paren: TokenNode,
        arrow: TokenNode,
        return_type: Box<TypeNode>,
    },
    Generic { base: TokenNode, open_arrow: TokenNode, generics: Vec<TypePair>, close_arrow: TokenNode },
    GenericPack { name: TokenNode, ellipsis: TokenNode },
    Intersection { leading: Option<TokenNode>, types: Vec<TypePair> },
    Module { module: TokenNode, punctuation: TokenNode, type_info: IndexedTypeKind },
    Optional { base: Box<TypeNode>, question_mark: TokenNode },
    Table { open_brace: TokenNode, fields: Vec<TypeFieldPair>, close_brace: TokenNode },
    Typeof { typeof_token: TokenNode, open_paren: TokenNode, inner: String, close_paren: TokenNode },
    Tuple { open_paren: TokenNode, types: Vec<TypePair>, close_paren: TokenNode },
    Union { leading: Option<TokenNode>, types: Vec<TypePair> },
    Variadic { ellipsis: TokenNode, type_info: Box<TypeNode> },
    VariadicPack { ellipsis: TokenNode, name: TokenNode },
    Unsupported,
}

/// One declared parameter of a function.
pub enum ParameterShape {
    Name(String),
    Ellipsis,
    Unsupported,
}

/// A parameter together with its optional type annotation.
pub struct ParameterInfo {
    pub parameter: ParameterShape,
    pub type_specifier: Option<TypeNode>,
}

/// The signature-bearing part of a function body: its parameter list and its
/// declared return type.
pub struct FunctionBodyShape {
    pub parameters: Vec<ParameterInfo>,
    pub return_type: Option<TypeNode>,
}

/// A byte range in the decorated statement's file, for secondary diagnostic
/// labels.
#[derive(PartialEq, Eq, Structural, Clone, Copy)]
pub struct ByteRange {
    pub start: usize,
    pub end: usize,
}

/// One suffix of an assignment target written as an indexing expression.
pub enum Suffix {
    IndexBracketString(String),
    IndexDot(String),
    Unsupported,
}

/// An assignment target.
pub enum VarShape {
    Name(String),
    Expression { prefix_name: Option<String>, suffixes: Vec<Suffix> },
    Unsupported,
}

/// An assignment target with its source range.
pub struct VarItem {
    pub var: VarShape,
    pub range: ByteRange,
}

/// What a literal symbol on the right-hand side of an assignment is.
#[derive(PartialEq, Eq, Structural)]
pub enum SymbolShape {
    True,
    False,
    Nil,
    Ellipsis,
    Unsupported,
}

/// The shape of a right-hand-side expression, as far as classification reads
/// it.
pub enum ExprShape {
    Function(FunctionBodyShape),
    TypeAssertion(TypeNode),
    InterpolatedString,
    TableConstructor(String),
    Number,
    Str,
    Symbol(SymbolShape),
    Unsupported,
}

/// A right-hand-side expression with its source range.
pub struct ExprItem {
    pub expr: ExprShape,
    pub range: ByteRange,
}

/// A plain name with its source range.
pub struct NameItem {
    pub name: String,
    pub range: ByteRange,
}

/// The shape of the statement a doc comment decorates.
pub enum StmtShape {
    LocalFunction { name: String, body: FunctionBodyShape },
    FunctionDeclaration { names: Vec<String>, method_name: Option<String>, body: FunctionBodyShape },
    LocalAssignment { names: Vec<NameItem>, expressions: Vec<ExprItem> },
    Assignment { variables: Vec<VarItem>, expressions: Vec<ExprItem> },
    TypeDeclaration { name: String, type_info: TypeNode },
    Unsupported,
}

/// A position in a source file: a byte offset and a one-based line number.
#[derive(PartialEq, Eq, Structural, Clone, Copy)]
pub struct Position {
    pub bytes: usize,
    pub line: usize,
}

/// What kind of token the comment collector sees.
pub enum ScanTokenKind {
    MultiLineComment { blocks: usize, comment: String },
    SingleLineComment { comment: String },
    Whitespace,
    Unsupported,
}

/// One token of a file's scan, with its positions.
pub struct ScanToken {
    pub kind: ScanTokenKind,
    pub start: Position,
    pub end: Position,
}

/// A scanned token together with the statement it precedes, if any.
pub struct ScanItem {
    pub token: ScanToken,
    pub stmt: Option<StmtShape>,
}

} // verus!
