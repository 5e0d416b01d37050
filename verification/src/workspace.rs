//! Syntax trees and the semantic facts that the checks read.
//!
//! A file is the list of its syntax nodes in document order, a node before its children. A node
//! is named by its position in that list. Items that name resolution can lead to (types,
//! functions, traits) are kept in tables of the [`Workspace`] and named by their position there.

use vstd::prelude::*;

verus! {

/// A span of text, in bytes from the start of the file.
#[derive(Clone, Copy, PartialEq, Eq, Structural, Debug)]
pub struct TextRange {
    pub start: u32,
    pub end: u32,
}

/// A span of text in one file.
#[derive(Clone, Copy, PartialEq, Eq, Structural, Debug)]
pub struct FileRange {
    pub file_id: u32,
    pub range: TextRange,
}

// ---------------------------------------------------------------------------
// Paths and types
// ---------------------------------------------------------------------------

/// What a path resolves to.
#[derive(Clone, Copy, PartialEq, Eq, Structural, Debug)]
pub enum Resolution {
    /// A struct, enum or union: its position in [`Workspace::adts`].
    Adt(usize),
    /// A trait: its position in [`Workspace::traits`].
    Trait(usize),
    /// A function: its position in [`Workspace::functions`].
    Function(usize),
    /// A generic type parameter.
    TypeParam,
    /// A tuple struct or tuple variant, named as the function that makes a value of it.
    Constructor,
    /// Anything else.
    Other,
}

/// A path such as `Pin::new`.
#[derive(Debug)]
pub struct Path {
    pub range: TextRange,
    /// Whether something stands before the last segment.
    pub qualified: bool,
    /// The last segment.
    pub segment: Option<PathSegment>,
    /// What the path resolves to, if anything.
    pub resolution: Option<Resolution>,
}

/// One segment of a path.
#[derive(Debug)]
pub struct PathSegment {
    pub name: Option<String>,
    /// The arguments in angle brackets, if the brackets are there.
    pub generic_args: Option<Vec<GenericArg>>,
}

/// An argument in angle brackets.
#[derive(Debug)]
pub enum GenericArg {
    Type(Option<TypeSyntax>),
    Other,
}

/// A type as it is written.
#[derive(Debug)]
pub struct TypeSyntax {
    pub text: String,
    pub kind: TypeKind,
}

/// The shape of a written type.
#[derive(Debug)]
pub enum TypeKind {
    Path(Option<Path>),
    Ref { mutable: bool, inner: Option<Box<TypeSyntax>> },
    Other,
}

/// What type inference knows about a type.
#[derive(Debug)]
pub struct TypeInfo {
    /// The type as it is shown to the user.
    pub display: String,
    /// The traits that the type implements, by position in [`Workspace::traits`].
    pub implements: Vec<usize>,
    /// For a pointer, such as `&mut T` or `Box<T>`: the traits that the type it points to
    /// implements.
    pub target_implements: Option<Vec<usize>>,
}

// ---------------------------------------------------------------------------
// Syntax nodes
// ---------------------------------------------------------------------------

/// A syntax node.
#[derive(Debug)]
pub struct Node {
    pub range: TextRange,
    pub parent: Option<usize>,
    /// The type of an expression, after adjustments.
    pub ty: Option<TypeInfo>,
    pub kind: NodeKind,
}

/// What a syntax node is.
#[derive(Debug)]
pub enum NodeKind {
    Impl(ImplItem),
    FnItem(FnItem),
    MethodCall(MethodCall),
    Call(Call),
    Field(FieldAccess),
    PathExpr(Option<Path>),
    RefExpr { mutable: bool, expr: Option<usize> },
    Closure { body: Option<usize> },
    BinExpr { op: Option<BinaryOp>, lhs: Option<usize> },
    ParenExpr { expr: Option<usize> },
    ArgList,
    LetStmt,
    ReturnExpr,
    TupleExpr,
    RecordExprField,
    Other,
}

/// A binary operator, as far as the checks tell them apart.
#[derive(Clone, Copy, PartialEq, Eq, Structural, Debug)]
pub enum BinaryOp {
    /// `=` and the compound assignments.
    Assignment,
    Other,
}

/// An impl block.
#[derive(Debug)]
pub struct ImplItem {
    /// Where the `impl` keyword stands.
    pub impl_token: Option<TextRange>,
    /// The type parameters in angle brackets after the keyword.
    pub type_params: Vec<TypeParam>,
    /// The trait, for a trait impl.
    pub trait_type: Option<TypeSyntax>,
    pub self_type: Option<TypeSyntax>,
    pub where_predicates: Option<Vec<WherePredicate>>,
    /// The members between the braces, if the braces are there.
    pub items: Option<Vec<AssocItem>>,
}

/// A generic type parameter, `T` or `T: Bound`.
#[derive(Debug)]
pub struct TypeParam {
    pub name: Option<String>,
    /// The types after the colon, if there are any bounds; lifetimes bring no type.
    pub bounds: Option<Vec<Option<TypeSyntax>>>,
}

/// A predicate of a `where` clause.
#[derive(Debug)]
pub struct WherePredicate {
    pub ty: Option<TypeSyntax>,
    /// The types after the colon, if there are any bounds; lifetimes bring no type.
    pub bounds: Option<Vec<Option<TypeSyntax>>>,
}

/// A member of an impl block.
#[derive(Clone, Copy, Debug)]
pub enum AssocItem {
    /// The node of the function.
    FnItem(usize),
    Other,
}

/// A function.
#[derive(Debug)]
pub struct FnItem {
    pub name: Option<String>,
    pub is_unsafe: bool,
    /// The type that is written after `self:`.
    pub self_param_type: Option<TypeSyntax>,
    pub body: Option<usize>,
}

/// A macro call that code was expanded from.
#[derive(Debug)]
pub struct Expansion {
    /// The crate that defines the macro.
    pub defined_in: Option<String>,
    /// The crate that the macro call stands in.
    pub called_in: Option<String>,
}

/// Where a call comes from and where it is shown.
#[derive(Debug)]
pub struct CallSite {
    /// The macro calls that the call was expanded from, innermost first.
    pub expansions: Vec<Expansion>,
    /// The place at which a diagnostic for the call is shown.
    pub display_range: FileRange,
}

/// A method call, `receiver.name(args)`.
#[derive(Debug)]
pub struct MethodCall {
    pub name: Option<String>,
    pub receiver: Option<usize>,
    pub args: Option<Vec<usize>>,
    /// The function that is called, by position in [`Workspace::functions`].
    pub resolved: Option<usize>,
    pub site: CallSite,
}

/// A call, `callee(args)`.
#[derive(Debug)]
pub struct Call {
    pub callee: Option<usize>,
    pub args: Option<Vec<usize>>,
    pub site: CallSite,
}

/// A field access, `expr.name`.
#[derive(Debug)]
pub struct FieldAccess {
    pub expr: Option<usize>,
    pub name: Option<String>,
}

/// A file: its identifier and its nodes in document order.
#[derive(Debug)]
pub struct SourceFile {
    pub file_id: u32,
    pub nodes: Vec<Node>,
}

// ---------------------------------------------------------------------------
// Items
// ---------------------------------------------------------------------------

/// The kinds of types that a user can define.
#[derive(Clone, Copy, PartialEq, Eq, Structural, Debug)]
pub enum AdtKind {
    Struct,
    Enum,
    Union,
}

/// A struct, enum or union.
#[derive(Debug)]
pub struct AdtDef {
    pub kind: AdtKind,
    pub name: String,
    /// The module that defines it; the root module of a crate has no name.
    pub module_name: Option<String>,
    pub crate_name: Option<String>,
    /// The fields as they are written between braces, if the definition can be read and has
    /// named fields.
    pub record_fields: Option<Vec<RecordField>>,
    /// The fields with their inferred types.
    pub fields: Vec<FieldDef>,
    /// All impls of the type, wherever they are written.
    pub impls: Vec<ImplDef>,
}

/// A field as it is written.
#[derive(Debug)]
pub struct RecordField {
    pub name: Option<String>,
    pub ty: Option<TypeSyntax>,
}

/// A field with its type.
#[derive(Debug)]
pub struct FieldDef {
    pub name: String,
    pub ty: TypeInfo,
}

/// An impl of a type.
#[derive(Debug)]
pub struct ImplDef {
    pub is_trait_impl: bool,
    pub items: Vec<ImplMember>,
}

/// A member of an impl.
#[derive(Clone, Copy, Debug)]
pub enum ImplMember {
    /// A function, with its source if it can be read.
    Function(Option<FnSource>),
    Other,
}

/// The source of a function: a node of a file of the workspace.
#[derive(Clone, Copy, Debug)]
pub struct FnSource {
    pub file: usize,
    pub node: usize,
}

/// A function.
#[derive(Debug)]
pub struct FunctionDef {
    pub name: String,
    pub module_name: Option<String>,
    pub crate_name: Option<String>,
    pub container: FnContainer,
}

/// Where a function is defined.
#[derive(Clone, Copy, Debug)]
pub enum FnContainer {
    /// Directly in a module.
    Module,
    Trait,
    /// In an impl; with the type that the impl is for, where that is a struct, enum or union.
    Impl(Option<usize>),
}

/// A trait.
#[derive(Debug)]
pub struct TraitDef {
    pub name: String,
    pub crate_name: Option<String>,
}

/// A crate: its name and the modules directly under its root.
#[derive(Debug)]
pub struct CrateDef {
    pub name: Option<String>,
    pub modules: Vec<ModuleDef>,
}

/// A module and what it declares.
#[derive(Debug)]
pub struct ModuleDef {
    pub name: Option<String>,
    pub declarations: Vec<Declaration>,
}

/// A declaration in a module.
#[derive(Clone, Copy, Debug)]
pub enum Declaration {
    Trait(usize),
    Other,
}

/// Everything that the checks read.
#[derive(Debug)]
pub struct Workspace {
    pub files: Vec<SourceFile>,
    pub crates: Vec<CrateDef>,
    pub adts: Vec<AdtDef>,
    pub functions: Vec<FunctionDef>,
    pub traits: Vec<TraitDef>,
}

} // verus!
