//! What the service attribute reads of a trait's syntax.
//!
//! Each node holds, as plain values, what the rules for services look at, and
//! as fragments of type `S` the source text that is copied into generated code
//! or pointed at by a diagnostic.

use vstd::prelude::*;

verus! {

/// An identifier.
pub struct Ident<S> {
    /// The name, with the `r#` of a raw identifier.
    pub text: String,
    pub tokens: S,
}

/// The generic parameters of a trait or a method.
pub struct Generics<S> {
    /// How many parameters there are.
    pub params: usize,
    pub tokens: S,
}

/// The bounds behind the colon of a trait.
pub struct Supertraits<S> {
    /// How many bounds there are.
    pub bounds: usize,
    pub tokens: S,
}

/// A trait.
pub struct TraitSyntax<S> {
    /// The attributes, one fragment each.
    pub attrs: Vec<S>,
    pub vis: S,
    pub ident: Ident<S>,
    pub generics: Generics<S>,
    pub supertraits: Supertraits<S>,
    pub items: Vec<ItemSyntax<S>>,
}

/// An item of a trait.
pub enum ItemSyntax<S> {
    Fn(MethodSyntax<S>),
    /// A constant, a type, a macro call or anything else.
    Other(S),
}

/// A method of a trait.
pub struct MethodSyntax<S> {
    pub tokens: S,
    pub sig: Signature<S>,
    /// Whether the method has a default body.
    pub default: bool,
}

/// The signature of a method.
pub struct Signature<S> {
    pub tokens: S,
    /// Whether the method is `async`.
    pub asyncness: bool,
    /// The keyword `fn`.
    pub fn_token: S,
    pub ident: Ident<S>,
    pub generics: Generics<S>,
    pub inputs: Vec<FnArg<S>>,
    pub output: ReturnType<S>,
}

/// A parameter of a method.
pub enum FnArg<S> {
    /// A form of `self`.
    Receiver(Receiver<S>),
    /// A pattern and its type.
    Typed(PatType<S>),
}

/// A `self` parameter.
pub struct Receiver<S> {
    pub tokens: S,
    /// Whether `self` is taken by reference.
    pub reference: bool,
    /// Whether it is `mut`.
    pub mutability: bool,
}

/// A parameter other than `self`.
pub struct PatType<S> {
    pub pat: Pat<S>,
    /// The source of the type.
    pub ty: S,
}

/// The pattern of a parameter.
pub enum Pat<S> {
    /// A plain name, whatever `ref` or `mut` stands before it.
    Ident(Ident<S>),
    Other(S),
}

/// What a method returns.
pub enum ReturnType<S> {
    /// Nothing is written. The fragment is empty.
    Default(S),
    Type(Type<S>),
}

/// A type that a method returns.
pub enum Type<S> {
    Path(TypePath<S>),
    /// A reference, a tuple, a slice or anything else that is no path.
    Other(S),
}

/// A type that is a path, such as `std::result::Result<u8, Error>`.
pub struct TypePath<S> {
    pub tokens: S,
    /// The steps of the path, in order.
    pub segments: Vec<SegmentSyntax<S>>,
}

/// One step of a path, such as `Result<u8, Error>`.
pub struct SegmentSyntax<S> {
    pub tokens: S,
    pub ident: Ident<S>,
    pub arguments: PathArguments<S>,
}

/// What follows the name of a path segment.
pub enum PathArguments<S> {
    AngleBracketed(GenericArguments<S>),
    /// Nothing, or arguments in round brackets.
    Other,
}

/// Generic arguments in angle brackets.
pub struct GenericArguments<S> {
    pub tokens: S,
    pub args: Vec<GenericArgument<S>>,
}

/// A generic argument.
pub enum GenericArgument<S> {
    Type(TypeArgument<S>),
    /// A lifetime, a constant or a constraint.
    Other,
}

/// A type among generic arguments.
pub struct TypeArgument<S> {
    pub tokens: S,
    /// The names along the path that the type is, if it is one.
    pub path: Option<Vec<String>>,
}

} // verus!
