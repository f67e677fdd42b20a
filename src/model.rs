use vstd::prelude::*;

verus! {

/// One argument of a directive annotation, as written in the source.
#[derive(PartialEq, Eq, Debug, Clone)]
pub enum DirectiveArg {
    /// A bare identifier: `simple(Ping)`.
    Ident(String),
    /// A literal, as its token text including the quoting: `simple("Ping")`.
    Literal(String),
    /// Any other shape (a nested list, a `name = value` pair).
    Unsupported,
}

/// An annotation attached to a method.
#[derive(PartialEq, Eq, Debug, Clone)]
pub enum Annotation {
    /// An annotation of the form `name(arg, ...)`.
    List { name: String, args: Vec<DirectiveArg> },
    /// Any other annotation, carried by its source text.
    Other(String),
}

/// The handler kind a directive asks for, with the type names it names.
#[derive(PartialEq, Eq, Debug, Clone)]
pub enum HandlerType {
    /// A call-through handler for the message type.
    Simple(String),
    /// A handler whose method returns a success/failure outcome.
    Handler(String),
    /// A streaming handler for a message type and an error type.
    Stream(String, String),
}

/// The binding pattern of a parameter.
#[derive(PartialEq, Eq, Debug, Clone)]
pub enum Pattern {
    /// A plain identifier binding.
    Ident(String),
    /// A destructuring or otherwise compound pattern.
    Other,
}

/// One segment of a type path.
#[derive(PartialEq, Eq, Debug, Clone)]
pub struct PathSegment {
    pub ident: String,
    /// Whether the segment carries generic or parenthesized arguments.
    pub has_args: bool,
}

/// The declared type of a parameter, as far as the mapping needs it.
#[derive(PartialEq, Eq, Debug, Clone)]
pub enum TypeShape {
    /// A path type; `global` when it starts with `::`.
    Path { global: bool, segments: Vec<PathSegment> },
    /// Any other type (a reference, a tuple, ...).
    Other,
}

/// A parameter of a method.
#[derive(PartialEq, Eq, Debug, Clone)]
pub enum Param {
    /// The `self` receiver, in any form.
    Receiver,
    /// A parameter with a binding pattern and a declared type.
    Captured { pat: Pattern, ty: TypeShape },
    /// A parameter whose binding was elided.
    Ignored,
}

/// How the generated dispatch function supplies one argument of the method.
#[derive(PartialEq, Eq, Debug, Clone)]
pub enum ArgumentBinding {
    /// Pass the dispatch context value.
    Context,
    /// Pass the whole incoming message value.
    Message,
    /// Pass the named field of the incoming message value.
    Field(String),
}

/// Why a transformation was refused.
#[derive(PartialEq, Eq, Debug, Clone)]
pub enum HandlerError {
    /// The annotated declaration is not a plain implementation block.
    InvalidTarget,
    /// A directive has the wrong number of arguments or an unsupported argument;
    /// carries the directive's name.
    DirectiveSyntax(String),
    /// A handler method's parameter uses a compound pattern.
    UnsupportedParameterPattern,
    /// A handler method's parameter binding was elided; carries the method's name.
    IgnoredParameter(String),
}

/// A method of the implementation block with its parameters and annotations.
#[derive(PartialEq, Eq, Debug, Clone)]
pub struct AnnotatedMethod {
    pub name: String,
    pub params: Vec<Param>,
    pub annotations: Vec<Annotation>,
}

/// The implementation block being extended.
#[derive(PartialEq, Eq, Debug, Clone)]
pub struct ImplBlock {
    /// The target type as source text.
    pub self_ty: String,
    /// The target type's shape, which names the generated scope.
    pub self_shape: TypeShape,
    pub methods: Vec<AnnotatedMethod>,
}

/// The declaration the transformation is attached to.
#[derive(PartialEq, Eq, Debug, Clone)]
pub enum Item {
    /// An implementation block; `trait_impl` when it implements a trait.
    Impl { trait_impl: bool, block: ImplBlock },
    /// Any other declaration.
    Other,
}

} // verus!
