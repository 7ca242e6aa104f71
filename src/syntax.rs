//! The plain-value model of the declarations that the rewriting reads and writes.
//!
//! Parts that the rewriting never looks into are kept as their source text; the
//! parts it decides on (asynchronous markers, lifetimes, references, annotations,
//! method bodies) are modelled field by field.
use vstd::prelude::*;

verus! {

/// A reference type (`&'a T`, `&'a mut T`, or a `&self` receiver) written inside a
/// signature, with its explicit lifetime if it has one.
#[derive(Debug, Clone, PartialEq, Eq)]
pub struct RefSite {
    pub lifetime: Option<String>,
    pub receiver: bool,
    pub mutable: bool,
}

/// A piece of source text (a parameter, a type) together with every reference
/// type written inside it, in source order.
#[derive(Debug, Clone, PartialEq, Eq)]
pub struct Fragment {
    pub tokens: String,
    pub refs: Vec<RefSite>,
}

/// A lifetime parameter: its name (`'a`) and its full declaration (`'a: 'b`).
#[derive(Debug, Clone, PartialEq, Eq)]
pub struct LifetimeParam {
    pub name: String,
    pub tokens: String,
}

#[derive(Debug, Clone, PartialEq, Eq)]
pub enum GenericParam {
    Lifetime(LifetimeParam),
    /// A type or const parameter, as source text.
    Other(String),
}

#[derive(Debug, Clone, PartialEq, Eq)]
pub struct Generics {
    pub params: Vec<GenericParam>,
    /// The `where` clause as source text, empty when there is none.
    pub where_clause: String,
}

#[derive(Debug, Clone, PartialEq, Eq)]
pub enum ReturnType {
    /// No `->` at all: the method produces `()`.
    Unit,
    Type(Fragment),
    /// `Self::<ident><args>`: a reference to an associated type slot.
    Slot { ident: String, args: Vec<String> },
}

#[derive(Debug, Clone, PartialEq, Eq)]
pub struct Signature {
    pub constness: bool,
    pub asyncness: bool,
    pub unsafety: bool,
    /// `extern "C"` and the like, empty when absent.
    pub abi: String,
    pub ident: String,
    pub generics: Generics,
    /// The parameters, the receiver included, in source order.
    pub inputs: Vec<Fragment>,
    pub output: ReturnType,
}

/// One token of an attribute's arguments.
#[derive(Debug, Clone, PartialEq, Eq)]
pub enum AttrToken {
    Ident(String),
    Punct(char),
    Literal(String),
    /// A delimited group nested inside the arguments, by its opening delimiter.
    Group(char),
}

/// One token tree that follows an attribute's path.
#[derive(Debug, Clone, PartialEq, Eq)]
pub enum AttrArg {
    Token(AttrToken),
    /// A delimited group, as the tokens it encloses.
    Group(Vec<AttrToken>),
}

#[derive(Debug, Clone, PartialEq, Eq)]
pub struct Attribute {
    /// The whole attribute, `#[...]` included.
    pub tokens: String,
    /// The attribute's name where its path is one plain identifier.
    pub simple_name: Option<String>,
    /// The token trees that follow the path.
    pub args: Vec<AttrArg>,
}

#[derive(Debug, Clone, PartialEq, Eq)]
pub enum Body {
    /// A declaration without a body (`;`).
    Absent,
    /// A block, as its statements.
    Block(Vec<String>),
    /// A block whose single expression is `async move { .. }` around the statements.
    Deferred(Vec<String>),
}

#[derive(Debug, Clone, PartialEq, Eq)]
pub struct Method {
    pub attrs: Vec<Attribute>,
    /// Visibility and `default`, as source text.
    pub qualifiers: String,
    pub sig: Signature,
    pub body: Body,
}

/// An extra guarantee that a method's computation can be asked to give.
#[derive(Debug, Clone, Copy, PartialEq, Eq, Structural)]
pub enum Capability {
    /// The computation may be moved across threads.
    Send,
}

#[derive(Debug, Clone, PartialEq, Eq)]
pub enum Bound {
    /// `::core::future::Future<Output = ..>`, holding the output type's text.
    Future(String),
    Lifetime(String),
    Capability(Capability),
}

/// `type <ident><generics>: <bounds>;` in an interface.
#[derive(Debug, Clone, PartialEq, Eq)]
pub struct SlotDecl {
    pub ident: String,
    pub generics: Vec<LifetimeParam>,
    pub bounds: Vec<Bound>,
}

/// `type <ident><generics> = self::<alias><alias_args>;` in an implementation.
#[derive(Debug, Clone, PartialEq, Eq)]
pub struct SlotBinding {
    pub ident: String,
    pub generics: Vec<LifetimeParam>,
    pub alias: String,
    pub alias_args: Vec<String>,
}

/// `type <ident><generics> = impl <bounds>;` beside an implementation.
#[derive(Debug, Clone, PartialEq, Eq)]
pub struct AliasDecl {
    pub ident: String,
    pub generics: Vec<LifetimeParam>,
    pub bounds: Vec<Bound>,
}

#[derive(Debug, Clone, PartialEq, Eq)]
pub enum Member {
    Method(Method),
    Slot(SlotDecl),
    Binding(SlotBinding),
    /// Any other member, as source text.
    Other(String),
}

#[derive(Debug, Clone, PartialEq, Eq)]
pub struct TraitDecl {
    /// Attributes, visibility, `unsafe`, `auto`, `trait` and the name.
    pub prefix: String,
    pub generics: Generics,
    /// `: Supertrait + ..`, empty when absent.
    pub supertraits: String,
    pub members: Vec<Member>,
}

#[derive(Debug, Clone, PartialEq, Eq)]
pub struct ImplDecl {
    /// Attributes, `default`, `unsafe` and `impl`.
    pub prefix: String,
    pub generics: Generics,
    /// The implemented trait (with a leading `!` for a negative impl); `None`
    /// for an inherent impl.
    pub trait_path: Option<String>,
    pub self_ty: String,
    pub members: Vec<Member>,
}

#[derive(Debug, Clone, PartialEq, Eq)]
pub enum Item {
    Trait(TraitDecl),
    Impl(ImplDecl),
    Other,
}

/// A rewritten implementation, placed in a private module beside its aliases.
#[derive(Debug, Clone, PartialEq, Eq)]
pub struct ImplOutput {
    pub module: String,
    pub item: ImplDecl,
    pub aliases: Vec<AliasDecl>,
}

#[derive(Debug, Clone, PartialEq, Eq)]
pub enum Output {
    Trait(TraitDecl),
    Impl(ImplOutput),
}

#[derive(Debug, Clone, PartialEq, Eq)]
pub enum TransformError {
    /// The item is neither a trait nor an implementation of a trait.
    Shape,
    /// A reference in the signature of `method` has no explicit lifetime.
    MissingLifetime { method: String, site: RefSite },
    /// An annotation token names no known capability.
    UnrecognizedCapability(String),
    /// An annotation holds punctuation, or a nested group (given by its
    /// opening delimiter), where a capability name was expected.
    MalformedAnnotation(char),
    /// The rewritten text could not be read back as tokens.
    Internal,
}

impl LifetimeParam {
    pub fn copy(&self) -> (r: LifetimeParam)
        ensures
            r == *self,
    {
        LifetimeParam { name: self.name.clone(), tokens: self.tokens.clone() }
    }
}

impl AttrToken {
    pub fn copy(&self) -> (r: AttrToken)
        ensures
            r == *self,
    {
        match self {
            AttrToken::Ident(s) => AttrToken::Ident(s.clone()),
            AttrToken::Punct(c) => AttrToken::Punct(*c),
            AttrToken::Literal(s) => AttrToken::Literal(s.clone()),
            AttrToken::Group(c) => AttrToken::Group(*c),
        }
    }
}

impl RefSite {
    pub fn copy(&self) -> (r: RefSite)
        ensures
            r == *self,
    {
        let lifetime = match &self.lifetime {
            Some(l) => Some(l.clone()),
            None => None,
        };
        RefSite { lifetime, receiver: self.receiver, mutable: self.mutable }
    }
}

} // verus!
