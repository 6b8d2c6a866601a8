//! The type expressions that the transform walks, and their mathematical views.
//!
//! Each executable type has a view made of `Seq`s and plain values, and every contract in this
//! crate is stated over those views. Text that the walk never looks into (identifiers, lifetimes,
//! array lengths, initializers) is carried as written.

use vstd::prelude::*;

verus! {

/// Source text, as a sequence of characters.
pub type Text = Seq<char>;

/// A type expression.
#[derive(Debug, PartialEq, Eq)]
pub enum TypeNode {
    /// `impl A + B`: a type known only by the bounds it satisfies.
    Opaque { bounds: Vec<Bound> },
    /// A named type, possibly with parameters: `Option<T>`, `Fn(A) -> B`.
    Path { path: CapabilityPath },
    /// `[elem; len]`
    Array { elem: Box<TypeNode>, len: String },
    /// `*const elem` or `*mut elem`
    Pointer { mutable: bool, elem: Box<TypeNode> },
    /// `&elem`, with an optional lifetime and `mut`
    Reference { lifetime: Option<String>, mutable: bool, elem: Box<TypeNode> },
    /// `(a, b, c)`
    Tuple { elems: Vec<TypeNode> },
    /// `_`
    Infer,
    /// Any other shape of type, kept as written. The walk refuses it.
    Unsupported { text: String },
}

/// One bound of an opaque type.
#[derive(Debug, PartialEq, Eq)]
pub enum Bound {
    /// A trait bound. `qualifier` is what stands before the path (`?`, `for<'a>`), often empty.
    Trait { qualifier: String, path: CapabilityPath },
    /// A lifetime bound such as `'static`. The walk never looks into it.
    Lifetime { name: String },
}

/// A path: segments, the last of which may carry a parameter list.
#[derive(Debug, PartialEq, Eq)]
pub struct CapabilityPath {
    /// What stands before the first segment (`::`, `<T as Tr>::`), often empty.
    pub prefix: String,
    pub segments: Vec<String>,
    /// The parameter list of the last segment.
    pub params: Params,
}

/// The parameter list of a path's last segment.
#[derive(Debug, PartialEq, Eq)]
pub enum Params {
    /// No parameters: `Display`
    Bare,
    /// `<A, Item = B, 'a>`
    Bracketed { args: Vec<GenericArg> },
    /// `(A, B) -> C`
    Parenthesized { inputs: Vec<TypeNode>, output: Option<Box<TypeNode>> },
}

/// One argument of a bracketed parameter list.
#[derive(Debug, PartialEq, Eq)]
pub enum GenericArg {
    /// `T`
    Type { ty: TypeNode },
    /// `Item = T`
    Binding { name: String, ty: TypeNode },
    /// `Item: Bound`, kept as written. The walk refuses it.
    Constraint { text: String },
    /// A const expression, kept as written. The walk refuses it.
    Const { text: String },
    /// `'a`
    Lifetime { name: String },
}

/// View of [`TypeNode`].
pub enum TypeView {
    Opaque { bounds: Seq<BoundView> },
    Path { path: PathView },
    Array { elem: Box<TypeView>, len: Text },
    Pointer { mutable: bool, elem: Box<TypeView> },
    Reference { lifetime: Option<Text>, mutable: bool, elem: Box<TypeView> },
    Tuple { elems: Seq<TypeView> },
    Infer,
    Unsupported { text: Text },
}

/// View of [`Bound`].
pub enum BoundView {
    Trait { qualifier: Text, path: PathView },
    Lifetime { name: Text },
}

/// View of [`CapabilityPath`].
pub struct PathView {
    pub prefix: Text,
    pub segments: Seq<Text>,
    pub params: ParamsView,
}

/// View of [`Params`].
pub enum ParamsView {
    Bare,
    Bracketed { args: Seq<ArgView> },
    Parenthesized { inputs: Seq<TypeView>, output: Option<Box<TypeView>> },
}

/// View of [`GenericArg`].
pub enum ArgView {
    Type { ty: TypeView },
    Binding { name: Text, ty: TypeView },
    Constraint { text: Text },
    Const { text: Text },
    Lifetime { name: Text },
}

pub open spec fn texts_view(v: Seq<String>) -> Seq<Text> {
    Seq::new(v.len(), |i: int| v[i]@)
}

pub open spec fn type_view(n: TypeNode) -> TypeView
    decreases n,
{
    match n {
        TypeNode::Opaque { bounds } => TypeView::Opaque { bounds: bounds_view(bounds@) },
        TypeNode::Path { path } => TypeView::Path { path: path_view(path) },
        TypeNode::Array { elem, len } => TypeView::Array {
            elem: Box::new(type_view(*elem)),
            len: len@,
        },
        TypeNode::Pointer { mutable, elem } => TypeView::Pointer {
            mutable,
            elem: Box::new(type_view(*elem)),
        },
        TypeNode::Reference { lifetime, mutable, elem } => TypeView::Reference {
            lifetime: match lifetime {
                Some(l) => Some(l@),
                None => None,
            },
            mutable,
            elem: Box::new(type_view(*elem)),
        },
        TypeNode::Tuple { elems } => TypeView::Tuple { elems: types_view(elems@) },
        TypeNode::Infer => TypeView::Infer,
        TypeNode::Unsupported { text } => TypeView::Unsupported { text: text@ },
    }
}

pub open spec fn types_view(v: Seq<TypeNode>) -> Seq<TypeView>
    decreases v,
{
    Seq::new(
        v.len(),
        |i: int|
            if 0 <= i < v.len() {
                type_view(v[i])
            } else {
                TypeView::Infer
            },
    )
}

pub open spec fn bound_view(b: Bound) -> BoundView
    decreases b,
{
    match b {
        Bound::Trait { qualifier, path } => BoundView::Trait {
            qualifier: qualifier@,
            path: path_view(path),
        },
        Bound::Lifetime { name } => BoundView::Lifetime { name: name@ },
    }
}

pub open spec fn bounds_view(v: Seq<Bound>) -> Seq<BoundView>
    decreases v,
{
    Seq::new(
        v.len(),
        |i: int|
            if 0 <= i < v.len() {
                bound_view(v[i])
            } else {
                BoundView::Lifetime { name: Seq::empty() }
            },
    )
}

pub open spec fn path_view(p: CapabilityPath) -> PathView
    decreases p,
{
    PathView { prefix: p.prefix@, segments: texts_view(p.segments@), params: params_view(p.params) }
}

pub open spec fn params_view(p: Params) -> ParamsView
    decreases p,
{
    match p {
        Params::Bare => ParamsView::Bare,
        Params::Bracketed { args } => ParamsView::Bracketed { args: args_view(args@) },
        Params::Parenthesized { inputs, output } => ParamsView::Parenthesized {
            inputs: types_view(inputs@),
            output: match output {
                Some(o) => Some(Box::new(type_view(*o))),
                None => None,
            },
        },
    }
}

pub open spec fn arg_view(a: GenericArg) -> ArgView
    decreases a,
{
    match a {
        GenericArg::Type { ty } => ArgView::Type { ty: type_view(ty) },
        GenericArg::Binding { name, ty } => ArgView::Binding { name: name@, ty: type_view(ty) },
        GenericArg::Constraint { text } => ArgView::Constraint { text: text@ },
        GenericArg::Const { text } => ArgView::Const { text: text@ },
        GenericArg::Lifetime { name } => ArgView::Lifetime { name: name@ },
    }
}

pub open spec fn args_view(v: Seq<GenericArg>) -> Seq<ArgView>
    decreases v,
{
    Seq::new(
        v.len(),
        |i: int|
            if 0 <= i < v.len() {
                arg_view(v[i])
            } else {
                ArgView::Lifetime { name: Seq::empty() }
            },
    )
}

impl View for TypeNode {
    type V = TypeView;

    open spec fn view(&self) -> TypeView {
        type_view(*self)
    }
}

impl View for Bound {
    type V = BoundView;

    open spec fn view(&self) -> BoundView {
        bound_view(*self)
    }
}

impl View for CapabilityPath {
    type V = PathView;

    open spec fn view(&self) -> PathView {
        path_view(*self)
    }
}

impl View for Params {
    type V = ParamsView;

    open spec fn view(&self) -> ParamsView {
        params_view(*self)
    }
}

impl View for GenericArg {
    type V = ArgView;

    open spec fn view(&self) -> ArgView {
        arg_view(*self)
    }
}

} // verus!
