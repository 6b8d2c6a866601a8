//! What the extraction computes, as functions on views.
//!
//! The walk visits a type expression depth first and left to right. Every opaque node it meets
//! is given the next name of a sequence, after the opaque nodes nested in its own bounds have
//! been given theirs. `names` is that sequence and `start` the index of the first name that the
//! walk of the given subtree uses: the subtree then uses the names at `start`, `start + 1`, ..,
//! one for each opaque node in it.

use vstd::prelude::*;
use crate::syntax::{ArgView, BoundView, ParamsView, PathView, Text, TypeView};

verus! {

/// View of an alias definition: `type name = captured;`.
pub struct AliasView {
    pub name: Text,
    pub captured: TypeView,
}

/// The type that refers to an alias by its bare name.
pub open spec fn alias_ref(name: Text) -> TypeView {
    TypeView::Path {
        path: PathView { prefix: Seq::empty(), segments: seq![name], params: ParamsView::Bare },
    }
}

/// The names of a sequence of alias definitions, in order.
pub open spec fn names_of(aliases: Seq<AliasView>) -> Seq<Text> {
    Seq::new(aliases.len(), |i: int| aliases[i].name)
}

// ---------------------------------------------------------------------------------------------
// Counting opaque nodes
// ---------------------------------------------------------------------------------------------

/// The number of opaque nodes in a type expression, nested ones included.
pub open spec fn count_type(t: TypeView) -> nat
    decreases t,
{
    match t {
        TypeView::Opaque { bounds } => count_bounds(bounds) + 1,
        TypeView::Path { path } => count_params(path.params),
        TypeView::Array { elem, .. } => count_type(*elem),
        TypeView::Pointer { elem, .. } => count_type(*elem),
        TypeView::Reference { elem, .. } => count_type(*elem),
        TypeView::Tuple { elems } => count_types(elems),
        TypeView::Infer => 0,
        TypeView::Unsupported { .. } => 0,
    }
}

pub open spec fn count_types(s: Seq<TypeView>) -> nat
    decreases s,
{
    if s.len() == 0 {
        0
    } else {
        count_types(s.drop_last()) + count_type(s.last())
    }
}

pub open spec fn count_bound(b: BoundView) -> nat
    decreases b,
{
    match b {
        BoundView::Trait { path, .. } => count_params(path.params),
        BoundView::Lifetime { .. } => 0,
    }
}

pub open spec fn count_bounds(s: Seq<BoundView>) -> nat
    decreases s,
{
    if s.len() == 0 {
        0
    } else {
        count_bounds(s.drop_last()) + count_bound(s.last())
    }
}

pub open spec fn count_output(o: Option<Box<TypeView>>) -> nat
    decreases o,
{
    match o {
        Some(t) => count_type(*t),
        None => 0,
    }
}

pub open spec fn count_params(p: ParamsView) -> nat
    decreases p,
{
    match p {
        ParamsView::Bare => 0,
        ParamsView::Bracketed { args } => count_args(args),
        ParamsView::Parenthesized { inputs, output } => count_types(inputs) + count_output(output),
    }
}

pub open spec fn count_arg(a: ArgView) -> nat
    decreases a,
{
    match a {
        ArgView::Type { ty } => count_type(ty),
        ArgView::Binding { ty, .. } => count_type(ty),
        ArgView::Constraint { .. } => 0,
        ArgView::Const { .. } => 0,
        ArgView::Lifetime { .. } => 0,
    }
}

pub open spec fn count_args(s: Seq<ArgView>) -> nat
    decreases s,
{
    if s.len() == 0 {
        0
    } else {
        count_args(s.drop_last()) + count_arg(s.last())
    }
}

// ---------------------------------------------------------------------------------------------
// The rewritten tree
// ---------------------------------------------------------------------------------------------

/// The type expression after the walk: every opaque node replaced by a reference to its alias.
pub open spec fn rewrite_type(t: TypeView, names: Seq<Text>, start: int) -> TypeView
    decreases t,
{
    match t {
        TypeView::Opaque { bounds } => alias_ref(names[start + count_bounds(bounds)]),
        TypeView::Path { path } => TypeView::Path {
            path: PathView {
                prefix: path.prefix,
                segments: path.segments,
                params: rewrite_params(path.params, names, start),
            },
        },
        TypeView::Array { elem, len } => TypeView::Array {
            elem: Box::new(rewrite_type(*elem, names, start)),
            len,
        },
        TypeView::Pointer { mutable, elem } => TypeView::Pointer {
            mutable,
            elem: Box::new(rewrite_type(*elem, names, start)),
        },
        TypeView::Reference { lifetime, mutable, elem } => TypeView::Reference {
            lifetime,
            mutable,
            elem: Box::new(rewrite_type(*elem, names, start)),
        },
        TypeView::Tuple { elems } => TypeView::Tuple { elems: rewrite_types(elems, names, start) },
        TypeView::Infer => t,
        TypeView::Unsupported { .. } => t,
    }
}

/// Element `i` is walked after the elements before it, so it starts where they ended.
pub open spec fn rewrite_types(s: Seq<TypeView>, names: Seq<Text>, start: int) -> Seq<TypeView>
    decreases s,
{
    Seq::new(
        s.len(),
        |i: int|
            if 0 <= i < s.len() {
                rewrite_type(s[i], names, start + count_types(s.take(i)))
            } else {
                TypeView::Infer
            },
    )
}

pub open spec fn rewrite_bound(b: BoundView, names: Seq<Text>, start: int) -> BoundView
    decreases b,
{
    match b {
        BoundView::Trait { qualifier, path } => BoundView::Trait {
            qualifier,
            path: PathView {
                prefix: path.prefix,
                segments: path.segments,
                params: rewrite_params(path.params, names, start),
            },
        },
        BoundView::Lifetime { .. } => b,
    }
}

pub open spec fn rewrite_bounds(s: Seq<BoundView>, names: Seq<Text>, start: int) -> Seq<BoundView>
    decreases s,
{
    Seq::new(
        s.len(),
        |i: int|
            if 0 <= i < s.len() {
                rewrite_bound(s[i], names, start + count_bounds(s.take(i)))
            } else {
                BoundView::Lifetime { name: Seq::empty() }
            },
    )
}

pub open spec fn rewrite_output(o: Option<Box<TypeView>>, names: Seq<Text>, start: int) -> Option<
    Box<TypeView>,
>
    decreases o,
{
    match o {
        Some(t) => Some(Box::new(rewrite_type(*t, names, start))),
        None => None,
    }
}

/// A parenthesized list is walked inputs first, then the output.
pub open spec fn rewrite_params(p: ParamsView, names: Seq<Text>, start: int) -> ParamsView
    decreases p,
{
    match p {
        ParamsView::Bare => p,
        ParamsView::Bracketed { args } => ParamsView::Bracketed {
            args: rewrite_args(args, names, start),
        },
        ParamsView::Parenthesized { inputs, output } => ParamsView::Parenthesized {
            inputs: rewrite_types(inputs, names, start),
            output: rewrite_output(output, names, start + count_types(inputs)),
        },
    }
}

pub open spec fn rewrite_arg(a: ArgView, names: Seq<Text>, start: int) -> ArgView
    decreases a,
{
    match a {
        ArgView::Type { ty } => ArgView::Type { ty: rewrite_type(ty, names, start) },
        ArgView::Binding { name, ty } => ArgView::Binding {
            name,
            ty: rewrite_type(ty, names, start),
        },
        ArgView::Constraint { .. } => a,
        ArgView::Const { .. } => a,
        ArgView::Lifetime { .. } => a,
    }
}

pub open spec fn rewrite_args(s: Seq<ArgView>, names: Seq<Text>, start: int) -> Seq<ArgView>
    decreases s,
{
    Seq::new(
        s.len(),
        |i: int|
            if 0 <= i < s.len() {
                rewrite_arg(s[i], names, start + count_args(s.take(i)))
            } else {
                ArgView::Lifetime { name: Seq::empty() }
            },
    )
}

// ---------------------------------------------------------------------------------------------
// The alias definitions, in the order in which they are emitted
// ---------------------------------------------------------------------------------------------

/// The alias definitions that the walk of `t` emits. An opaque node's own definition comes after
/// those of the opaque nodes in its bounds, and captures the bounds as the walk left them.
pub open spec fn aliases_type(t: TypeView, names: Seq<Text>, start: int) -> Seq<AliasView>
    decreases t,
{
    match t {
        TypeView::Opaque { bounds } => aliases_bounds(bounds, names, start).push(
            AliasView {
                name: names[start + count_bounds(bounds)],
                captured: TypeView::Opaque { bounds: rewrite_bounds(bounds, names, start) },
            },
        ),
        TypeView::Path { path } => aliases_params(path.params, names, start),
        TypeView::Array { elem, .. } => aliases_type(*elem, names, start),
        TypeView::Pointer { elem, .. } => aliases_type(*elem, names, start),
        TypeView::Reference { elem, .. } => aliases_type(*elem, names, start),
        TypeView::Tuple { elems } => aliases_types(elems, names, start),
        TypeView::Infer => Seq::empty(),
        TypeView::Unsupported { .. } => Seq::empty(),
    }
}

pub open spec fn aliases_types(s: Seq<TypeView>, names: Seq<Text>, start: int) -> Seq<AliasView>
    decreases s,
{
    if s.len() == 0 {
        Seq::empty()
    } else {
        aliases_types(s.drop_last(), names, start) + aliases_type(
            s.last(),
            names,
            start + count_types(s.drop_last()),
        )
    }
}

pub open spec fn aliases_bound(b: BoundView, names: Seq<Text>, start: int) -> Seq<AliasView>
    decreases b,
{
    match b {
        BoundView::Trait { path, .. } => aliases_params(path.params, names, start),
        BoundView::Lifetime { .. } => Seq::empty(),
    }
}

pub open spec fn aliases_bounds(s: Seq<BoundView>, names: Seq<Text>, start: int) -> Seq<AliasView>
    decreases s,
{
    if s.len() == 0 {
        Seq::empty()
    } else {
        aliases_bounds(s.drop_last(), names, start) + aliases_bound(
            s.last(),
            names,
            start + count_bounds(s.drop_last()),
        )
    }
}

pub open spec fn aliases_output(o: Option<Box<TypeView>>, names: Seq<Text>, start: int) -> Seq<
    AliasView,
>
    decreases o,
{
    match o {
        Some(t) => aliases_type(*t, names, start),
        None => Seq::empty(),
    }
}

pub open spec fn aliases_params(p: ParamsView, names: Seq<Text>, start: int) -> Seq<AliasView>
    decreases p,
{
    match p {
        ParamsView::Bare => Seq::empty(),
        ParamsView::Bracketed { args } => aliases_args(args, names, start),
        ParamsView::Parenthesized { inputs, output } => aliases_types(inputs, names, start)
            + aliases_output(output, names, start + count_types(inputs)),
    }
}

pub open spec fn aliases_arg(a: ArgView, names: Seq<Text>, start: int) -> Seq<AliasView>
    decreases a,
{
    match a {
        ArgView::Type { ty } => aliases_type(ty, names, start),
        ArgView::Binding { ty, .. } => aliases_type(ty, names, start),
        ArgView::Constraint { .. } => Seq::empty(),
        ArgView::Const { .. } => Seq::empty(),
        ArgView::Lifetime { .. } => Seq::empty(),
    }
}

pub open spec fn aliases_args(s: Seq<ArgView>, names: Seq<Text>, start: int) -> Seq<AliasView>
    decreases s,
{
    if s.len() == 0 {
        Seq::empty()
    } else {
        aliases_args(s.drop_last(), names, start) + aliases_arg(
            s.last(),
            names,
            start + count_args(s.drop_last()),
        )
    }
}

} // verus!
