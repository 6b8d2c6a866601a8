//! The walk changes nothing but the opaque nodes: around them the type expression keeps its
//! shape, its order and all that is written in it.

use vstd::prelude::*;
use crate::rewrite::{
    count_args, count_bounds, count_types, rewrite_arg, rewrite_args, rewrite_bound,
    rewrite_bounds, rewrite_output, rewrite_params, rewrite_type, rewrite_types,
};
use crate::syntax::{ArgView, BoundView, ParamsView, Text, TypeView};

verus! {

/// A reference to an alias: a path of one segment, with nothing before it and no parameters.
pub open spec fn is_alias_ref(t: TypeView) -> bool {
    &&& t is Path
    &&& t->path.prefix.len() == 0
    &&& t->path.segments.len() == 1
    &&& t->path.params is Bare
}

/// `b` is `a` with a reference to an alias in the place of every opaque node, and is otherwise
/// the same: the same kinds of node in the same order, with the same text.
pub open spec fn same_shape_type(a: TypeView, b: TypeView) -> bool
    decreases a,
{
    match a {
        TypeView::Opaque { .. } => is_alias_ref(b),
        TypeView::Path { path } => {
            &&& b is Path
            &&& b->path.prefix == path.prefix
            &&& b->path.segments == path.segments
            &&& same_shape_params(path.params, b->path.params)
        },
        TypeView::Array { elem, len } => {
            &&& b is Array
            &&& b->len == len
            &&& same_shape_type(*elem, *b->Array_elem)
        },
        TypeView::Pointer { mutable, elem } => {
            &&& b is Pointer
            &&& b->Pointer_mutable == mutable
            &&& same_shape_type(*elem, *b->Pointer_elem)
        },
        TypeView::Reference { lifetime, mutable, elem } => {
            &&& b is Reference
            &&& b->lifetime == lifetime
            &&& b->Reference_mutable == mutable
            &&& same_shape_type(*elem, *b->Reference_elem)
        },
        TypeView::Tuple { elems } => b is Tuple && same_shape_types(elems, b->elems),
        TypeView::Infer => b is Infer,
        TypeView::Unsupported { .. } => b == a,
    }
}

pub open spec fn same_shape_types(a: Seq<TypeView>, b: Seq<TypeView>) -> bool
    decreases a,
{
    &&& a.len() == b.len()
    &&& forall|i: int| 0 <= i < a.len() ==> same_shape_type(#[trigger] a[i], b[i])
}

pub open spec fn same_shape_bound(a: BoundView, b: BoundView) -> bool
    decreases a,
{
    match a {
        BoundView::Trait { qualifier, path } => {
            &&& b is Trait
            &&& b->qualifier == qualifier
            &&& b->path.prefix == path.prefix
            &&& b->path.segments == path.segments
            &&& same_shape_params(path.params, b->path.params)
        },
        BoundView::Lifetime { .. } => b == a,
    }
}

pub open spec fn same_shape_bounds(a: Seq<BoundView>, b: Seq<BoundView>) -> bool
    decreases a,
{
    &&& a.len() == b.len()
    &&& forall|i: int| 0 <= i < a.len() ==> same_shape_bound(#[trigger] a[i], b[i])
}

pub open spec fn same_shape_output(a: Option<Box<TypeView>>, b: Option<Box<TypeView>>) -> bool
    decreases a,
{
    match a {
        Some(t) => b is Some && same_shape_type(*t, *b->Some_0),
        None => b is None,
    }
}

pub open spec fn same_shape_params(a: ParamsView, b: ParamsView) -> bool
    decreases a,
{
    match a {
        ParamsView::Bare => b is Bare,
        ParamsView::Bracketed { args } => b is Bracketed && same_shape_args(args, b->args),
        ParamsView::Parenthesized { inputs, output } => {
            &&& b is Parenthesized
            &&& same_shape_types(inputs, b->inputs)
            &&& same_shape_output(output, b->output)
        },
    }
}

pub open spec fn same_shape_arg(a: ArgView, b: ArgView) -> bool
    decreases a,
{
    match a {
        ArgView::Type { ty } => b is Type && same_shape_type(ty, b->Type_ty),
        ArgView::Binding { name, ty } => {
            &&& b is Binding
            &&& b->Binding_name == name
            &&& same_shape_type(ty, b->Binding_ty)
        },
        ArgView::Constraint { .. } => b == a,
        ArgView::Const { .. } => b == a,
        ArgView::Lifetime { .. } => b == a,
    }
}

pub open spec fn same_shape_args(a: Seq<ArgView>, b: Seq<ArgView>) -> bool
    decreases a,
{
    &&& a.len() == b.len()
    &&& forall|i: int| 0 <= i < a.len() ==> same_shape_arg(#[trigger] a[i], b[i])
}

/// The rewritten type expression has the shape of the one that was walked: only opaque nodes
/// have become references to aliases.
pub proof fn lemma_rewrite_type_keeps_shape(t: TypeView, names: Seq<Text>, start: int)
    ensures
        same_shape_type(t, rewrite_type(t, names, start)),
    decreases t,
{
    match t {
        TypeView::Opaque { .. } => {},
        TypeView::Path { path } => {
            lemma_rewrite_params_keeps_shape(path.params, names, start);
        },
        TypeView::Array { elem, .. } => {
            lemma_rewrite_type_keeps_shape(*elem, names, start);
        },
        TypeView::Pointer { elem, .. } => {
            lemma_rewrite_type_keeps_shape(*elem, names, start);
        },
        TypeView::Reference { elem, .. } => {
            lemma_rewrite_type_keeps_shape(*elem, names, start);
        },
        TypeView::Tuple { elems } => {
            lemma_rewrite_types_keeps_shape(elems, names, start);
        },
        TypeView::Infer => {},
        TypeView::Unsupported { .. } => {},
    }
}

pub proof fn lemma_rewrite_types_keeps_shape(s: Seq<TypeView>, names: Seq<Text>, start: int)
    ensures
        same_shape_types(s, rewrite_types(s, names, start)),
    decreases s,
{
    let r = rewrite_types(s, names, start);
    assert forall|i: int| 0 <= i < s.len() implies same_shape_type(#[trigger] s[i], r[i]) by {
        lemma_rewrite_type_keeps_shape(s[i], names, start + count_types(s.take(i)));
    }
}

pub proof fn lemma_rewrite_bound_keeps_shape(b: BoundView, names: Seq<Text>, start: int)
    ensures
        same_shape_bound(b, rewrite_bound(b, names, start)),
    decreases b,
{
    match b {
        BoundView::Trait { path, .. } => {
            lemma_rewrite_params_keeps_shape(path.params, names, start);
        },
        BoundView::Lifetime { .. } => {},
    }
}

pub proof fn lemma_rewrite_bounds_keeps_shape(s: Seq<BoundView>, names: Seq<Text>, start: int)
    ensures
        same_shape_bounds(s, rewrite_bounds(s, names, start)),
    decreases s,
{
    let r = rewrite_bounds(s, names, start);
    assert forall|i: int| 0 <= i < s.len() implies same_shape_bound(#[trigger] s[i], r[i]) by {
        lemma_rewrite_bound_keeps_shape(s[i], names, start + count_bounds(s.take(i)));
    }
}

pub proof fn lemma_rewrite_params_keeps_shape(p: ParamsView, names: Seq<Text>, start: int)
    ensures
        same_shape_params(p, rewrite_params(p, names, start)),
    decreases p,
{
    match p {
        ParamsView::Bare => {},
        ParamsView::Bracketed { args } => {
            lemma_rewrite_args_keeps_shape(args, names, start);
        },
        ParamsView::Parenthesized { inputs, output } => {
            lemma_rewrite_types_keeps_shape(inputs, names, start);
            match output {
                Some(t) => {
                    lemma_rewrite_type_keeps_shape(*t, names, start + count_types(inputs));
                },
                None => {},
            }
            assert(same_shape_output(
                output,
                rewrite_output(output, names, start + count_types(inputs)),
            ));
        },
    }
}

pub proof fn lemma_rewrite_arg_keeps_shape(a: ArgView, names: Seq<Text>, start: int)
    ensures
        same_shape_arg(a, rewrite_arg(a, names, start)),
    decreases a,
{
    match a {
        ArgView::Type { ty } => {
            lemma_rewrite_type_keeps_shape(ty, names, start);
        },
        ArgView::Binding { ty, .. } => {
            lemma_rewrite_type_keeps_shape(ty, names, start);
        },
        ArgView::Constraint { .. } => {},
        ArgView::Const { .. } => {},
        ArgView::Lifetime { .. } => {},
    }
}

pub proof fn lemma_rewrite_args_keeps_shape(s: Seq<ArgView>, names: Seq<Text>, start: int)
    ensures
        same_shape_args(s, rewrite_args(s, names, start)),
    decreases s,
{
    let r = rewrite_args(s, names, start);
    assert forall|i: int| 0 <= i < s.len() implies same_shape_arg(#[trigger] s[i], r[i]) by {
        lemma_rewrite_arg_keeps_shape(s[i], names, start + count_args(s.take(i)));
    }
}

} // verus!
