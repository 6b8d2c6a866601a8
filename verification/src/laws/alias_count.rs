//! The walk emits one alias definition for each opaque node.

use vstd::prelude::*;
use crate::rewrite::{
    aliases_arg, aliases_args, aliases_bound, aliases_bounds, aliases_params, aliases_type,
    aliases_types, count_arg, count_args, count_bound, count_bounds, count_params, count_type,
    count_types,
};
use crate::syntax::{ArgView, BoundView, ParamsView, Text, TypeView};

verus! {

/// The walk emits as many alias definitions as the type expression holds opaque nodes.
pub proof fn lemma_aliases_type_len(t: TypeView, names: Seq<Text>, start: int)
    ensures
        aliases_type(t, names, start).len() == count_type(t),
    decreases t,
{
    match t {
        TypeView::Opaque { bounds } => {
            lemma_aliases_bounds_len(bounds, names, start);
        },
        TypeView::Path { path } => {
            lemma_aliases_params_len(path.params, names, start);
        },
        TypeView::Array { elem, .. } => {
            lemma_aliases_type_len(*elem, names, start);
        },
        TypeView::Pointer { elem, .. } => {
            lemma_aliases_type_len(*elem, names, start);
        },
        TypeView::Reference { elem, .. } => {
            lemma_aliases_type_len(*elem, names, start);
        },
        TypeView::Tuple { elems } => {
            lemma_aliases_types_len(elems, names, start);
        },
        TypeView::Infer => {},
        TypeView::Unsupported { .. } => {},
    }
}

pub proof fn lemma_aliases_types_len(s: Seq<TypeView>, names: Seq<Text>, start: int)
    ensures
        aliases_types(s, names, start).len() == count_types(s),
    decreases s,
{
    if s.len() > 0 {
        lemma_aliases_types_len(s.drop_last(), names, start);
        lemma_aliases_type_len(s.last(), names, start + count_types(s.drop_last()));
    }
}

pub proof fn lemma_aliases_bound_len(b: BoundView, names: Seq<Text>, start: int)
    ensures
        aliases_bound(b, names, start).len() == count_bound(b),
    decreases b,
{
    match b {
        BoundView::Trait { path, .. } => {
            lemma_aliases_params_len(path.params, names, start);
        },
        BoundView::Lifetime { .. } => {},
    }
}

pub proof fn lemma_aliases_bounds_len(s: Seq<BoundView>, names: Seq<Text>, start: int)
    ensures
        aliases_bounds(s, names, start).len() == count_bounds(s),
    decreases s,
{
    if s.len() > 0 {
        lemma_aliases_bounds_len(s.drop_last(), names, start);
        lemma_aliases_bound_len(s.last(), names, start + count_bounds(s.drop_last()));
    }
}

pub proof fn lemma_aliases_params_len(p: ParamsView, names: Seq<Text>, start: int)
    ensures
        aliases_params(p, names, start).len() == count_params(p),
    decreases p,
{
    match p {
        ParamsView::Bare => {},
        ParamsView::Bracketed { args } => {
            lemma_aliases_args_len(args, names, start);
        },
        ParamsView::Parenthesized { inputs, output } => {
            lemma_aliases_types_len(inputs, names, start);
            match output {
                Some(t) => {
                    lemma_aliases_type_len(*t, names, start + count_types(inputs));
                },
                None => {},
            }
        },
    }
}

pub proof fn lemma_aliases_arg_len(a: ArgView, names: Seq<Text>, start: int)
    ensures
        aliases_arg(a, names, start).len() == count_arg(a),
    decreases a,
{
    match a {
        ArgView::Type { ty } => {
            lemma_aliases_type_len(ty, names, start);
        },
        ArgView::Binding { ty, .. } => {
            lemma_aliases_type_len(ty, names, start);
        },
        ArgView::Constraint { .. } => {},
        ArgView::Const { .. } => {},
        ArgView::Lifetime { .. } => {},
    }
}

pub proof fn lemma_aliases_args_len(s: Seq<ArgView>, names: Seq<Text>, start: int)
    ensures
        aliases_args(s, names, start).len() == count_args(s),
    decreases s,
{
    if s.len() > 0 {
        lemma_aliases_args_len(s.drop_last(), names, start);
        lemma_aliases_arg_len(s.last(), names, start + count_args(s.drop_last()));
    }
}

} // verus!
