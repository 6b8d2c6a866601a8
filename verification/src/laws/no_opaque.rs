//! After the walk no opaque node is left in the type expression.

use vstd::prelude::*;
use crate::rewrite::{
    count_arg, count_args, count_bound, count_bounds, count_params, count_type, count_types,
    rewrite_arg, rewrite_args, rewrite_bound, rewrite_bounds, rewrite_params, rewrite_type,
    rewrite_types,
};
use crate::syntax::{ArgView, BoundView, ParamsView, Text, TypeView};

verus! {

proof fn lemma_count_types_none(s: Seq<TypeView>)
    requires
        forall|i: int| 0 <= i < s.len() ==> count_type(#[trigger] s[i]) == 0,
    ensures
        count_types(s) == 0,
    decreases s.len(),
{
    if s.len() > 0 {
        lemma_count_types_none(s.drop_last());
    }
}

proof fn lemma_count_bounds_none(s: Seq<BoundView>)
    requires
        forall|i: int| 0 <= i < s.len() ==> count_bound(#[trigger] s[i]) == 0,
    ensures
        count_bounds(s) == 0,
    decreases s.len(),
{
    if s.len() > 0 {
        lemma_count_bounds_none(s.drop_last());
    }
}

proof fn lemma_count_args_none(s: Seq<ArgView>)
    requires
        forall|i: int| 0 <= i < s.len() ==> count_arg(#[trigger] s[i]) == 0,
    ensures
        count_args(s) == 0,
    decreases s.len(),
{
    if s.len() > 0 {
        lemma_count_args_none(s.drop_last());
    }
}

/// After the walk the type expression holds no opaque node, whatever it held before.
pub proof fn lemma_rewrite_type_clears(t: TypeView, names: Seq<Text>, start: int)
    ensures
        count_type(rewrite_type(t, names, start)) == 0,
    decreases t,
{
    match t {
        TypeView::Opaque { .. } => {
            assert(count_params(ParamsView::Bare) == 0);
        },
        TypeView::Path { path } => {
            lemma_rewrite_params_clears(path.params, names, start);
        },
        TypeView::Array { elem, .. } => {
            lemma_rewrite_type_clears(*elem, names, start);
        },
        TypeView::Pointer { elem, .. } => {
            lemma_rewrite_type_clears(*elem, names, start);
        },
        TypeView::Reference { elem, .. } => {
            lemma_rewrite_type_clears(*elem, names, start);
        },
        TypeView::Tuple { elems } => {
            lemma_rewrite_types_clears(elems, names, start);
        },
        TypeView::Infer => {},
        TypeView::Unsupported { .. } => {},
    }
}

pub proof fn lemma_rewrite_types_clears(s: Seq<TypeView>, names: Seq<Text>, start: int)
    ensures
        count_types(rewrite_types(s, names, start)) == 0,
    decreases s,
{
    let r = rewrite_types(s, names, start);
    assert forall|i: int| 0 <= i < r.len() implies count_type(#[trigger] r[i]) == 0 by {
        lemma_rewrite_type_clears(s[i], names, start + count_types(s.take(i)));
    }
    lemma_count_types_none(r);
}

pub proof fn lemma_rewrite_bound_clears(b: BoundView, names: Seq<Text>, start: int)
    ensures
        count_bound(rewrite_bound(b, names, start)) == 0,
    decreases b,
{
    match b {
        BoundView::Trait { path, .. } => {
            lemma_rewrite_params_clears(path.params, names, start);
        },
        BoundView::Lifetime { .. } => {},
    }
}

pub proof fn lemma_rewrite_bounds_clears(s: Seq<BoundView>, names: Seq<Text>, start: int)
    ensures
        count_bounds(rewrite_bounds(s, names, start)) == 0,
    decreases s,
{
    let r = rewrite_bounds(s, names, start);
    assert forall|i: int| 0 <= i < r.len() implies count_bound(#[trigger] r[i]) == 0 by {
        lemma_rewrite_bound_clears(s[i], names, start + count_bounds(s.take(i)));
    }
    lemma_count_bounds_none(r);
}

pub proof fn lemma_rewrite_params_clears(p: ParamsView, names: Seq<Text>, start: int)
    ensures
        count_params(rewrite_params(p, names, start)) == 0,
    decreases p,
{
    match p {
        ParamsView::Bare => {},
        ParamsView::Bracketed { args } => {
            lemma_rewrite_args_clears(args, names, start);
        },
        ParamsView::Parenthesized { inputs, output } => {
            lemma_rewrite_types_clears(inputs, names, start);
            match output {
                Some(t) => {
                    lemma_rewrite_type_clears(*t, names, start + count_types(inputs));
                },
                None => {},
            }
        },
    }
}

pub proof fn lemma_rewrite_arg_clears(a: ArgView, names: Seq<Text>, start: int)
    ensures
        count_arg(rewrite_arg(a, names, start)) == 0,
    decreases a,
{
    match a {
        ArgView::Type { ty } => {
            lemma_rewrite_type_clears(ty, names, start);
        },
        ArgView::Binding { ty, .. } => {
            lemma_rewrite_type_clears(ty, names, start);
        },
        ArgView::Constraint { .. } => {},
        ArgView::Const { .. } => {},
        ArgView::Lifetime { .. } => {},
    }
}

pub proof fn lemma_rewrite_args_clears(s: Seq<ArgView>, names: Seq<Text>, start: int)
    ensures
        count_args(rewrite_args(s, names, start)) == 0,
    decreases s,
{
    let r = rewrite_args(s, names, start);
    assert forall|i: int| 0 <= i < r.len() implies count_arg(#[trigger] r[i]) == 0 by {
        lemma_rewrite_arg_clears(s[i], names, start + count_args(s.take(i)));
    }
    lemma_count_args_none(r);
}

} // verus!
