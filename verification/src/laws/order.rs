//! The order of the alias definitions: an opaque node nested in the bounds of another is
//! defined before it.

use vstd::prelude::*;
use crate::laws::alias_count::{
    lemma_aliases_args_len, lemma_aliases_bounds_len, lemma_aliases_types_len,
};
use crate::laws::no_opaque::lemma_rewrite_bounds_clears;
use crate::rewrite::{
    AliasView, aliases_arg, aliases_args, aliases_bound, aliases_bounds, aliases_output,
    aliases_params, aliases_type, aliases_types, count_args, count_bounds, count_types,
    rewrite_bounds,
};
use crate::syntax::{ArgView, BoundView, ParamsView, Text, TypeView};

verus! {

/// The opaque nodes of a type expression, nested ones included, in the order in which the walk
/// defines their aliases: those in the bounds of an opaque node first, then the node itself.
pub open spec fn opaque_nodes_type(t: TypeView) -> Seq<TypeView>
    decreases t,
{
    match t {
        TypeView::Opaque { bounds } => opaque_nodes_bounds(bounds).push(t),
        TypeView::Path { path } => opaque_nodes_params(path.params),
        TypeView::Array { elem, .. } => opaque_nodes_type(*elem),
        TypeView::Pointer { elem, .. } => opaque_nodes_type(*elem),
        TypeView::Reference { elem, .. } => opaque_nodes_type(*elem),
        TypeView::Tuple { elems } => opaque_nodes_types(elems),
        TypeView::Infer => Seq::empty(),
        TypeView::Unsupported { .. } => Seq::empty(),
    }
}

pub open spec fn opaque_nodes_types(s: Seq<TypeView>) -> Seq<TypeView>
    decreases s,
{
    if s.len() == 0 {
        Seq::empty()
    } else {
        opaque_nodes_types(s.drop_last()) + opaque_nodes_type(s.last())
    }
}

pub open spec fn opaque_nodes_bound(b: BoundView) -> Seq<TypeView>
    decreases b,
{
    match b {
        BoundView::Trait { path, .. } => opaque_nodes_params(path.params),
        BoundView::Lifetime { .. } => Seq::empty(),
    }
}

pub open spec fn opaque_nodes_bounds(s: Seq<BoundView>) -> Seq<TypeView>
    decreases s,
{
    if s.len() == 0 {
        Seq::empty()
    } else {
        opaque_nodes_bounds(s.drop_last()) + opaque_nodes_bound(s.last())
    }
}

pub open spec fn opaque_nodes_output(o: Option<Box<TypeView>>) -> Seq<TypeView>
    decreases o,
{
    match o {
        Some(t) => opaque_nodes_type(*t),
        None => Seq::empty(),
    }
}

pub open spec fn opaque_nodes_params(p: ParamsView) -> Seq<TypeView>
    decreases p,
{
    match p {
        ParamsView::Bare => Seq::empty(),
        ParamsView::Bracketed { args } => opaque_nodes_args(args),
        ParamsView::Parenthesized { inputs, output } => opaque_nodes_types(inputs)
            + opaque_nodes_output(output),
    }
}

pub open spec fn opaque_nodes_arg(a: ArgView) -> Seq<TypeView>
    decreases a,
{
    match a {
        ArgView::Type { ty } => opaque_nodes_type(ty),
        ArgView::Binding { ty, .. } => opaque_nodes_type(ty),
        ArgView::Constraint { .. } => Seq::empty(),
        ArgView::Const { .. } => Seq::empty(),
        ArgView::Lifetime { .. } => Seq::empty(),
    }
}

pub open spec fn opaque_nodes_args(s: Seq<ArgView>) -> Seq<TypeView>
    decreases s,
{
    if s.len() == 0 {
        Seq::empty()
    } else {
        opaque_nodes_args(s.drop_last()) + opaque_nodes_arg(s.last())
    }
}

/// Definition `k` is the definition of opaque node `k`, and the opaque nodes nested in the
/// bounds of that node are the nodes that stand directly before it, all of them: it is given
/// the name at `start + k`, and it captures the bounds as the walk left them, which began where
/// the first of the nested nodes stands.
pub open spec fn defines(
    nodes: Seq<TypeView>,
    aliases: Seq<AliasView>,
    names: Seq<Text>,
    start: int,
    k: int,
) -> bool {
    let inner = nodes[k]->bounds;
    let nested = count_bounds(inner);
    &&& nodes[k] is Opaque
    &&& nested <= k
    &&& nodes.subrange(k - nested, k) == opaque_nodes_bounds(inner)
    &&& aliases[k] == AliasView {
        name: names[start + k],
        captured: TypeView::Opaque { bounds: rewrite_bounds(inner, names, start + k - nested) },
    }
}

/// There is one definition for each of the opaque nodes, in their order, and each has the
/// nodes nested in it directly before it.
pub open spec fn defined_in_order(
    nodes: Seq<TypeView>,
    aliases: Seq<AliasView>,
    names: Seq<Text>,
    start: int,
) -> bool {
    &&& aliases.len() == nodes.len()
    &&& forall|k: int| 0 <= k < nodes.len() ==> defines(nodes, aliases, names, start, k)
}

proof fn lemma_order_concat(
    n1: Seq<TypeView>,
    a1: Seq<AliasView>,
    n2: Seq<TypeView>,
    a2: Seq<AliasView>,
    names: Seq<Text>,
    start: int,
)
    requires
        defined_in_order(n1, a1, names, start),
        defined_in_order(n2, a2, names, start + n1.len()),
    ensures
        defined_in_order(n1 + n2, a1 + a2, names, start),
{
    let nodes = n1 + n2;
    let aliases = a1 + a2;
    assert forall|k: int| 0 <= k < nodes.len() implies defines(nodes, aliases, names, start, k) by {
        if k < n1.len() {
            assert(defines(n1, a1, names, start, k));
            let nested = count_bounds(n1[k]->bounds);
            assert(nodes.subrange(k - nested, k) == n1.subrange(k - nested, k));
        } else {
            let j = k - n1.len();
            assert(defines(n2, a2, names, start + n1.len(), j));
            let nested = count_bounds(n2[j]->bounds);
            assert(nodes.subrange(k - nested, k) == n2.subrange(j - nested, j));
        }
    }
}

/// The opaque nodes of a type expression and the alias definitions that the walk emits match
/// one to one, in order, and every opaque node that is nested in the bounds of another stands
/// before it: the nodes nested in node `k` are the `count_bounds` nodes directly before `k`.
pub proof fn lemma_order_type(t: TypeView, names: Seq<Text>, start: int)
    ensures
        defined_in_order(opaque_nodes_type(t), aliases_type(t, names, start), names, start),
    decreases t,
{
    match t {
        TypeView::Opaque { bounds } => {
            lemma_order_bounds(bounds, names, start);
            lemma_aliases_bounds_len(bounds, names, start);
            let inner = opaque_nodes_bounds(bounds);
            let nodes = opaque_nodes_type(t);
            let aliases = aliases_type(t, names, start);
            assert forall|k: int| 0 <= k < nodes.len() implies defines(
                nodes,
                aliases,
                names,
                start,
                k,
            ) by {
                if k < inner.len() {
                    assert(defines(inner, aliases_bounds(bounds, names, start), names, start, k));
                    let nested = count_bounds(inner[k]->bounds);
                    assert(nodes.subrange(k - nested, k) == inner.subrange(k - nested, k));
                } else {
                    assert(nodes.subrange(0, k) == inner);
                }
            }
        },
        TypeView::Path { path } => {
            lemma_order_params(path.params, names, start);
        },
        TypeView::Array { elem, .. } => {
            lemma_order_type(*elem, names, start);
        },
        TypeView::Pointer { elem, .. } => {
            lemma_order_type(*elem, names, start);
        },
        TypeView::Reference { elem, .. } => {
            lemma_order_type(*elem, names, start);
        },
        TypeView::Tuple { elems } => {
            lemma_order_types(elems, names, start);
        },
        TypeView::Infer => {},
        TypeView::Unsupported { .. } => {},
    }
}

pub proof fn lemma_order_types(s: Seq<TypeView>, names: Seq<Text>, start: int)
    ensures
        defined_in_order(opaque_nodes_types(s), aliases_types(s, names, start), names, start),
    decreases s,
{
    if s.len() > 0 {
        lemma_order_types(s.drop_last(), names, start);
        lemma_aliases_types_len(s.drop_last(), names, start);
        lemma_order_type(s.last(), names, start + count_types(s.drop_last()));
        lemma_order_concat(
            opaque_nodes_types(s.drop_last()),
            aliases_types(s.drop_last(), names, start),
            opaque_nodes_type(s.last()),
            aliases_type(s.last(), names, start + count_types(s.drop_last())),
            names,
            start,
        );
    }
}

pub proof fn lemma_order_bound(b: BoundView, names: Seq<Text>, start: int)
    ensures
        defined_in_order(opaque_nodes_bound(b), aliases_bound(b, names, start), names, start),
    decreases b,
{
    match b {
        BoundView::Trait { path, .. } => {
            lemma_order_params(path.params, names, start);
        },
        BoundView::Lifetime { .. } => {},
    }
}

pub proof fn lemma_order_bounds(s: Seq<BoundView>, names: Seq<Text>, start: int)
    ensures
        defined_in_order(opaque_nodes_bounds(s), aliases_bounds(s, names, start), names, start),
    decreases s,
{
    if s.len() > 0 {
        lemma_order_bounds(s.drop_last(), names, start);
        lemma_aliases_bounds_len(s.drop_last(), names, start);
        lemma_order_bound(s.last(), names, start + count_bounds(s.drop_last()));
        lemma_order_concat(
            opaque_nodes_bounds(s.drop_last()),
            aliases_bounds(s.drop_last(), names, start),
            opaque_nodes_bound(s.last()),
            aliases_bound(s.last(), names, start + count_bounds(s.drop_last())),
            names,
            start,
        );
    }
}

pub proof fn lemma_order_params(p: ParamsView, names: Seq<Text>, start: int)
    ensures
        defined_in_order(opaque_nodes_params(p), aliases_params(p, names, start), names, start),
    decreases p,
{
    match p {
        ParamsView::Bare => {},
        ParamsView::Bracketed { args } => {
            lemma_order_args(args, names, start);
        },
        ParamsView::Parenthesized { inputs, output } => {
            lemma_order_types(inputs, names, start);
            lemma_aliases_types_len(inputs, names, start);
            match output {
                Some(t) => {
                    lemma_order_type(*t, names, start + count_types(inputs));
                },
                None => {},
            }
            lemma_order_concat(
                opaque_nodes_types(inputs),
                aliases_types(inputs, names, start),
                opaque_nodes_output(output),
                aliases_output(output, names, start + count_types(inputs)),
                names,
                start,
            );
        },
    }
}

pub proof fn lemma_order_arg(a: ArgView, names: Seq<Text>, start: int)
    ensures
        defined_in_order(opaque_nodes_arg(a), aliases_arg(a, names, start), names, start),
    decreases a,
{
    match a {
        ArgView::Type { ty } => {
            lemma_order_type(ty, names, start);
        },
        ArgView::Binding { ty, .. } => {
            lemma_order_type(ty, names, start);
        },
        ArgView::Constraint { .. } => {},
        ArgView::Const { .. } => {},
        ArgView::Lifetime { .. } => {},
    }
}

pub proof fn lemma_order_args(s: Seq<ArgView>, names: Seq<Text>, start: int)
    ensures
        defined_in_order(opaque_nodes_args(s), aliases_args(s, names, start), names, start),
    decreases s,
{
    if s.len() > 0 {
        lemma_order_args(s.drop_last(), names, start);
        lemma_aliases_args_len(s.drop_last(), names, start);
        lemma_order_arg(s.last(), names, start + count_args(s.drop_last()));
        lemma_order_concat(
            opaque_nodes_args(s.drop_last()),
            aliases_args(s.drop_last(), names, start),
            opaque_nodes_arg(s.last()),
            aliases_arg(s.last(), names, start + count_args(s.drop_last())),
            names,
            start,
        );
    }
}

/// Where an opaque node is nested in the bounds of another, its alias is defined strictly
/// before the other's: the `nth` opaque node in the bounds of node `outer` is the node at
/// `inner`, which comes before `outer`, and the definition at `inner` has the name that the
/// walk gave that node.
pub proof fn lemma_inner_before_outer(
    t: TypeView,
    names: Seq<Text>,
    start: int,
    outer: int,
    nth: int,
)
    requires
        0 <= outer < opaque_nodes_type(t).len(),
        0 <= nth < opaque_nodes_bounds(opaque_nodes_type(t)[outer]->bounds).len(),
    ensures
        ({
            let nodes = opaque_nodes_type(t);
            let aliases = aliases_type(t, names, start);
            let nested = opaque_nodes_bounds(nodes[outer]->bounds);
            let inner = outer - nested.len() + nth;
            &&& 0 <= inner < outer
            &&& nodes[inner] == nested[nth]
            &&& aliases.len() == nodes.len()
            &&& aliases[inner].name == names[start + inner]
            &&& aliases[outer].name == names[start + outer]
        }),
{
    lemma_order_type(t, names, start);
    let nodes = opaque_nodes_type(t);
    let aliases = aliases_type(t, names, start);
    let bounds = nodes[outer]->bounds;
    let nested = opaque_nodes_bounds(bounds);
    assert(defines(nodes, aliases, names, start, outer));
    lemma_aliases_bounds_len(bounds, names, start);
    lemma_order_bounds(bounds, names, start);
    let inner = outer - nested.len() + nth;
    assert(nodes.subrange(outer - count_bounds(bounds), outer)[nth] == nodes[inner]);
    assert(defines(nodes, aliases, names, start, inner));
}

/// Every alias definition captures an opaque node whose bounds hold no opaque node any more:
/// where one was nested, the reference to its alias stands.
pub proof fn lemma_captured_is_resolved(t: TypeView, names: Seq<Text>, start: int, k: int)
    requires
        0 <= k < aliases_type(t, names, start).len(),
    ensures
        aliases_type(t, names, start)[k].captured is Opaque,
        count_bounds(aliases_type(t, names, start)[k].captured->bounds) == 0,
{
    lemma_order_type(t, names, start);
    let nodes = opaque_nodes_type(t);
    assert(defines(nodes, aliases_type(t, names, start), names, start, k));
    let inner = nodes[k]->bounds;
    lemma_rewrite_bounds_clears(inner, names, start + k - count_bounds(inner));
}

} // verus!
