//! The walk: finds every opaque node of a type expression, gives it a fresh alias, and puts a
//! reference to the alias in its place.

use vstd::prelude::*;
use crate::check::{check_type, first_error_type};
use crate::error::BindError;
use crate::frame::{
    agree, lemma_count_args_prefix, lemma_count_bounds_prefix, lemma_count_types_prefix,
    lemma_frame_args, lemma_frame_arg, lemma_frame_bound, lemma_frame_bounds, lemma_frame_type,
    lemma_frame_types,
};
use crate::rewrite::{
    AliasView, alias_ref, aliases_arg, aliases_args, aliases_bound, aliases_bounds,
    aliases_params, aliases_type, aliases_types, count_arg, count_args, count_bound,
    count_bounds, count_params, count_type, count_types, names_of, rewrite_arg, rewrite_args,
    rewrite_bound, rewrite_bounds, rewrite_params, rewrite_type, rewrite_types,
};
use crate::laws::no_opaque::lemma_rewrite_type_clears;
use crate::laws::unique::{distinct_heads, lemma_unique_names, pairwise_distinct};
use crate::syntax::{
    ArgView, Bound, BoundView, CapabilityPath, GenericArg, Params, ParamsView, Text, TypeNode,
    TypeView, args_view, bounds_view, types_view,
};
use crate::token::{
    TokenSource, UuidTokens, alias_name, alias_name_of, alias_names_of, is_alias_name, is_token,
    lemma_alias_name_shape,
};

verus! {

/// An alias definition: `type name = captured;`, where `captured` is the opaque node that the
/// alias stands for, as the walk left it.
#[derive(Debug, PartialEq, Eq)]
pub struct AliasDefinition {
    pub name: String,
    pub captured: TypeNode,
}

impl View for AliasDefinition {
    type V = AliasView;

    open spec fn view(&self) -> AliasView {
        AliasView { name: self.name@, captured: self.captured@ }
    }
}

/// The views of a sequence of alias definitions.
pub open spec fn aliases_view(v: Seq<AliasDefinition>) -> Seq<AliasView> {
    Seq::new(v.len(), |i: int| v[i]@)
}

/// What one part of the walk adds to what was there before it: the definitions `emitted` after
/// those of `before`, one token drawn for each of them, and each new name made from its token.
spec fn walked(
    before: Seq<AliasView>,
    after: Seq<AliasView>,
    issued_before: Seq<Text>,
    issued_after: Seq<Text>,
    count: nat,
    emitted: Seq<AliasView>,
) -> bool {
    &&& after == before + emitted
    &&& emitted.len() == count
    &&& issued_after.len() == issued_before.len() + count
    &&& issued_after.take(issued_before.len() as int) == issued_before
    &&& forall|k: int|
        0 <= k < count ==> (#[trigger] after[before.len() + k]).name == alias_name_of(
            issued_after[issued_before.len() + k],
        )
    &&& forall|k: int|
        0 <= k < count ==> is_token(#[trigger] issued_after[issued_before.len() + k])
}

/// A part of the walk that emits nothing.
proof fn lemma_walked_nothing(a0: Seq<AliasView>, i0: Seq<Text>)
    ensures
        walked(a0, a0, i0, i0, 0, Seq::empty()),
{
    assert(a0 == a0 + Seq::<AliasView>::empty());
    assert(i0.take(i0.len() as int) == i0);
}

/// Two parts of the walk, one after the other, and what the second leaves of the first's names.
proof fn lemma_walked_then(
    a0: Seq<AliasView>,
    a1: Seq<AliasView>,
    a2: Seq<AliasView>,
    i0: Seq<Text>,
    i1: Seq<Text>,
    i2: Seq<Text>,
    c1: nat,
    c2: nat,
    e1: Seq<AliasView>,
    e2: Seq<AliasView>,
)
    requires
        walked(a0, a1, i0, i1, c1, e1),
        walked(a1, a2, i1, i2, c2, e2),
    ensures
        walked(a0, a2, i0, i2, c1 + c2, e1 + e2),
        agree(names_of(a1), names_of(a2), 0, a1.len() as int),
{
    assert(a2 == a0 + (e1 + e2));
    assert(i2.take(i0.len() as int) == i0) by {
        assert(i2.take(i0.len() as int) == i2.take(i1.len() as int).take(i0.len() as int));
    }
    assert forall|k: int| 0 <= k < c1 + c2 implies (#[trigger] a2[a0.len() + k]).name
        == alias_name_of(i2[i0.len() + k]) by {
        if k < c1 {
            assert(a2[a0.len() + k] == a1[a0.len() + k]);
            assert(i2[i0.len() + k] == i2.take(i1.len() as int)[i0.len() + k]);
        } else {
            assert(a2[a0.len() + k] == a2[a1.len() + (k - c1)]);
        }
    }
    assert forall|k: int| 0 <= k < c1 + c2 implies is_token(#[trigger] i2[i0.len() + k]) by {
        if k < c1 {
            assert(i2[i0.len() + k] == i2.take(i1.len() as int)[i0.len() + k]);
        } else {
            assert(i2[i0.len() + k] == i2[i1.len() + (k - c1)]);
        }
    }
}

/// The type that refers to an alias by its bare name.
pub fn alias_reference(name: String) -> (node: TypeNode)
    ensures
        node@ == alias_ref(name@),
{
    let mut segments: Vec<String> = Vec::new();
    segments.push(name);
    let path = CapabilityPath { prefix: String::new(), segments, params: Params::Bare };
    proof {
        assert(path@.prefix == Seq::<char>::empty());
        assert(path@.segments == seq![name@]);
        assert(path@.params == ParamsView::Bare);
    }
    TypeNode::Path { path }
}

/// Walks a type expression. Every opaque node in it is replaced by a reference to a fresh
/// alias, and the alias definitions are appended to `out`, an opaque node's own definition after
/// those of the opaque nodes in its bounds.
fn walk_type<S: TokenSource>(node: &mut TypeNode, source: &mut S, out: &mut Vec<AliasDefinition>)
    ensures
        final(node)@ == rewrite_type(
            old(node)@,
            names_of(aliases_view(final(out)@)),
            old(out)@.len() as int,
        ),
        walked(
            aliases_view(old(out)@),
            aliases_view(final(out)@),
            old(source).issued(),
            final(source).issued(),
            count_type(old(node)@),
            aliases_type(
                old(node)@,
                names_of(aliases_view(final(out)@)),
                old(out)@.len() as int,
            ),
        ),
    decreases *old(node),
{
    match node {
        TypeNode::Opaque { bounds } => {
            let ghost before = bounds_view(bounds@);
            let ghost a0 = aliases_view(out@);
            let ghost i0 = source.issued();
            walk_bounds(bounds, source, out);
            let ghost a1 = aliases_view(out@);
            let ghost i1 = source.issued();
            let ghost after = bounds_view(bounds@);
            let token = source.fresh();
            let name = alias_name(token.as_str());
            let mut captured = alias_reference(name.clone());
            assert(node@ == TypeView::Opaque { bounds: after });
            std::mem::swap(node, &mut captured);
            out.push(AliasDefinition { name, captured });
            proof {
                let a2 = aliases_view(out@);
                let i2 = source.issued();
                let own = AliasView { name: name@, captured: captured@ };
                let n1 = names_of(a1);
                let n2 = names_of(a2);
                assert(a2 == a1 + seq![own]);
                assert(i2.take(i1.len() as int) == i1);
                lemma_walked_then(
                    a0,
                    a1,
                    a2,
                    i0,
                    i1,
                    i2,
                    count_bounds(before),
                    1,
                    aliases_bounds(before, n1, a0.len() as int),
                    seq![own],
                );
                lemma_frame_bounds(before, n1, n2, a0.len() as int);
                assert(n2[(a0.len() + count_bounds(before)) as int] == name@);
                assert(aliases_bounds(before, n2, a0.len() as int) + seq![own] == aliases_bounds(
                    before,
                    n2,
                    a0.len() as int,
                ).push(own));
            }
        },
        TypeNode::Path { path } => {
            let ghost before = path@;
            walk_params(&mut path.params, source, out);
            assert(path@.prefix == before.prefix);
            assert(path@.segments == before.segments);
        },
        TypeNode::Array { elem, .. } => {
            walk_type(elem, source, out);
        },
        TypeNode::Pointer { elem, .. } => {
            walk_type(elem, source, out);
        },
        TypeNode::Reference { elem, .. } => {
            walk_type(elem, source, out);
        },
        TypeNode::Tuple { elems } => {
            walk_types(elems, source, out);
        },
        TypeNode::Infer => {
            proof {
                lemma_walked_nothing(aliases_view(out@), source.issued());
            }
        },
        TypeNode::Unsupported { .. } => {
            proof {
                lemma_walked_nothing(aliases_view(out@), source.issued());
            }
        },
    }
}

fn walk_types<S: TokenSource>(
    elems: &mut Vec<TypeNode>,
    source: &mut S,
    out: &mut Vec<AliasDefinition>,
)
    ensures
        types_view(final(elems)@) == rewrite_types(
            types_view(old(elems)@),
            names_of(aliases_view(final(out)@)),
            old(out)@.len() as int,
        ),
        walked(
            aliases_view(old(out)@),
            aliases_view(final(out)@),
            old(source).issued(),
            final(source).issued(),
            count_types(types_view(old(elems)@)),
            aliases_types(
                types_view(old(elems)@),
                names_of(aliases_view(final(out)@)),
                old(out)@.len() as int,
            ),
        ),
    decreases *old(elems),
{
    let ghost first = elems@;
    let ghost before = types_view(elems@);
    let ghost a0 = aliases_view(out@);
    let ghost i0 = source.issued();
    let ghost start = out@.len() as int;
    proof {
        lemma_walked_nothing(a0, i0);
        assert(before.take(0) == Seq::<TypeView>::empty());
    }
    let mut i: usize = 0;
    while i < elems.len()
        invariant
            i <= elems.len(),
            elems@.len() == first.len(),
            first == old(elems)@,
            before == types_view(first),
            a0.len() == start,
            forall|j: int| i <= j < first.len() ==> elems@[j] == first[j],
            forall|j: int|
                0 <= j < i ==> (#[trigger] elems@[j])@ == rewrite_type(
                    before[j],
                    names_of(aliases_view(out@)),
                    start + count_types(before.take(j)),
                ),
            walked(
                a0,
                aliases_view(out@),
                i0,
                source.issued(),
                count_types(before.take(i as int)),
                aliases_types(before.take(i as int), names_of(aliases_view(out@)), start),
            ),
        decreases elems.len() - i,
    {
        broadcast use vstd::std_specs::vec::axiom_vec_index_decreases;
        let ghost a1 = aliases_view(out@);
        let ghost i1 = source.issued();
        let ghost n1 = names_of(a1);
        let ghost prev = elems@;
        assert(elems@[i as int] == first[i as int]);
        assert(decreases_to!(*old(elems) => old(elems)@[i as int]));
        walk_type(&mut elems[i], source, out);
        proof {
            let a2 = aliases_view(out@);
            let i2 = source.issued();
            let n2 = names_of(a2);
            let done = count_types(before.take(i as int));
            lemma_count_types_prefix(before, i as int);
            assert(before[i as int] == first[i as int]@);
            lemma_walked_then(
                a0,
                a1,
                a2,
                i0,
                i1,
                i2,
                done,
                count_type(before[i as int]),
                aliases_types(before.take(i as int), n1, start),
                aliases_type(before[i as int], n2, start + done),
            );
            lemma_count_types_prefix(before.take(i as int), i as int);
            lemma_frame_types(before.take(i as int), n1, n2, start);
            assert(before.take(i + 1).drop_last() == before.take(i as int));
            assert(before.take(i + 1).last() == before[i as int]);
            assert forall|j: int| 0 <= j < i + 1 implies (#[trigger] elems@[j])@ == rewrite_type(
                before[j],
                n2,
                start + count_types(before.take(j)),
            ) by {
                if j < i {
                    assert(elems@[j] == prev[j]);
                    lemma_count_types_prefix(before, j);
                    lemma_count_types_prefix(before.take(i as int), j);
                    assert(before.take(i as int).take(j) == before.take(j));
                    assert(before.take(i as int).take(j + 1) == before.take(j + 1));
                    lemma_frame_type(before[j], n1, n2, start + count_types(before.take(j)));
                }
            }
        }
        i += 1;
    }
    proof {
        assert(before.take(i as int) == before);
        assert(types_view(elems@) =~= rewrite_types(
            before,
            names_of(aliases_view(out@)),
            start,
        ));
    }
}

fn walk_bound<S: TokenSource>(bound: &mut Bound, source: &mut S, out: &mut Vec<AliasDefinition>)
    ensures
        final(bound)@ == rewrite_bound(
            old(bound)@,
            names_of(aliases_view(final(out)@)),
            old(out)@.len() as int,
        ),
        walked(
            aliases_view(old(out)@),
            aliases_view(final(out)@),
            old(source).issued(),
            final(source).issued(),
            count_bound(old(bound)@),
            aliases_bound(
                old(bound)@,
                names_of(aliases_view(final(out)@)),
                old(out)@.len() as int,
            ),
        ),
    decreases *old(bound),
{
    match bound {
        Bound::Trait { path, .. } => {
            walk_params(&mut path.params, source, out);
        },
        Bound::Lifetime { .. } => {
            proof {
                lemma_walked_nothing(aliases_view(out@), source.issued());
            }
        },
    }
}

fn walk_bounds<S: TokenSource>(
    bounds: &mut Vec<Bound>,
    source: &mut S,
    out: &mut Vec<AliasDefinition>,
)
    ensures
        bounds_view(final(bounds)@) == rewrite_bounds(
            bounds_view(old(bounds)@),
            names_of(aliases_view(final(out)@)),
            old(out)@.len() as int,
        ),
        walked(
            aliases_view(old(out)@),
            aliases_view(final(out)@),
            old(source).issued(),
            final(source).issued(),
            count_bounds(bounds_view(old(bounds)@)),
            aliases_bounds(
                bounds_view(old(bounds)@),
                names_of(aliases_view(final(out)@)),
                old(out)@.len() as int,
            ),
        ),
    decreases *old(bounds),
{
    let ghost first = bounds@;
    let ghost before = bounds_view(bounds@);
    let ghost a0 = aliases_view(out@);
    let ghost i0 = source.issued();
    let ghost start = out@.len() as int;
    proof {
        lemma_walked_nothing(a0, i0);
        assert(before.take(0) == Seq::<BoundView>::empty());
    }
    let mut i: usize = 0;
    while i < bounds.len()
        invariant
            i <= bounds.len(),
            bounds@.len() == first.len(),
            first == old(bounds)@,
            before == bounds_view(first),
            a0.len() == start,
            forall|j: int| i <= j < first.len() ==> bounds@[j] == first[j],
            forall|j: int|
                0 <= j < i ==> (#[trigger] bounds@[j])@ == rewrite_bound(
                    before[j],
                    names_of(aliases_view(out@)),
                    start + count_bounds(before.take(j)),
                ),
            walked(
                a0,
                aliases_view(out@),
                i0,
                source.issued(),
                count_bounds(before.take(i as int)),
                aliases_bounds(before.take(i as int), names_of(aliases_view(out@)), start),
            ),
        decreases bounds.len() - i,
    {
        broadcast use vstd::std_specs::vec::axiom_vec_index_decreases;
        let ghost a1 = aliases_view(out@);
        let ghost i1 = source.issued();
        let ghost n1 = names_of(a1);
        let ghost prev = bounds@;
        assert(bounds@[i as int] == first[i as int]);
        assert(decreases_to!(*old(bounds) => old(bounds)@[i as int]));
        walk_bound(&mut bounds[i], source, out);
        proof {
            let a2 = aliases_view(out@);
            let i2 = source.issued();
            let n2 = names_of(a2);
            let done = count_bounds(before.take(i as int));
            lemma_count_bounds_prefix(before, i as int);
            assert(before[i as int] == first[i as int]@);
            lemma_walked_then(
                a0,
                a1,
                a2,
                i0,
                i1,
                i2,
                done,
                count_bound(before[i as int]),
                aliases_bounds(before.take(i as int), n1, start),
                aliases_bound(before[i as int], n2, start + done),
            );
            lemma_count_bounds_prefix(before.take(i as int), i as int);
            lemma_frame_bounds(before.take(i as int), n1, n2, start);
            assert(before.take(i + 1).drop_last() == before.take(i as int));
            assert(before.take(i + 1).last() == before[i as int]);
            assert forall|j: int| 0 <= j < i + 1 implies (#[trigger] bounds@[j])@
                == rewrite_bound(before[j], n2, start + count_bounds(before.take(j))) by {
                if j < i {
                    assert(bounds@[j] == prev[j]);
                    lemma_count_bounds_prefix(before, j);
                    lemma_count_bounds_prefix(before.take(i as int), j);
                    assert(before.take(i as int).take(j) == before.take(j));
                    assert(before.take(i as int).take(j + 1) == before.take(j + 1));
                    lemma_frame_bound(before[j], n1, n2, start + count_bounds(before.take(j)));
                }
            }
        }
        i += 1;
    }
    proof {
        assert(before.take(i as int) == before);
        assert(bounds_view(bounds@) =~= rewrite_bounds(
            before,
            names_of(aliases_view(out@)),
            start,
        ));
    }
}

fn walk_params<S: TokenSource>(
    params: &mut Params,
    source: &mut S,
    out: &mut Vec<AliasDefinition>,
)
    ensures
        final(params)@ == rewrite_params(
            old(params)@,
            names_of(aliases_view(final(out)@)),
            old(out)@.len() as int,
        ),
        walked(
            aliases_view(old(out)@),
            aliases_view(final(out)@),
            old(source).issued(),
            final(source).issued(),
            count_params(old(params)@),
            aliases_params(
                old(params)@,
                names_of(aliases_view(final(out)@)),
                old(out)@.len() as int,
            ),
        ),
    decreases *old(params),
{
    match params {
        Params::Bare => {
            proof {
                lemma_walked_nothing(aliases_view(out@), source.issued());
            }
        },
        Params::Bracketed { args } => {
            walk_args(args, source, out);
        },
        Params::Parenthesized { inputs, output } => {
            let ghost before = types_view(inputs@);
            let ghost a0 = aliases_view(out@);
            let ghost i0 = source.issued();
            walk_types(inputs, source, out);
            let ghost a1 = aliases_view(out@);
            let ghost i1 = source.issued();
            match output {
                Some(ty) => {
                    let ghost result = ty@;
                    walk_type(ty, source, out);
                    proof {
                        let a2 = aliases_view(out@);
                        let n1 = names_of(a1);
                        let n2 = names_of(a2);
                        lemma_walked_then(
                            a0,
                            a1,
                            a2,
                            i0,
                            i1,
                            source.issued(),
                            count_types(before),
                            count_type(result),
                            aliases_types(before, n1, a0.len() as int),
                            aliases_type(result, n2, a1.len() as int),
                        );
                        lemma_frame_types(before, n1, n2, a0.len() as int);
                    }
                },
                None => {
                    proof {
                        assert(aliases_types(before, names_of(a1), a0.len() as int)
                            + Seq::<AliasView>::empty() == aliases_types(
                            before,
                            names_of(a1),
                            a0.len() as int,
                        ));
                    }
                },
            }
        },
    }
}

fn walk_arg<S: TokenSource>(arg: &mut GenericArg, source: &mut S, out: &mut Vec<AliasDefinition>)
    ensures
        final(arg)@ == rewrite_arg(
            old(arg)@,
            names_of(aliases_view(final(out)@)),
            old(out)@.len() as int,
        ),
        walked(
            aliases_view(old(out)@),
            aliases_view(final(out)@),
            old(source).issued(),
            final(source).issued(),
            count_arg(old(arg)@),
            aliases_arg(
                old(arg)@,
                names_of(aliases_view(final(out)@)),
                old(out)@.len() as int,
            ),
        ),
    decreases *old(arg),
{
    match arg {
        GenericArg::Type { ty } => {
            walk_type(ty, source, out);
        },
        GenericArg::Binding { ty, .. } => {
            walk_type(ty, source, out);
        },
        GenericArg::Constraint { .. } => {
            proof {
                lemma_walked_nothing(aliases_view(out@), source.issued());
            }
        },
        GenericArg::Const { .. } => {
            proof {
                lemma_walked_nothing(aliases_view(out@), source.issued());
            }
        },
        GenericArg::Lifetime { .. } => {
            proof {
                lemma_walked_nothing(aliases_view(out@), source.issued());
            }
        },
    }
}

fn walk_args<S: TokenSource>(
    args: &mut Vec<GenericArg>,
    source: &mut S,
    out: &mut Vec<AliasDefinition>,
)
    ensures
        args_view(final(args)@) == rewrite_args(
            args_view(old(args)@),
            names_of(aliases_view(final(out)@)),
            old(out)@.len() as int,
        ),
        walked(
            aliases_view(old(out)@),
            aliases_view(final(out)@),
            old(source).issued(),
            final(source).issued(),
            count_args(args_view(old(args)@)),
            aliases_args(
                args_view(old(args)@),
                names_of(aliases_view(final(out)@)),
                old(out)@.len() as int,
            ),
        ),
    decreases *old(args),
{
    let ghost first = args@;
    let ghost before = args_view(args@);
    let ghost a0 = aliases_view(out@);
    let ghost i0 = source.issued();
    let ghost start = out@.len() as int;
    proof {
        lemma_walked_nothing(a0, i0);
        assert(before.take(0) == Seq::<ArgView>::empty());
    }
    let mut i: usize = 0;
    while i < args.len()
        invariant
            i <= args.len(),
            args@.len() == first.len(),
            first == old(args)@,
            before == args_view(first),
            a0.len() == start,
            forall|j: int| i <= j < first.len() ==> args@[j] == first[j],
            forall|j: int|
                0 <= j < i ==> (#[trigger] args@[j])@ == rewrite_arg(
                    before[j],
                    names_of(aliases_view(out@)),
                    start + count_args(before.take(j)),
                ),
            walked(
                a0,
                aliases_view(out@),
                i0,
                source.issued(),
                count_args(before.take(i as int)),
                aliases_args(before.take(i as int), names_of(aliases_view(out@)), start),
            ),
        decreases args.len() - i,
    {
        broadcast use vstd::std_specs::vec::axiom_vec_index_decreases;
        let ghost a1 = aliases_view(out@);
        let ghost i1 = source.issued();
        let ghost n1 = names_of(a1);
        let ghost prev = args@;
        assert(args@[i as int] == first[i as int]);
        assert(decreases_to!(*old(args) => old(args)@[i as int]));
        walk_arg(&mut args[i], source, out);
        proof {
            let a2 = aliases_view(out@);
            let i2 = source.issued();
            let n2 = names_of(a2);
            let done = count_args(before.take(i as int));
            lemma_count_args_prefix(before, i as int);
            assert(before[i as int] == first[i as int]@);
            lemma_walked_then(
                a0,
                a1,
                a2,
                i0,
                i1,
                i2,
                done,
                count_arg(before[i as int]),
                aliases_args(before.take(i as int), n1, start),
                aliases_arg(before[i as int], n2, start + done),
            );
            lemma_count_args_prefix(before.take(i as int), i as int);
            lemma_frame_args(before.take(i as int), n1, n2, start);
            assert(before.take(i + 1).drop_last() == before.take(i as int));
            assert(before.take(i + 1).last() == before[i as int]);
            assert forall|j: int| 0 <= j < i + 1 implies (#[trigger] args@[j])@ == rewrite_arg(
                before[j],
                n2,
                start + count_args(before.take(j)),
            ) by {
                if j < i {
                    assert(args@[j] == prev[j]);
                    lemma_count_args_prefix(before, j);
                    lemma_count_args_prefix(before.take(i as int), j);
                    assert(before.take(i as int).take(j) == before.take(j));
                    assert(before.take(i as int).take(j + 1) == before.take(j + 1));
                    lemma_frame_arg(before[j], n1, n2, start + count_args(before.take(j)));
                }
            }
        }
        i += 1;
    }
    proof {
        assert(before.take(i as int) == before);
        assert(args_view(args@) =~= rewrite_args(before, names_of(aliases_view(out@)), start));
    }
}

/// What a successful extraction leaves: the tree rewritten and the definitions emitted as the
/// walk from index 0 gives them for the names of the definitions themselves, one token drawn
/// from the source for each definition, and each name made from its token.
pub open spec fn extracted(
    before: TypeView,
    after: TypeView,
    aliases: Seq<AliasView>,
    issued_before: Seq<Text>,
    issued_after: Seq<Text>,
) -> bool {
    &&& after == rewrite_type(before, names_of(aliases), 0)
    &&& aliases == aliases_type(before, names_of(aliases), 0)
    &&& issued_after.len() == issued_before.len() + aliases.len()
    &&& issued_after.take(issued_before.len() as int) == issued_before
    &&& names_of(aliases) == alias_names_of(issued_after.skip(issued_before.len() as int))
    &&& forall|k: int| issued_before.len() <= k < issued_after.len() ==> is_token(#[trigger] issued_after[k])
}

/// Replaces every opaque node of a type expression by a reference to a fresh alias, with names
/// made from the tokens of `source`, and returns the alias definitions in the order in which
/// they have to be defined. A type expression that holds an unsupported construct is refused
/// and left as it is, and no token is drawn.
///
/// The names are as distinct as the tokens: no two are alike where no two of the tokens drawn
/// begin with the same 16 characters.
pub fn extract_and_replace_ty_with<S: TokenSource>(ty: &mut TypeNode, source: &mut S) -> (res:
    Result<Vec<AliasDefinition>, BindError>)
    ensures
        res is Ok <==> first_error_type(old(ty)@) is None,
        res matches Err(e) ==> {
            &&& first_error_type(old(ty)@) == Some(e)
            &&& *final(ty) == *old(ty)
            &&& final(source).issued() == old(source).issued()
        },
        res matches Ok(aliases) ==> {
            &&& extracted(
                old(ty)@,
                final(ty)@,
                aliases_view(aliases@),
                old(source).issued(),
                final(source).issued(),
            )
            &&& aliases@.len() == count_type(old(ty)@)
            &&& count_type(final(ty)@) == 0
            &&& distinct_heads(final(source).issued().skip(old(source).issued().len() as int))
                ==> pairwise_distinct(names_of(aliases_view(aliases@)))
        },
{
    if let Err(e) = check_type(ty) {
        return Err(e);
    }
    let mut aliases: Vec<AliasDefinition> = Vec::new();
    walk_type(ty, source, &mut aliases);
    proof {
        let views = aliases_view(aliases@);
        let names = names_of(views);
        let i0 = old(source).issued();
        let i1 = source.issued();
        assert(aliases_view(Seq::<AliasDefinition>::empty()) == Seq::<AliasView>::empty());
        assert(views == aliases_type(old(ty)@, names, 0)) by {
            assert(Seq::<AliasView>::empty() + aliases_type(old(ty)@, names, 0) == aliases_type(
                old(ty)@,
                names,
                0,
            ));
        }
        assert(names =~= alias_names_of(i1.skip(i0.len() as int))) by {
            assert forall|k: int| 0 <= k < names.len() implies names[k] == alias_name_of(
                i1.skip(i0.len() as int)[k],
            ) by {
                assert(views[0 + k].name == alias_name_of(i1[i0.len() + k]));
            }
        }
        assert forall|k: int| i0.len() <= k < i1.len() implies is_token(#[trigger] i1[k]) by {
            assert(i1[k] == i1[i0.len() + (k - i0.len())]);
        }
        lemma_rewrite_type_clears(old(ty)@, names, 0);
        if distinct_heads(i1.skip(i0.len() as int)) {
            lemma_unique_names(old(ty)@, ty@, views, i0, i1);
        }
    }
    Ok(aliases)
}

/// Names made from tokens have the shape of alias names.
pub proof fn lemma_extracted_names(
    before: TypeView,
    after: TypeView,
    aliases: Seq<AliasView>,
    issued_before: Seq<Text>,
    issued_after: Seq<Text>,
)
    requires
        extracted(before, after, aliases, issued_before, issued_after),
    ensures
        forall|i: int| 0 <= i < aliases.len() ==> is_alias_name(#[trigger] aliases[i].name),
{
    let drawn = issued_after.skip(issued_before.len() as int);
    assert forall|i: int| 0 <= i < aliases.len() implies is_alias_name(
        #[trigger] aliases[i].name,
    ) by {
        assert(names_of(aliases)[i] == alias_names_of(drawn)[i]);
        assert(drawn[i] == issued_after[issued_before.len() + i]);
        lemma_alias_name_shape(drawn[i]);
    }
}

/// Replaces every opaque node of a type expression by a reference to a fresh alias, named after
/// a random UUID, and returns the alias definitions in the order in which they have to be
/// defined. A type expression that holds an unsupported construct is refused and left as it is.
pub fn extract_and_replace_ty(ty: &mut TypeNode) -> (res: Result<Vec<AliasDefinition>, BindError>)
    ensures
        res is Ok <==> first_error_type(old(ty)@) is None,
        res matches Err(e) ==> first_error_type(old(ty)@) == Some(e) && *final(ty) == *old(ty),
        res matches Ok(aliases) ==> {
            let views = aliases_view(aliases@);
            &&& final(ty)@ == rewrite_type(old(ty)@, names_of(views), 0)
            &&& views == aliases_type(old(ty)@, names_of(views), 0)
            &&& forall|i: int| 0 <= i < views.len() ==> is_alias_name(#[trigger] views[i].name)
            &&& aliases@.len() == count_type(old(ty)@)
            &&& count_type(final(ty)@) == 0
        },
{
    let mut source = UuidTokens::new();
    let ghost none = source.issued();
    let res = extract_and_replace_ty_with(ty, &mut source);
    proof {
        if res is Ok {
            lemma_extracted_names(
                old(ty)@,
                ty@,
                aliases_view(res->Ok_0@),
                none,
                source.issued(),
            );
        }
    }
    res
}

} // verus!
