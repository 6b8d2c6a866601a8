//! Lemmas on how the walk uses its names: a subtree with `n` opaque nodes reads exactly the `n`
//! names from its start index on, so what it produces does not change when the sequence of names
//! is changed elsewhere.

use vstd::prelude::*;
use crate::syntax::{ArgView, BoundView, ParamsView, Text, TypeView};
use crate::rewrite::{
    aliases_arg, aliases_args, aliases_bound, aliases_bounds, aliases_output, aliases_params,
    aliases_type, aliases_types, count_arg, count_args, count_bound, count_bounds, count_output,
    count_params, count_type, count_types, rewrite_arg, rewrite_args, rewrite_bound,
    rewrite_bounds, rewrite_output, rewrite_params, rewrite_type, rewrite_types,
};

verus! {

/// The two sequences hold the same names at the indices from `lo` up to, not including, `hi`.
pub open spec fn agree(a: Seq<Text>, b: Seq<Text>, lo: int, hi: int) -> bool {
    forall|k: int| lo <= k < hi ==> a[k] == b[k]
}

/// The opaque nodes of a prefix, plus those of the next element, are those of the longer prefix,
/// and no prefix holds more than the whole.
pub proof fn lemma_count_types_prefix(s: Seq<TypeView>, i: int)
    requires
        0 <= i <= s.len(),
    ensures
        count_types(s.take(i)) <= count_types(s),
        i < s.len() ==> count_types(s.take(i + 1)) == count_types(s.take(i)) + count_type(s[i]),
        i < s.len() ==> count_types(s.take(i)) + count_type(s[i]) <= count_types(s),
    decreases s.len() - i,
{
    if i == s.len() {
        assert(s.take(i) == s);
    } else {
        assert(s.take(i + 1).drop_last() == s.take(i));
        assert(s.take(i + 1).last() == s[i]);
        lemma_count_types_prefix(s, i + 1);
    }
}

pub proof fn lemma_count_bounds_prefix(s: Seq<BoundView>, i: int)
    requires
        0 <= i <= s.len(),
    ensures
        count_bounds(s.take(i)) <= count_bounds(s),
        i < s.len() ==> count_bounds(s.take(i + 1)) == count_bounds(s.take(i)) + count_bound(s[i]),
        i < s.len() ==> count_bounds(s.take(i)) + count_bound(s[i]) <= count_bounds(s),
    decreases s.len() - i,
{
    if i == s.len() {
        assert(s.take(i) == s);
    } else {
        assert(s.take(i + 1).drop_last() == s.take(i));
        assert(s.take(i + 1).last() == s[i]);
        lemma_count_bounds_prefix(s, i + 1);
    }
}

pub proof fn lemma_count_args_prefix(s: Seq<ArgView>, i: int)
    requires
        0 <= i <= s.len(),
    ensures
        count_args(s.take(i)) <= count_args(s),
        i < s.len() ==> count_args(s.take(i + 1)) == count_args(s.take(i)) + count_arg(s[i]),
        i < s.len() ==> count_args(s.take(i)) + count_arg(s[i]) <= count_args(s),
    decreases s.len() - i,
{
    if i == s.len() {
        assert(s.take(i) == s);
    } else {
        assert(s.take(i + 1).drop_last() == s.take(i));
        assert(s.take(i + 1).last() == s[i]);
        lemma_count_args_prefix(s, i + 1);
    }
}

/// The walk of `t` reads only the names from `start` up to `start + count_type(t)`.
pub proof fn lemma_frame_type(t: TypeView, a: Seq<Text>, b: Seq<Text>, start: int)
    requires
        agree(a, b, start, start + count_type(t)),
    ensures
        rewrite_type(t, a, start) == rewrite_type(t, b, start),
        aliases_type(t, a, start) == aliases_type(t, b, start),
    decreases t,
{
    match t {
        TypeView::Opaque { bounds } => {
            lemma_frame_bounds(bounds, a, b, start);
        },
        TypeView::Path { path } => {
            lemma_frame_params(path.params, a, b, start);
        },
        TypeView::Array { elem, .. } => {
            lemma_frame_type(*elem, a, b, start);
        },
        TypeView::Pointer { elem, .. } => {
            lemma_frame_type(*elem, a, b, start);
        },
        TypeView::Reference { elem, .. } => {
            lemma_frame_type(*elem, a, b, start);
        },
        TypeView::Tuple { elems } => {
            lemma_frame_types(elems, a, b, start);
        },
        TypeView::Infer => {},
        TypeView::Unsupported { .. } => {},
    }
}

pub proof fn lemma_frame_types(s: Seq<TypeView>, a: Seq<Text>, b: Seq<Text>, start: int)
    requires
        agree(a, b, start, start + count_types(s)),
    ensures
        rewrite_types(s, a, start) == rewrite_types(s, b, start),
        aliases_types(s, a, start) == aliases_types(s, b, start),
    decreases s,
{
    assert forall|i: int| 0 <= i < s.len() implies rewrite_type(
        s[i],
        a,
        start + count_types(s.take(i)),
    ) == rewrite_type(s[i], b, start + count_types(s.take(i))) by {
        lemma_count_types_prefix(s, i);
        lemma_frame_type(s[i], a, b, start + count_types(s.take(i)));
    }
    assert(rewrite_types(s, a, start) =~= rewrite_types(s, b, start));
    if s.len() > 0 {
        lemma_frame_types(s.drop_last(), a, b, start);
        lemma_frame_type(s.last(), a, b, start + count_types(s.drop_last()));
    }
}

pub proof fn lemma_frame_bound(x: BoundView, a: Seq<Text>, b: Seq<Text>, start: int)
    requires
        agree(a, b, start, start + count_bound(x)),
    ensures
        rewrite_bound(x, a, start) == rewrite_bound(x, b, start),
        aliases_bound(x, a, start) == aliases_bound(x, b, start),
    decreases x,
{
    match x {
        BoundView::Trait { path, .. } => {
            lemma_frame_params(path.params, a, b, start);
        },
        BoundView::Lifetime { .. } => {},
    }
}

pub proof fn lemma_frame_bounds(s: Seq<BoundView>, a: Seq<Text>, b: Seq<Text>, start: int)
    requires
        agree(a, b, start, start + count_bounds(s)),
    ensures
        rewrite_bounds(s, a, start) == rewrite_bounds(s, b, start),
        aliases_bounds(s, a, start) == aliases_bounds(s, b, start),
    decreases s,
{
    assert forall|i: int| 0 <= i < s.len() implies rewrite_bound(
        s[i],
        a,
        start + count_bounds(s.take(i)),
    ) == rewrite_bound(s[i], b, start + count_bounds(s.take(i))) by {
        lemma_count_bounds_prefix(s, i);
        lemma_frame_bound(s[i], a, b, start + count_bounds(s.take(i)));
    }
    assert(rewrite_bounds(s, a, start) =~= rewrite_bounds(s, b, start));
    if s.len() > 0 {
        lemma_frame_bounds(s.drop_last(), a, b, start);
        lemma_frame_bound(s.last(), a, b, start + count_bounds(s.drop_last()));
    }
}

pub proof fn lemma_frame_output(o: Option<Box<TypeView>>, a: Seq<Text>, b: Seq<Text>, start: int)
    requires
        agree(a, b, start, start + count_output(o)),
    ensures
        rewrite_output(o, a, start) == rewrite_output(o, b, start),
        aliases_output(o, a, start) == aliases_output(o, b, start),
    decreases o,
{
    match o {
        Some(t) => {
            lemma_frame_type(*t, a, b, start);
        },
        None => {},
    }
}

pub proof fn lemma_frame_params(p: ParamsView, a: Seq<Text>, b: Seq<Text>, start: int)
    requires
        agree(a, b, start, start + count_params(p)),
    ensures
        rewrite_params(p, a, start) == rewrite_params(p, b, start),
        aliases_params(p, a, start) == aliases_params(p, b, start),
    decreases p,
{
    match p {
        ParamsView::Bare => {},
        ParamsView::Bracketed { args } => {
            lemma_frame_args(args, a, b, start);
        },
        ParamsView::Parenthesized { inputs, output } => {
            lemma_frame_types(inputs, a, b, start);
            lemma_frame_output(output, a, b, start + count_types(inputs));
        },
    }
}

pub proof fn lemma_frame_arg(x: ArgView, a: Seq<Text>, b: Seq<Text>, start: int)
    requires
        agree(a, b, start, start + count_arg(x)),
    ensures
        rewrite_arg(x, a, start) == rewrite_arg(x, b, start),
        aliases_arg(x, a, start) == aliases_arg(x, b, start),
    decreases x,
{
    match x {
        ArgView::Type { ty } => {
            lemma_frame_type(ty, a, b, start);
        },
        ArgView::Binding { ty, .. } => {
            lemma_frame_type(ty, a, b, start);
        },
        ArgView::Constraint { .. } => {},
        ArgView::Const { .. } => {},
        ArgView::Lifetime { .. } => {},
    }
}

pub proof fn lemma_frame_args(s: Seq<ArgView>, a: Seq<Text>, b: Seq<Text>, start: int)
    requires
        agree(a, b, start, start + count_args(s)),
    ensures
        rewrite_args(s, a, start) == rewrite_args(s, b, start),
        aliases_args(s, a, start) == aliases_args(s, b, start),
    decreases s,
{
    assert forall|i: int| 0 <= i < s.len() implies rewrite_arg(
        s[i],
        a,
        start + count_args(s.take(i)),
    ) == rewrite_arg(s[i], b, start + count_args(s.take(i))) by {
        lemma_count_args_prefix(s, i);
        lemma_frame_arg(s[i], a, b, start + count_args(s.take(i)));
    }
    assert(rewrite_args(s, a, start) =~= rewrite_args(s, b, start));
    if s.len() > 0 {
        lemma_frame_args(s.drop_last(), a, b, start);
        lemma_frame_arg(s.last(), a, b, start + count_args(s.drop_last()));
    }
}

} // verus!
