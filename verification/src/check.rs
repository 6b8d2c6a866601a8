//! Which type expressions the walk accepts. The check visits a type expression in the order of
//! the walk and reports the first construct that the walk does not support.

use vstd::prelude::*;
use crate::error::BindError;
use crate::syntax::{
    ArgView, Bound, BoundView, CapabilityPath, GenericArg, Params, ParamsView, PathView, TypeNode,
    TypeView, args_view, bounds_view, types_view,
};

verus! {

/// The first of two findings, in the order in which they were made.
pub open spec fn first_of(a: Option<BindError>, b: Option<BindError>) -> Option<BindError> {
    if a is Some {
        a
    } else {
        b
    }
}

/// What a check returns for a finding.
pub open spec fn verdict(finding: Option<BindError>) -> Result<(), BindError> {
    match finding {
        Some(e) => Err(e),
        None => Ok(()),
    }
}

/// The first unsupported construct in a type expression, if there is one.
pub open spec fn first_error_type(t: TypeView) -> Option<BindError>
    decreases t,
{
    match t {
        TypeView::Opaque { bounds } => first_error_bounds(bounds),
        TypeView::Path { path } => first_error_path(path),
        TypeView::Array { elem, .. } => first_error_type(*elem),
        TypeView::Pointer { elem, .. } => first_error_type(*elem),
        TypeView::Reference { elem, .. } => first_error_type(*elem),
        TypeView::Tuple { elems } => first_error_types(elems),
        TypeView::Infer => None,
        TypeView::Unsupported { .. } => Some(BindError::UnsupportedTypeNodeShape),
    }
}

pub open spec fn first_error_types(s: Seq<TypeView>) -> Option<BindError>
    decreases s,
{
    if s.len() == 0 {
        None
    } else {
        first_of(first_error_types(s.drop_last()), first_error_type(s.last()))
    }
}

pub open spec fn first_error_bound(b: BoundView) -> Option<BindError>
    decreases b,
{
    match b {
        BoundView::Trait { path, .. } => first_error_path(path),
        BoundView::Lifetime { .. } => None,
    }
}

pub open spec fn first_error_bounds(s: Seq<BoundView>) -> Option<BindError>
    decreases s,
{
    if s.len() == 0 {
        None
    } else {
        first_of(first_error_bounds(s.drop_last()), first_error_bound(s.last()))
    }
}

/// A path must have a segment; its parameters are looked at after that.
pub open spec fn first_error_path(p: PathView) -> Option<BindError>
    decreases p,
{
    if p.segments.len() == 0 {
        Some(BindError::MalformedPath)
    } else {
        first_error_params(p.params)
    }
}

pub open spec fn first_error_output(o: Option<Box<TypeView>>) -> Option<BindError>
    decreases o,
{
    match o {
        Some(t) => first_error_type(*t),
        None => None,
    }
}

pub open spec fn first_error_params(p: ParamsView) -> Option<BindError>
    decreases p,
{
    match p {
        ParamsView::Bare => None,
        ParamsView::Bracketed { args } => first_error_args(args),
        ParamsView::Parenthesized { inputs, output } => first_of(
            first_error_types(inputs),
            first_error_output(output),
        ),
    }
}

pub open spec fn first_error_arg(a: ArgView) -> Option<BindError>
    decreases a,
{
    match a {
        ArgView::Type { ty } => first_error_type(ty),
        ArgView::Binding { ty, .. } => first_error_type(ty),
        ArgView::Constraint { .. } => Some(BindError::UnsupportedGenericArgument),
        ArgView::Const { .. } => Some(BindError::UnsupportedGenericArgument),
        ArgView::Lifetime { .. } => None,
    }
}

pub open spec fn first_error_args(s: Seq<ArgView>) -> Option<BindError>
    decreases s,
{
    if s.len() == 0 {
        None
    } else {
        first_of(first_error_args(s.drop_last()), first_error_arg(s.last()))
    }
}

/// A finding in a prefix is the finding of the whole sequence.
proof fn lemma_first_error_types_prefix(s: Seq<TypeView>, i: int)
    requires
        0 <= i <= s.len(),
        first_error_types(s.take(i)) is Some,
    ensures
        first_error_types(s) == first_error_types(s.take(i)),
    decreases s.len() - i,
{
    if i == s.len() {
        assert(s.take(i) == s);
    } else {
        assert(s.take(i + 1).drop_last() == s.take(i));
        lemma_first_error_types_prefix(s, i + 1);
    }
}

proof fn lemma_first_error_bounds_prefix(s: Seq<BoundView>, i: int)
    requires
        0 <= i <= s.len(),
        first_error_bounds(s.take(i)) is Some,
    ensures
        first_error_bounds(s) == first_error_bounds(s.take(i)),
    decreases s.len() - i,
{
    if i == s.len() {
        assert(s.take(i) == s);
    } else {
        assert(s.take(i + 1).drop_last() == s.take(i));
        lemma_first_error_bounds_prefix(s, i + 1);
    }
}

proof fn lemma_first_error_args_prefix(s: Seq<ArgView>, i: int)
    requires
        0 <= i <= s.len(),
        first_error_args(s.take(i)) is Some,
    ensures
        first_error_args(s) == first_error_args(s.take(i)),
    decreases s.len() - i,
{
    if i == s.len() {
        assert(s.take(i) == s);
    } else {
        assert(s.take(i + 1).drop_last() == s.take(i));
        lemma_first_error_args_prefix(s, i + 1);
    }
}

/// Checks a type expression: `Ok` when the walk supports all of it, else the first construct
/// that it does not support.
pub fn check_type(node: &TypeNode) -> (res: Result<(), BindError>)
    ensures
        res == verdict(first_error_type(node@)),
    decreases node,
{
    match node {
        TypeNode::Opaque { bounds } => check_bounds(bounds),
        TypeNode::Path { path } => check_path(path),
        TypeNode::Array { elem, .. } => check_type(elem),
        TypeNode::Pointer { elem, .. } => check_type(elem),
        TypeNode::Reference { elem, .. } => check_type(elem),
        TypeNode::Tuple { elems } => check_types(elems),
        TypeNode::Infer => Ok(()),
        TypeNode::Unsupported { .. } => Err(BindError::UnsupportedTypeNodeShape),
    }
}

fn check_types(elems: &Vec<TypeNode>) -> (res: Result<(), BindError>)
    ensures
        res == verdict(first_error_types(types_view(elems@))),
    decreases elems,
{
    let ghost views = types_view(elems@);
    let mut i: usize = 0;
    while i < elems.len()
        invariant
            i <= elems.len(),
            views == types_view(elems@),
            first_error_types(views.take(i as int)) is None,
        decreases elems.len() - i,
    {
        broadcast use vstd::std_specs::vec::axiom_vec_index_decreases;
        let found = check_type(&elems[i]);
        proof {
            assert(views.take(i + 1).drop_last() == views.take(i as int));
            assert(views.take(i + 1).last() == elems@[i as int]@);
        }
        if let Err(e) = found {
            proof {
                lemma_first_error_types_prefix(views, i + 1);
            }
            return Err(e);
        }
        i += 1;
    }
    proof {
        assert(views.take(i as int) == views);
    }
    Ok(())
}

fn check_bound(bound: &Bound) -> (res: Result<(), BindError>)
    ensures
        res == verdict(first_error_bound(bound@)),
    decreases bound,
{
    match bound {
        Bound::Trait { path, .. } => check_path(path),
        Bound::Lifetime { .. } => Ok(()),
    }
}

fn check_bounds(bounds: &Vec<Bound>) -> (res: Result<(), BindError>)
    ensures
        res == verdict(first_error_bounds(bounds_view(bounds@))),
    decreases bounds,
{
    let ghost views = bounds_view(bounds@);
    let mut i: usize = 0;
    while i < bounds.len()
        invariant
            i <= bounds.len(),
            views == bounds_view(bounds@),
            first_error_bounds(views.take(i as int)) is None,
        decreases bounds.len() - i,
    {
        broadcast use vstd::std_specs::vec::axiom_vec_index_decreases;
        let found = check_bound(&bounds[i]);
        proof {
            assert(views.take(i + 1).drop_last() == views.take(i as int));
            assert(views.take(i + 1).last() == bounds@[i as int]@);
        }
        if let Err(e) = found {
            proof {
                lemma_first_error_bounds_prefix(views, i + 1);
            }
            return Err(e);
        }
        i += 1;
    }
    proof {
        assert(views.take(i as int) == views);
    }
    Ok(())
}

fn check_path(path: &CapabilityPath) -> (res: Result<(), BindError>)
    ensures
        res == verdict(first_error_path(path@)),
    decreases path,
{
    if path.segments.len() == 0 {
        return Err(BindError::MalformedPath);
    }
    match &path.params {
        Params::Bare => Ok(()),
        Params::Bracketed { args } => check_args(args),
        Params::Parenthesized { inputs, output } => {
            let found = check_types(inputs);
            if found.is_err() {
                return found;
            }
            match output {
                Some(ty) => check_type(ty),
                None => Ok(()),
            }
        },
    }
}

fn check_arg(arg: &GenericArg) -> (res: Result<(), BindError>)
    ensures
        res == verdict(first_error_arg(arg@)),
    decreases arg,
{
    match arg {
        GenericArg::Type { ty } => check_type(ty),
        GenericArg::Binding { ty, .. } => check_type(ty),
        GenericArg::Constraint { .. } => Err(BindError::UnsupportedGenericArgument),
        GenericArg::Const { .. } => Err(BindError::UnsupportedGenericArgument),
        GenericArg::Lifetime { .. } => Ok(()),
    }
}

fn check_args(args: &Vec<GenericArg>) -> (res: Result<(), BindError>)
    ensures
        res == verdict(first_error_args(args_view(args@))),
    decreases args,
{
    let ghost views = args_view(args@);
    let mut i: usize = 0;
    while i < args.len()
        invariant
            i <= args.len(),
            views == args_view(args@),
            first_error_args(views.take(i as int)) is None,
        decreases args.len() - i,
    {
        broadcast use vstd::std_specs::vec::axiom_vec_index_decreases;
        let found = check_arg(&args[i]);
        proof {
            assert(views.take(i + 1).drop_last() == views.take(i as int));
            assert(views.take(i + 1).last() == args@[i as int]@);
        }
        if let Err(e) = found {
            proof {
                lemma_first_error_args_prefix(views, i + 1);
            }
            return Err(e);
        }
        i += 1;
    }
    proof {
        assert(views.take(i as int) == views);
    }
    Ok(())
}

} // verus!
