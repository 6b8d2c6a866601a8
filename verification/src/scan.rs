//! Looking for opaque nodes in a type expression.

use vstd::prelude::*;
use crate::frame::{lemma_count_args_prefix, lemma_count_types_prefix};
use crate::rewrite::{count_arg, count_args, count_params, count_type, count_types};
use crate::syntax::{GenericArg, Params, TypeNode, args_view, types_view};

verus! {

impl TypeNode {
    /// Whether the type expression holds an opaque node, at any depth.
    pub fn has_opaque(&self) -> (found: bool)
        ensures
            found == (count_type(self@) > 0),
    {
        type_has_opaque(self)
    }
}

fn type_has_opaque(node: &TypeNode) -> (found: bool)
    ensures
        found == (count_type(node@) > 0),
    decreases node,
{
    match node {
        TypeNode::Opaque { .. } => true,
        TypeNode::Path { path } => {
            assert(path@.params == path.params@);
            params_have_opaque(&path.params)
        },
        TypeNode::Array { elem, .. } => type_has_opaque(elem),
        TypeNode::Pointer { elem, .. } => type_has_opaque(elem),
        TypeNode::Reference { elem, .. } => type_has_opaque(elem),
        TypeNode::Tuple { elems } => types_have_opaque(elems),
        TypeNode::Infer => false,
        TypeNode::Unsupported { .. } => false,
    }
}

fn types_have_opaque(elems: &Vec<TypeNode>) -> (found: bool)
    ensures
        found == (count_types(types_view(elems@)) > 0),
    decreases elems,
{
    let ghost views = types_view(elems@);
    let mut i: usize = 0;
    while i < elems.len()
        invariant
            i <= elems.len(),
            views == types_view(elems@),
            count_types(views.take(i as int)) == 0,
        decreases elems.len() - i,
    {
        broadcast use vstd::std_specs::vec::axiom_vec_index_decreases;
        proof {
            lemma_count_types_prefix(views, i as int);
        }
        if type_has_opaque(&elems[i]) {
            return true;
        }
        i += 1;
    }
    proof {
        assert(views.take(i as int) == views);
    }
    false
}

fn params_have_opaque(params: &Params) -> (found: bool)
    ensures
        found == (count_params(params@) > 0),
    decreases params,
{
    match params {
        Params::Bare => false,
        Params::Bracketed { args } => args_have_opaque(args),
        Params::Parenthesized { inputs, output } => {
            if types_have_opaque(inputs) {
                return true;
            }
            match output {
                Some(ty) => type_has_opaque(ty),
                None => false,
            }
        },
    }
}

fn arg_has_opaque(arg: &GenericArg) -> (found: bool)
    ensures
        found == (count_arg(arg@) > 0),
    decreases arg,
{
    match arg {
        GenericArg::Type { ty } => type_has_opaque(ty),
        GenericArg::Binding { ty, .. } => type_has_opaque(ty),
        GenericArg::Constraint { .. } => false,
        GenericArg::Const { .. } => false,
        GenericArg::Lifetime { .. } => false,
    }
}

fn args_have_opaque(args: &Vec<GenericArg>) -> (found: bool)
    ensures
        found == (count_args(args_view(args@)) > 0),
    decreases args,
{
    let ghost views = args_view(args@);
    let mut i: usize = 0;
    while i < args.len()
        invariant
            i <= args.len(),
            views == args_view(args@),
            count_args(views.take(i as int)) == 0,
        decreases args.len() - i,
    {
        broadcast use vstd::std_specs::vec::axiom_vec_index_decreases;
        proof {
            lemma_count_args_prefix(views, i as int);
        }
        if arg_has_opaque(&args[i]) {
            return true;
        }
        i += 1;
    }
    proof {
        assert(views.take(i as int) == views);
    }
    false
}

} // verus!
