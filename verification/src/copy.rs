//! Copies: `clone` on the types of this crate gives a value with the same view.

use vstd::prelude::*;
use crate::declaration::{Declaration, Fragment};
use crate::extract::{AliasDefinition, aliases_view};
use crate::syntax::{
    Bound, CapabilityPath, GenericArg, Params, TypeNode, args_view, bounds_view, texts_view,
    types_view,
};

verus! {

fn copy_type(node: &TypeNode) -> (copy: TypeNode)
    ensures
        copy@ == node@,
    decreases node,
{
    match node {
        TypeNode::Opaque { bounds } => TypeNode::Opaque { bounds: copy_bounds(bounds) },
        TypeNode::Path { path } => TypeNode::Path { path: copy_path(path) },
        TypeNode::Array { elem, len } => TypeNode::Array {
            elem: Box::new(copy_type(elem)),
            len: len.clone(),
        },
        TypeNode::Pointer { mutable, elem } => TypeNode::Pointer {
            mutable: *mutable,
            elem: Box::new(copy_type(elem)),
        },
        TypeNode::Reference { lifetime, mutable, elem } => TypeNode::Reference {
            lifetime: copy_text(lifetime),
            mutable: *mutable,
            elem: Box::new(copy_type(elem)),
        },
        TypeNode::Tuple { elems } => TypeNode::Tuple { elems: copy_types(elems) },
        TypeNode::Infer => TypeNode::Infer,
        TypeNode::Unsupported { text } => TypeNode::Unsupported { text: text.clone() },
    }
}

fn copy_types(elems: &Vec<TypeNode>) -> (copy: Vec<TypeNode>)
    ensures
        types_view(copy@) == types_view(elems@),
    decreases elems,
{
    let mut copy: Vec<TypeNode> = Vec::new();
    let mut i: usize = 0;
    while i < elems.len()
        invariant
            i <= elems.len(),
            copy@.len() == i,
            forall|j: int| 0 <= j < i ==> (#[trigger] copy@[j])@ == elems@[j]@,
        decreases elems.len() - i,
    {
        broadcast use vstd::std_specs::vec::axiom_vec_index_decreases;
        copy.push(copy_type(&elems[i]));
        i += 1;
    }
    proof {
        assert(types_view(copy@) =~= types_view(elems@));
    }
    copy
}

fn copy_bound(bound: &Bound) -> (copy: Bound)
    ensures
        copy@ == bound@,
    decreases bound,
{
    match bound {
        Bound::Trait { qualifier, path } => Bound::Trait {
            qualifier: qualifier.clone(),
            path: copy_path(path),
        },
        Bound::Lifetime { name } => Bound::Lifetime { name: name.clone() },
    }
}

fn copy_bounds(bounds: &Vec<Bound>) -> (copy: Vec<Bound>)
    ensures
        bounds_view(copy@) == bounds_view(bounds@),
    decreases bounds,
{
    let mut copy: Vec<Bound> = Vec::new();
    let mut i: usize = 0;
    while i < bounds.len()
        invariant
            i <= bounds.len(),
            copy@.len() == i,
            forall|j: int| 0 <= j < i ==> (#[trigger] copy@[j])@ == bounds@[j]@,
        decreases bounds.len() - i,
    {
        broadcast use vstd::std_specs::vec::axiom_vec_index_decreases;
        copy.push(copy_bound(&bounds[i]));
        i += 1;
    }
    proof {
        assert(bounds_view(copy@) =~= bounds_view(bounds@));
    }
    copy
}

fn copy_texts(texts: &Vec<String>) -> (copy: Vec<String>)
    ensures
        texts_view(copy@) == texts_view(texts@),
{
    let mut copy: Vec<String> = Vec::new();
    let mut i: usize = 0;
    while i < texts.len()
        invariant
            i <= texts.len(),
            copy@.len() == i,
            forall|j: int| 0 <= j < i ==> (#[trigger] copy@[j])@ == texts@[j]@,
        decreases texts.len() - i,
    {
        copy.push(texts[i].clone());
        i += 1;
    }
    proof {
        assert(texts_view(copy@) =~= texts_view(texts@));
    }
    copy
}

fn copy_path(path: &CapabilityPath) -> (copy: CapabilityPath)
    ensures
        copy@ == path@,
    decreases path,
{
    CapabilityPath {
        prefix: path.prefix.clone(),
        segments: copy_texts(&path.segments),
        params: copy_params(&path.params),
    }
}

fn copy_params(params: &Params) -> (copy: Params)
    ensures
        copy@ == params@,
    decreases params,
{
    match params {
        Params::Bare => Params::Bare,
        Params::Bracketed { args } => Params::Bracketed { args: copy_args(args) },
        Params::Parenthesized { inputs, output } => Params::Parenthesized {
            inputs: copy_types(inputs),
            output: match output {
                Some(ty) => Some(Box::new(copy_type(ty))),
                None => None,
            },
        },
    }
}

fn copy_arg(arg: &GenericArg) -> (copy: GenericArg)
    ensures
        copy@ == arg@,
    decreases arg,
{
    match arg {
        GenericArg::Type { ty } => GenericArg::Type { ty: copy_type(ty) },
        GenericArg::Binding { name, ty } => GenericArg::Binding {
            name: name.clone(),
            ty: copy_type(ty),
        },
        GenericArg::Constraint { text } => GenericArg::Constraint { text: text.clone() },
        GenericArg::Const { text } => GenericArg::Const { text: text.clone() },
        GenericArg::Lifetime { name } => GenericArg::Lifetime { name: name.clone() },
    }
}

fn copy_args(args: &Vec<GenericArg>) -> (copy: Vec<GenericArg>)
    ensures
        args_view(copy@) == args_view(args@),
    decreases args,
{
    let mut copy: Vec<GenericArg> = Vec::new();
    let mut i: usize = 0;
    while i < args.len()
        invariant
            i <= args.len(),
            copy@.len() == i,
            forall|j: int| 0 <= j < i ==> (#[trigger] copy@[j])@ == args@[j]@,
        decreases args.len() - i,
    {
        broadcast use vstd::std_specs::vec::axiom_vec_index_decreases;
        copy.push(copy_arg(&args[i]));
        i += 1;
    }
    proof {
        assert(args_view(copy@) =~= args_view(args@));
    }
    copy
}

impl Clone for TypeNode {
    fn clone(&self) -> (copy: Self)
        ensures
            copy@ == self@,
    {
        copy_type(self)
    }
}

impl Clone for Bound {
    fn clone(&self) -> (copy: Self)
        ensures
            copy@ == self@,
    {
        copy_bound(self)
    }
}

impl Clone for CapabilityPath {
    fn clone(&self) -> (copy: Self)
        ensures
            copy@ == self@,
    {
        copy_path(self)
    }
}

impl Clone for Params {
    fn clone(&self) -> (copy: Self)
        ensures
            copy@ == self@,
    {
        copy_params(self)
    }
}

impl Clone for GenericArg {
    fn clone(&self) -> (copy: Self)
        ensures
            copy@ == self@,
    {
        copy_arg(self)
    }
}

impl Clone for AliasDefinition {
    fn clone(&self) -> (copy: Self)
        ensures
            copy@ == self@,
    {
        AliasDefinition { name: self.name.clone(), captured: copy_type(&self.captured) }
    }
}

fn copy_text(text: &Option<String>) -> (copy: Option<String>)
    ensures
        copy is Some == text is Some,
        copy is Some ==> copy->Some_0@ == text->Some_0@,
{
    match text {
        Some(t) => Some(t.clone()),
        None => None,
    }
}

impl Clone for Declaration {
    fn clone(&self) -> (copy: Self)
        ensures
            copy@ == self@,
    {
        match self {
            Declaration::Local { prefix, pattern, annotation, value } => Declaration::Local {
                prefix: prefix.clone(),
                pattern: pattern.clone(),
                annotation: match annotation {
                    Some(ty) => Some(copy_type(ty)),
                    None => None,
                },
                value: copy_text(value),
            },
            Declaration::Const { prefix, name, ty, init } => Declaration::Const {
                prefix: prefix.clone(),
                name: name.clone(),
                ty: copy_type(ty),
                init: init.clone(),
            },
            Declaration::Static { prefix, mutable, name, ty, init } => Declaration::Static {
                prefix: prefix.clone(),
                mutable: *mutable,
                name: name.clone(),
                ty: copy_type(ty),
                init: init.clone(),
            },
            Declaration::Unsupported { text } => Declaration::Unsupported { text: text.clone() },
        }
    }
}

impl Clone for Fragment {
    fn clone(&self) -> (copy: Self)
        ensures
            copy@ == self@,
    {
        let mut aliases: Vec<AliasDefinition> = Vec::new();
        let mut i: usize = 0;
        while i < self.aliases.len()
            invariant
                i <= self.aliases.len(),
                aliases@.len() == i,
                forall|j: int| 0 <= j < i ==> (#[trigger] aliases@[j])@ == self.aliases@[j]@,
            decreases self.aliases.len() - i,
        {
            aliases.push(self.aliases[i].clone());
            i += 1;
        }
        proof {
            assert(aliases_view(aliases@) =~= aliases_view(self.aliases@));
        }
        Fragment { aliases, declaration: self.declaration.clone() }
    }
}

} // verus!
