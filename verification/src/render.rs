//! The text of type expressions, alias definitions and declarations, in the surface syntax that
//! they were read from.

use vstd::prelude::*;
use vstd::string::StringExecFns;
use crate::declaration::{Declaration, DeclarationView, Fragment, FragmentView};
use crate::extract::{AliasDefinition, aliases_view};
use crate::rewrite::AliasView;
use crate::syntax::{
    ArgView, Bound, BoundView, CapabilityPath, GenericArg, Params, ParamsView, PathView, Text,
    TypeNode, TypeView, args_view, bounds_view, texts_view, types_view,
};

verus! {

/// The parts in order, with the separator between each two of them.
pub open spec fn join(parts: Seq<Text>, sep: Text) -> Text
    decreases parts.len(),
{
    if parts.len() == 0 {
        Seq::empty()
    } else if parts.len() == 1 {
        parts[0]
    } else {
        join(parts.drop_last(), sep) + sep + parts.last()
    }
}

/// The text of a type expression.
pub open spec fn rendered_type(t: TypeView) -> Text
    decreases t,
{
    match t {
        TypeView::Opaque { bounds } => "impl "@ + join(rendered_bounds(bounds), " + "@),
        TypeView::Path { path } => rendered_path(path),
        TypeView::Array { elem, len } => "["@ + rendered_type(*elem) + "; "@ + len + "]"@,
        TypeView::Pointer { mutable, elem } => (if mutable {
            "*mut "@
        } else {
            "*const "@
        }) + rendered_type(*elem),
        TypeView::Reference { lifetime, mutable, elem } => "&"@ + (match lifetime {
            Some(l) => l + " "@,
            None => Seq::empty(),
        }) + (if mutable {
            "mut "@
        } else {
            Seq::empty()
        }) + rendered_type(*elem),
        TypeView::Tuple { elems } => "("@ + join(rendered_types(elems), ", "@) + (if elems.len()
            == 1 {
            ","@
        } else {
            Seq::empty()
        }) + ")"@,
        TypeView::Infer => "_"@,
        TypeView::Unsupported { text } => text,
    }
}

pub open spec fn rendered_types(s: Seq<TypeView>) -> Seq<Text>
    decreases s,
{
    Seq::new(
        s.len(),
        |i: int|
            if 0 <= i < s.len() {
                rendered_type(s[i])
            } else {
                Seq::empty()
            },
    )
}

pub open spec fn rendered_bound(b: BoundView) -> Text
    decreases b,
{
    match b {
        BoundView::Trait { qualifier, path } => qualifier + rendered_path(path),
        BoundView::Lifetime { name } => name,
    }
}

pub open spec fn rendered_bounds(s: Seq<BoundView>) -> Seq<Text>
    decreases s,
{
    Seq::new(
        s.len(),
        |i: int|
            if 0 <= i < s.len() {
                rendered_bound(s[i])
            } else {
                Seq::empty()
            },
    )
}

pub open spec fn rendered_path(p: PathView) -> Text
    decreases p,
{
    p.prefix + join(p.segments, "::"@) + rendered_params(p.params)
}

pub open spec fn rendered_output(o: Option<Box<TypeView>>) -> Text
    decreases o,
{
    match o {
        Some(t) => " -> "@ + rendered_type(*t),
        None => Seq::empty(),
    }
}

pub open spec fn rendered_params(p: ParamsView) -> Text
    decreases p,
{
    match p {
        ParamsView::Bare => Seq::empty(),
        ParamsView::Bracketed { args } => "<"@ + join(rendered_args(args), ", "@) + ">"@,
        ParamsView::Parenthesized { inputs, output } => "("@ + join(
            rendered_types(inputs),
            ", "@,
        ) + ")"@ + rendered_output(output),
    }
}

pub open spec fn rendered_arg(a: ArgView) -> Text
    decreases a,
{
    match a {
        ArgView::Type { ty } => rendered_type(ty),
        ArgView::Binding { name, ty } => name + " = "@ + rendered_type(ty),
        ArgView::Constraint { text } => text,
        ArgView::Const { text } => text,
        ArgView::Lifetime { name } => name,
    }
}

pub open spec fn rendered_args(s: Seq<ArgView>) -> Seq<Text>
    decreases s,
{
    Seq::new(
        s.len(),
        |i: int|
            if 0 <= i < s.len() {
                rendered_arg(s[i])
            } else {
                Seq::empty()
            },
    )
}

/// The text of an alias definition: `type name = captured;`.
pub open spec fn rendered_alias(a: AliasView) -> Text {
    "type "@ + a.name + " = "@ + rendered_type(a.captured) + ";"@
}

/// The alias definitions in order, each on a line of its own.
pub open spec fn rendered_aliases(s: Seq<AliasView>) -> Text
    decreases s.len(),
{
    if s.len() == 0 {
        Seq::empty()
    } else {
        rendered_aliases(s.drop_last()) + rendered_alias(s.last()) + "\n"@
    }
}

/// The text of a declaration.
pub open spec fn rendered_declaration(d: DeclarationView) -> Text {
    match d {
        DeclarationView::Local { prefix, pattern, annotation, value } => prefix + "let "@
            + pattern + (match annotation {
            Some(t) => ": "@ + rendered_type(t),
            None => Seq::empty(),
        }) + (match value {
            Some(e) => " = "@ + e,
            None => Seq::empty(),
        }) + ";"@,
        DeclarationView::Const { prefix, name, ty, init } => prefix + "const "@ + name + ": "@
            + rendered_type(ty) + " = "@ + init + ";"@,
        DeclarationView::Static { prefix, mutable, name, ty, init } => prefix + "static "@ + (
        if mutable {
            "mut "@
        } else {
            Seq::empty()
        }) + name + ": "@ + rendered_type(ty) + " = "@ + init + ";"@,
        DeclarationView::Unsupported { text } => text,
    }
}

/// The text of a fragment: the alias definitions, then the declaration.
pub open spec fn rendered_fragment(f: FragmentView) -> Text {
    rendered_aliases(f.aliases) + rendered_declaration(f.declaration)
}

/// A list one part longer is the shorter list, the separator and the part; the first part
/// stands alone.
proof fn lemma_join_next(parts: Seq<Text>, sep: Text, i: int)
    requires
        0 <= i < parts.len(),
    ensures
        join(parts.take(i + 1), sep) == if i == 0 {
            parts[i]
        } else {
            join(parts.take(i), sep) + sep + parts[i]
        },
{
    assert(parts.take(i + 1).drop_last() == parts.take(i));
    assert(parts.take(i + 1).last() == parts[i]);
}

fn write_type(node: &TypeNode, buf: &mut String)
    ensures
        final(buf)@ == old(buf)@ + rendered_type(node@),
    decreases node,
{
    match node {
        TypeNode::Opaque { bounds } => {
            buf.append("impl ");
            write_bounds(bounds, buf);
        },
        TypeNode::Path { path } => {
            write_path(path, buf);
        },
        TypeNode::Array { elem, len } => {
            buf.append("[");
            write_type(elem, buf);
            buf.append("; ");
            buf.append(len.as_str());
            buf.append("]");
        },
        TypeNode::Pointer { mutable, elem } => {
            if *mutable {
                buf.append("*mut ");
            } else {
                buf.append("*const ");
            }
            write_type(elem, buf);
        },
        TypeNode::Reference { lifetime, mutable, elem } => {
            buf.append("&");
            if let Some(l) = lifetime {
                buf.append(l.as_str());
                buf.append(" ");
            }
            if *mutable {
                buf.append("mut ");
            }
            write_type(elem, buf);
        },
        TypeNode::Tuple { elems } => {
            buf.append("(");
            write_types(elems, buf);
            if elems.len() == 1 {
                buf.append(",");
            }
            buf.append(")");
        },
        TypeNode::Infer => {
            buf.append("_");
        },
        TypeNode::Unsupported { text } => {
            buf.append(text.as_str());
        },
    }
}

fn write_types(elems: &Vec<TypeNode>, buf: &mut String)
    ensures
        final(buf)@ == old(buf)@ + join(rendered_types(types_view(elems@)), ", "@),
    decreases elems,
{
    let ghost parts = rendered_types(types_view(elems@));
    let mut i: usize = 0;
    while i < elems.len()
        invariant
            i <= elems.len(),
            parts == rendered_types(types_view(elems@)),
            buf@ == old(buf)@ + join(parts.take(i as int), ", "@),
        decreases elems.len() - i,
    {
        broadcast use vstd::std_specs::vec::axiom_vec_index_decreases;
        if i > 0 {
            buf.append(", ");
        }
        write_type(&elems[i], buf);
        proof {
            lemma_join_next(parts, ", "@, i as int);
            assert(parts[i as int] == rendered_type(elems@[i as int]@));
        }
        i += 1;
    }
    proof {
        assert(parts.take(i as int) == parts);
    }
}

fn write_bound(bound: &Bound, buf: &mut String)
    ensures
        final(buf)@ == old(buf)@ + rendered_bound(bound@),
    decreases bound,
{
    match bound {
        Bound::Trait { qualifier, path } => {
            buf.append(qualifier.as_str());
            write_path(path, buf);
        },
        Bound::Lifetime { name } => {
            buf.append(name.as_str());
        },
    }
}

fn write_bounds(bounds: &Vec<Bound>, buf: &mut String)
    ensures
        final(buf)@ == old(buf)@ + join(rendered_bounds(bounds_view(bounds@)), " + "@),
    decreases bounds,
{
    let ghost parts = rendered_bounds(bounds_view(bounds@));
    let mut i: usize = 0;
    while i < bounds.len()
        invariant
            i <= bounds.len(),
            parts == rendered_bounds(bounds_view(bounds@)),
            buf@ == old(buf)@ + join(parts.take(i as int), " + "@),
        decreases bounds.len() - i,
    {
        broadcast use vstd::std_specs::vec::axiom_vec_index_decreases;
        if i > 0 {
            buf.append(" + ");
        }
        write_bound(&bounds[i], buf);
        proof {
            lemma_join_next(parts, " + "@, i as int);
            assert(parts[i as int] == rendered_bound(bounds@[i as int]@));
        }
        i += 1;
    }
    proof {
        assert(parts.take(i as int) == parts);
    }
}

fn write_segments(segments: &Vec<String>, buf: &mut String)
    ensures
        final(buf)@ == old(buf)@ + join(texts_view(segments@), "::"@),
{
    let ghost parts = texts_view(segments@);
    let mut i: usize = 0;
    while i < segments.len()
        invariant
            i <= segments.len(),
            parts == texts_view(segments@),
            buf@ == old(buf)@ + join(parts.take(i as int), "::"@),
        decreases segments.len() - i,
    {
        if i > 0 {
            buf.append("::");
        }
        buf.append(segments[i].as_str());
        proof {
            lemma_join_next(parts, "::"@, i as int);
        }
        i += 1;
    }
    proof {
        assert(parts.take(i as int) == parts);
    }
}

fn write_path(path: &CapabilityPath, buf: &mut String)
    ensures
        final(buf)@ == old(buf)@ + rendered_path(path@),
    decreases path,
{
    buf.append(path.prefix.as_str());
    write_segments(&path.segments, buf);
    match &path.params {
        Params::Bare => {},
        Params::Bracketed { args } => {
            buf.append("<");
            write_args(args, buf);
            buf.append(">");
        },
        Params::Parenthesized { inputs, output } => {
            buf.append("(");
            write_types(inputs, buf);
            buf.append(")");
            if let Some(ty) = output {
                buf.append(" -> ");
                write_type(ty, buf);
            }
        },
    }
}

fn write_arg(arg: &GenericArg, buf: &mut String)
    ensures
        final(buf)@ == old(buf)@ + rendered_arg(arg@),
    decreases arg,
{
    match arg {
        GenericArg::Type { ty } => {
            write_type(ty, buf);
        },
        GenericArg::Binding { name, ty } => {
            buf.append(name.as_str());
            buf.append(" = ");
            write_type(ty, buf);
        },
        GenericArg::Constraint { text } => {
            buf.append(text.as_str());
        },
        GenericArg::Const { text } => {
            buf.append(text.as_str());
        },
        GenericArg::Lifetime { name } => {
            buf.append(name.as_str());
        },
    }
}

fn write_args(args: &Vec<GenericArg>, buf: &mut String)
    ensures
        final(buf)@ == old(buf)@ + join(rendered_args(args_view(args@)), ", "@),
    decreases args,
{
    let ghost parts = rendered_args(args_view(args@));
    let mut i: usize = 0;
    while i < args.len()
        invariant
            i <= args.len(),
            parts == rendered_args(args_view(args@)),
            buf@ == old(buf)@ + join(parts.take(i as int), ", "@),
        decreases args.len() - i,
    {
        broadcast use vstd::std_specs::vec::axiom_vec_index_decreases;
        if i > 0 {
            buf.append(", ");
        }
        write_arg(&args[i], buf);
        proof {
            lemma_join_next(parts, ", "@, i as int);
            assert(parts[i as int] == rendered_arg(args@[i as int]@));
        }
        i += 1;
    }
    proof {
        assert(parts.take(i as int) == parts);
    }
}

fn write_alias(alias: &AliasDefinition, buf: &mut String)
    ensures
        final(buf)@ == old(buf)@ + rendered_alias(alias@),
{
    buf.append("type ");
    buf.append(alias.name.as_str());
    buf.append(" = ");
    write_type(&alias.captured, buf);
    buf.append(";");
}

fn write_declaration(decl: &Declaration, buf: &mut String)
    ensures
        final(buf)@ == old(buf)@ + rendered_declaration(decl@),
{
    match decl {
        Declaration::Local { prefix, pattern, annotation, value } => {
            buf.append(prefix.as_str());
            buf.append("let ");
            buf.append(pattern.as_str());
            if let Some(t) = annotation {
                buf.append(": ");
                write_type(t, buf);
            }
            if let Some(e) = value {
                buf.append(" = ");
                buf.append(e.as_str());
            }
            buf.append(";");
        },
        Declaration::Const { prefix, name, ty, init } => {
            buf.append(prefix.as_str());
            buf.append("const ");
            buf.append(name.as_str());
            buf.append(": ");
            write_type(ty, buf);
            buf.append(" = ");
            buf.append(init.as_str());
            buf.append(";");
        },
        Declaration::Static { prefix, mutable, name, ty, init } => {
            buf.append(prefix.as_str());
            buf.append("static ");
            if *mutable {
                buf.append("mut ");
            }
            buf.append(name.as_str());
            buf.append(": ");
            write_type(ty, buf);
            buf.append(" = ");
            buf.append(init.as_str());
            buf.append(";");
        },
        Declaration::Unsupported { text } => {
            buf.append(text.as_str());
        },
    }
}

impl TypeNode {
    /// The text of the type expression.
    pub fn render(&self) -> (text: String)
        ensures
            text@ == rendered_type(self@),
    {
        let mut text = String::new();
        write_type(self, &mut text);
        text
    }
}

impl AliasDefinition {
    /// The text of the alias definition: `type name = captured;`.
    pub fn render(&self) -> (text: String)
        ensures
            text@ == rendered_alias(self@),
    {
        let mut text = String::new();
        write_alias(self, &mut text);
        text
    }
}

impl Declaration {
    /// The text of the declaration.
    pub fn render(&self) -> (text: String)
        ensures
            text@ == rendered_declaration(self@),
    {
        let mut text = String::new();
        write_declaration(self, &mut text);
        text
    }
}

impl Fragment {
    /// The text of the fragment: each alias definition on a line of its own, then the
    /// declaration.
    pub fn render(&self) -> (text: String)
        ensures
            text@ == rendered_fragment(self@),
    {
        let mut text = String::new();
        let ghost views = aliases_view(self.aliases@);
        let mut i: usize = 0;
        while i < self.aliases.len()
            invariant
                i <= self.aliases.len(),
                views == aliases_view(self.aliases@),
                text@ == rendered_aliases(views.take(i as int)),
            decreases self.aliases.len() - i,
        {
            write_alias(&self.aliases[i], &mut text);
            text.append("\n");
            proof {
                assert(views.take(i + 1).drop_last() == views.take(i as int));
                assert(views.take(i + 1).last() == self.aliases@[i as int]@);
            }
            i += 1;
        }
        proof {
            assert(views.take(i as int) == views);
        }
        write_declaration(&self.declaration, &mut text);
        text
    }
}

} // verus!
