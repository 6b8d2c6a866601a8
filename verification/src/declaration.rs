//! Declarations, and the transform itself: a declaration goes in, the alias definitions for
//! the opaque types in its declared type come out, followed by the declaration retyped.

use vstd::prelude::*;
use crate::check::first_error_type;
use crate::error::BindError;
use crate::extract::{
    AliasDefinition, aliases_view, extract_and_replace_ty_with, extracted, lemma_extracted_names,
};
use crate::laws::unique::{distinct_heads, lemma_sequential_names_unique, pairwise_distinct};
use crate::rewrite::{AliasView, aliases_type, count_type, names_of, rewrite_type};
use crate::sequential::{SequentialTokens, number_at, sequential_token};
use crate::syntax::{Text, TypeNode, TypeView};
use crate::token::{TokenSource, UuidTokens, alias_name_of, alias_names_of, is_alias_name};

verus! {

/// A declaration. Apart from its type everything is carried as written.
#[derive(Debug, PartialEq, Eq)]
pub enum Declaration {
    /// `let pattern: annotation = value;`. The annotation and the value may be missing;
    /// `prefix` is what stands before `let` (attributes).
    Local { prefix: String, pattern: String, annotation: Option<TypeNode>, value: Option<String> },
    /// `const name: ty = init;`. `prefix` is what stands before `const` (attributes, `pub`).
    Const { prefix: String, name: String, ty: TypeNode, init: String },
    /// `static name: ty = init;` or `static mut ..`. `prefix` is what stands before `static`.
    Static { prefix: String, mutable: bool, name: String, ty: TypeNode, init: String },
    /// Any other statement, kept as written. The transform refuses it.
    Unsupported { text: String },
}

/// View of [`Declaration`].
pub enum DeclarationView {
    Local { prefix: Text, pattern: Text, annotation: Option<TypeView>, value: Option<Text> },
    Const { prefix: Text, name: Text, ty: TypeView, init: Text },
    Static { prefix: Text, mutable: bool, name: Text, ty: TypeView, init: Text },
    Unsupported { text: Text },
}

impl View for Declaration {
    type V = DeclarationView;

    open spec fn view(&self) -> DeclarationView {
        match *self {
            Declaration::Local { prefix, pattern, annotation, value } => DeclarationView::Local {
                prefix: prefix@,
                pattern: pattern@,
                annotation: match annotation {
                    Some(t) => Some(t@),
                    None => None,
                },
                value: match value {
                    Some(e) => Some(e@),
                    None => None,
                },
            },
            Declaration::Const { prefix, name, ty, init } => DeclarationView::Const {
                prefix: prefix@,
                name: name@,
                ty: ty@,
                init: init@,
            },
            Declaration::Static { prefix, mutable, name, ty, init } => DeclarationView::Static {
                prefix: prefix@,
                mutable,
                name: name@,
                ty: ty@,
                init: init@,
            },
            Declaration::Unsupported { text } => DeclarationView::Unsupported { text: text@ },
        }
    }
}

/// The alias definitions, in the order in which they have to stand, and after them the
/// declaration.
#[derive(Debug, PartialEq, Eq)]
pub struct Fragment {
    pub aliases: Vec<AliasDefinition>,
    pub declaration: Declaration,
}

/// View of [`Fragment`].
pub struct FragmentView {
    pub aliases: Seq<AliasView>,
    pub declaration: DeclarationView,
}

impl View for Fragment {
    type V = FragmentView;

    open spec fn view(&self) -> FragmentView {
        FragmentView { aliases: aliases_view(self.aliases@), declaration: self.declaration@ }
    }
}

/// The declared type of a declaration that has one.
pub open spec fn declared_type(d: DeclarationView) -> Option<TypeView> {
    match d {
        DeclarationView::Local { annotation, .. } => annotation,
        DeclarationView::Const { ty, .. } => Some(ty),
        DeclarationView::Static { ty, .. } => Some(ty),
        DeclarationView::Unsupported { .. } => None,
    }
}

/// The declaration with another declared type, and nothing else changed.
pub open spec fn retyped(d: DeclarationView, to: TypeView) -> DeclarationView {
    match d {
        DeclarationView::Local { prefix, pattern, annotation, value } => DeclarationView::Local {
            prefix,
            pattern,
            annotation: Some(to),
            value,
        },
        DeclarationView::Const { prefix, name, ty, init } => DeclarationView::Const {
            prefix,
            name,
            ty: to,
            init,
        },
        DeclarationView::Static { prefix, mutable, name, ty, init } => DeclarationView::Static {
            prefix,
            mutable,
            name,
            ty: to,
            init,
        },
        DeclarationView::Unsupported { .. } => d,
    }
}

/// Why a declaration is refused, if it is: its own shape first, then its declared type.
pub open spec fn declaration_error(d: DeclarationView) -> Option<BindError> {
    match d {
        DeclarationView::Unsupported { .. } => Some(BindError::UnsupportedDeclarationShape),
        DeclarationView::Local { annotation: None, .. } => Some(
            BindError::UnsupportedPatternShape,
        ),
        DeclarationView::Local { annotation: Some(t), .. } => first_error_type(t),
        DeclarationView::Const { ty, .. } => first_error_type(ty),
        DeclarationView::Static { ty, .. } => first_error_type(ty),
    }
}

/// Transforms a declaration, with alias names made from the tokens of `source`.
///
/// A `let` with a type annotation, a `const` or a `static` whose declared type the walk
/// supports gives the alias definitions for the opaque nodes of that type, followed by the
/// declaration with the type rewritten. Anything else is refused, and no token is drawn.
///
/// The names are as distinct as the tokens: no two are alike where no two of the tokens drawn
/// begin with the same 16 characters.
pub fn bind_it_with<S: TokenSource>(decl: Declaration, source: &mut S) -> (res: Result<
    Fragment,
    BindError,
>)
    ensures
        res is Ok <==> declaration_error(decl@) is None,
        res matches Err(e) ==> {
            &&& declaration_error(decl@) == Some(e)
            &&& final(source).issued() == old(source).issued()
        },
        res matches Ok(fragment) ==> {
            let ty = declared_type(decl@)->Some_0;
            let to = declared_type(fragment@.declaration)->Some_0;
            &&& fragment@.declaration == retyped(decl@, to)
            &&& extracted(
                ty,
                to,
                fragment@.aliases,
                old(source).issued(),
                final(source).issued(),
            )
            &&& fragment@.aliases.len() == count_type(ty)
            &&& count_type(to) == 0
            &&& distinct_heads(final(source).issued().skip(old(source).issued().len() as int))
                ==> pairwise_distinct(names_of(fragment@.aliases))
        },
{
    match decl {
        Declaration::Local { prefix, pattern, annotation, value } => {
            match annotation {
                Some(mut ty) => {
                    match extract_and_replace_ty_with(&mut ty, source) {
                        Ok(aliases) => Ok(
                            Fragment {
                                aliases,
                                declaration: Declaration::Local {
                                    prefix,
                                    pattern,
                                    annotation: Some(ty),
                                    value,
                                },
                            },
                        ),
                        Err(e) => Err(e),
                    }
                },
                None => Err(BindError::UnsupportedPatternShape),
            }
        },
        Declaration::Const { prefix, name, mut ty, init } => {
            match extract_and_replace_ty_with(&mut ty, source) {
                Ok(aliases) => Ok(
                    Fragment {
                        aliases,
                        declaration: Declaration::Const { prefix, name, ty, init },
                    },
                ),
                Err(e) => Err(e),
            }
        },
        Declaration::Static { prefix, mutable, name, mut ty, init } => {
            match extract_and_replace_ty_with(&mut ty, source) {
                Ok(aliases) => Ok(
                    Fragment {
                        aliases,
                        declaration: Declaration::Static { prefix, mutable, name, ty, init },
                    },
                ),
                Err(e) => Err(e),
            }
        },
        Declaration::Unsupported { .. } => Err(BindError::UnsupportedDeclarationShape),
    }
}

/// Transforms a declaration, with alias names made from random UUIDs.
///
/// A `let` with a type annotation, a `const` or a `static` whose declared type the walk
/// supports gives the alias definitions for the opaque nodes of that type, followed by the
/// declaration with the type rewritten. Anything else is refused.
pub fn bind_it(decl: Declaration) -> (res: Result<Fragment, BindError>)
    ensures
        res is Ok <==> declaration_error(decl@) is None,
        res matches Err(e) ==> declaration_error(decl@) == Some(e),
        res matches Ok(fragment) ==> {
            let ty = declared_type(decl@)->Some_0;
            let to = declared_type(fragment@.declaration)->Some_0;
            let aliases = fragment@.aliases;
            &&& fragment@.declaration == retyped(decl@, to)
            &&& to == rewrite_type(ty, names_of(aliases), 0)
            &&& aliases == aliases_type(ty, names_of(aliases), 0)
            &&& forall|i: int| 0 <= i < aliases.len() ==> is_alias_name(#[trigger] aliases[i].name)
            &&& aliases.len() == count_type(ty)
            &&& count_type(to) == 0
        },
{
    let mut source = UuidTokens::new();
    let ghost none = source.issued();
    let res = bind_it_with(decl, &mut source);
    proof {
        if res is Ok {
            lemma_extracted_names(
                declared_type(decl@)->Some_0,
                declared_type(res->Ok_0@.declaration)->Some_0,
                res->Ok_0@.aliases,
                none,
                source.issued(),
            );
        }
    }
    res
}

/// Transforms a declaration, with alias names that count up from `first`: the same names every
/// time, and no two of them alike.
///
/// A `let` with a type annotation, a `const` or a `static` whose declared type the walk
/// supports gives the alias definitions for the opaque nodes of that type, followed by the
/// declaration with the type rewritten. Anything else is refused.
pub fn bind_it_sequential(decl: Declaration, first: u64) -> (res: Result<Fragment, BindError>)
    ensures
        res is Ok <==> declaration_error(decl@) is None,
        res matches Err(e) ==> declaration_error(decl@) == Some(e),
        res matches Ok(fragment) ==> {
            let ty = declared_type(decl@)->Some_0;
            let to = declared_type(fragment@.declaration)->Some_0;
            let aliases = fragment@.aliases;
            &&& fragment@.declaration == retyped(decl@, to)
            &&& to == rewrite_type(ty, names_of(aliases), 0)
            &&& aliases == aliases_type(ty, names_of(aliases), 0)
            &&& forall|i: int|
                0 <= i < aliases.len() ==> (#[trigger] aliases[i]).name == alias_name_of(
                    sequential_token(number_at(first, i)),
                )
            &&& pairwise_distinct(names_of(aliases))
            &&& aliases.len() == count_type(ty)
            &&& count_type(to) == 0
        },
{
    let mut source = SequentialTokens::starting_at(first);
    let ghost before = source.issued();
    let res = bind_it_with(decl, &mut source);
    let _ = source.next_number();
    proof {
        if res is Ok {
            let aliases = res->Ok_0@.aliases;
            let issued = source.issued();
            assert forall|i: int| 0 <= i < aliases.len() implies (#[trigger] aliases[i]).name
                == alias_name_of(sequential_token(number_at(first, i))) by {
                assert(names_of(aliases)[i] == alias_names_of(issued.skip(first as int))[i]);
                assert(issued.skip(first as int)[i] == issued[first + i]);
            }
            assert(aliases.len() == res->Ok_0.aliases.len());
            lemma_sequential_names_unique(
                declared_type(decl@)->Some_0,
                declared_type(res->Ok_0@.declaration)->Some_0,
                aliases,
                before,
                issued,
            );
        }
    }
    res
}

} // verus!
