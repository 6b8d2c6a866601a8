use bind_it::declaration::{bind_it_sequential, bind_it_with, Declaration, Fragment};
use bind_it::error::BindError;
use bind_it::extract::AliasDefinition;
use bind_it::syntax::{Bound, CapabilityPath, GenericArg, Params, TypeNode};
use bind_it::sequential::SequentialTokens;

fn path_of(name: &str, params: Params) -> CapabilityPath {
    CapabilityPath { prefix: String::new(), segments: vec![name.to_string()], params }
}

fn named(name: &str) -> TypeNode {
    TypeNode::Path { path: path_of(name, Params::Bare) }
}

fn plain(name: &str) -> TypeNode {
    TypeNode::Opaque {
        bounds: vec![Bound::Trait { qualifier: String::new(), path: path_of(name, Params::Bare) }],
    }
}

fn wrapping(name: &str, inner: TypeNode) -> TypeNode {
    TypeNode::Opaque {
        bounds: vec![Bound::Trait {
            qualifier: String::new(),
            path: path_of(name, Params::Bracketed { args: vec![GenericArg::Type { ty: inner }] }),
        }],
    }
}

fn constant(ty: TypeNode) -> Declaration {
    Declaration::Const {
        prefix: String::new(),
        name: "C".to_string(),
        ty,
        init: "make()".to_string(),
    }
}

#[test]
fn sequential_names_count_up_from_the_first() {
    // const C: (impl A, impl From<impl B>) = make();
    let fragment = bind_it_sequential(
        constant(TypeNode::Tuple { elems: vec![plain("A"), wrapping("From", plain("B"))] }),
        255,
    )
    .unwrap();
    assert_eq!(
        fragment.render(),
        "type Bind_TAIT_00000000000000ff = impl A;\n\
         type Bind_TAIT_0000000000000100 = impl B;\n\
         type Bind_TAIT_0000000000000101 = impl From<Bind_TAIT_0000000000000100>;\n\
         const C: (Bind_TAIT_00000000000000ff, Bind_TAIT_0000000000000101) = make();"
    );
}

#[test]
fn sequential_names_start_again_after_the_last_number() {
    let fragment = bind_it_sequential(
        constant(TypeNode::Tuple { elems: vec![plain("A"), plain("B"), plain("C")] }),
        u64::MAX - 1,
    )
    .unwrap();
    let names: Vec<&str> = fragment.aliases.iter().map(|alias| alias.name.as_str()).collect();
    assert_eq!(
        names,
        vec![
            "Bind_TAIT_fffffffffffffffe",
            "Bind_TAIT_ffffffffffffffff",
            "Bind_TAIT_0000000000000000",
        ]
    );
}

#[test]
fn sequential_transform_is_the_transform_with_a_sequential_source() {
    let input = || constant(wrapping("Into", wrapping("From", plain("Copy"))));
    let mut source = SequentialTokens::starting_at(77);
    assert_eq!(bind_it_sequential(input(), 77), bind_it_with(input(), &mut source));
    assert_eq!(bind_it_sequential(input(), 77), bind_it_sequential(input(), 77));
}

#[test]
fn sequential_names_are_pairwise_distinct() {
    let fragment = bind_it_sequential(
        constant(TypeNode::Tuple { elems: (0..300).map(|_| plain("Display")).collect() }),
        u64::MAX - 150,
    )
    .unwrap();
    assert_eq!(fragment.aliases.len(), 300);
    for i in 0..300 {
        for j in 0..i {
            assert_ne!(fragment.aliases[i].name, fragment.aliases[j].name);
        }
    }
}

#[test]
fn sequential_transform_refuses_what_the_transform_refuses() {
    assert_eq!(
        bind_it_sequential(Declaration::Unsupported { text: "struct S;".to_string() }, 0),
        Err(BindError::UnsupportedDeclarationShape)
    );
    assert_eq!(
        bind_it_sequential(
            Declaration::Local {
                prefix: String::new(),
                pattern: "x".to_string(),
                annotation: None,
                value: None,
            },
            0
        ),
        Err(BindError::UnsupportedPatternShape)
    );
    assert_eq!(
        bind_it_sequential(constant(TypeNode::Unsupported { text: "!".to_string() }), 0),
        Err(BindError::UnsupportedTypeNodeShape)
    );
    assert_eq!(
        bind_it_sequential(
            constant(TypeNode::Path {
                path: CapabilityPath {
                    prefix: String::new(),
                    segments: vec![],
                    params: Params::Bare
                }
            }),
            0
        ),
        Err(BindError::MalformedPath)
    );
    assert_eq!(
        bind_it_sequential(
            constant(TypeNode::Path {
                path: path_of(
                    "Array",
                    Params::Bracketed { args: vec![GenericArg::Const { text: "3".to_string() }] }
                )
            }),
            0
        ),
        Err(BindError::UnsupportedGenericArgument)
    );
}

#[test]
fn clones_are_equal_to_what_they_were_made_from() {
    let ty = TypeNode::Reference {
        lifetime: Some("'a".to_string()),
        mutable: true,
        elem: Box::new(TypeNode::Tuple {
            elems: vec![
                TypeNode::Array { elem: Box::new(plain("A")), len: "2".to_string() },
                TypeNode::Pointer { mutable: false, elem: Box::new(TypeNode::Infer) },
                TypeNode::Unsupported { text: "dyn B".to_string() },
                TypeNode::Path {
                    path: CapabilityPath {
                        prefix: "::".to_string(),
                        segments: vec!["a".to_string(), "F".to_string()],
                        params: Params::Parenthesized {
                            inputs: vec![named("u8"), plain("C")],
                            output: Some(Box::new(named("u8"))),
                        },
                    },
                },
                TypeNode::Opaque {
                    bounds: vec![
                        Bound::Lifetime { name: "'static".to_string() },
                        Bound::Trait {
                            qualifier: "?".to_string(),
                            path: path_of(
                                "T",
                                Params::Bracketed {
                                    args: vec![
                                        GenericArg::Lifetime { name: "'a".to_string() },
                                        GenericArg::Const { text: "1".to_string() },
                                        GenericArg::Constraint { text: "X: Y".to_string() },
                                        GenericArg::Binding {
                                            name: "Z".to_string(),
                                            ty: plain("D"),
                                        },
                                    ],
                                },
                            ),
                        },
                    ],
                },
            ],
        }),
    };
    assert_eq!(ty.clone(), ty);
    let alias = AliasDefinition { name: "N".to_string(), captured: plain("A") };
    assert_eq!(alias.clone(), alias);
    let declaration = Declaration::Static {
        prefix: "pub ".to_string(),
        mutable: true,
        name: "S".to_string(),
        ty: ty.clone(),
        init: "0".to_string(),
    };
    assert_eq!(declaration.clone(), declaration);
    let local = Declaration::Local {
        prefix: String::new(),
        pattern: "x".to_string(),
        annotation: Some(ty.clone()),
        value: Some("1".to_string()),
    };
    assert_eq!(local.clone(), local);
    let fragment = Fragment { aliases: vec![alias.clone(), alias], declaration };
    assert_eq!(fragment.clone(), fragment);
}
