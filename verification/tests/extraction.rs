use bind_it::check::check_type;
use bind_it::declaration::{bind_it, bind_it_with, Declaration};
use bind_it::error::BindError;
use bind_it::extract::{
    alias_reference, extract_and_replace_ty, extract_and_replace_ty_with, AliasDefinition,
};
use bind_it::syntax::{Bound, CapabilityPath, GenericArg, Params, TypeNode};
use bind_it::sequential::SequentialTokens;
use bind_it::token::TokenSource;

fn path_of(segments: &[&str], params: Params) -> CapabilityPath {
    CapabilityPath {
        prefix: String::new(),
        segments: segments.iter().map(|s| s.to_string()).collect(),
        params,
    }
}

fn named(name: &str) -> TypeNode {
    TypeNode::Path { path: path_of(&[name], Params::Bare) }
}

fn generic(name: &str, args: Vec<GenericArg>) -> TypeNode {
    TypeNode::Path { path: path_of(&[name], Params::Bracketed { args }) }
}

fn of_type(ty: TypeNode) -> GenericArg {
    GenericArg::Type { ty }
}

fn binding(name: &str, ty: TypeNode) -> GenericArg {
    GenericArg::Binding { name: name.to_string(), ty }
}

fn trait_bound(name: &str, params: Params) -> Bound {
    Bound::Trait { qualifier: String::new(), path: path_of(&[name], params) }
}

fn opaque(bounds: Vec<Bound>) -> TypeNode {
    TypeNode::Opaque { bounds }
}

/// `impl name`
fn plain(name: &str) -> TypeNode {
    opaque(vec![trait_bound(name, Params::Bare)])
}

/// `impl name<binding = ty>`
fn with_binding(name: &str, assoc: &str, ty: TypeNode) -> TypeNode {
    opaque(vec![trait_bound(name, Params::Bracketed { args: vec![binding(assoc, ty)] })])
}

fn reference(elem: TypeNode) -> TypeNode {
    TypeNode::Reference { lifetime: None, mutable: false, elem: Box::new(elem) }
}

fn tuple(elems: Vec<TypeNode>) -> TypeNode {
    TypeNode::Tuple { elems }
}

fn unsupported(text: &str) -> TypeNode {
    TypeNode::Unsupported { text: text.to_string() }
}

fn local(ty: Option<TypeNode>) -> Declaration {
    Declaration::Local {
        prefix: String::new(),
        pattern: "x".to_string(),
        annotation: ty,
        value: Some("make()".to_string()),
    }
}

fn sequential_name(n: u64) -> String {
    format!("Bind_TAIT_{:016x}", n)
}

fn alias(n: u64, bounds: Vec<Bound>) -> AliasDefinition {
    AliasDefinition { name: sequential_name(n), captured: opaque(bounds) }
}

fn count_in_type(ty: &TypeNode) -> usize {
    match ty {
        TypeNode::Opaque { bounds } => {
            1 + bounds
                .iter()
                .map(|bound| match bound {
                    Bound::Trait { path, .. } => count_in_params(&path.params),
                    Bound::Lifetime { .. } => 0,
                })
                .sum::<usize>()
        }
        TypeNode::Path { path } => count_in_params(&path.params),
        TypeNode::Array { elem, .. }
        | TypeNode::Pointer { elem, .. }
        | TypeNode::Reference { elem, .. } => count_in_type(elem),
        TypeNode::Tuple { elems } => elems.iter().map(count_in_type).sum(),
        TypeNode::Infer | TypeNode::Unsupported { .. } => 0,
    }
}

fn count_in_params(params: &Params) -> usize {
    match params {
        Params::Bare => 0,
        Params::Bracketed { args } => args
            .iter()
            .map(|arg| match arg {
                GenericArg::Type { ty } | GenericArg::Binding { ty, .. } => count_in_type(ty),
                _ => 0,
            })
            .sum(),
        Params::Parenthesized { inputs, output } => {
            inputs.iter().map(count_in_type).sum::<usize>()
                + output.as_ref().map_or(0, |ty| count_in_type(ty))
        }
    }
}

/// A handful of type expressions of every supported kind.
fn samples() -> Vec<TypeNode> {
    vec![
        TypeNode::Infer,
        named("u8"),
        plain("Display"),
        with_binding("Iterator", "Item", named("u32")),
        with_binding("Future", "Output", with_binding("Future", "Output", plain("Display"))),
        generic("Option", vec![of_type(reference(plain("ToString")))]),
        tuple(vec![plain("A"), TypeNode::Infer, plain("B"), tuple(vec![])]),
        TypeNode::Array { elem: Box::new(plain("Copy")), len: "4".to_string() },
        TypeNode::Pointer { mutable: false, elem: Box::new(plain("Send")) },
        TypeNode::Reference {
            lifetime: Some("'a".to_string()),
            mutable: true,
            elem: Box::new(tuple(vec![plain("A"), plain("B")])),
        },
        opaque(vec![
            trait_bound(
                "Fn",
                Params::Parenthesized {
                    inputs: vec![plain("A"), reference(plain("B"))],
                    output: Some(Box::new(plain("C"))),
                },
            ),
            Bound::Lifetime { name: "'static".to_string() },
            trait_bound("Send", Params::Bare),
        ]),
        generic(
            "HashMap",
            vec![
                of_type(plain("Hash")),
                of_type(generic("Vec", vec![of_type(with_binding("Iterator", "Item", plain("X")))])),
                GenericArg::Lifetime { name: "'a".to_string() },
            ],
        ),
    ]
}

#[test]
fn no_opaque_node_survives() {
    for mut ty in samples() {
        extract_and_replace_ty(&mut ty).unwrap();
        assert!(!ty.has_opaque(), "{:?}", ty);
        assert_eq!(count_in_type(&ty), 0);
    }
    for ty in samples() {
        let mut source = SequentialTokens::starting_at(7);
        let fragment = bind_it_with(local(Some(ty)), &mut source).unwrap();
        match fragment.declaration {
            Declaration::Local { annotation: Some(ty), .. } => assert!(!ty.has_opaque()),
            other => panic!("{:?}", other),
        }
    }
}

#[test]
fn captured_bounds_hold_no_opaque_node() {
    for mut ty in samples() {
        for alias in extract_and_replace_ty(&mut ty).unwrap() {
            assert_eq!(count_in_type(&alias.captured), 1, "{:?}", alias);
            assert!(matches!(alias.captured, TypeNode::Opaque { .. }));
        }
    }
}

#[test]
fn one_alias_for_each_opaque_node() {
    let expected = [0, 0, 1, 1, 3, 1, 2, 1, 1, 2, 4, 3];
    for (mut ty, count) in samples().into_iter().zip(expected) {
        assert_eq!(count_in_type(&ty), count);
        assert_eq!(ty.has_opaque(), count > 0);
        let aliases = extract_and_replace_ty(&mut ty).unwrap();
        assert_eq!(aliases.len(), count, "{:?}", ty);
    }
}

#[test]
fn inner_alias_is_defined_before_outer() {
    // impl Future<Output = impl Future<Output = impl Display>>
    let mut ty =
        with_binding("Future", "Output", with_binding("Future", "Output", plain("Display")));
    let mut source = SequentialTokens::starting_at(0);
    let aliases = extract_and_replace_ty_with(&mut ty, &mut source).unwrap();
    assert_eq!(
        aliases,
        vec![
            alias(0, vec![trait_bound("Display", Params::Bare)]),
            alias(1, vec![trait_bound(
                "Future",
                Params::Bracketed { args: vec![binding("Output", named(&sequential_name(0)))] }
            )]),
            alias(2, vec![trait_bound(
                "Future",
                Params::Bracketed { args: vec![binding("Output", named(&sequential_name(1)))] }
            )]),
        ]
    );
    assert_eq!(ty, named(&sequential_name(2)));
}

#[test]
fn definitions_refer_only_to_earlier_definitions() {
    for mut ty in samples() {
        let aliases = extract_and_replace_ty(&mut ty).unwrap();
        for (at, alias) in aliases.iter().enumerate() {
            let text = alias.captured.render();
            for (other, later) in aliases.iter().enumerate() {
                if other >= at {
                    assert!(!text.contains(&later.name), "{} in {}", later.name, text);
                }
            }
        }
    }
}

#[test]
fn nested_opaque_in_generic_argument() {
    // impl Future<Output = impl Display>
    let mut source = SequentialTokens::starting_at(0);
    let fragment = bind_it_with(
        local(Some(with_binding("Future", "Output", plain("Display")))),
        &mut source,
    )
    .unwrap();
    assert_eq!(fragment.aliases.len(), 2);
    assert_eq!(fragment.aliases[0], alias(0, vec![trait_bound("Display", Params::Bare)]));
    assert_eq!(
        fragment.aliases[1].captured.render(),
        "impl Future<Output = Bind_TAIT_0000000000000000>"
    );
    assert!(!fragment.aliases[1].captured.render().contains("impl Display"));
    assert_eq!(fragment.declaration, local(Some(named(&sequential_name(1)))));
}

#[test]
fn option_of_reference_keeps_its_wrappers() {
    // Option<&impl ToString>
    let mut ty = generic("Option", vec![of_type(reference(plain("ToString")))]);
    let mut source = SequentialTokens::starting_at(0);
    let aliases = extract_and_replace_ty_with(&mut ty, &mut source).unwrap();
    assert_eq!(aliases, vec![alias(0, vec![trait_bound("ToString", Params::Bare)])]);
    assert_eq!(ty, generic("Option", vec![of_type(reference(named(&sequential_name(0))))]));
}

#[test]
fn structure_around_opaque_nodes_is_unchanged() {
    let mut ty = TypeNode::Reference {
        lifetime: Some("'a".to_string()),
        mutable: true,
        elem: Box::new(tuple(vec![
            TypeNode::Array { elem: Box::new(plain("A")), len: "N + 1".to_string() },
            TypeNode::Infer,
            TypeNode::Pointer { mutable: false, elem: Box::new(plain("B")) },
            generic(
                "Result",
                vec![
                    of_type(plain("C")),
                    GenericArg::Lifetime { name: "'b".to_string() },
                    binding("Error", named("E")),
                ],
            ),
            TypeNode::Path {
                path: CapabilityPath {
                    prefix: "::".to_string(),
                    segments: vec!["std".to_string(), "ops".to_string(), "Fn".to_string()],
                    params: Params::Parenthesized {
                        inputs: vec![named("u8"), plain("D")],
                        output: None,
                    },
                },
            },
        ])),
    };
    let mut source = SequentialTokens::starting_at(0);
    let aliases = extract_and_replace_ty_with(&mut ty, &mut source).unwrap();
    assert_eq!(aliases.len(), 4);
    let expected = TypeNode::Reference {
        lifetime: Some("'a".to_string()),
        mutable: true,
        elem: Box::new(tuple(vec![
            TypeNode::Array {
                elem: Box::new(named(&sequential_name(0))),
                len: "N + 1".to_string(),
            },
            TypeNode::Infer,
            TypeNode::Pointer { mutable: false, elem: Box::new(named(&sequential_name(1))) },
            generic(
                "Result",
                vec![
                    of_type(named(&sequential_name(2))),
                    GenericArg::Lifetime { name: "'b".to_string() },
                    binding("Error", named("E")),
                ],
            ),
            TypeNode::Path {
                path: CapabilityPath {
                    prefix: "::".to_string(),
                    segments: vec!["std".to_string(), "ops".to_string(), "Fn".to_string()],
                    params: Params::Parenthesized {
                        inputs: vec![named("u8"), named(&sequential_name(3))],
                        output: None,
                    },
                },
            },
        ])),
    };
    assert_eq!(ty, expected);
}

#[test]
fn type_without_opaque_node_is_left_alone() {
    let build = || {
        generic("Vec", vec![of_type(tuple(vec![named("u8"), TypeNode::Infer, reference(named("str"))]))])
    };
    let mut ty = build();
    let mut source = SequentialTokens::starting_at(0);
    assert_eq!(extract_and_replace_ty_with(&mut ty, &mut source).unwrap(), vec![]);
    assert_eq!(ty, build());
    assert_eq!(source.fresh(), "00000000000000000000000000000000");

    let mut ty = TypeNode::Infer;
    assert_eq!(extract_and_replace_ty(&mut ty).unwrap(), vec![]);
    assert_eq!(ty, TypeNode::Infer);
}

#[test]
fn alias_names_are_pairwise_distinct() {
    let mut ty = tuple((0..200).map(|_| plain("Display")).collect());
    let aliases = extract_and_replace_ty(&mut ty).unwrap();
    assert_eq!(aliases.len(), 200);
    for i in 0..aliases.len() {
        for j in 0..i {
            assert_ne!(aliases[i].name, aliases[j].name);
        }
    }
    let mut ty = tuple((0..200).map(|_| plain("Display")).collect());
    let mut source = SequentialTokens::starting_at(u64::MAX - 100);
    let aliases = extract_and_replace_ty_with(&mut ty, &mut source).unwrap();
    for i in 0..aliases.len() {
        for j in 0..i {
            assert_ne!(aliases[i].name, aliases[j].name);
        }
    }
}

#[test]
fn random_alias_names_have_the_documented_shape() {
    let mut ty = tuple(vec![plain("A"), plain("B"), plain("C")]);
    for alias in extract_and_replace_ty(&mut ty).unwrap() {
        assert_eq!(alias.name.len(), 26);
        assert_eq!(&alias.name[..10], "Bind_TAIT_");
        assert!(alias.name[10..].chars().all(|c| matches!(c, '0'..='9' | 'a'..='f')));
    }
}

#[test]
fn lifetime_bounds_and_lifetime_arguments_are_inert() {
    // impl Iterator<'a, Item = impl Display> + 'static
    let mut ty = opaque(vec![
        trait_bound(
            "Iterator",
            Params::Bracketed {
                args: vec![
                    GenericArg::Lifetime { name: "'a".to_string() },
                    binding("Item", plain("Display")),
                ],
            },
        ),
        Bound::Lifetime { name: "'static".to_string() },
    ]);
    let mut source = SequentialTokens::starting_at(0);
    let aliases = extract_and_replace_ty_with(&mut ty, &mut source).unwrap();
    assert_eq!(
        aliases,
        vec![
            alias(0, vec![trait_bound("Display", Params::Bare)]),
            alias(1, vec![
                trait_bound(
                    "Iterator",
                    Params::Bracketed {
                        args: vec![
                            GenericArg::Lifetime { name: "'a".to_string() },
                            binding("Item", named(&sequential_name(0))),
                        ],
                    },
                ),
                Bound::Lifetime { name: "'static".to_string() },
            ]),
        ]
    );
}

#[test]
fn function_sugar_walks_inputs_then_output() {
    // impl Fn(impl A, impl B) -> impl C
    let mut ty = opaque(vec![trait_bound(
        "Fn",
        Params::Parenthesized {
            inputs: vec![plain("A"), plain("B")],
            output: Some(Box::new(plain("C"))),
        },
    )]);
    let mut source = SequentialTokens::starting_at(0);
    let aliases = extract_and_replace_ty_with(&mut ty, &mut source).unwrap();
    let rendered: Vec<String> = aliases.iter().map(|alias| alias.render()).collect();
    assert_eq!(
        rendered,
        vec![
            "type Bind_TAIT_0000000000000000 = impl A;",
            "type Bind_TAIT_0000000000000001 = impl B;",
            "type Bind_TAIT_0000000000000002 = impl C;",
            "type Bind_TAIT_0000000000000003 = impl Fn(Bind_TAIT_0000000000000000, \
             Bind_TAIT_0000000000000001) -> Bind_TAIT_0000000000000002;",
        ]
    );
    assert_eq!(ty, alias_reference(sequential_name(3)));
}

#[test]
fn several_bounds_are_walked_left_to_right() {
    // impl From<impl A> + Into<impl B>
    let mut ty = opaque(vec![
        trait_bound("From", Params::Bracketed { args: vec![of_type(plain("A"))] }),
        trait_bound("Into", Params::Bracketed { args: vec![of_type(plain("B"))] }),
    ]);
    let mut source = SequentialTokens::starting_at(0);
    let aliases = extract_and_replace_ty_with(&mut ty, &mut source).unwrap();
    assert_eq!(aliases.len(), 3);
    assert_eq!(aliases[0].captured, plain("A"));
    assert_eq!(aliases[1].captured, plain("B"));
    assert_eq!(
        aliases[2].captured.render(),
        "impl From<Bind_TAIT_0000000000000000> + Into<Bind_TAIT_0000000000000001>"
    );
}

#[test]
fn missing_annotation_is_refused() {
    assert_eq!(bind_it(local(None)), Err(BindError::UnsupportedPatternShape));
    let mut source = SequentialTokens::starting_at(0);
    assert_eq!(bind_it_with(local(None), &mut source), Err(BindError::UnsupportedPatternShape));
}

#[test]
fn constraint_argument_is_refused() {
    // impl Iterator<Item: Display>
    let build = || {
        opaque(vec![trait_bound(
            "Iterator",
            Params::Bracketed {
                args: vec![GenericArg::Constraint { text: "Item: Display".to_string() }],
            },
        )])
    };
    assert_eq!(check_type(&build()), Err(BindError::UnsupportedGenericArgument));
    let mut ty = build();
    assert_eq!(extract_and_replace_ty(&mut ty), Err(BindError::UnsupportedGenericArgument));
    assert_eq!(ty, build());
    assert_eq!(bind_it(local(Some(build()))), Err(BindError::UnsupportedGenericArgument));
}

#[test]
fn const_argument_is_refused() {
    // Matrix<{ N + 1 }, impl Display>
    let build = || {
        generic(
            "Matrix",
            vec![GenericArg::Const { text: "{ N + 1 }".to_string() }, of_type(plain("Display"))],
        )
    };
    let mut ty = build();
    let mut source = SequentialTokens::starting_at(0);
    assert_eq!(
        extract_and_replace_ty_with(&mut ty, &mut source),
        Err(BindError::UnsupportedGenericArgument)
    );
    assert_eq!(ty, build());
    assert_eq!(source.fresh(), "00000000000000000000000000000000");
}

#[test]
fn unsupported_type_is_refused() {
    let build = || tuple(vec![plain("Display"), unsupported("dyn Display")]);
    assert_eq!(check_type(&build()), Err(BindError::UnsupportedTypeNodeShape));
    let mut ty = build();
    let mut source = SequentialTokens::starting_at(0);
    assert_eq!(
        extract_and_replace_ty_with(&mut ty, &mut source),
        Err(BindError::UnsupportedTypeNodeShape)
    );
    assert_eq!(ty, build());
    assert_eq!(source.fresh(), "00000000000000000000000000000000");
    assert_eq!(
        bind_it(Declaration::Const {
            prefix: String::new(),
            name: "X".to_string(),
            ty: unsupported("[u8]"),
            init: "[]".to_string(),
        }),
        Err(BindError::UnsupportedTypeNodeShape)
    );
}

#[test]
fn path_without_segments_is_refused() {
    let empty = || CapabilityPath { prefix: String::new(), segments: vec![], params: Params::Bare };
    let mut ty = opaque(vec![Bound::Trait { qualifier: String::new(), path: empty() }]);
    assert_eq!(extract_and_replace_ty(&mut ty), Err(BindError::MalformedPath));
    let mut ty = reference(TypeNode::Path { path: empty() });
    assert_eq!(extract_and_replace_ty(&mut ty), Err(BindError::MalformedPath));
    assert_eq!(ty, reference(TypeNode::Path { path: empty() }));
}

#[test]
fn unsupported_declaration_is_refused() {
    let statement = || Declaration::Unsupported { text: "fn f() {}".to_string() };
    assert_eq!(bind_it(statement()), Err(BindError::UnsupportedDeclarationShape));
    let mut source = SequentialTokens::starting_at(0);
    assert_eq!(bind_it_with(statement(), &mut source), Err(BindError::UnsupportedDeclarationShape));
}

#[test]
fn the_first_unsupported_construct_is_reported() {
    let empty = || TypeNode::Path {
        path: CapabilityPath { prefix: String::new(), segments: vec![], params: Params::Bare },
    };
    let constraint = || {
        generic("Iterator", vec![GenericArg::Constraint { text: "Item: Copy".to_string() }])
    };
    assert_eq!(
        check_type(&tuple(vec![unsupported("!"), empty(), constraint()])),
        Err(BindError::UnsupportedTypeNodeShape)
    );
    assert_eq!(
        check_type(&tuple(vec![named("u8"), empty(), unsupported("!"), constraint()])),
        Err(BindError::MalformedPath)
    );
    assert_eq!(
        check_type(&tuple(vec![constraint(), empty(), unsupported("!")])),
        Err(BindError::UnsupportedGenericArgument)
    );
    // The inputs of a parenthesized list come before its output.
    let sugar = |input: TypeNode, output: TypeNode| TypeNode::Path {
        path: path_of(
            &["Fn"],
            Params::Parenthesized { inputs: vec![input], output: Some(Box::new(output)) },
        ),
    };
    assert_eq!(check_type(&sugar(empty(), unsupported("!"))), Err(BindError::MalformedPath));
    assert_eq!(
        check_type(&sugar(unsupported("!"), empty())),
        Err(BindError::UnsupportedTypeNodeShape)
    );
    assert_eq!(check_type(&sugar(named("u8"), named("u8"))), Ok(()));
}

#[test]
fn supported_types_pass_the_check() {
    for ty in samples() {
        assert_eq!(check_type(&ty), Ok(()));
    }
}

#[test]
fn const_and_static_are_transformed() {
    let mut source = SequentialTokens::starting_at(0);
    let fragment = bind_it_with(
        Declaration::Const {
            prefix: "pub ".to_string(),
            name: "LIMIT".to_string(),
            ty: plain("Display"),
            init: "10".to_string(),
        },
        &mut source,
    )
    .unwrap();
    assert_eq!(fragment.aliases, vec![alias(0, vec![trait_bound("Display", Params::Bare)])]);
    assert_eq!(
        fragment.declaration,
        Declaration::Const {
            prefix: "pub ".to_string(),
            name: "LIMIT".to_string(),
            ty: named(&sequential_name(0)),
            init: "10".to_string(),
        }
    );
    let fragment = bind_it_with(
        Declaration::Static {
            prefix: String::new(),
            mutable: true,
            name: "STATE".to_string(),
            ty: tuple(vec![plain("A"), plain("B")]),
            init: "(1, 2)".to_string(),
        },
        &mut source,
    )
    .unwrap();
    assert_eq!(
        fragment.render(),
        "type Bind_TAIT_0000000000000001 = impl A;\n\
         type Bind_TAIT_0000000000000002 = impl B;\n\
         static mut STATE: (Bind_TAIT_0000000000000001, Bind_TAIT_0000000000000002) = (1, 2);"
    );
}

#[test]
fn each_invocation_draws_one_token_for_each_alias() {
    let mut source = SequentialTokens::starting_at(40);
    let mut ty = tuple(vec![plain("A"), plain("B"), plain("C")]);
    extract_and_replace_ty_with(&mut ty, &mut source).unwrap();
    assert_eq!(source.fresh(), "000000000000002b0000000000000000");
}
