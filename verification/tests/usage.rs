use bind_it::declaration::{bind_it, bind_it_with, Declaration, Fragment};
use bind_it::extract::AliasDefinition;
use bind_it::syntax::{Bound, CapabilityPath, GenericArg, Params, TypeNode};
use bind_it::sequential::SequentialTokens;

fn path_of(segments: &[&str], params: Params) -> CapabilityPath {
    CapabilityPath {
        prefix: String::new(),
        segments: segments.iter().map(|s| s.to_string()).collect(),
        params,
    }
}

fn named(segments: &[&str]) -> TypeNode {
    TypeNode::Path { path: path_of(segments, Params::Bare) }
}

fn generic(segments: &[&str], args: Vec<GenericArg>) -> TypeNode {
    TypeNode::Path { path: path_of(segments, Params::Bracketed { args }) }
}

fn trait_bound(segments: &[&str], params: Params) -> Bound {
    Bound::Trait { qualifier: String::new(), path: path_of(segments, params) }
}

fn lifetime_bound(name: &str) -> Bound {
    Bound::Lifetime { name: name.to_string() }
}

fn opaque(bounds: Vec<Bound>) -> TypeNode {
    TypeNode::Opaque { bounds }
}

fn binding(name: &str, ty: TypeNode) -> GenericArg {
    GenericArg::Binding { name: name.to_string(), ty }
}

fn bracketed(args: Vec<GenericArg>) -> Params {
    Params::Bracketed { args }
}

fn local(pattern: &str, ty: TypeNode, value: &str) -> Declaration {
    Declaration::Local {
        prefix: String::new(),
        pattern: pattern.to_string(),
        annotation: Some(ty),
        value: Some(value.to_string()),
    }
}

fn is_alias_name(name: &str) -> bool {
    name.len() == 26
        && name.starts_with("Bind_TAIT_")
        && name[10..].chars().all(|c| matches!(c, '0'..='9' | 'a'..='f'))
}

fn declared(fragment: &Fragment) -> &TypeNode {
    match &fragment.declaration {
        Declaration::Local { annotation: Some(ty), .. } => ty,
        Declaration::Const { ty, .. } => ty,
        Declaration::Static { ty, .. } => ty,
        other => panic!("no declared type in {:?}", other),
    }
}

fn alias(name: &str, bounds: Vec<Bound>) -> AliasDefinition {
    AliasDefinition { name: name.to_string(), captured: opaque(bounds) }
}

const A0: &str = "Bind_TAIT_0000000000000000";
const A1: &str = "Bind_TAIT_0000000000000001";
const A2: &str = "Bind_TAIT_0000000000000002";
const A3: &str = "Bind_TAIT_0000000000000003";

// let rng: impl Iterator<Item = u32> = 5..9;
fn let_simple_input() -> Declaration {
    local(
        "rng",
        opaque(vec![trait_bound(&["Iterator"], bracketed(vec![binding("Item", named(&["u32"]))]))]),
        "5..9",
    )
}

#[test]
fn let_simple() {
    let fragment = bind_it(let_simple_input()).unwrap();
    assert_eq!(fragment.aliases.len(), 1);
    let name = fragment.aliases[0].name.clone();
    assert!(is_alias_name(&name));
    assert_eq!(
        fragment.aliases[0].captured,
        opaque(vec![trait_bound(&["Iterator"], bracketed(vec![binding("Item", named(&["u32"]))]))])
    );
    assert_eq!(fragment.declaration, local("rng", named(&[&name]), "5..9"));
    assert_eq!(
        fragment.render(),
        format!("type {name} = impl Iterator<Item = u32>;\nlet rng: {name} = 5..9;")
    );

    let mut source = SequentialTokens::starting_at(0);
    let fragment = bind_it_with(let_simple_input(), &mut source).unwrap();
    assert_eq!(
        fragment.render(),
        "type Bind_TAIT_0000000000000000 = impl Iterator<Item = u32>;\n\
         let rng: Bind_TAIT_0000000000000000 = 5..9;"
    );

    let rng = 5..9;
    for n in rng {
        println!("{n}")
    }
}

// let num: impl std::string::ToString = 5;
fn let_path_input() -> Declaration {
    local("num", opaque(vec![trait_bound(&["std", "string", "ToString"], Params::Bare)]), "5")
}

#[test]
fn let_path() {
    let fragment = bind_it(let_path_input()).unwrap();
    assert_eq!(fragment.aliases.len(), 1);
    let name = fragment.aliases[0].name.clone();
    assert!(is_alias_name(&name));
    assert_eq!(fragment.declaration, local("num", named(&[&name]), "5"));
    assert_eq!(
        fragment.render(),
        format!("type {name} = impl std::string::ToString;\nlet num: {name} = 5;")
    );

    let mut source = SequentialTokens::starting_at(0);
    let fragment = bind_it_with(let_path_input(), &mut source).unwrap();
    assert_eq!(
        fragment.aliases,
        vec![alias(A0, vec![trait_bound(&["std", "string", "ToString"], Params::Bare)])]
    );
    assert_eq!(fragment.declaration, local("num", named(&[A0]), "5"));

    let num = 5;
    assert_eq!(num.to_string(), String::from("5"));
}

const REVERSER: &str = "|s| s.into_iter().map(|s1| s1.into()).rev().collect()";

// static STR_REVERSER:
//     impl Fn(impl IntoIterator<IntoIter = impl DoubleEndedIterator<Item = impl Into<String>>>) -> String
//     = |s| s.into_iter().map(|s1| s1.into()).rev().collect();
fn static_fn_trait_input() -> Declaration {
    let item = opaque(vec![trait_bound(&["Into"], bracketed(vec![GenericArg::Type {
        ty: named(&["String"]),
    }]))]);
    let into_iter =
        opaque(vec![trait_bound(&["DoubleEndedIterator"], bracketed(vec![binding("Item", item)]))]);
    let argument =
        opaque(vec![trait_bound(&["IntoIterator"], bracketed(vec![binding("IntoIter", into_iter)]))]);
    let function = opaque(vec![trait_bound(
        &["Fn"],
        Params::Parenthesized {
            inputs: vec![argument],
            output: Some(Box::new(named(&["String"]))),
        },
    )]);
    Declaration::Static {
        prefix: String::new(),
        mutable: false,
        name: "STR_REVERSER".to_string(),
        ty: function,
        init: REVERSER.to_string(),
    }
}

#[test]
fn static_fn_trait() {
    let mut source = SequentialTokens::starting_at(0);
    let fragment = bind_it_with(static_fn_trait_input(), &mut source).unwrap();
    assert_eq!(
        fragment.aliases,
        vec![
            alias(A0, vec![trait_bound(&["Into"], bracketed(vec![GenericArg::Type {
                ty: named(&["String"]),
            }]))]),
            alias(A1, vec![trait_bound(
                &["DoubleEndedIterator"],
                bracketed(vec![binding("Item", named(&[A0]))]),
            )]),
            alias(A2, vec![trait_bound(
                &["IntoIterator"],
                bracketed(vec![binding("IntoIter", named(&[A1]))]),
            )]),
            alias(A3, vec![trait_bound(
                &["Fn"],
                Params::Parenthesized {
                    inputs: vec![named(&[A2])],
                    output: Some(Box::new(named(&["String"]))),
                },
            )]),
        ]
    );
    assert_eq!(
        fragment.declaration,
        Declaration::Static {
            prefix: String::new(),
            mutable: false,
            name: "STR_REVERSER".to_string(),
            ty: named(&[A3]),
            init: REVERSER.to_string(),
        }
    );
    assert_eq!(
        fragment.render(),
        format!(
            "type {A0} = impl Into<String>;\n\
             type {A1} = impl DoubleEndedIterator<Item = {A0}>;\n\
             type {A2} = impl IntoIterator<IntoIter = {A1}>;\n\
             type {A3} = impl Fn({A2}) -> String;\n\
             static STR_REVERSER: {A3} = {REVERSER};"
        )
    );

    let fragment = bind_it(static_fn_trait_input()).unwrap();
    assert_eq!(fragment.aliases.len(), 4);
    for alias in &fragment.aliases {
        assert!(is_alias_name(&alias.name));
    }
    assert_eq!(declared(&fragment), &named(&[&fragment.aliases[3].name]));

    let reverser = |s: std::str::Chars<'_>| -> String {
        s.into_iter().map(|s1| -> String { s1.into() }).rev().collect()
    };
    assert_eq!(&reverser("xol".chars()), "lox");
}

// let fut: impl Future<Output = impl Future<Output = (impl Into<usize>, impl std::fmt::Display)> + 'static>
//     + 'static = async { ready((5u8, true)) };
fn async_nested_input() -> Declaration {
    let pair = TypeNode::Tuple {
        elems: vec![
            opaque(vec![trait_bound(&["Into"], bracketed(vec![GenericArg::Type {
                ty: named(&["usize"]),
            }]))]),
            opaque(vec![trait_bound(&["std", "fmt", "Display"], Params::Bare)]),
        ],
    };
    let inner = opaque(vec![
        trait_bound(&["Future"], bracketed(vec![binding("Output", pair)])),
        lifetime_bound("'static"),
    ]);
    let outer = opaque(vec![
        trait_bound(&["Future"], bracketed(vec![binding("Output", inner)])),
        lifetime_bound("'static"),
    ]);
    local("fut", outer, "async { ready((5u8, true)) }")
}

#[test]
fn async_nested() {
    let mut source = SequentialTokens::starting_at(0);
    let fragment = bind_it_with(async_nested_input(), &mut source).unwrap();
    assert_eq!(
        fragment.render(),
        format!(
            "type {A0} = impl Into<usize>;\n\
             type {A1} = impl std::fmt::Display;\n\
             type {A2} = impl Future<Output = ({A0}, {A1})> + 'static;\n\
             type {A3} = impl Future<Output = {A2}> + 'static;\n\
             let fut: {A3} = async {{ ready((5u8, true)) }};"
        )
    );
    assert_eq!(
        fragment.aliases[3],
        alias(A3, vec![
            trait_bound(&["Future"], bracketed(vec![binding("Output", named(&[A2]))])),
            lifetime_bound("'static"),
        ])
    );

    let (into_usize, displayable) = (5u8, true);
    let as_usize: usize = into_usize.into();
    assert_eq!(as_usize, 5usize);
    assert_eq!(displayable.to_string(), "true");
}

#[test]
fn inside_other_types() {
    // let _: Option<&impl std::string::ToString> = Some(&false);
    let to_string = || opaque(vec![trait_bound(&["std", "string", "ToString"], Params::Bare)]);
    let reference = |elem: TypeNode| TypeNode::Reference {
        lifetime: None,
        mutable: false,
        elem: Box::new(elem),
    };
    let mut source = SequentialTokens::starting_at(0);
    let fragment = bind_it_with(
        local(
            "_",
            generic(&["Option"], vec![GenericArg::Type { ty: reference(to_string()) }]),
            "Some(&false)",
        ),
        &mut source,
    )
    .unwrap();
    assert_eq!(
        fragment.aliases,
        vec![alias(A0, vec![trait_bound(&["std", "string", "ToString"], Params::Bare)])]
    );
    assert_eq!(
        fragment.declaration,
        local(
            "_",
            generic(&["Option"], vec![GenericArg::Type { ty: reference(named(&[A0])) }]),
            "Some(&false)",
        )
    );
    assert_eq!(
        fragment.render(),
        format!("type {A0} = impl std::string::ToString;\nlet _: Option<&{A0}> = Some(&false);")
    );

    // let _: (impl std::string::ToString, _) = (false, true);
    let fragment = bind_it_with(
        local("_", TypeNode::Tuple { elems: vec![to_string(), TypeNode::Infer] }, "(false, true)"),
        &mut source,
    )
    .unwrap();
    assert_eq!(
        fragment.aliases,
        vec![alias(A1, vec![trait_bound(&["std", "string", "ToString"], Params::Bare)])]
    );
    assert_eq!(
        fragment.declaration,
        local(
            "_",
            TypeNode::Tuple { elems: vec![named(&[A1]), TypeNode::Infer] },
            "(false, true)",
        )
    );
    assert_eq!(
        fragment.render(),
        format!("type {A1} = impl std::string::ToString;\nlet _: ({A1}, _) = (false, true);")
    );

    // let _: *mut impl Into<()> = &mut () as *mut _;
    let unit = || TypeNode::Tuple { elems: vec![] };
    let into_unit =
        || vec![trait_bound(&["Into"], bracketed(vec![GenericArg::Type { ty: unit() }]))];
    let fragment = bind_it_with(
        local(
            "_",
            TypeNode::Pointer { mutable: true, elem: Box::new(opaque(into_unit())) },
            "&mut () as *mut _",
        ),
        &mut source,
    )
    .unwrap();
    assert_eq!(fragment.aliases, vec![alias(A2, into_unit())]);
    assert_eq!(
        fragment.declaration,
        local(
            "_",
            TypeNode::Pointer { mutable: true, elem: Box::new(named(&[A2])) },
            "&mut () as *mut _",
        )
    );
    assert_eq!(
        fragment.render(),
        format!("type {A2} = impl Into<()>;\nlet _: *mut {A2} = &mut () as *mut _;")
    );

    // The same three with random names.
    let fragment = bind_it(local(
        "_",
        generic(&["Option"], vec![GenericArg::Type { ty: reference(to_string()) }]),
        "Some(&false)",
    ))
    .unwrap();
    assert_eq!(fragment.aliases.len(), 1);
    assert!(is_alias_name(&fragment.aliases[0].name));
    assert_eq!(
        declared(&fragment),
        &generic(&["Option"], vec![GenericArg::Type {
            ty: reference(named(&[&fragment.aliases[0].name])),
        }])
    );
}
