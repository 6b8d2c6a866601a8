use bind_it::diagnostic::_p;
use bind_it::error::BindError;
use bind_it::sequential::SequentialTokens;
use bind_it::token::{alias_name, TokenSource, UuidTokens};

#[test]
fn alias_name_takes_the_first_sixteen_characters() {
    assert_eq!(
        alias_name("0123456789abcdef0123456789abcdef"),
        "Bind_TAIT_0123456789abcdef"
    );
    assert_eq!(alias_name("ffffffffffffffff"), "Bind_TAIT_ffffffffffffffff");
    assert_eq!(
        alias_name("936da01f9abd4d9d80c702af85c822a8"),
        "Bind_TAIT_936da01f9abd4d9d"
    );
}

#[test]
fn uuid_tokens_are_thirty_two_hex_digits() {
    let mut source = UuidTokens::new();
    for _ in 0..50 {
        let token = source.fresh();
        assert_eq!(token.len(), 32);
        assert!(token.chars().all(|c| matches!(c, '0'..='9' | 'a'..='f')), "{}", token);
        // A version 4 UUID says so in its 13th digit.
        assert_eq!(token.as_bytes()[12], b'4');
    }
}

#[test]
fn uuid_tokens_differ_from_call_to_call() {
    let mut source = UuidTokens::new();
    let first = source.fresh();
    let second = source.fresh();
    assert_ne!(first, second);
    assert_ne!(alias_name(&first), alias_name(&second));
}

#[test]
fn sequential_tokens_count_up() {
    let mut source = SequentialTokens::starting_at(0);
    assert_eq!(source.fresh(), "00000000000000000000000000000000");
    assert_eq!(source.fresh(), "00000000000000010000000000000000");
    let mut source = SequentialTokens::starting_at(9);
    assert_eq!(source.fresh(), "00000000000000090000000000000000");
    assert_eq!(source.fresh(), "000000000000000a0000000000000000");
    let mut source = SequentialTokens::starting_at(0x0123_4567_89ab_cdef);
    assert_eq!(source.fresh(), "0123456789abcdef0000000000000000");
    assert_eq!(source.fresh(), "0123456789abcdf00000000000000000");
}

#[test]
fn sequential_tokens_start_again_after_the_last_number() {
    let mut source = SequentialTokens::starting_at(u64::MAX);
    assert_eq!(source.fresh(), "ffffffffffffffff0000000000000000");
    assert_eq!(source.fresh(), "00000000000000000000000000000000");
}

#[test]
fn sequential_sources_repeat_each_other() {
    let mut one = SequentialTokens::starting_at(3);
    let mut two = SequentialTokens::starting_at(3);
    for _ in 0..20 {
        assert_eq!(one.fresh(), two.fresh());
    }
}

#[test]
fn messages_name_the_construct() {
    assert_eq!(
        BindError::UnsupportedDeclarationShape.message(),
        "only let, static and const statements are supported"
    );
    assert_eq!(
        BindError::UnsupportedPatternShape.message(),
        "a let statement needs a type annotation on its pattern"
    );
    assert_eq!(
        BindError::UnsupportedGenericArgument.message(),
        "constraint and const generic arguments are not supported"
    );
    assert_eq!(BindError::UnsupportedTypeNodeShape.message(), "this kind of type is not supported");
    assert_eq!(BindError::MalformedPath.message(), "a path has no segments");
}

#[test]
fn debug_form_is_the_pretty_one() {
    assert_eq!(_p(5u8), "5");
    assert_eq!(_p("a\"b"), "\"a\\\"b\"");
    assert_eq!(_p(vec![1, 2]), "[\n    1,\n    2,\n]");
    assert_eq!(_p(Some(BindError::MalformedPath)), "Some(\n    MalformedPath,\n)");
}

#[test]
fn next_number_follows_the_tokens() {
    let mut source = SequentialTokens::starting_at(254);
    assert_eq!(source.next_number(), 254);
    assert_eq!(source.fresh(), "00000000000000fe0000000000000000");
    assert_eq!(source.next_number(), 255);
    assert_eq!(source.fresh(), "00000000000000ff0000000000000000");
    assert_eq!(source.fresh(), "00000000000001000000000000000000");
    assert_eq!(source.next_number(), 257);
    let mut source = SequentialTokens::starting_at(u64::MAX);
    source.fresh();
    assert_eq!(source.next_number(), 0);
}
