//! Fresh tokens, and the alias names made from them.

use vstd::prelude::*;
use vstd::string::StringExecFns;
use vstd::string::StrSliceExecFns;
use crate::syntax::Text;

verus! {

/// A lower-case hexadecimal digit.
pub open spec fn is_lower_hex(c: char) -> bool {
    ('0' <= c && c <= '9') || ('a' <= c && c <= 'f')
}

/// The shape of a token: 32 lower-case hexadecimal digits.
pub open spec fn is_token(t: Text) -> bool {
    &&& t.len() == 32
    &&& forall|i: int| 0 <= i < 32 ==> is_lower_hex(#[trigger] t[i])
}

/// The name of the alias made from a token: `Bind_TAIT_` and the token's first 16 characters.
pub open spec fn alias_name_of(token: Text) -> Text {
    "Bind_TAIT_"@ + token.take(16)
}

/// The alias names made from a sequence of tokens, in order.
pub open spec fn alias_names_of(tokens: Seq<Text>) -> Seq<Text> {
    Seq::new(tokens.len(), |i: int| alias_name_of(tokens[i]))
}

/// The shape of an alias name: `Bind_TAIT_` and 16 lower-case hexadecimal digits.
pub open spec fn is_alias_name(name: Text) -> bool {
    &&& name.len() == 26
    &&& name.take(10) == "Bind_TAIT_"@
    &&& forall|i: int| 10 <= i < 26 ==> is_lower_hex(#[trigger] name[i])
}

/// Builds the alias name for a token.
pub fn alias_name(token: &str) -> (name: String)
    requires
        token@.len() >= 16,
    ensures
        name@ == alias_name_of(token@),
{
    let head = token.substring_char(0, 16);
    let name = String::from_str("Bind_TAIT_").concat(head);
    proof {
        assert(token@.subrange(0, 16) == token@.take(16));
    }
    name
}

/// An alias name made from a token has the shape of an alias name.
pub proof fn lemma_alias_name_shape(token: Text)
    requires
        is_token(token),
    ensures
        is_alias_name(alias_name_of(token)),
{
    reveal_strlit("Bind_TAIT_");
    let name = alias_name_of(token);
    assert(name.take(10) == "Bind_TAIT_"@);
    assert forall|i: int| 10 <= i < 26 implies is_lower_hex(#[trigger] name[i]) by {
        assert(name[i] == token[i - 10]);
    }
}

/// Two tokens that differ in their first 16 characters give two different alias names.
pub proof fn lemma_alias_names_differ(a: Text, b: Text)
    requires
        a.take(16) != b.take(16),
    ensures
        alias_name_of(a) != alias_name_of(b),
{
    let prefix = "Bind_TAIT_"@;
    assert((prefix + a.take(16)).skip(prefix.len() as int) == a.take(16));
    assert((prefix + b.take(16)).skip(prefix.len() as int) == b.take(16));
}

/// A supply of fresh tokens. Each call hands out one token; `issued` is the record of all that
/// were handed out, oldest first.
pub trait TokenSource {
    /// The tokens handed out so far, oldest first.
    spec fn issued(&self) -> Seq<Text>;

    /// Hands out the next token.
    fn fresh(&mut self) -> (token: String)
        ensures
            is_token(token@),
            final(self).issued() == old(self).issued().push(token@),
    ;
}

/// `uuid::Uuid::new_v4`, then `to_simple` and `to_string` on what it returned: a random version
/// 4 UUID written without hyphens. Of the text the contract claims the shape alone, which the
/// simple format gives every UUID: 32 characters, each a digit or a letter from `a` to `f`.
/// Nothing is claimed of which UUID comes back. The call aborts when the operating system hands
/// out no random bytes.
#[verifier::external_body]
fn random_token() -> (token: String)
    ensures
        is_token(token@),
{
    uuid::Uuid::new_v4().to_simple().to_string()
}

/// Tokens from random UUIDs.
pub struct UuidTokens {
    issued: Ghost<Seq<Text>>,
}

impl UuidTokens {
    /// A source that has handed out nothing yet.
    pub fn new() -> (source: Self)
        ensures
            source.issued() == Seq::<Text>::empty(),
    {
        UuidTokens { issued: Ghost(Seq::empty()) }
    }
}

impl TokenSource for UuidTokens {
    closed spec fn issued(&self) -> Seq<Text> {
        self.issued@
    }

    fn fresh(&mut self) -> (token: String) {
        let token = random_token();
        proof {
            self.issued@ = self.issued@.push(token@);
        }
        token
    }
}

} // verus!
