//! Alias names are as distinct as the tokens they are made from.

use vstd::prelude::*;
use crate::extract::extracted;
use crate::rewrite::{AliasView, names_of};
use crate::sequential::{
    counted, lemma_numbers_differ, lemma_sequential_tokens_differ, number_at,
};
use crate::syntax::{Text, TypeView};
use crate::token::{alias_names_of, lemma_alias_names_differ};

verus! {

/// No two of the tokens begin with the same 16 characters.
pub open spec fn distinct_heads(tokens: Seq<Text>) -> bool {
    forall|i: int, j: int|
        0 <= i < j < tokens.len() ==> (#[trigger] tokens[i]).take(16) != (
        #[trigger] tokens[j]).take(16)
}

/// No two of the names are the same.
pub open spec fn pairwise_distinct(names: Seq<Text>) -> bool {
    forall|i: int, j: int| 0 <= i < j < names.len() ==> #[trigger] names[i] != #[trigger] names[j]
}

/// The alias definitions of one extraction have pairwise distinct names, provided that no two
/// of the tokens drawn for them begin with the same 16 characters.
pub proof fn lemma_unique_names(
    before: TypeView,
    after: TypeView,
    aliases: Seq<AliasView>,
    issued_before: Seq<Text>,
    issued_after: Seq<Text>,
)
    requires
        extracted(before, after, aliases, issued_before, issued_after),
        distinct_heads(issued_after.skip(issued_before.len() as int)),
    ensures
        pairwise_distinct(names_of(aliases)),
{
    let drawn = issued_after.skip(issued_before.len() as int);
    let names = names_of(aliases);
    assert forall|i: int, j: int| 0 <= i < j < names.len() implies #[trigger] names[i]
        != #[trigger] names[j] by {
        assert(names[i] == alias_names_of(drawn)[i]);
        assert(names[j] == alias_names_of(drawn)[j]);
        assert(drawn[i].take(16) != drawn[j].take(16));
        lemma_alias_names_differ(drawn[i], drawn[j]);
    }
}

/// With a sequential source the alias definitions of one extraction have pairwise distinct
/// names, as long as there are no more than 2^64 of them.
pub proof fn lemma_sequential_names_unique(
    before: TypeView,
    after: TypeView,
    aliases: Seq<AliasView>,
    issued_before: Seq<Text>,
    issued_after: Seq<Text>,
)
    requires
        extracted(before, after, aliases, issued_before, issued_after),
        counted(issued_after),
        aliases.len() <= 0x1_0000_0000_0000_0000,
    ensures
        pairwise_distinct(names_of(aliases)),
{
    let base = issued_before.len() as int;
    let drawn = issued_after.skip(base);
    assert forall|i: int, j: int| 0 <= i < j < drawn.len() implies (#[trigger] drawn[i]).take(16)
        != (#[trigger] drawn[j]).take(16) by {
        assert(drawn[i] == issued_after[base + i]);
        assert(drawn[j] == issued_after[base + j]);
        lemma_numbers_differ(0, base + i, base + j);
        lemma_sequential_tokens_differ(number_at(0, base + i), number_at(0, base + j));
    }
    lemma_unique_names(before, after, aliases, issued_before, issued_after);
}

} // verus!
