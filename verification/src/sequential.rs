//! A source of tokens that counts up, for names that are the same in every run.

use vstd::prelude::*;
use vstd::string::StringExecFns;
use crate::syntax::Text;
use crate::token::{
    TokenSource, alias_name_of, is_lower_hex, lemma_alias_names_differ,
};

verus! {

/// The hexadecimal digit for a value below 16.
pub open spec fn hex_char(d: int) -> char {
    if d == 0 {
        '0'
    } else if d == 1 {
        '1'
    } else if d == 2 {
        '2'
    } else if d == 3 {
        '3'
    } else if d == 4 {
        '4'
    } else if d == 5 {
        '5'
    } else if d == 6 {
        '6'
    } else if d == 7 {
        '7'
    } else if d == 8 {
        '8'
    } else if d == 9 {
        '9'
    } else if d == 10 {
        'a'
    } else if d == 11 {
        'b'
    } else if d == 12 {
        'c'
    } else if d == 13 {
        'd'
    } else if d == 14 {
        'e'
    } else {
        'f'
    }
}

/// The last `width` hexadecimal digits of `n`, most significant first.
pub open spec fn hex_text(n: nat, width: nat) -> Text
    decreases width,
{
    if width == 0 {
        Seq::empty()
    } else {
        hex_text(n / 16, (width - 1) as nat).push(hex_char((n % 16) as int))
    }
}

/// The token that stands for a number: its 16 hexadecimal digits, then 16 zeros.
pub open spec fn sequential_token(n: u64) -> Text {
    hex_text(n as nat, 16) + Seq::new(16, |i: int| '0')
}

/// The number that a sequential source hands out after `n`.
pub open spec fn successor(n: u64) -> u64 {
    if n == u64::MAX {
        0
    } else {
        (n + 1) as u64
    }
}

proof fn lemma_hex_text_shape(n: nat, width: nat)
    ensures
        hex_text(n, width).len() == width,
        forall|i: int| 0 <= i < width ==> is_lower_hex(#[trigger] hex_text(n, width)[i]),
    decreases width,
{
    if width > 0 {
        lemma_hex_text_shape(n / 16, (width - 1) as nat);
    }
}

/// 16 to the power of `width`.
pub open spec fn pow16(width: nat) -> nat
    decreases width,
{
    if width == 0 {
        1
    } else {
        16 * pow16((width - 1) as nat)
    }
}

/// Numbers that fit into `width` hexadecimal digits and are written alike are the same number.
pub proof fn lemma_hex_text_injective(a: nat, b: nat, width: nat)
    requires
        a < pow16(width),
        b < pow16(width),
        hex_text(a, width) == hex_text(b, width),
    ensures
        a == b,
    decreases width,
{
    if width > 0 {
        let rest = (width - 1) as nat;
        let head_a = hex_text(a / 16, rest);
        let head_b = hex_text(b / 16, rest);
        let last_a = hex_char((a % 16) as int);
        let last_b = hex_char((b % 16) as int);
        assert(head_a.push(last_a).drop_last() == head_a);
        assert(head_b.push(last_b).drop_last() == head_b);
        assert(head_a.push(last_a).last() == last_a);
        assert(head_b.push(last_b).last() == last_b);
        lemma_hex_text_injective(a / 16, b / 16, rest);
    }
}

/// Two different numbers give tokens that differ within their first 16 characters, and so give
/// different alias names.
pub proof fn lemma_sequential_tokens_differ(a: u64, b: u64)
    requires
        a != b,
    ensures
        sequential_token(a).take(16) != sequential_token(b).take(16),
        alias_name_of(sequential_token(a)) != alias_name_of(sequential_token(b)),
{
    lemma_hex_text_shape(a as nat, 16);
    lemma_hex_text_shape(b as nat, 16);
    assert(sequential_token(a).take(16) == hex_text(a as nat, 16));
    assert(sequential_token(b).take(16) == hex_text(b as nat, 16));
    assert(pow16(16) == 0x1_0000_0000_0000_0000) by {
        reveal_with_fuel(pow16, 17);
    }
    if hex_text(a as nat, 16) == hex_text(b as nat, 16) {
        lemma_hex_text_injective(a as nat, b as nat, 16);
    }
    lemma_alias_names_differ(sequential_token(a), sequential_token(b));
}

/// At most 2^64 tokens in a row of a sequential source stand for different numbers.
pub proof fn lemma_numbers_differ(first: u64, i: int, j: int)
    requires
        0 <= i < j < i + 0x1_0000_0000_0000_0000,
    ensures
        number_at(first, i) != number_at(first, j),
{
}

/// The text of one hexadecimal digit.
fn digit_text(d: u8) -> (text: &'static str)
    requires
        d < 16,
    ensures
        text@ == seq![hex_char(d as int)],
{
    proof {
        reveal_strlit("0");
        reveal_strlit("1");
        reveal_strlit("2");
        reveal_strlit("3");
        reveal_strlit("4");
        reveal_strlit("5");
        reveal_strlit("6");
        reveal_strlit("7");
        reveal_strlit("8");
        reveal_strlit("9");
        reveal_strlit("a");
        reveal_strlit("b");
        reveal_strlit("c");
        reveal_strlit("d");
        reveal_strlit("e");
        reveal_strlit("f");
    }
    let text = match d {
        0 => "0",
        1 => "1",
        2 => "2",
        3 => "3",
        4 => "4",
        5 => "5",
        6 => "6",
        7 => "7",
        8 => "8",
        9 => "9",
        10 => "a",
        11 => "b",
        12 => "c",
        13 => "d",
        14 => "e",
        _ => "f",
    };
    assert(text@ =~= seq![hex_char(d as int)]);
    text
}

/// Writes the last `width` hexadecimal digits of `n`.
fn hex_string(n: u64, width: u8) -> (text: String)
    ensures
        text@ == hex_text(n as nat, width as nat),
    decreases width,
{
    if width == 0 {
        String::new()
    } else {
        let mut text = hex_string(n / 16, width - 1);
        text.append(digit_text((n % 16) as u8));
        proof {
            let head = hex_text((n / 16) as nat, (width - 1) as nat);
            assert(head + seq![hex_char((n % 16) as int)] == head.push(hex_char((n % 16) as int)));
        }
        text
    }
}

/// The number that a sequential source hands out `k` tokens after it handed out `first`.
pub open spec fn number_at(first: u64, k: int) -> u64 {
    ((first + k) % 0x1_0000_0000_0000_0000) as u64
}

/// The tokens are a run of a sequential source from 0 on: token `k` stands for the number `k`,
/// and after the largest number the count starts again.
pub open spec fn counted(issued: Seq<Text>) -> bool {
    forall|k: int|
        0 <= k < issued.len() ==> #[trigger] issued[k] == sequential_token(number_at(0, k))
}

/// Tokens that count up: the same run of tokens every time. After the largest number the count
/// starts again at 0.
pub struct SequentialTokens {
    next: u64,
    issued: Ghost<Seq<Text>>,
}

impl SequentialTokens {
    #[verifier::type_invariant]
    closed spec fn counts_up(self) -> bool {
        &&& self.next == number_at(0, self.issued@.len() as int)
        &&& counted(self.issued@)
    }

    /// The number that the next token stands for.
    pub closed spec fn upcoming(&self) -> u64 {
        self.next
    }

    /// A source in the state that a new source is in after it has handed out `first` tokens:
    /// its next token stands for `first`.
    pub fn starting_at(first: u64) -> (source: Self)
        ensures
            source.upcoming() == first,
            source.issued().len() == first,
    {
        SequentialTokens {
            next: first,
            issued: Ghost(Seq::new(first as nat, |k: int| sequential_token(number_at(0, k)))),
        }
    }

    /// The number that the next token stands for: the tokens handed out so far stand for the
    /// numbers before it, from 0 on.
    pub fn next_number(&self) -> (n: u64)
        ensures
            n == self.upcoming(),
            n == number_at(0, self.issued().len() as int),
            counted(self.issued()),
    {
        proof {
            use_type_invariant(self);
        }
        self.next
    }
}

impl TokenSource for SequentialTokens {
    closed spec fn issued(&self) -> Seq<Text> {
        self.issued@
    }

    fn fresh(&mut self) -> (token: String)
        ensures
            token@ == sequential_token(old(self).upcoming()),
            final(self).upcoming() == successor(old(self).upcoming()),
    {
        proof {
            use_type_invariant(&*self);
        }
        let mut token = hex_string(self.next, 16);
        token.append("0000000000000000");
        proof {
            reveal_strlit("0000000000000000");
            lemma_hex_text_shape(self.next as nat, 16);
            assert("0000000000000000"@ =~= Seq::new(16, |i: int| '0'));
        }
        let next = if self.next == u64::MAX {
            0
        } else {
            self.next + 1
        };
        *self = SequentialTokens { next, issued: Ghost(self.issued@.push(token@)) };
        token
    }
}

} // verus!
