//! Ids handed out in sequence: a fixed prefix followed by a number.

use crate::amount::{decimal_text, format_decimal, lemma_decimal_text_injective};
use vstd::prelude::*;
use vstd::string::StringExecFns;

verus! {

/// The id with the given prefix and number.
pub open spec fn sequence_text(prefix: Seq<char>, n: nat) -> Seq<char> {
    prefix + decimal_text(n)
}

/// Ids with one prefix and different numbers differ.
pub proof fn lemma_id_injective(prefix: Seq<char>, a: nat, b: nat)
    requires
        sequence_text(prefix, a) == sequence_text(prefix, b),
    ensures
        a == b,
{
    let x = prefix + decimal_text(a);
    let y = prefix + decimal_text(b);
    assert(x.subrange(prefix.len() as int, x.len() as int) =~= decimal_text(a));
    assert(y.subrange(prefix.len() as int, y.len() as int) =~= decimal_text(b));
    lemma_decimal_text_injective(a, b);
}

/// Builds the id with the given prefix and number.
pub fn sequence_id(prefix: &str, n: u64) -> (id: String)
    ensures
        id@ == sequence_text(prefix@, n as nat),
{
    let mut id = prefix.to_owned();
    let number = format_decimal(n);
    id.append(number.as_str());
    id
}

} // verus!
