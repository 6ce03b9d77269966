//! The crate's trusted interface to `serde_json`, shared across
//! exchanges: encoding a list of channel identifiers as a JSON string
//! array, and the name [`json_parses`] for parse success.
//!
//! Reading an inbound frame is exchange-specific: each exchange module
//! holds one trusted fact reader whose result is named as a function of
//! the frame text (`bitmex_facts_of`, `bitget_facts_of`,
//! `kraken_facts_of`, `gate_facts_of`), so that every classification
//! decision on those facts is made, and bound, in verified code.

use vstd::prelude::*;

verus! {

/// The JSON text of a string array, as `serde_json` renders it: the
/// elements in order, each quoted and escaped, between `[` and `]` with
/// `,` separators.  It depends on the elements alone.
pub uninterp spec fn json_string_array(elems: Seq<Seq<char>>) -> Seq<char>;

/// Whether a text is well-formed JSON; it depends on the text alone.
pub uninterp spec fn json_parses(s: Seq<char>) -> bool;

/// Relies on `serde_json::to_string`: serializing a vector of strings is
/// deterministic, yields the array rendering of the elements in order, and
/// cannot fail (`to_string` errors only for fallible `Serialize`
/// implementations or non-string map keys).
#[verifier::external_body]
pub fn to_json_string_array(items: &Vec<String>) -> (r: String)
    ensures
        r@ == json_string_array(items.deep_view()),
{
    serde_json::to_string(items).unwrap()
}

} // verus!
