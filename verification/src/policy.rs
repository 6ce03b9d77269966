//! The per-exchange plugin contracts.
//!
//! The connection supervisor is generic over an [`ExchangePolicy`]: two
//! pure functions, one rendering subscribe/unsubscribe commands and one
//! classifying inbound frames.  Encoding is deterministic and fully
//! specified; classification of a JSON frame goes through an opaque parse,
//! so its contract is a relation admitting every outcome the classifier
//! can actually produce for the frame.

use vstd::prelude::*;
use crate::classify::{MiscMessage, MiscMessageView};

verus! {

/// One exchange's command encoder and frame classifier.
pub trait ExchangePolicy {
    /// Whether a single identifier's own command respects the exchange's
    /// frame bounds, so that the identifier can be sent at all.
    spec fn spec_fits(chan: Seq<char>) -> bool;

    /// The wire commands covering `chans`, in order.
    spec fn spec_commands(chans: Seq<Seq<char>>, subscribe: bool) -> Seq<Seq<char>>;

    /// The classification outcomes the classifier may return for `frame`.
    spec fn classify_ok(frame: Seq<char>, outcome: MiscMessageView) -> bool;

    /// Decides [`Self::spec_fits`].
    fn fits(chan: &String) -> (b: bool)
        ensures
            b == Self::spec_fits(chan@),
    ;

    /// Renders the commands covering `chans`.
    fn commands(chans: &Vec<String>, subscribe: bool) -> (r: Vec<String>)
        requires
            forall|i: int|
                0 <= i < chans.deep_view().len() ==> Self::spec_fits(#[trigger] chans.deep_view()[i]),
        ensures
            r.deep_view() == Self::spec_commands(chans.deep_view(), subscribe),
    ;

    /// Classifies one inbound text frame.
    fn classify(frame: &str) -> (m: MiscMessage)
        ensures
            Self::classify_ok(frame@, m@),
    ;
}

} // verus!
