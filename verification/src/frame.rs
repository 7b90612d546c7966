//! Wire frames of the streaming protocol: one JSON text frame per published
//! observation, with the field of the other source set to null.
use vstd::prelude::*;
use crate::decimal::{cents_text, dec_digits, push_u64_digits, render_cents};
use crate::observation::{Observation, Source};

verus! {

/// The frame announcing a new chain height.
pub open spec fn height_frame_text(height: u64) -> Seq<char> {
    "{\"block_height\": "@ + dec_digits(height as nat) + ", \"price\": null}"@
}

/// The frame announcing a new price, written in the canonical cents text.
pub open spec fn price_frame_text(cents: u64) -> Seq<char> {
    "{\"block_height\": null, \"price\": "@ + cents_text(cents as nat) + "}"@
}

/// The frame that one observation is serialized into.
pub open spec fn frame_text(obs: Observation) -> Seq<char> {
    match obs.source {
        Source::ChainHeight => height_frame_text(obs.value),
        Source::PriceIndex => price_frame_text(obs.value),
    }
}

/// Serializes one observation into its wire frame.
pub fn render_frame(obs: &Observation) -> (r: String)
    ensures
        r@ == frame_text(*obs),
{
    match obs.source {
        Source::ChainHeight => {
            let mut s = String::from_str("{\"block_height\": ");
            push_u64_digits(obs.value, &mut s);
            s.append(", \"price\": null}");
            assert(s@ =~= frame_text(*obs));
            s
        },
        Source::PriceIndex => {
            let mut s = String::from_str("{\"block_height\": null, \"price\": ");
            let c = render_cents(obs.value);
            s.append(c.as_str());
            s.append("}");
            assert(s@ =~= frame_text(*obs));
            s
        },
    }
}

} // verus!
