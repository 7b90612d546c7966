//! The data model: sources, observations and the error taxonomy.
use vstd::prelude::*;

verus! {

/// One of the two independent external feeds.
#[derive(Clone, Copy, PartialEq, Eq, Structural, Debug)]
pub enum Source {
    ChainHeight,
    PriceIndex,
}

/// One successfully fetched scalar value from one source, timestamped.
///
/// `value` is the raw block height for `ChainHeight` and the price in
/// cents (the canonical fixed-precision representation, two decimal
/// digits) for `PriceIndex`.
#[derive(Clone, Copy, PartialEq, Eq, Structural, Debug)]
pub struct Observation {
    pub source: Source,
    pub value: u64,
    pub observed_at: u64,
}

impl Observation {
    /// Constructs an observation; the fields are exactly the arguments.
    pub fn new(source: Source, value: u64, observed_at: u64) -> (r: Observation)
        ensures
            r.source == source,
            r.value == value,
            r.observed_at == observed_at,
    {
        Observation { source, value, observed_at }
    }
}

/// Why one fetch attempt produced no observation.
#[derive(Clone, Copy, PartialEq, Eq, Structural, Debug)]
pub enum FetchError {
    /// The transport failed before a body was obtained.
    NetworkError,
    /// The body was not parseable into the expected scalar.
    DecodeError,
}

/// A failed append to durable storage: terminal for that observation's
/// durability only; ingestion and live broadcast continue.
#[derive(Clone, Copy, PartialEq, Eq, Structural, Debug)]
pub struct StoreError;

/// A failed send to one subscriber: terminal for that one connection only,
/// which is removed from the hub.
#[derive(Clone, Copy, PartialEq, Eq, Structural, Debug)]
pub struct TransportError;

} // verus!
