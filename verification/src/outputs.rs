//! Plain result values a descriptor-consuming client hands back from
//! contract interactions: raw SCALE-encoded bytes, decodable with the
//! descriptor's registry and spec.

use vstd::prelude::*;

verus! {

/// Result of a state-changing contract call: the raw data of the contract
/// events it emitted, in emission order.
pub struct WriteSuccess {
    pub events: Vec<Vec<u8>>,
}

/// Result of a read-only contract call: the raw return data, decodable with
/// the descriptor's registry and the message's return type id.
pub struct ReadSuccess {
    pub return_value: Vec<u8>,
}

impl WriteSuccess {
    /// How many events the call emitted.
    pub fn event_count(&self) -> (n: usize)
        ensures
            n == self.events@.len(),
    {
        self.events.len()
    }
}

impl ReadSuccess {
    /// The raw return data.
    pub fn data(&self) -> (d: &Vec<u8>)
        ensures
            d@ == self.return_value@,
    {
        &self.return_value
    }
}

} // verus!
