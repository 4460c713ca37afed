//! Events that the peer transport hands to the dispatcher.
use vstd::prelude::*;

verus! {

/// An event of the transport.
#[derive(Debug)]
pub enum ConnEvent {
    /// `ReceivedMessage(from_node_id, raw_payload)`
    ReceivedMessage(String, String),
}

impl Clone for ConnEvent {
    fn clone(&self) -> (r: Self)
        ensures
            r == *self,
    {
        match self {
            ConnEvent::ReceivedMessage(from, raw) => ConnEvent::ReceivedMessage(
                from.clone(),
                raw.clone(),
            ),
        }
    }
}

} // verus!
