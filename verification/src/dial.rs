//! Whether, and where, a peer reaches out to another node at start-up.

use vstd::prelude::*;
use crate::address::{Address, AddressError, multiaddr_encoding, parse_address};

verus! {

/// What a peer does with the optional address it was started with.
#[derive(Debug)]
pub enum DialPlan {
    /// No address was given: only listen.
    ListenOnly,
    /// Dial `address`, which was given as `text`.
    Dial { text: String, address: Address },
    /// `text` was given but is not a multiaddress.
    Unparsable { text: String, error: AddressError },
}

/// Decides what to do with the address a peer was started with (the first
/// command-line argument, when there is one).
pub fn plan_dial(target: Option<String>) -> (plan: DialPlan)
    ensures
        target is None <==> plan is ListenOnly,
        target matches Some(t) ==> match multiaddr_encoding(t@) {
            Some(bytes) => plan matches DialPlan::Dial { text, address } && text@ == t@
                && address@ == bytes,
            None => plan matches DialPlan::Unparsable { text, .. } && text@ == t@,
        },
{
    match target {
        None => DialPlan::ListenOnly,
        Some(text) => match parse_address(text.as_str()) {
            Ok(address) => DialPlan::Dial { text, address },
            Err(error) => DialPlan::Unparsable { text, error },
        },
    }
}

} // verus!
