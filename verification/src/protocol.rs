//! Vocabulary shared with the rest of the RPC protocol.

use vstd::prelude::*;

verus! {

/// The coarse capability category a method belongs to.
#[derive(Debug, Clone, Copy, PartialEq, Eq, Structural)]
pub enum MethodFamily {
    Connect,
    Agent,
    Sessions,
    Session,
    Node,
    Cron,
    Gateway,
    Message,
    Browser,
    Canvas,
    Pairing,
}

} // verus!
