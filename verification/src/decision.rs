//! What the decision engine hands to the session store.

use crate::session_key::opt_text;
use vstd::prelude::*;

verus! {

/// The verdict of the decision engine on one request.
#[derive(Debug, Clone, Copy, PartialEq, Eq, Structural)]
pub enum DecisionAction {
    Allow,
    Review,
    Block,
}

/// The request a decision was made about, as far as the session store reads
/// it.
#[derive(Debug, Clone, PartialEq, Eq)]
pub struct ActionRequest {
    pub session_id: Option<String>,
    pub channel: Option<String>,
}

/// A request as a mathematical value.
pub struct ActionRequestView {
    pub session_id: Option<Seq<char>>,
    pub channel: Option<Seq<char>>,
}

impl View for ActionRequest {
    type V = ActionRequestView;

    open spec fn view(&self) -> ActionRequestView {
        ActionRequestView {
            session_id: opt_text(self.session_id),
            channel: opt_text(self.channel),
        }
    }
}

/// The outcome of the decision engine for one request.
#[derive(Debug, Clone, Copy, PartialEq, Eq, Structural)]
pub struct Decision {
    pub action: DecisionAction,
    pub risk_score: u8,
}

} // verus!
