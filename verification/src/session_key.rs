//! What the session-key parser reports about a key. The grammar of keys is
//! not defined here: callers hand in what their parser found.

use vstd::prelude::*;

verus! {

/// The kind of conversation a session key stands for.
#[derive(Debug, Clone, Copy, PartialEq, Eq, Structural)]
pub enum SessionKind {
    Main,
    Direct,
    Group,
    Channel,
    Cron,
    Hook,
    Node,
    Other,
}

/// The parts of a parsed session key that the session store keeps.
#[derive(Debug, Clone, PartialEq, Eq)]
pub struct ParsedSessionKey {
    pub kind: SessionKind,
    pub channel: Option<String>,
}

/// A parsed session key as a mathematical value.
pub struct ParsedKeyView {
    pub kind: SessionKind,
    pub channel: Option<Seq<char>>,
}

/// The text of an optional string.
pub open spec fn opt_text(text: Option<String>) -> Option<Seq<char>> {
    match text {
        Some(s) => Some(s@),
        None => None,
    }
}

impl View for ParsedSessionKey {
    type V = ParsedKeyView;

    open spec fn view(&self) -> ParsedKeyView {
        ParsedKeyView { kind: self.kind, channel: opt_text(self.channel) }
    }
}

/// A copy of an optional string.
pub fn clone_opt_text(text: &Option<String>) -> (r: Option<String>)
    ensures
        r == *text,
{
    match text {
        Some(s) => Some(s.clone()),
        None => None,
    }
}

} // verus!
