//! Per-session policy overrides and their textual names.

use crate::text::canonical;
use crate::text::normalize;
use vstd::prelude::*;

verus! {

/// Whether a session may send, overriding the global policy.
#[derive(Debug, Clone, Copy, PartialEq, Eq, Structural)]
pub enum SendPolicyOverride {
    Allow,
    Deny,
    Inherit,
}

/// When a group session wakes the agent.
#[derive(Debug, Clone, Copy, PartialEq, Eq, Structural)]
pub enum GroupActivationMode {
    Mention,
    Always,
}

/// What happens to a message that arrives while a session is busy.
#[derive(Debug, Clone, Copy, PartialEq, Eq, Structural)]
pub enum SessionQueueMode {
    Followup,
    Steer,
    Collect,
}

/// The send policy that the canonical word `word` names.
pub open spec fn send_policy_named(word: Seq<char>) -> Option<SendPolicyOverride> {
    if word == "allow"@ {
        Some(SendPolicyOverride::Allow)
    } else if word == "deny"@ {
        Some(SendPolicyOverride::Deny)
    } else if word == "inherit"@ {
        Some(SendPolicyOverride::Inherit)
    } else {
        None
    }
}

/// The group activation mode that the canonical word `word` names.
pub open spec fn group_activation_named(word: Seq<char>) -> Option<GroupActivationMode> {
    if word == "mention"@ {
        Some(GroupActivationMode::Mention)
    } else if word == "always"@ {
        Some(GroupActivationMode::Always)
    } else {
        None
    }
}

/// The queue mode that the canonical word `word` names.
pub open spec fn queue_mode_named(word: Seq<char>) -> Option<SessionQueueMode> {
    if word == "followup"@ {
        Some(SessionQueueMode::Followup)
    } else if word == "steer"@ {
        Some(SessionQueueMode::Steer)
    } else if word == "collect"@ {
        Some(SessionQueueMode::Collect)
    } else {
        None
    }
}

/// The send policy that an optional word, in any spelling, names.
pub open spec fn send_policy_from(word: Option<Seq<char>>) -> Option<SendPolicyOverride> {
    match word {
        Some(w) => send_policy_named(canonical(w)),
        None => None,
    }
}

/// The group activation mode that an optional word, in any spelling, names.
pub open spec fn group_activation_from(word: Option<Seq<char>>) -> Option<GroupActivationMode> {
    match word {
        Some(w) => group_activation_named(canonical(w)),
        None => None,
    }
}

/// The queue mode that an optional word, in any spelling, names.
pub open spec fn queue_mode_from(word: Option<Seq<char>>) -> Option<SessionQueueMode> {
    match word {
        Some(w) => queue_mode_named(canonical(w)),
        None => None,
    }
}

impl SendPolicyOverride {
    /// The canonical word for this policy.
    pub open spec fn word(self) -> Seq<char> {
        match self {
            SendPolicyOverride::Allow => "allow"@,
            SendPolicyOverride::Deny => "deny"@,
            SendPolicyOverride::Inherit => "inherit"@,
        }
    }

    /// The canonical lower-case name, as it is written out.
    pub fn name(self) -> (r: &'static str)
        ensures
            r@ == self.word(),
    {
        match self {
            SendPolicyOverride::Allow => "allow",
            SendPolicyOverride::Deny => "deny",
            SendPolicyOverride::Inherit => "inherit",
        }
    }
}

impl GroupActivationMode {
    /// The canonical word for this mode.
    pub open spec fn word(self) -> Seq<char> {
        match self {
            GroupActivationMode::Mention => "mention"@,
            GroupActivationMode::Always => "always"@,
        }
    }

    /// The canonical lower-case name, as it is written out.
    pub fn name(self) -> (r: &'static str)
        ensures
            r@ == self.word(),
    {
        match self {
            GroupActivationMode::Mention => "mention",
            GroupActivationMode::Always => "always",
        }
    }
}

impl SessionQueueMode {
    /// The canonical word for this mode.
    pub open spec fn word(self) -> Seq<char> {
        match self {
            SessionQueueMode::Followup => "followup"@,
            SessionQueueMode::Steer => "steer"@,
            SessionQueueMode::Collect => "collect"@,
        }
    }

    /// The canonical lower-case name, as it is written out.
    pub fn name(self) -> (r: &'static str)
        ensures
            r@ == self.word(),
    {
        match self {
            SessionQueueMode::Followup => "followup",
            SessionQueueMode::Steer => "steer",
            SessionQueueMode::Collect => "collect",
        }
    }
}

/// Reads a send policy: `allow`, `deny` or `inherit`, in any letter case and
/// with white space around it; nothing else.
pub fn parse_send_policy(value: &str) -> (r: Option<SendPolicyOverride>)
    ensures
        r == send_policy_named(canonical(value@)),
{
    let word = normalize(value);
    if *word.as_str() == *"allow" {
        Some(SendPolicyOverride::Allow)
    } else if *word.as_str() == *"deny" {
        Some(SendPolicyOverride::Deny)
    } else if *word.as_str() == *"inherit" {
        Some(SendPolicyOverride::Inherit)
    } else {
        None
    }
}

/// Reads a group activation mode: `mention` or `always`, in any letter case
/// and with white space around it; nothing else.
pub fn parse_group_activation_mode(value: &str) -> (r: Option<GroupActivationMode>)
    ensures
        r == group_activation_named(canonical(value@)),
{
    let word = normalize(value);
    if *word.as_str() == *"mention" {
        Some(GroupActivationMode::Mention)
    } else if *word.as_str() == *"always" {
        Some(GroupActivationMode::Always)
    } else {
        None
    }
}

/// Reads a queue mode: `followup`, `steer` or `collect`, in any letter case
/// and with white space around it; nothing else.
pub fn parse_queue_mode(value: &str) -> (r: Option<SessionQueueMode>)
    ensures
        r == queue_mode_named(canonical(value@)),
{
    let word = normalize(value);
    if *word.as_str() == *"followup" {
        Some(SessionQueueMode::Followup)
    } else if *word.as_str() == *"steer" {
        Some(SessionQueueMode::Steer)
    } else if *word.as_str() == *"collect" {
        Some(SessionQueueMode::Collect)
    } else {
        None
    }
}

/// Each policy word is canonical and names the policy it was taken from, so
/// a word that was written out reads back as the same value.
pub proof fn lemma_words_read_back(
    send: SendPolicyOverride,
    group: GroupActivationMode,
    queue: SessionQueueMode,
)
    ensures
        send_policy_named(canonical(send.word())) == Some(send),
        group_activation_named(canonical(group.word())) == Some(group),
        queue_mode_named(canonical(queue.word())) == Some(queue),
{
    reveal_strlit("allow");
    reveal_strlit("deny");
    reveal_strlit("inherit");
    reveal_strlit("mention");
    reveal_strlit("always");
    reveal_strlit("followup");
    reveal_strlit("steer");
    reveal_strlit("collect");
    crate::text::lemma_canonical_fixed(send.word());
    crate::text::lemma_canonical_fixed(group.word());
    crate::text::lemma_canonical_fixed(queue.word());
}

} // verus!
