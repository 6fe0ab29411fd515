//! Sessions as the store keeps them: the record of a session, its
//! read-only copy, and what a patch or a recorded decision makes of it.

use crate::decision::ActionRequest;
use crate::decision::ActionRequestView;
use crate::decision::Decision;
use crate::decision::DecisionAction;
use crate::policy::GroupActivationMode;
use crate::policy::SendPolicyOverride;
use crate::policy::SessionQueueMode;
use crate::session_key::clone_opt_text;
use crate::session_key::opt_text;
use crate::session_key::ParsedKeyView;
use crate::session_key::ParsedSessionKey;
use crate::session_key::SessionKind;
use vstd::prelude::*;

verus! {

/// The state of one session as a mathematical value. Records and their
/// read-only projections share it as their view.
pub struct SessionState {
    pub key: Seq<char>,
    pub kind: SessionKind,
    pub channel: Option<Seq<char>>,
    pub updated_at_ms: u64,
    pub total_requests: u64,
    pub last_action: Option<DecisionAction>,
    pub last_risk_score: u8,
    pub send_policy: Option<SendPolicyOverride>,
    pub group_activation: Option<GroupActivationMode>,
    pub queue_mode: Option<SessionQueueMode>,
}

/// The stored record of one session.
#[derive(Debug, Clone, PartialEq, Eq)]
pub struct SessionEntry {
    pub key: String,
    pub kind: SessionKind,
    pub channel: Option<String>,
    pub updated_at_ms: u64,
    pub total_requests: u64,
    pub last_action: Option<DecisionAction>,
    pub last_risk_score: u8,
    pub send_policy: Option<SendPolicyOverride>,
    pub group_activation: Option<GroupActivationMode>,
    pub queue_mode: Option<SessionQueueMode>,
}

/// A read-only copy of a session record, handed to callers.
#[derive(Debug, Clone, PartialEq, Eq)]
pub struct SessionView {
    pub key: String,
    pub kind: SessionKind,
    pub channel: Option<String>,
    pub updated_at_ms: u64,
    pub total_requests: u64,
    pub last_action: Option<DecisionAction>,
    pub last_risk_score: u8,
    pub send_policy: Option<SendPolicyOverride>,
    pub group_activation: Option<GroupActivationMode>,
    pub queue_mode: Option<SessionQueueMode>,
}

/// Totals over the whole store, computed on demand.
#[derive(Debug, Clone, Copy, PartialEq, Eq, Structural)]
pub struct SessionSummary {
    pub total_sessions: u64,
    pub total_requests: u64,
    pub updated_at_ms: u64,
}

/// Overrides to set on one session. A field left `None` means no change.
#[derive(Debug, Clone, PartialEq, Eq)]
pub struct SessionPatch {
    pub session_key: String,
    pub send_policy: Option<SendPolicyOverride>,
    pub group_activation: Option<GroupActivationMode>,
    pub queue_mode: Option<SessionQueueMode>,
}

/// A patch as a mathematical value.
pub struct SessionPatchView {
    pub session_key: Seq<char>,
    pub send_policy: Option<SendPolicyOverride>,
    pub group_activation: Option<GroupActivationMode>,
    pub queue_mode: Option<SessionQueueMode>,
}

impl View for SessionEntry {
    type V = SessionState;

    open spec fn view(&self) -> SessionState {
        SessionState {
            key: self.key@,
            kind: self.kind,
            channel: opt_text(self.channel),
            updated_at_ms: self.updated_at_ms,
            total_requests: self.total_requests,
            last_action: self.last_action,
            last_risk_score: self.last_risk_score,
            send_policy: self.send_policy,
            group_activation: self.group_activation,
            queue_mode: self.queue_mode,
        }
    }
}

impl View for SessionView {
    type V = SessionState;

    open spec fn view(&self) -> SessionState {
        SessionState {
            key: self.key@,
            kind: self.kind,
            channel: opt_text(self.channel),
            updated_at_ms: self.updated_at_ms,
            total_requests: self.total_requests,
            last_action: self.last_action,
            last_risk_score: self.last_risk_score,
            send_policy: self.send_policy,
            group_activation: self.group_activation,
            queue_mode: self.queue_mode,
        }
    }
}

impl View for SessionPatch {
    type V = SessionPatchView;

    open spec fn view(&self) -> SessionPatchView {
        SessionPatchView {
            session_key: self.session_key@,
            send_policy: self.send_policy,
            group_activation: self.group_activation,
            queue_mode: self.queue_mode,
        }
    }
}

/// The key under which decisions without a session id are counted.
pub open spec fn global_key() -> Seq<char> {
    "global"@
}

/// The session key that a decision on `request` is counted under.
pub open spec fn decision_key(request: ActionRequestView) -> Seq<char> {
    match request.session_id {
        Some(id) => id,
        None => global_key(),
    }
}

/// The state of a session at its creation.
pub open spec fn fresh(key: Seq<char>, parsed: ParsedKeyView, now: u64) -> SessionState {
    SessionState {
        key,
        kind: parsed.kind,
        channel: parsed.channel,
        updated_at_ms: now,
        total_requests: 0,
        last_action: None,
        last_risk_score: 0,
        send_policy: None,
        group_activation: None,
        queue_mode: None,
    }
}

/// The first of two optional values where it is there, else the second.
pub open spec fn first_of<T>(first: Option<T>, second: Option<T>) -> Option<T> {
    if first is Some {
        first
    } else {
        second
    }
}

/// The state of a session after `patch` was merged into it at time `now`:
/// each override is the one that the patch supplies, or the one the session
/// had where the patch supplies none.
pub open spec fn merged(state: SessionState, patch: SessionPatchView, now: u64) -> SessionState {
    SessionState {
        updated_at_ms: now,
        send_policy: first_of(patch.send_policy, state.send_policy),
        group_activation: first_of(patch.group_activation, state.group_activation),
        queue_mode: first_of(patch.queue_mode, state.queue_mode),
        ..state
    }
}

/// A request counter one higher, staying at `u64::MAX` once it is reached.
pub open spec fn counted(requests: u64) -> u64 {
    if requests < u64::MAX {
        (requests + 1) as u64
    } else {
        requests
    }
}

/// The state of a session after a decision on `request` was recorded in it
/// at time `now`. The channel is set only where the session had none.
pub open spec fn decided(
    state: SessionState,
    request: ActionRequestView,
    decision: Decision,
    now: u64,
) -> SessionState {
    SessionState {
        updated_at_ms: now,
        total_requests: counted(state.total_requests),
        last_action: Some(decision.action),
        last_risk_score: decision.risk_score,
        channel: first_of(state.channel, request.channel),
        ..state
    }
}

/// Whether no two sessions of `sessions` share a key.
pub open spec fn distinct_keys(sessions: Seq<SessionState>) -> bool {
    forall|i: int, j: int|
        0 <= i < j < sessions.len() ==> (#[trigger] sessions[i]).key != (#[trigger] sessions[j]).key
}

/// Whether `sessions` holds a session under `key`.
pub open spec fn has_session(sessions: Seq<SessionState>, key: Seq<char>) -> bool {
    exists|i: int| 0 <= i < sessions.len() && (#[trigger] sessions[i]).key == key
}

/// The place of the session under `key`, where there is one.
pub open spec fn position(sessions: Seq<SessionState>, key: Seq<char>) -> int {
    choose|i: int| 0 <= i < sessions.len() && (#[trigger] sessions[i]).key == key
}

/// The session under `key`, if there is one.
pub open spec fn session(sessions: Seq<SessionState>, key: Seq<char>) -> Option<SessionState> {
    if has_session(sessions, key) {
        Some(sessions[position(sessions, key)])
    } else {
        None
    }
}

/// The session under `key`, or what it is at its creation where it is
/// missing.
pub open spec fn session_or_fresh(
    sessions: Seq<SessionState>,
    key: Seq<char>,
    parsed: ParsedKeyView,
    now: u64,
) -> SessionState {
    match session(sessions, key) {
        Some(state) => state,
        None => fresh(key, parsed, now),
    }
}

/// The sessions after `change` was applied to the one under `key`, which is
/// created from `parsed` at time `now` first where it is missing. A new
/// session comes last.
pub open spec fn upserted(
    sessions: Seq<SessionState>,
    key: Seq<char>,
    parsed: ParsedKeyView,
    now: u64,
    change: spec_fn(SessionState) -> SessionState,
) -> Seq<SessionState> {
    if has_session(sessions, key) {
        let i = position(sessions, key);
        sessions.update(i, change(sessions[i]))
    } else {
        sessions.push(change(fresh(key, parsed, now)))
    }
}

/// The sessions after `patch` was applied at time `now`.
pub open spec fn patched(
    sessions: Seq<SessionState>,
    patch: SessionPatchView,
    parsed: ParsedKeyView,
    now: u64,
) -> Seq<SessionState> {
    upserted(
        sessions,
        patch.session_key,
        parsed,
        now,
        |state: SessionState| merged(state, patch, now),
    )
}

/// The sessions after a decision on `request` was recorded at time `now`.
pub open spec fn recorded(
    sessions: Seq<SessionState>,
    request: ActionRequestView,
    decision: Decision,
    parsed: ParsedKeyView,
    now: u64,
) -> Seq<SessionState> {
    upserted(
        sessions,
        decision_key(request),
        parsed,
        now,
        |state: SessionState| decided(state, request, decision, now),
    )
}

/// The sum of the request counters of `sessions`.
pub open spec fn request_total(sessions: Seq<SessionState>) -> nat
    decreases sessions.len(),
{
    if sessions.len() == 0 {
        0
    } else {
        request_total(sessions.drop_last()) + sessions.last().total_requests as nat
    }
}

/// The view of an optional session view.
pub open spec fn opt_state(view: Option<SessionView>) -> Option<SessionState> {
    match view {
        Some(v) => Some(v@),
        None => None,
    }
}

/// The session key that a decision on `request` is counted under: its
/// session id, or the global key where it has none.
pub fn session_key_for(request: &ActionRequest) -> (r: String)
    ensures
        r@ == decision_key(request@),
{
    match &request.session_id {
        Some(id) => id.clone(),
        None => "global".to_owned(),
    }
}

impl SessionEntry {
    /// The record of a session first seen at `now`, with the kind and
    /// channel that the key parser found.
    pub fn new(session_key: &str, parsed: ParsedSessionKey, now: u64) -> (r: SessionEntry)
        ensures
            r@ == fresh(session_key@, parsed@, now),
    {
        SessionEntry {
            key: session_key.to_owned(),
            kind: parsed.kind,
            channel: parsed.channel,
            updated_at_ms: now,
            total_requests: 0,
            last_action: None,
            last_risk_score: 0,
            send_policy: None,
            group_activation: None,
            queue_mode: None,
        }
    }

    /// A read-only copy of this record.
    pub fn to_view(&self) -> (r: SessionView)
        ensures
            r@ == self@,
    {
        SessionView {
            key: self.key.clone(),
            kind: self.kind,
            channel: clone_opt_text(&self.channel),
            updated_at_ms: self.updated_at_ms,
            total_requests: self.total_requests,
            last_action: self.last_action,
            last_risk_score: self.last_risk_score,
            send_policy: self.send_policy,
            group_activation: self.group_activation,
            queue_mode: self.queue_mode,
        }
    }

    /// This record with `patch` merged into it at time `now`.
    pub fn with_patch(&self, patch: &SessionPatch, now: u64) -> (r: SessionEntry)
        ensures
            r@ == merged(self@, patch@, now),
    {
        SessionEntry {
            key: self.key.clone(),
            kind: self.kind,
            channel: clone_opt_text(&self.channel),
            updated_at_ms: now,
            total_requests: self.total_requests,
            last_action: self.last_action,
            last_risk_score: self.last_risk_score,
            send_policy: if patch.send_policy.is_some() {
                patch.send_policy
            } else {
                self.send_policy
            },
            group_activation: if patch.group_activation.is_some() {
                patch.group_activation
            } else {
                self.group_activation
            },
            queue_mode: if patch.queue_mode.is_some() {
                patch.queue_mode
            } else {
                self.queue_mode
            },
        }
    }

    /// This record with a decision on `request` recorded in it at time `now`.
    pub fn with_decision(&self, request: &ActionRequest, decision: &Decision, now: u64) -> (r:
        SessionEntry)
        ensures
            r@ == decided(self@, request@, *decision, now),
    {
        SessionEntry {
            key: self.key.clone(),
            kind: self.kind,
            channel: if self.channel.is_some() {
                clone_opt_text(&self.channel)
            } else {
                clone_opt_text(&request.channel)
            },
            updated_at_ms: now,
            total_requests: self.total_requests.saturating_add(1),
            last_action: Some(decision.action),
            last_risk_score: decision.risk_score,
            send_policy: self.send_policy,
            group_activation: self.group_activation,
            queue_mode: self.queue_mode,
        }
    }
}

/// The states of a sequence of views.
pub open spec fn view_states(views: Seq<SessionView>) -> Seq<SessionState> {
    views.map_values(|v: SessionView| v@)
}

/// The sum of the request counters, staying at `u64::MAX` where it is more.
pub open spec fn capped_total(sessions: Seq<SessionState>) -> u64 {
    if request_total(sessions) > u64::MAX {
        u64::MAX
    } else {
        request_total(sessions) as u64
    }
}

/// The totals over `sessions` at time `now`.
pub open spec fn summary_of(sessions: Seq<SessionState>, now: u64) -> SessionSummary {
    SessionSummary {
        total_sessions: sessions.len() as u64,
        total_requests: capped_total(sessions),
        updated_at_ms: now,
    }
}

/// Where keys are distinct, the session under a key stands at one place only.
pub proof fn lemma_position(sessions: Seq<SessionState>, key: Seq<char>, i: int)
    requires
        distinct_keys(sessions),
        0 <= i < sessions.len(),
        sessions[i].key == key,
    ensures
        has_session(sessions, key),
        position(sessions, key) == i,
        session(sessions, key) == Some(sessions[i]),
{
    let k = position(sessions, key);
    if k < i {
        assert(sessions[k].key != sessions[i].key);
    }
    if i < k {
        assert(sessions[i].key != sessions[k].key);
    }
}

/// An upsert with a change that keeps the key leaves the keys distinct, and
/// the session under the key is then the changed one.
pub proof fn lemma_upserted(
    sessions: Seq<SessionState>,
    key: Seq<char>,
    parsed: ParsedKeyView,
    now: u64,
    change: spec_fn(SessionState) -> SessionState,
)
    requires
        distinct_keys(sessions),
        forall|state: SessionState| (#[trigger] change(state)).key == state.key,
    ensures
        distinct_keys(upserted(sessions, key, parsed, now, change)),
        session(upserted(sessions, key, parsed, now, change), key) == Some(
            change(session_or_fresh(sessions, key, parsed, now)),
        ),
{
    let after = upserted(sessions, key, parsed, now, change);
    if has_session(sessions, key) {
        let i = position(sessions, key);
        assert forall|a: int, b: int| 0 <= a < b < after.len() implies (
        #[trigger] after[a]).key != (#[trigger] after[b]).key by {
            assert(sessions[a].key != sessions[b].key);
        }
        lemma_position(after, key, i);
    } else {
        let i = sessions.len() as int;
        assert forall|a: int, b: int| 0 <= a < b < after.len() implies (
        #[trigger] after[a]).key != (#[trigger] after[b]).key by {
            if b < i {
                assert(sessions[a].key != sessions[b].key);
            } else {
                assert(sessions[a].key != key);
            }
        }
        lemma_position(after, key, i);
    }
}

/// A patch is a merge: each override takes the supplied value, or keeps the
/// one it had where the patch supplies none; the time of update becomes
/// `now`; nothing else changes.
pub proof fn lemma_patch_is_merge(state: SessionState, patch: SessionPatchView, now: u64)
    ensures
        ({
            let after = merged(state, patch, now);
            &&& patch.send_policy is None ==> after.send_policy == state.send_policy
            &&& patch.send_policy is Some ==> after.send_policy == patch.send_policy
            &&& patch.group_activation is None ==> after.group_activation == state.group_activation
            &&& patch.group_activation is Some ==> after.group_activation == patch.group_activation
            &&& patch.queue_mode is None ==> after.queue_mode == state.queue_mode
            &&& patch.queue_mode is Some ==> after.queue_mode == patch.queue_mode
            &&& after.updated_at_ms == now
            &&& after.key == state.key
            &&& after.kind == state.kind
            &&& after.channel == state.channel
            &&& after.total_requests == state.total_requests
            &&& after.last_action == state.last_action
            &&& after.last_risk_score == state.last_risk_score
        }),
{
}

/// A session that has an override keeps it through every patch that does
/// not supply that override: patching only the queue mode of a stored
/// session leaves its send policy and group activation as they were.
pub proof fn lemma_patch_keeps_overrides(
    sessions: Seq<SessionState>,
    patch: SessionPatchView,
    parsed: ParsedKeyView,
    now: u64,
)
    requires
        distinct_keys(sessions),
        has_session(sessions, patch.session_key),
    ensures
        ({
            let before = session(sessions, patch.session_key)->0;
            let after = session(patched(sessions, patch, parsed, now), patch.session_key)->0;
            &&& session(patched(sessions, patch, parsed, now), patch.session_key) is Some
            &&& patch.send_policy is None ==> after.send_policy == before.send_policy
            &&& patch.group_activation is None ==> after.group_activation
                == before.group_activation
            &&& patch.queue_mode is None ==> after.queue_mode == before.queue_mode
        }),
{
    lemma_upserted(
        sessions,
        patch.session_key,
        parsed,
        now,
        |state: SessionState| merged(state, patch, now),
    );
}

/// Reading after a patch, under the patch's key, gives the session with
/// exactly the patch's effects: the session as it stood, or as it is at its
/// creation, with the patch merged in. The keys stay distinct.
pub proof fn lemma_patch_then_get(
    sessions: Seq<SessionState>,
    patch: SessionPatchView,
    parsed: ParsedKeyView,
    now: u64,
)
    requires
        distinct_keys(sessions),
    ensures
        distinct_keys(patched(sessions, patch, parsed, now)),
        session(patched(sessions, patch, parsed, now), patch.session_key) == Some(
            merged(session_or_fresh(sessions, patch.session_key, parsed, now), patch, now),
        ),
{
    lemma_upserted(
        sessions,
        patch.session_key,
        parsed,
        now,
        |state: SessionState| merged(state, patch, now),
    );
}

/// Reading after a decision was recorded, under the key it was counted
/// under, gives the session with exactly the decision's effects. The keys
/// stay distinct.
pub proof fn lemma_record_then_get(
    sessions: Seq<SessionState>,
    request: ActionRequestView,
    decision: Decision,
    parsed: ParsedKeyView,
    now: u64,
)
    requires
        distinct_keys(sessions),
    ensures
        distinct_keys(recorded(sessions, request, decision, parsed, now)),
        session(recorded(sessions, request, decision, parsed, now), decision_key(request))
            == Some(
            decided(
                session_or_fresh(sessions, decision_key(request), parsed, now),
                request,
                decision,
                now,
            ),
        ),
{
    lemma_upserted(
        sessions,
        decision_key(request),
        parsed,
        now,
        |state: SessionState| decided(state, request, decision, now),
    );
}

/// An upsert leaves every session under another key as it was, and creates
/// no session under another key: a key that was never referenced reads as
/// no session.
pub proof fn lemma_upsert_touches_one_key(
    sessions: Seq<SessionState>,
    key: Seq<char>,
    parsed: ParsedKeyView,
    now: u64,
    change: spec_fn(SessionState) -> SessionState,
    other: Seq<char>,
)
    requires
        distinct_keys(sessions),
        forall|state: SessionState| (#[trigger] change(state)).key == state.key,
        other != key,
    ensures
        session(upserted(sessions, key, parsed, now, change), other) == session(sessions, other),
{
    let after = upserted(sessions, key, parsed, now, change);
    lemma_upserted(sessions, key, parsed, now, change);
    if has_session(sessions, other) {
        let i = position(sessions, other);
        assert(after[i] == sessions[i]);
        lemma_position(after, other, i);
        lemma_position(sessions, other, i);
    } else {
        if has_session(after, other) {
            let j = position(after, other);
            if j < sessions.len() {
                assert(sessions[j].key == other);
            }
        }
    }
}

/// A patch leaves the sessions under other keys as they were.
pub proof fn lemma_patch_touches_one_key(
    sessions: Seq<SessionState>,
    patch: SessionPatchView,
    parsed: ParsedKeyView,
    now: u64,
    other: Seq<char>,
)
    requires
        distinct_keys(sessions),
        other != patch.session_key,
    ensures
        session(patched(sessions, patch, parsed, now), other) == session(sessions, other),
{
    lemma_upsert_touches_one_key(
        sessions,
        patch.session_key,
        parsed,
        now,
        |state: SessionState| merged(state, patch, now),
        other,
    );
}

/// A recorded decision leaves the sessions under other keys as they were.
pub proof fn lemma_record_touches_one_key(
    sessions: Seq<SessionState>,
    request: ActionRequestView,
    decision: Decision,
    parsed: ParsedKeyView,
    now: u64,
    other: Seq<char>,
)
    requires
        distinct_keys(sessions),
        other != decision_key(request),
    ensures
        session(recorded(sessions, request, decision, parsed, now), other) == session(
            sessions,
            other,
        ),
{
    lemma_upsert_touches_one_key(
        sessions,
        decision_key(request),
        parsed,
        now,
        |state: SessionState| decided(state, request, decision, now),
        other,
    );
}

/// An empty store has no session under any key.
pub proof fn lemma_empty_has_none(key: Seq<char>)
    ensures
        session(Seq::<SessionState>::empty(), key) is None,
{
}

/// Replacing one session changes the sum of the request counters by the
/// difference of the two counters.
pub proof fn lemma_total_update(sessions: Seq<SessionState>, i: int, state: SessionState)
    requires
        0 <= i < sessions.len(),
    ensures
        request_total(sessions.update(i, state)) == request_total(sessions)
            - sessions[i].total_requests + state.total_requests,
    decreases sessions.len(),
{
    let after = sessions.update(i, state);
    if i == sessions.len() - 1 {
        assert(after.drop_last() =~= sessions.drop_last());
    } else {
        lemma_total_update(sessions.drop_last(), i, state);
        assert(after.drop_last() =~= sessions.drop_last().update(i, state));
    }
}

/// A new session adds its request counter to the sum.
pub proof fn lemma_total_push(sessions: Seq<SessionState>, state: SessionState)
    ensures
        request_total(sessions.push(state)) == request_total(sessions) + state.total_requests,
{
    assert(sessions.push(state).drop_last() =~= sessions);
}

/// Each recorded decision raises the sum of the request counters by one
/// (by nothing once the session's counter stands at `u64::MAX`), so the
/// sum is the number of decisions recorded.
pub proof fn lemma_record_counts_one(
    sessions: Seq<SessionState>,
    request: ActionRequestView,
    decision: Decision,
    parsed: ParsedKeyView,
    now: u64,
)
    requires
        distinct_keys(sessions),
    ensures
        request_total(recorded(sessions, request, decision, parsed, now)) == request_total(
            sessions,
        ) + if session_or_fresh(sessions, decision_key(request), parsed, now).total_requests
            < u64::MAX {
            1nat
        } else {
            0nat
        },
{
    let key = decision_key(request);
    if has_session(sessions, key) {
        let i = position(sessions, key);
        lemma_total_update(sessions, i, decided(sessions[i], request, decision, now));
    } else {
        lemma_total_push(sessions, decided(fresh(key, parsed, now), request, decision, now));
    }
}

/// A patch leaves the sum of the request counters as it was.
pub proof fn lemma_patch_counts_none(
    sessions: Seq<SessionState>,
    patch: SessionPatchView,
    parsed: ParsedKeyView,
    now: u64,
)
    requires
        distinct_keys(sessions),
    ensures
        request_total(patched(sessions, patch, parsed, now)) == request_total(sessions),
{
    let key = patch.session_key;
    if has_session(sessions, key) {
        let i = position(sessions, key);
        lemma_total_update(sessions, i, merged(sessions[i], patch, now));
    } else {
        lemma_total_push(sessions, merged(fresh(key, parsed, now), patch, now));
    }
}

/// The summary's request total is the sum of the request counters of all
/// sessions, as long as that sum fits in 64 bits.
pub proof fn lemma_summary_total(sessions: Seq<SessionState>, now: u64)
    requires
        request_total(sessions) <= u64::MAX,
    ensures
        summary_of(sessions, now).total_requests == request_total(sessions),
{
}

/// A recorded decision touches neither the key, the kind nor the overrides
/// of a session, and replaces its channel only where it had none.
pub proof fn lemma_decision_keeps_overrides(
    state: SessionState,
    request: ActionRequestView,
    decision: Decision,
    now: u64,
)
    ensures
        ({
            let after = decided(state, request, decision, now);
            &&& after.key == state.key
            &&& after.kind == state.kind
            &&& after.send_policy == state.send_policy
            &&& after.group_activation == state.group_activation
            &&& after.queue_mode == state.queue_mode
            &&& state.channel is Some ==> after.channel == state.channel
            &&& state.channel is None ==> after.channel == request.channel
            &&& after.last_action == Some(decision.action)
            &&& after.last_risk_score == decision.risk_score
            &&& after.updated_at_ms == now
        }),
{
}

/// No change to a session lowers its request counter, and none moves its
/// time of update back unless the clock itself went back.
pub proof fn lemma_sessions_only_advance(
    state: SessionState,
    patch: SessionPatchView,
    request: ActionRequestView,
    decision: Decision,
    now: u64,
)
    ensures
        merged(state, patch, now).total_requests == state.total_requests,
        decided(state, request, decision, now).total_requests >= state.total_requests,
        now >= state.updated_at_ms ==> merged(state, patch, now).updated_at_ms
            >= state.updated_at_ms,
        now >= state.updated_at_ms ==> decided(state, request, decision, now).updated_at_ms
            >= state.updated_at_ms,
{
}

} // verus!
