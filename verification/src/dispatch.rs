//! The session stage of the RPC dispatch chain: it claims the session
//! methods, validates their parameters and runs them against the session
//! store.
//! Decoding a request's parameters and encoding a payload are the caller's
//! part; this stage works on the decoded values.

use crate::clock::now_ms;
use crate::decision::ActionRequest;
use crate::decision::Decision;
use crate::listing::listing;
use crate::policy::group_activation_from;
use crate::policy::parse_group_activation_mode;
use crate::policy::parse_queue_mode;
use crate::policy::parse_send_policy;
use crate::policy::queue_mode_from;
use crate::policy::send_policy_from;
use crate::session_key::opt_text;
use crate::session_key::ParsedSessionKey;
use crate::sessions::merged;
use crate::sessions::patched;
use crate::sessions::session_or_fresh;
use crate::sessions::recorded;
use crate::sessions::summary_of;
use crate::sessions::session;
use crate::sessions::view_states;
use crate::sessions::SessionPatch;
use crate::sessions::SessionPatchView;
use crate::registry::SessionRegistry;
use crate::sessions::SessionState;
use crate::sessions::SessionSummary;
use crate::sessions::SessionView;
use crate::text::canonical;
use crate::text::normalize;
use crate::text::trimmed;
use vstd::prelude::*;

verus! {

/// The methods this stage claims.
#[derive(Debug, Clone, Copy, PartialEq, Eq, Structural)]
pub enum RpcRoute {
    SessionsList,
    SessionsPatch,
    SessionStatus,
    NotHandled,
}

/// The route of the method with the canonical name `name`.
pub open spec fn route_of(name: Seq<char>) -> RpcRoute {
    if name == "sessions.list"@ {
        RpcRoute::SessionsList
    } else if name == "sessions.patch"@ {
        RpcRoute::SessionsPatch
    } else if name == "session.status"@ || name == "sessions.status"@ {
        RpcRoute::SessionStatus
    } else {
        RpcRoute::NotHandled
    }
}

/// Finds the route of a requested method: its name is canonicalized and
/// matched exactly; a method of another stage is `NotHandled`.
pub fn route(method: &str) -> (r: RpcRoute)
    ensures
        r == route_of(canonical(method@)),
{
    let name = normalize(method);
    if *name.as_str() == *"sessions.list" {
        RpcRoute::SessionsList
    } else if *name.as_str() == *"sessions.patch" {
        RpcRoute::SessionsPatch
    } else if *name.as_str() == *"session.status" || *name.as_str() == *"sessions.status" {
        RpcRoute::SessionStatus
    } else {
        RpcRoute::NotHandled
    }
}

/// The decoded parameters of `sessions.list`.
#[derive(Debug, Clone, Copy, PartialEq, Eq, Structural)]
pub struct SessionsListParams {
    pub limit: Option<usize>,
    pub active_minutes: Option<u64>,
}

/// The decoded parameters of `sessions.patch`, the policy fields still as
/// the words the caller wrote.
#[derive(Debug, Clone, PartialEq, Eq)]
pub struct SessionsPatchParams {
    pub session_key: String,
    pub send_policy: Option<String>,
    pub group_activation: Option<String>,
    pub queue_mode: Option<String>,
}

/// The parameters of `sessions.patch` as a mathematical value.
pub struct PatchParamsView {
    pub session_key: Seq<char>,
    pub send_policy: Option<Seq<char>>,
    pub group_activation: Option<Seq<char>>,
    pub queue_mode: Option<Seq<char>>,
}

impl View for SessionsPatchParams {
    type V = PatchParamsView;

    open spec fn view(&self) -> PatchParamsView {
        PatchParamsView {
            session_key: self.session_key@,
            send_policy: opt_text(self.send_policy),
            group_activation: opt_text(self.group_activation),
            queue_mode: opt_text(self.queue_mode),
        }
    }
}

/// A decoded `sessions.patch` call, with what the key parser made of its
/// session key.
#[derive(Debug, Clone, PartialEq, Eq)]
pub struct PatchCall {
    pub params: SessionsPatchParams,
    pub parsed_key: ParsedSessionKey,
}

/// The decoded parameters of `session.status`.
#[derive(Debug, Clone, PartialEq, Eq)]
pub struct SessionStatusParams {
    pub session_key: Option<String>,
}

/// A request as this stage receives it: routed, and its parameters decoded
/// into the shape of its method, or the decoder's complaint in their place.
#[derive(Debug)]
pub enum RpcCall {
    SessionsList(Result<SessionsListParams, String>),
    SessionsPatch(Result<PatchCall, String>),
    SessionStatus(Result<SessionStatusParams, String>),
    NotHandled,
}

/// What a handled request answers with.
#[derive(Debug, Clone, PartialEq, Eq)]
pub enum RpcPayload {
    /// `{"session": ..}`
    Session(SessionView),
    /// `{"sessions": [..], "count": ..}`
    Sessions { sessions: Vec<SessionView>, count: usize },
    /// `{"summary": ..}`
    Summary(SessionSummary),
}

/// A payload as a mathematical value.
pub enum PayloadView {
    Session(SessionState),
    Sessions { sessions: Seq<SessionState>, count: usize },
    Summary(SessionSummary),
}

impl View for RpcPayload {
    type V = PayloadView;

    open spec fn view(&self) -> PayloadView {
        match self {
            RpcPayload::Session(v) => PayloadView::Session(v@),
            RpcPayload::Sessions { sessions, count } => PayloadView::Sessions {
                sessions: view_states(sessions@),
                count: *count,
            },
            RpcPayload::Summary(s) => PayloadView::Summary(*s),
        }
    }
}

/// How this stage disposed of a request.
#[derive(Debug, Clone, PartialEq, Eq)]
pub enum RpcDispatchOutcome {
    NotHandled,
    Handled(RpcPayload),
    Error { code: i64, message: String, details: Option<RpcPayload> },
}

/// An outcome as a mathematical value.
pub enum OutcomeView {
    NotHandled,
    Handled(PayloadView),
    Error { code: i64, message: Seq<char>, details: Option<PayloadView> },
}

impl View for RpcDispatchOutcome {
    type V = OutcomeView;

    open spec fn view(&self) -> OutcomeView {
        match self {
            RpcDispatchOutcome::NotHandled => OutcomeView::NotHandled,
            RpcDispatchOutcome::Handled(payload) => OutcomeView::Handled(payload@),
            RpcDispatchOutcome::Error { code, message, details } => OutcomeView::Error {
                code: *code,
                message: message@,
                details: match details {
                    Some(payload) => Some(payload@),
                    None => None,
                },
            },
        }
    }
}

/// The outcome for parameters that are malformed or break a rule.
pub open spec fn bad_request_view(message: Seq<char>) -> OutcomeView {
    OutcomeView::Error { code: 400, message, details: None }
}

/// The outcome for a query about something that does not exist.
pub open spec fn not_found_view(message: Seq<char>) -> OutcomeView {
    OutcomeView::Error { code: 404, message, details: None }
}

/// The outcome for parameters that could not be decoded.
pub open spec fn invalid_params_view(detail: Seq<char>) -> OutcomeView {
    bad_request_view("invalid params: "@ + detail)
}

impl RpcDispatchOutcome {
    /// The outcome for parameters that are malformed or break a rule.
    pub fn bad_request(message: &str) -> (r: Self)
        ensures
            r@ == bad_request_view(message@),
    {
        RpcDispatchOutcome::Error { code: 400, message: message.to_owned(), details: None }
    }

    /// The outcome for a query about something that does not exist.
    pub fn not_found(message: &str) -> (r: Self)
        ensures
            r@ == not_found_view(message@),
    {
        RpcDispatchOutcome::Error { code: 404, message: message.to_owned(), details: None }
    }

    /// The outcome for parameters that could not be decoded, with the
    /// decoder's complaint.
    pub fn invalid_params(detail: &str) -> (r: Self)
        ensures
            r@ == invalid_params_view(detail@),
    {
        let message = "invalid params: ".to_owned().concat(detail);
        RpcDispatchOutcome::Error { code: 400, message, details: None }
    }
}

/// The patch that the parameters of `sessions.patch` ask for, or the
/// message of the first rule they break: the session key must not be blank,
/// and each policy word that is supplied must name a value.
pub open spec fn validated_patch(params: PatchParamsView) -> Result<SessionPatchView, Seq<char>> {
    if trimmed(params.session_key).len() == 0 {
        Err("sessionKey is required"@)
    } else if params.send_policy is Some && send_policy_from(params.send_policy) is None {
        Err("sendPolicy must be allow|deny|inherit"@)
    } else if params.group_activation is Some && group_activation_from(params.group_activation)
        is None {
        Err("groupActivation must be mention|always"@)
    } else if params.queue_mode is Some && queue_mode_from(params.queue_mode) is None {
        Err("queueMode must be followup|steer|collect"@)
    } else {
        Ok(
            SessionPatchView {
                session_key: params.session_key,
                send_policy: send_policy_from(params.send_policy),
                group_activation: group_activation_from(params.group_activation),
                queue_mode: queue_mode_from(params.queue_mode),
            },
        )
    }
}

/// Validates the parameters of `sessions.patch` and reads its policy words.
/// Gives the patch to apply, or the message of the first rule broken.
pub fn validate_patch_params(params: SessionsPatchParams) -> (r: Result<SessionPatch, String>)
    ensures
        match validated_patch(params@) {
            Ok(patch) => r is Ok && r->Ok_0@ == patch,
            Err(message) => r is Err && r->Err_0@ == message,
        },
{
    if params.session_key.as_str().trim().is_empty() {
        return Err("sessionKey is required".to_owned());
    }
    let send_policy = match &params.send_policy {
        Some(word) => match parse_send_policy(word.as_str()) {
            Some(value) => Some(value),
            None => {
                return Err("sendPolicy must be allow|deny|inherit".to_owned());
            },
        },
        None => None,
    };
    let group_activation = match &params.group_activation {
        Some(word) => match parse_group_activation_mode(word.as_str()) {
            Some(value) => Some(value),
            None => {
                return Err("groupActivation must be mention|always".to_owned());
            },
        },
        None => None,
    };
    let queue_mode = match &params.queue_mode {
        Some(word) => match parse_queue_mode(word.as_str()) {
            Some(value) => Some(value),
            None => {
                return Err("queueMode must be followup|steer|collect".to_owned());
            },
        },
        None => None,
    };
    Ok(SessionPatch { session_key: params.session_key, send_policy, group_activation, queue_mode })
}

/// What `sessions.list` answers at time `now`.
pub open spec fn list_response(
    sessions: Seq<SessionState>,
    params: Result<SessionsListParams, String>,
    now: u64,
) -> OutcomeView {
    match params {
        Ok(p) => {
            let shown = listing(sessions, p.limit, p.active_minutes, now);
            OutcomeView::Handled(
                PayloadView::Sessions { sessions: shown, count: shown.len() as usize },
            )
        },
        Err(detail) => invalid_params_view(detail@),
    }
}

/// What `session.status` answers at time `now`: the session asked for, a
/// 404 where the store has none under that key, or the totals where no key
/// is given.
pub open spec fn status_response(
    sessions: Seq<SessionState>,
    params: Result<SessionStatusParams, String>,
    now: u64,
) -> OutcomeView {
    match params {
        Ok(p) => match p.session_key {
            Some(key) => match session(sessions, key@) {
                Some(state) => OutcomeView::Handled(PayloadView::Session(state)),
                None => not_found_view("session not found"@),
            },
            None => OutcomeView::Handled(PayloadView::Summary(summary_of(sessions, now))),
        },
        Err(detail) => invalid_params_view(detail@),
    }
}

/// What `sessions.patch` answers at time `now`: the patched session, or a
/// 400 where the parameters could not be decoded or break a rule.
pub open spec fn patch_response(
    sessions: Seq<SessionState>,
    call: Result<PatchCall, String>,
    now: u64,
) -> OutcomeView {
    match call {
        Ok(c) => match validated_patch(c.params@) {
            Ok(patch) => OutcomeView::Handled(
                PayloadView::Session(
                    merged(
                        session_or_fresh(sessions, patch.session_key, c.parsed_key@, now),
                        patch,
                        now,
                    ),
                ),
            ),
            Err(message) => bad_request_view(message),
        },
        Err(detail) => invalid_params_view(detail@),
    }
}

/// The sessions after a `sessions.patch` call at time `now`: patched where
/// the call is valid, untouched where it is not.
pub open spec fn patch_effect(
    sessions: Seq<SessionState>,
    call: Result<PatchCall, String>,
    now: u64,
) -> Seq<SessionState> {
    match call {
        Ok(c) => match validated_patch(c.params@) {
            Ok(patch) => patched(sessions, patch, c.parsed_key@, now),
            Err(_) => sessions,
        },
        Err(_) => sessions,
    }
}

/// What this stage answers to `call` at time `now`.
pub open spec fn response(sessions: Seq<SessionState>, call: RpcCall, now: u64) -> OutcomeView {
    match call {
        RpcCall::SessionsList(params) => list_response(sessions, params, now),
        RpcCall::SessionsPatch(patch_call) => patch_response(sessions, patch_call, now),
        RpcCall::SessionStatus(params) => status_response(sessions, params, now),
        RpcCall::NotHandled => OutcomeView::NotHandled,
    }
}

/// The sessions after this stage has dealt with `call` at time `now`. Only
/// a valid `sessions.patch` changes them.
pub open spec fn effect(sessions: Seq<SessionState>, call: RpcCall, now: u64) -> Seq<
    SessionState,
> {
    match call {
        RpcCall::SessionsPatch(patch_call) => patch_effect(sessions, patch_call, now),
        _ => sessions,
    }
}

/// The session stage of the dispatch chain, with the session store it owns.
pub struct RpcDispatcher {
    sessions: SessionRegistry,
}

impl View for RpcDispatcher {
    type V = Seq<SessionState>;

    closed spec fn view(&self) -> Seq<SessionState> {
        self.sessions@
    }
}

impl RpcDispatcher {
    /// A dispatcher over an empty session store.
    pub fn new() -> (r: Self)
        ensures
            r@ == Seq::<SessionState>::empty(),
    {
        RpcDispatcher { sessions: SessionRegistry::new() }
    }

    /// A dispatcher over the session store it is given.
    pub fn with_sessions(sessions: SessionRegistry) -> (r: Self)
        ensures
            r@ == sessions@,
    {
        RpcDispatcher { sessions }
    }

    /// Deals with `call` at time `now`: runs a session method against the
    /// store and answers with its payload or with an error; leaves a method
    /// of another stage alone.
    pub fn handle_request_at(&mut self, call: RpcCall, now: u64) -> (r: RpcDispatchOutcome)
        ensures
            r@ == response(old(self)@, call, now),
            final(self)@ == effect(old(self)@, call, now),
    {
        match call {
            RpcCall::SessionsList(params) => self.handle_sessions_list_at(params, now),
            RpcCall::SessionsPatch(patch_call) => self.handle_sessions_patch_at(patch_call, now),
            RpcCall::SessionStatus(params) => self.handle_session_status_at(params, now),
            RpcCall::NotHandled => RpcDispatchOutcome::NotHandled,
        }
    }

    /// Deals with `call` at the present time. See `handle_request_at`.
    pub fn handle_request(&mut self, call: RpcCall) -> (r: RpcDispatchOutcome)
        ensures
            exists|now: u64|
                r@ == #[trigger] response(old(self)@, call, now) && final(self)@ == effect(
                    old(self)@,
                    call,
                    now,
                ),
    {
        let now = now_ms();
        self.handle_request_at(call, now)
    }

    /// Feeds a decision of the decision engine to the session store, at the
    /// present time. See `record_decision_at`.
    pub fn record_decision(
        &mut self,
        request: &ActionRequest,
        decision: &Decision,
        parsed: ParsedSessionKey,
    )
        ensures
            exists|now: u64|
                final(self)@ == #[trigger] recorded(old(self)@, request@, *decision, parsed@, now),
    {
        let now = now_ms();
        self.record_decision_at(request, decision, parsed, now);
    }

    /// Feeds a decision of the decision engine to the session store, at time
    /// `now`.
    pub fn record_decision_at(
        &mut self,
        request: &ActionRequest,
        decision: &Decision,
        parsed: ParsedSessionKey,
        now: u64,
    )
        ensures
            final(self)@ == recorded(old(self)@, request@, *decision, parsed@, now),
    {
        self.sessions.record_decision_at(request, decision, parsed, now);
    }

    /// Answers `sessions.list` at time `now`.
    pub fn handle_sessions_list_at(
        &self,
        params: Result<SessionsListParams, String>,
        now: u64,
    ) -> (r: RpcDispatchOutcome)
        ensures
            r@ == list_response(self@, params, now),
    {
        match params {
            Ok(p) => {
                let sessions = self.sessions.list_at(p.limit, p.active_minutes, now);
                let count = sessions.len();
                RpcDispatchOutcome::Handled(RpcPayload::Sessions { sessions, count })
            },
            Err(detail) => RpcDispatchOutcome::invalid_params(detail.as_str()),
        }
    }

    /// Answers `sessions.patch` at time `now`. The parameters are validated
    /// before anything is changed: a call that breaks a rule changes
    /// nothing.
    pub fn handle_sessions_patch_at(&mut self, call: Result<PatchCall, String>, now: u64) -> (r:
        RpcDispatchOutcome)
        ensures
            r@ == patch_response(old(self)@, call, now),
            final(self)@ == patch_effect(old(self)@, call, now),
    {
        match call {
            Ok(c) => match validate_patch_params(c.params) {
                Ok(patch) => {
                    let patched = self.sessions.patch_at(patch, c.parsed_key, now);
                    RpcDispatchOutcome::Handled(RpcPayload::Session(patched))
                },
                Err(message) => RpcDispatchOutcome::bad_request(message.as_str()),
            },
            Err(detail) => RpcDispatchOutcome::invalid_params(detail.as_str()),
        }
    }

    /// Answers `session.status` at time `now`.
    pub fn handle_session_status_at(
        &self,
        params: Result<SessionStatusParams, String>,
        now: u64,
    ) -> (r: RpcDispatchOutcome)
        ensures
            r@ == status_response(self@, params, now),
    {
        match params {
            Ok(p) => match p.session_key {
                Some(key) => match self.sessions.get(key.as_str()) {
                    Some(found) => RpcDispatchOutcome::Handled(RpcPayload::Session(found)),
                    None => RpcDispatchOutcome::not_found("session not found"),
                },
                None => RpcDispatchOutcome::Handled(
                    RpcPayload::Summary(self.sessions.summary_at(now)),
                ),
            },
            Err(detail) => RpcDispatchOutcome::invalid_params(detail.as_str()),
        }
    }
}

impl Default for RpcDispatcher {
    fn default() -> (r: Self)
        ensures
            r@ == Seq::<SessionState>::empty(),
    {
        RpcDispatcher::new()
    }
}

/// A policy word that names no value makes `sessions.patch` answer with a
/// 400 and leave every session as it was.
pub proof fn lemma_bad_word_rejected(sessions: Seq<SessionState>, call: PatchCall, now: u64)
    requires
        ({
            let params = call.params@;
            ||| params.send_policy is Some && send_policy_from(params.send_policy) is None
            ||| params.group_activation is Some && group_activation_from(params.group_activation)
                is None
            ||| params.queue_mode is Some && queue_mode_from(params.queue_mode) is None
        }),
    ensures
        patch_response(sessions, Ok(call), now) is Error,
        patch_response(sessions, Ok(call), now)->code == 400,
        patch_effect(sessions, Ok(call), now) == sessions,
{
}

/// Whatever is answered with an error changed nothing, and every error is
/// a 400 or a 404 without details.
pub proof fn lemma_errors_change_nothing(sessions: Seq<SessionState>, call: RpcCall, now: u64)
    requires
        response(sessions, call, now) is Error,
    ensures
        effect(sessions, call, now) == sessions,
        response(sessions, call, now)->code == 400 || response(sessions, call, now)->code == 404,
        response(sessions, call, now)->details is None,
{
}

/// A method of another stage is left alone, and only the session methods
/// are claimed: the route depends on the canonical name alone.
pub proof fn lemma_route_by_canonical_name(method: Seq<char>)
    ensures
        route_of(canonical(canonical(method))) == route_of(canonical(method)),
{
    crate::text::lemma_canonical_idempotent(method);
}

} // verus!
