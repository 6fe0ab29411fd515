use session_gateway::dispatch::validate_patch_params;
use session_gateway::dispatch::route;
use session_gateway::ActionRequest;
use session_gateway::Decision;
use session_gateway::DecisionAction;
use session_gateway::GroupActivationMode;
use session_gateway::ParsedSessionKey;
use session_gateway::PatchCall;
use session_gateway::RpcCall;
use session_gateway::RpcDispatchOutcome;
use session_gateway::RpcDispatcher;
use session_gateway::RpcPayload;
use session_gateway::RpcRoute;
use session_gateway::SendPolicyOverride;
use session_gateway::SessionKind;
use session_gateway::SessionPatch;
use session_gateway::SessionQueueMode;
use session_gateway::SessionRegistry;
use session_gateway::SessionStatusParams;
use session_gateway::SessionSummary;
use session_gateway::SessionsListParams;
use session_gateway::SessionsPatchParams;

fn patch_params(
    key: &str,
    send_policy: Option<&str>,
    group_activation: Option<&str>,
    queue_mode: Option<&str>,
) -> SessionsPatchParams {
    SessionsPatchParams {
        session_key: key.to_owned(),
        send_policy: send_policy.map(str::to_owned),
        group_activation: group_activation.map(str::to_owned),
        queue_mode: queue_mode.map(str::to_owned),
    }
}

fn patch_call(params: SessionsPatchParams) -> RpcCall {
    RpcCall::SessionsPatch(Ok(PatchCall {
        params,
        parsed_key: ParsedSessionKey {
            kind: SessionKind::Group,
            channel: Some("discord".to_owned()),
        },
    }))
}

fn status_call(key: Option<&str>) -> RpcCall {
    RpcCall::SessionStatus(Ok(SessionStatusParams { session_key: key.map(str::to_owned) }))
}

fn list_call(limit: Option<usize>, active_minutes: Option<u64>) -> RpcCall {
    RpcCall::SessionsList(Ok(SessionsListParams { limit, active_minutes }))
}

fn error(code: i64, message: &str) -> RpcDispatchOutcome {
    RpcDispatchOutcome::Error { code, message: message.to_owned(), details: None }
}

#[test]
fn dispatcher_patches_and_lists_sessions() {
    let mut dispatcher = RpcDispatcher::new();
    assert_eq!(route("sessions.patch"), RpcRoute::SessionsPatch);
    let out = dispatcher.handle_request(patch_call(patch_params(
        "agent:main:discord:group:g1",
        Some("deny"),
        Some("mention"),
        Some("steer"),
    )));
    match out {
        RpcDispatchOutcome::Handled(RpcPayload::Session(session)) => {
            assert_eq!(session.key, "agent:main:discord:group:g1");
            assert_eq!(session.send_policy, Some(SendPolicyOverride::Deny));
            assert_eq!(session.send_policy.expect("send policy").name(), "deny");
        }
        _ => panic!("expected handled patch"),
    }

    assert_eq!(route("sessions.list"), RpcRoute::SessionsList);
    let out = dispatcher.handle_request(list_call(Some(10), None));
    match out {
        RpcDispatchOutcome::Handled(RpcPayload::Sessions { sessions, count }) => {
            assert_eq!(sessions[0].key, "agent:main:discord:group:g1");
            assert_eq!(sessions[0].send_policy, Some(SendPolicyOverride::Deny));
            assert_eq!(sessions[0].group_activation, Some(GroupActivationMode::Mention));
            assert_eq!(sessions[0].queue_mode, Some(SessionQueueMode::Steer));
            assert_eq!(count, 1);
        }
        _ => panic!("expected handled list"),
    }
}

#[test]
fn dispatcher_rejects_invalid_patch_params() {
    let mut dispatcher = RpcDispatcher::new();
    let out = dispatcher.handle_request(patch_call(patch_params(
        "agent:main:discord:group:g1",
        None,
        None,
        Some("invalid"),
    )));
    assert!(matches!(out, RpcDispatchOutcome::Error { code: 400, .. }));
    assert_eq!(
        dispatcher.handle_request(status_call(Some("agent:main:discord:group:g1"))),
        error(404, "session not found")
    );
}

#[test]
fn dispatcher_status_returns_not_found_for_unknown_session() {
    let mut dispatcher = RpcDispatcher::new();
    assert_eq!(route("session.status"), RpcRoute::SessionStatus);
    let out = dispatcher.handle_request(status_call(Some("agent:main:discord:group:missing")));
    assert!(matches!(out, RpcDispatchOutcome::Error { code: 404, .. }));
}

#[test]
fn invalid_patch_leaves_an_existing_session_unchanged() {
    let mut dispatcher = RpcDispatcher::new();
    let key = "agent:main:discord:group:g1";
    dispatcher.handle_request_at(
        patch_call(patch_params(key, Some("deny"), Some("always"), None)),
        100,
    );
    let before = dispatcher.handle_request_at(status_call(Some(key)), 150);
    for (send, group, queue, message) in [
        (
            Some("allow"),
            Some("mention"),
            Some("invalid"),
            "queueMode must be followup|steer|collect",
        ),
        (Some("maybe"), None, Some("steer"), "sendPolicy must be allow|deny|inherit"),
        (Some("allow"), Some("sometimes"), Some("bogus"), "groupActivation must be mention|always"),
        (Some(""), Some("nope"), None, "sendPolicy must be allow|deny|inherit"),
    ] {
        let out =
            dispatcher.handle_request_at(patch_call(patch_params(key, send, group, queue)), 200);
        assert_eq!(out, error(400, message));
        assert_eq!(dispatcher.handle_request_at(status_call(Some(key)), 250), before);
    }
    match before {
        RpcDispatchOutcome::Handled(RpcPayload::Session(session)) => {
            assert_eq!(session.updated_at_ms, 100);
            assert_eq!(session.send_policy, Some(SendPolicyOverride::Deny));
            assert_eq!(session.group_activation, Some(GroupActivationMode::Always));
            assert_eq!(session.queue_mode, None);
        }
        _ => panic!("expected the session"),
    }
}

#[test]
fn patch_requires_a_session_key() {
    let mut dispatcher = RpcDispatcher::new();
    for key in ["", "   ", "\t\n", "\u{a0}"] {
        let out = dispatcher
            .handle_request_at(patch_call(patch_params(key, Some("deny"), None, None)), 1);
        assert_eq!(out, error(400, "sessionKey is required"));
    }
    assert_eq!(
        dispatcher.handle_request_at(patch_call(patch_params(" ", Some("bogus"), None, None)), 1),
        error(400, "sessionKey is required")
    );
    assert_eq!(
        dispatcher.handle_request_at(status_call(None), 9),
        RpcDispatchOutcome::Handled(RpcPayload::Summary(SessionSummary {
            total_sessions: 0,
            total_requests: 0,
            updated_at_ms: 9,
        }))
    );
}

#[test]
fn patch_keeps_the_key_as_written() {
    let mut dispatcher = RpcDispatcher::new();
    let out = dispatcher
        .handle_request_at(patch_call(patch_params(" Key ", Some(" DENY "), None, None)), 5);
    match out {
        RpcDispatchOutcome::Handled(RpcPayload::Session(session)) => {
            assert_eq!(session.key, " Key ");
            assert_eq!(session.kind, SessionKind::Group);
            assert_eq!(session.channel.as_deref(), Some("discord"));
            assert_eq!(session.send_policy, Some(SendPolicyOverride::Deny));
            assert_eq!(session.updated_at_ms, 5);
        }
        _ => panic!("expected handled patch"),
    }
    assert_eq!(
        dispatcher.handle_request_at(status_call(Some("Key")), 6),
        error(404, "session not found")
    );
}

#[test]
fn undecodable_params_are_bad_requests() {
    let mut dispatcher = RpcDispatcher::new();
    let detail = "missing field `sessionKey`";
    let expected = error(400, "invalid params: missing field `sessionKey`");
    assert_eq!(
        dispatcher.handle_request_at(RpcCall::SessionsPatch(Err(detail.to_owned())), 1),
        expected
    );
    assert_eq!(
        dispatcher.handle_request_at(RpcCall::SessionsList(Err(detail.to_owned())), 1),
        expected
    );
    assert_eq!(
        dispatcher.handle_request_at(RpcCall::SessionStatus(Err(detail.to_owned())), 1),
        expected
    );
    assert_eq!(RpcDispatchOutcome::invalid_params(""), error(400, "invalid params: "));
    assert_eq!(RpcDispatchOutcome::bad_request("x"), error(400, "x"));
    assert_eq!(RpcDispatchOutcome::not_found("y"), error(404, "y"));
}

#[test]
fn other_methods_are_not_handled() {
    let mut dispatcher = RpcDispatcher::default();
    for method in ["connect", "agent.exec", "sessions", "session.list", "sessions.patch.x", ""] {
        assert_eq!(route(method), RpcRoute::NotHandled, "{method}");
    }
    assert_eq!(dispatcher.handle_request(RpcCall::NotHandled), RpcDispatchOutcome::NotHandled);
    assert_eq!(
        dispatcher.handle_request_at(RpcCall::NotHandled, 3),
        RpcDispatchOutcome::NotHandled
    );
}

#[test]
fn routes_match_the_canonical_name() {
    assert_eq!(route("  Sessions.List "), RpcRoute::SessionsList);
    assert_eq!(route("SESSIONS.PATCH"), RpcRoute::SessionsPatch);
    assert_eq!(route("sessions.status"), RpcRoute::SessionStatus);
    assert_eq!(route("\tSession.Status\n"), RpcRoute::SessionStatus);
}

#[test]
fn status_without_a_key_is_the_summary() {
    let mut dispatcher = RpcDispatcher::new();
    let decision = Decision { action: DecisionAction::Block, risk_score: 200 };
    let parsed = ParsedSessionKey { kind: SessionKind::Main, channel: None };
    for (id, now) in [(Some("a"), 1), (None, 2), (Some("a"), 3)] {
        dispatcher.record_decision_at(
            &ActionRequest { session_id: id.map(str::to_owned), channel: None },
            &decision,
            parsed.clone(),
            now,
        );
    }
    assert_eq!(
        dispatcher.handle_request_at(status_call(None), 500),
        RpcDispatchOutcome::Handled(RpcPayload::Summary(SessionSummary {
            total_sessions: 2,
            total_requests: 3,
            updated_at_ms: 500,
        }))
    );
    match dispatcher.handle_request_at(status_call(Some("global")), 600) {
        RpcDispatchOutcome::Handled(RpcPayload::Session(session)) => {
            assert_eq!(session.total_requests, 1);
            assert_eq!(session.updated_at_ms, 2);
            assert_eq!(session.kind, SessionKind::Main);
            assert_eq!(session.last_action, Some(DecisionAction::Block));
            assert_eq!(session.last_risk_score, 200);
        }
        _ => panic!("expected the global session"),
    }
}

#[test]
fn list_counts_what_it_shows() {
    let mut dispatcher = RpcDispatcher::new();
    for (key, now) in [("a", 10), ("b", 30), ("c", 20)] {
        dispatcher.handle_request_at(patch_call(patch_params(key, None, None, None)), now);
    }
    match dispatcher.handle_request_at(list_call(Some(2), None), 0) {
        RpcDispatchOutcome::Handled(RpcPayload::Sessions { sessions, count }) => {
            assert_eq!(count, 2);
            let keys: Vec<&str> = sessions.iter().map(|s| s.key.as_str()).collect();
            assert_eq!(keys, ["b", "c"]);
        }
        _ => panic!("expected handled list"),
    }
    match dispatcher.handle_request_at(list_call(None, Some(0)), 25) {
        RpcDispatchOutcome::Handled(RpcPayload::Sessions { sessions, count }) => {
            assert_eq!(count, 1);
            assert_eq!(sessions[0].key, "b");
        }
        _ => panic!("expected handled list"),
    }
    match dispatcher.handle_request_at(list_call(Some(0), Some(1)), 1_000_000) {
        RpcDispatchOutcome::Handled(RpcPayload::Sessions { sessions, count }) => {
            assert_eq!(count, 0);
            assert!(sessions.is_empty());
        }
        _ => panic!("expected handled list"),
    }
}

#[test]
fn validate_patch_params_reads_the_words() {
    assert_eq!(
        validate_patch_params(patch_params("k", Some("Inherit"), Some(" always"), Some("COLLECT"))),
        Ok(SessionPatch {
            session_key: "k".to_owned(),
            send_policy: Some(SendPolicyOverride::Inherit),
            group_activation: Some(GroupActivationMode::Always),
            queue_mode: Some(SessionQueueMode::Collect),
        })
    );
    assert_eq!(
        validate_patch_params(patch_params("k", None, None, None)),
        Ok(SessionPatch {
            session_key: "k".to_owned(),
            send_policy: None,
            group_activation: None,
            queue_mode: None,
        })
    );
    assert_eq!(
        validate_patch_params(patch_params("k", None, Some("x"), Some("y"))),
        Err("groupActivation must be mention|always".to_owned())
    );
}

#[test]
fn record_decision_reads_the_clock() {
    let mut dispatcher = RpcDispatcher::new();
    dispatcher.record_decision(
        &ActionRequest { session_id: None, channel: Some("web".to_owned()) },
        &Decision { action: DecisionAction::Allow, risk_score: 7 },
        ParsedSessionKey { kind: SessionKind::Main, channel: None },
    );
    match dispatcher.handle_request(status_call(Some("global"))) {
        RpcDispatchOutcome::Handled(RpcPayload::Session(session)) => {
            assert!(session.updated_at_ms > 1_600_000_000_000);
            assert_eq!(session.channel.as_deref(), Some("web"));
            assert_eq!(session.total_requests, 1);
        }
        _ => panic!("expected the global session"),
    }
}

#[test]
fn dispatcher_serves_the_store_it_is_given() {
    let mut sessions = SessionRegistry::new();
    sessions.patch_at(
        SessionPatch {
            session_key: "kept".to_owned(),
            send_policy: Some(SendPolicyOverride::Allow),
            group_activation: None,
            queue_mode: None,
        },
        ParsedSessionKey { kind: SessionKind::Cron, channel: None },
        11,
    );
    let mut dispatcher = RpcDispatcher::with_sessions(sessions);
    match dispatcher.handle_request_at(status_call(Some("kept")), 12) {
        RpcDispatchOutcome::Handled(RpcPayload::Session(session)) => {
            assert_eq!(session.kind, SessionKind::Cron);
            assert_eq!(session.send_policy, Some(SendPolicyOverride::Allow));
            assert_eq!(session.updated_at_ms, 11);
        }
        _ => panic!("expected the session"),
    }
}
