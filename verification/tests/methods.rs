use session_gateway::text::normalize;
use session_gateway::MethodFamily;
use session_gateway::MethodRegistry;

#[test]
fn resolves_known_method() {
    let registry = MethodRegistry::default_registry();
    let resolved = registry.resolve("sessions.patch");
    assert!(resolved.known);
    let spec = resolved.spec.expect("spec");
    assert_eq!(spec.family, MethodFamily::Sessions);
    assert!(spec.requires_auth);
}

#[test]
fn flags_unknown_method() {
    let registry = MethodRegistry::default_registry();
    let resolved = registry.resolve("foo.bar");
    assert!(!resolved.known);
    assert!(resolved.spec.is_none());
}

#[test]
fn every_table_entry_resolves_as_documented() {
    let table = [
        ("connect", MethodFamily::Connect, "client"),
        ("agent.exec", MethodFamily::Agent, "client"),
        ("sessions.patch", MethodFamily::Sessions, "client"),
        ("sessions.list", MethodFamily::Sessions, "client"),
        ("session.status", MethodFamily::Session, "client"),
        ("node.invoke", MethodFamily::Node, "client"),
        ("cron.add", MethodFamily::Cron, "client"),
        ("gateway.restart", MethodFamily::Gateway, "owner"),
        ("message.send", MethodFamily::Message, "client"),
        ("browser.open", MethodFamily::Browser, "client"),
        ("canvas.present", MethodFamily::Canvas, "client"),
        ("pairing.approve", MethodFamily::Pairing, "owner"),
    ];
    let registry = MethodRegistry::default_registry();
    for (name, family, role) in table {
        let resolved = registry.resolve(name);
        assert!(resolved.known, "{name}");
        assert_eq!(resolved.requested, name);
        assert_eq!(resolved.canonical, name);
        let spec = resolved.spec.expect("spec");
        assert_eq!(spec.name, name);
        assert_eq!(spec.family, family);
        assert_eq!(spec.min_role, role);
        assert!(spec.requires_auth);
    }
}

#[test]
fn resolve_canonicalizes_the_request() {
    let registry = MethodRegistry::default_registry();
    let resolved = registry.resolve("  Gateway.RESTART\n");
    assert_eq!(resolved.requested, "  Gateway.RESTART\n");
    assert_eq!(resolved.canonical, "gateway.restart");
    assert!(resolved.known);
    assert_eq!(resolved.spec.expect("spec").min_role, "owner");
}

#[test]
fn resolve_agrees_with_resolve_of_normalized() {
    let registry = MethodRegistry::default_registry();
    for raw in [" Connect ", "cron.ADD", "foo.bar", "  FOO.bar", "", "sessions.status"] {
        let direct = registry.resolve(raw);
        let normalized = registry.resolve(&normalize(raw));
        assert_eq!(direct.canonical, normalized.canonical);
        assert_eq!(direct.known, normalized.known);
        assert_eq!(direct.spec, normalized.spec);
        assert_eq!(normalized.requested, normalize(raw));
    }
    assert_eq!(registry.resolve("connect"), registry.resolve(&normalize("connect")));
}

#[test]
fn unregistered_names_have_no_spec() {
    let registry = MethodRegistry::default_registry();
    for raw in ["", "sessions", "sessions.status", "connect.", "con nect", "pairing.approve!"] {
        let resolved = registry.resolve(raw);
        assert!(!resolved.known, "{raw}");
        assert_eq!(resolved.spec, None);
        assert_eq!(resolved.requested, raw);
    }
}
