use session_gateway::text::normalize;

#[test]
fn normalize_trims_and_lowers() {
    assert_eq!(normalize("  Sessions.LIST \n"), "sessions.list");
}

#[test]
fn normalize_keeps_canonical_names() {
    assert_eq!(normalize("session.status"), "session.status");
    assert_eq!(normalize(""), "");
}

#[test]
fn normalize_is_idempotent() {
    for raw in ["  Connect", "AGENT.exec\t", " \u{a0}Foo.Bar\u{3000}", "x  y", "   "] {
        let once = normalize(raw);
        assert_eq!(normalize(&once), once);
    }
}

#[test]
fn normalize_trims_unicode_white_space() {
    assert_eq!(normalize("\u{2003}\u{85}steer\u{2028}\u{1680}"), "steer");
    assert_eq!(normalize("\u{200b}steer"), "\u{200b}steer");
}

#[test]
fn normalize_lowers_ascii_letters_only() {
    assert_eq!(normalize("ÀBC-Z@["), "Àbc-z@[");
    assert_eq!(normalize("a B"), "a b");
}

#[test]
fn normalize_of_white_space_is_empty() {
    assert_eq!(normalize(" \t\r\n\u{b}\u{c}"), "");
}

#[test]
fn normalize_trims_every_white_space_character() {
    let white: Vec<u32> = (0x09..=0x0d)
        .chain([0x20, 0x85, 0xa0, 0x1680])
        .chain(0x2000..=0x200a)
        .chain([0x2028, 0x2029, 0x202f, 0x205f, 0x3000])
        .collect();
    assert_eq!(white.len(), 25);
    for code in white {
        let c = char::from_u32(code).expect("a character");
        assert_eq!(normalize(&format!("{c}x{c}y{c}")), format!("x{c}y"), "{code:#x}");
    }
    for code in [0x08, 0x0e, 0x1c, 0x1f, 0x180e, 0x1fff, 0x200b, 0x2060, 0x3001, 0xfeff] {
        let c = char::from_u32(code).expect("a character");
        assert_eq!(normalize(&format!("{c}x{c}")), format!("{c}x{c}"), "{code:#x}");
    }
}
