use nv_overlay_slint::ipc::{
    classify_request, decode_request, handle_request, ok_reply, pong_reply, read_response,
    reports_running, request_line, IpcCommand, ServerReply,
};

const ALL: [IpcCommand; 5] = [
    IpcCommand::Toggle,
    IpcCommand::Cycle,
    IpcCommand::Settings,
    IpcCommand::Quit,
    IpcCommand::Ping,
];

#[test]
fn as_str_gives_keywords() {
    assert_eq!(IpcCommand::Toggle.as_str(), "TOGGLE");
    assert_eq!(IpcCommand::Cycle.as_str(), "CYCLE");
    assert_eq!(IpcCommand::Settings.as_str(), "SETTINGS");
    assert_eq!(IpcCommand::Quit.as_str(), "QUIT");
    assert_eq!(IpcCommand::Ping.as_str(), "PING");
}

#[test]
fn parse_reads_back_every_keyword() {
    for c in ALL {
        assert_eq!(IpcCommand::parse(c.as_str()), Some(c));
    }
}

#[test]
fn parse_reads_back_lowercase_keywords() {
    for c in ALL {
        assert_eq!(IpcCommand::parse(&c.as_str().to_lowercase()), Some(c));
    }
}

#[test]
fn parse_ignores_case_and_surrounding_space() {
    assert_eq!(IpcCommand::parse("toggle"), Some(IpcCommand::Toggle));
    assert_eq!(IpcCommand::parse("  Cycle\n"), Some(IpcCommand::Cycle));
    assert_eq!(IpcCommand::parse("\tsettings\r\n"), Some(IpcCommand::Settings));
    assert_eq!(IpcCommand::parse("qUiT"), Some(IpcCommand::Quit));
    assert_eq!(IpcCommand::parse("\u{3000}ping\u{00a0}"), Some(IpcCommand::Ping));
}

#[test]
fn parse_uses_unicode_upper_case() {
    // U+0131 (dotless i) upper-cases to 'I', U+017F (long s) to 'S'.
    assert_eq!(IpcCommand::parse("p\u{131}ng"), Some(IpcCommand::Ping));
    assert_eq!(IpcCommand::parse("\u{17f}ettings"), Some(IpcCommand::Settings));
    for s in ["p\u{131}ng", "\u{17f}ettings", "Quit", " cycle "] {
        let expected = match s.trim().to_uppercase().as_str() {
            "TOGGLE" => Some(IpcCommand::Toggle),
            "CYCLE" => Some(IpcCommand::Cycle),
            "SETTINGS" => Some(IpcCommand::Settings),
            "QUIT" => Some(IpcCommand::Quit),
            "PING" => Some(IpcCommand::Ping),
            _ => None,
        };
        assert_eq!(IpcCommand::parse(s), expected);
    }
}

#[test]
fn parse_rejects_other_text() {
    assert_eq!(IpcCommand::parse(""), None);
    assert_eq!(IpcCommand::parse("   "), None);
    assert_eq!(IpcCommand::parse("PONG"), None);
    assert_eq!(IpcCommand::parse("TOGGLE NOW"), None);
    assert_eq!(IpcCommand::parse("TOG GLE"), None);
    assert_eq!(IpcCommand::parse("QUITS"), None);
}

#[test]
fn request_line_is_keyword_and_newline() {
    assert_eq!(request_line(IpcCommand::Toggle), "TOGGLE\n");
    assert_eq!(request_line(IpcCommand::Ping), "PING\n");
    for c in ALL {
        assert_eq!(IpcCommand::parse(&request_line(c)), Some(c));
    }
}

#[test]
fn server_answers_every_request_line() {
    for c in ALL {
        let expected = if c == IpcCommand::Ping {
            ServerReply::Pong
        } else {
            ServerReply::Dispatch(c)
        };
        assert_eq!(classify_request(&request_line(c)), expected);
        assert_eq!(handle_request(request_line(c).as_bytes()), expected);
    }
}

#[test]
fn server_ignores_unknown_requests() {
    assert_eq!(classify_request("HELLO\n"), ServerReply::Ignore);
    assert_eq!(classify_request(""), ServerReply::Ignore);
    assert_eq!(handle_request(&[0xff, 0xfe, 0x50]), ServerReply::Ignore);
}

#[test]
fn decode_request_replaces_invalid_bytes() {
    assert_eq!(decode_request(b"PING\n"), "PING\n");
    assert_eq!(decode_request(&[0x50, 0xff, 0x51]), "P\u{fffd}Q");
}

#[test]
fn replies_are_framed_with_newline() {
    assert_eq!(pong_reply(), "PONG\n");
    assert_eq!(ok_reply("Toggled overlay to false"), "OK: Toggled overlay to false\n");
    assert_eq!(ok_reply(""), "OK: \n");
}

#[test]
fn client_reads_trimmed_responses() {
    assert_eq!(read_response("PONG\n"), "PONG");
    assert_eq!(read_response("  OK: Cycled preset to 2\n"), "OK: Cycled preset to 2");
    assert_eq!(read_response(""), "");
    assert!(reports_running(&read_response(&pong_reply())));
}

#[test]
fn running_daemon_detected_by_pong() {
    assert!(reports_running("PONG\n"));
    assert!(reports_running("xxPONGyy"));
    assert!(!reports_running("PING"));
    assert!(!reports_running("pong"));
    assert!(!reports_running(""));
}
