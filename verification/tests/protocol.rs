use gmail_mcp::protocol::{process_line, mail_reply, RequestAction, SendOutcome};

fn reply_of(a: RequestAction) -> String {
    match a {
        RequestAction::Reply(s) => s,
        _ => panic!("expected a reply"),
    }
}

#[test]
fn initialize_exact_reply() {
    let a = process_line("{\"jsonrpc\":\"2.0\",\"method\":\"initialize\",\"id\":1}");
    let line = reply_of(a);
    assert_eq!(
        line,
        "{\"jsonrpc\":\"2.0\",\"id\":1,\"result\":{\"capabilities\":{\"tools\":{}},\"protocolVersion\":\"0.1.0\",\"serverInfo\":{\"name\":\"gmail-mcp-server\",\"version\":\"0.1.0\"}},\"error\":null}"
    );
}

#[test]
fn initialize_idempotent() {
    let a = reply_of(process_line("{\"jsonrpc\":\"2.0\",\"method\":\"initialize\",\"id\":1}"));
    let b = reply_of(process_line("{\"jsonrpc\":\"2.0\",\"method\":\"initialize\",\"id\":1}"));
    assert_eq!(a, b);
}

#[test]
fn tools_list_exact_reply() {
    let a = process_line("{\"jsonrpc\":\"2.0\",\"method\":\"tools/list\",\"id\":1}");
    let line = reply_of(a);
    assert_eq!(
        line,
        "{\"jsonrpc\":\"2.0\",\"id\":1,\"result\":{\"tools\":[{\"description\":\"Send an email with an optional attachment via Gmail\",\"inputSchema\":{\"properties\":{\"attachment_path\":{\"description\":\"Absolute path to an attachment file (optional)\",\"type\":\"string\"},\"body\":{\"description\":\"Email body content\",\"type\":\"string\"},\"subject\":{\"description\":\"Email subject\",\"type\":\"string\"},\"to\":{\"description\":\"Recipient email address\",\"type\":\"string\"}},\"required\":[\"to\"],\"type\":\"object\"},\"name\":\"send_email\"}]},\"error\":null}"
    );
}

#[test]
fn client_ack_with_id_replies_ok() {
    let a = process_line("{\"jsonrpc\":\"2.0\",\"method\":\"notifications/initialized\",\"id\":9}");
    assert_eq!(
        reply_of(a),
        "{\"jsonrpc\":\"2.0\",\"id\":9,\"result\":\"OK\",\"error\":null}"
    );
}

#[test]
fn notification_emits_nothing() {
    let a = process_line("{\"jsonrpc\":\"2.0\",\"method\":\"initialize\"}");
    assert!(matches!(a, RequestAction::NoReply));
    let b = process_line("{\"jsonrpc\":\"2.0\",\"method\":\"no_such_method\"}");
    assert!(matches!(b, RequestAction::NoReply));
}

#[test]
fn notification_send_gets_no_reply() {
    let a = process_line(
        "{\"jsonrpc\":\"2.0\",\"method\":\"tools/call\",\"params\":{\"name\":\"send_email\",\"arguments\":{\"to\":\"a@b.com\"}}}",
    );
    match a {
        RequestAction::Send(e, id) => {
            assert_eq!(e.to, "a@b.com");
            assert!(id.is_none());
            let r = mail_reply(id, &SendOutcome::Sent(String::from("x1")));
            assert!(r.is_none());
        }
        _ => panic!("expected a planned send"),
    }
}

#[test]
fn unknown_method_is_32601() {
    let a = process_line("{\"jsonrpc\":\"2.0\",\"method\":\"frobnicate\",\"id\":5}");
    assert_eq!(
        reply_of(a),
        "{\"jsonrpc\":\"2.0\",\"id\":5,\"result\":null,\"error\":{\"code\":-32601,\"message\":\"Method not found\",\"data\":null}}"
    );
}

#[test]
fn missing_params_is_32602() {
    let a = process_line("{\"jsonrpc\":\"2.0\",\"method\":\"tools/call\",\"id\":3}");
    assert_eq!(
        reply_of(a),
        "{\"jsonrpc\":\"2.0\",\"id\":3,\"result\":null,\"error\":{\"code\":-32602,\"message\":\"Missing params\",\"data\":null}}"
    );
}

#[test]
fn null_params_count_as_missing() {
    let a = process_line("{\"jsonrpc\":\"2.0\",\"method\":\"tools/call\",\"params\":null,\"id\":3}");
    let line = reply_of(a);
    assert!(line.contains("\"code\":-32602"));
    assert!(line.contains("Missing params"));
}

#[test]
fn unknown_tool_names_the_tool() {
    let a = process_line(
        "{\"jsonrpc\":\"2.0\",\"method\":\"tools/call\",\"params\":{\"name\":\"mow_lawn\"},\"id\":4}",
    );
    assert_eq!(
        reply_of(a),
        "{\"jsonrpc\":\"2.0\",\"id\":4,\"result\":null,\"error\":{\"code\":-32601,\"message\":\"Unknown tool: mow_lawn\",\"data\":null}}"
    );
}

#[test]
fn missing_tool_name_is_32602() {
    let a = process_line(
        "{\"jsonrpc\":\"2.0\",\"method\":\"tools/call\",\"params\":{\"arguments\":{}},\"id\":4}",
    );
    let line = reply_of(a);
    assert!(line.contains("\"code\":-32602"));
    assert!(line.contains("Missing tool name"));
}

#[test]
fn missing_arguments_is_32602() {
    let a = process_line(
        "{\"jsonrpc\":\"2.0\",\"method\":\"tools/call\",\"params\":{\"name\":\"send_email\"},\"id\":4}",
    );
    let line = reply_of(a);
    assert!(line.contains("\"code\":-32602"));
    assert!(line.contains("Missing arguments"));
}

#[test]
fn missing_to_mentions_to() {
    let a = process_line(
        "{\"jsonrpc\":\"2.0\",\"method\":\"tools/call\",\"params\":{\"name\":\"send_email\",\"arguments\":{\"subject\":\"S\"}},\"id\":6}",
    );
    assert_eq!(
        reply_of(a),
        "{\"jsonrpc\":\"2.0\",\"id\":6,\"result\":null,\"error\":{\"code\":-32602,\"message\":\"Missing 'to'\",\"data\":null}}"
    );
}

#[test]
fn absent_subject_and_body_take_defaults() {
    let a = process_line(
        "{\"jsonrpc\":\"2.0\",\"method\":\"tools/call\",\"params\":{\"name\":\"send_email\",\"arguments\":{\"to\":\"a@b.com\"}},\"id\":8}",
    );
    match a {
        RequestAction::Send(e, id) => {
            assert_eq!(e.to, "a@b.com");
            assert_eq!(e.subject, "(No Subject)");
            assert_eq!(e.body, "");
            assert!(e.attachment_path.is_none());
            assert!(id.is_some());
        }
        _ => panic!("expected a planned send"),
    }
}

#[test]
fn send_success_reply_has_confirmation_text() {
    let a = process_line(
        "{\"jsonrpc\":\"2.0\",\"method\":\"tools/call\",\"id\":2,\"params\":{\"name\":\"send_email\",\"arguments\":{\"to\":\"a@b.com\",\"subject\":\"Hi\",\"body\":\"Hello\"}}}",
    );
    match a {
        RequestAction::Send(e, id) => {
            assert_eq!(e.to, "a@b.com");
            assert_eq!(e.subject, "Hi");
            assert_eq!(e.body, "Hello");
            let line = mail_reply(id, &SendOutcome::Sent(String::from("abc123"))).unwrap();
            assert_eq!(
                line,
                "{\"jsonrpc\":\"2.0\",\"id\":2,\"result\":{\"content\":[{\"text\":\"Email sent successfully. Message ID: abc123\",\"type\":\"text\"}]},\"error\":null}"
            );
        }
        _ => panic!("expected a planned send"),
    }
}

#[test]
fn unreadable_attachment_is_32000() {
    let a = process_line(
        "{\"jsonrpc\":\"2.0\",\"method\":\"tools/call\",\"id\":2,\"params\":{\"name\":\"send_email\",\"arguments\":{\"to\":\"a@b.com\",\"attachment_path\":\"/no/such/file.bin\"}}}",
    );
    match a {
        RequestAction::Send(e, id) => {
            assert_eq!(e.attachment_path.as_deref(), Some("/no/such/file.bin"));
            let line = mail_reply(id, &SendOutcome::AttachmentUnreadable).unwrap();
            assert_eq!(
                line,
                "{\"jsonrpc\":\"2.0\",\"id\":2,\"result\":null,\"error\":{\"code\":-32000,\"message\":\"Failed to send email: Failed to read attachment file\",\"data\":null}}"
            );
        }
        _ => panic!("expected a planned send"),
    }
}

#[test]
fn transport_failures_are_32000() {
    let a = process_line(
        "{\"jsonrpc\":\"2.0\",\"method\":\"tools/call\",\"id\":2,\"params\":{\"name\":\"send_email\",\"arguments\":{\"to\":\"a@b.com\"}}}",
    );
    let id1 = match a {
        RequestAction::Send(_, id) => id,
        _ => panic!("expected a planned send"),
    };
    let init = mail_reply(id1, &SendOutcome::InitFailed(String::from(
        "Failed to read client secret file",
    )))
    .unwrap();
    assert!(init.contains("\"code\":-32000"));
    assert!(init.contains("Failed to init Gmail client: Failed to read client secret file"));
    let b = process_line(
        "{\"jsonrpc\":\"2.0\",\"method\":\"tools/call\",\"id\":2,\"params\":{\"name\":\"send_email\",\"arguments\":{\"to\":\"a@b.com\"}}}",
    );
    let id2 = match b {
        RequestAction::Send(_, id) => id,
        _ => panic!("expected a planned send"),
    };
    let send = mail_reply(id2, &SendOutcome::SendFailed(String::from(
        "Failed to send email via Gmail API",
    )))
    .unwrap();
    assert!(send.contains("\"code\":-32000"));
    assert!(send.contains("Failed to send email: Failed to send email via Gmail API"));
}

#[test]
fn malformed_line_then_wellformed_yields_one_reply() {
    let bad = process_line("{this is not json");
    assert!(matches!(bad, RequestAction::Invalid));
    let good = process_line("{\"jsonrpc\":\"2.0\",\"method\":\"initialize\",\"id\":1}");
    assert!(matches!(good, RequestAction::Reply(_)));
}

#[test]
fn blank_and_garbage_lines_emit_nothing() {
    assert!(matches!(process_line(""), RequestAction::Invalid));
    assert!(matches!(process_line("   "), RequestAction::Invalid));
    assert!(matches!(process_line("42 43"), RequestAction::Invalid));
    assert!(matches!(
        process_line("{\"method\":\"initialize\",\"id\":1}"),
        RequestAction::Invalid
    ));
    assert!(matches!(
        process_line("{\"jsonrpc\":\"2.0\",\"method\":\"a\",\"method\":\"b\",\"id\":1}"),
        RequestAction::Invalid
    ));
}

#[test]
fn id_is_echoed_verbatim() {
    let s = reply_of(process_line(
        "{\"jsonrpc\":\"2.0\",\"method\":\"initialize\",\"id\":\"abc\"}",
    ));
    assert!(s.starts_with("{\"jsonrpc\":\"2.0\",\"id\":\"abc\","));
    let n = reply_of(process_line(
        "{\"jsonrpc\":\"2.0\",\"method\":\"initialize\",\"id\":-17}",
    ));
    assert!(n.starts_with("{\"jsonrpc\":\"2.0\",\"id\":-17,"));
}

#[test]
fn result_and_error_are_mutually_exclusive() {
    let ok = reply_of(process_line("{\"jsonrpc\":\"2.0\",\"method\":\"initialize\",\"id\":1}"));
    assert!(ok.contains("\"error\":null"));
    assert!(!ok.contains("\"result\":null"));
    let err = reply_of(process_line("{\"jsonrpc\":\"2.0\",\"method\":\"nope\",\"id\":1}"));
    assert!(err.contains("\"result\":null"));
    assert!(err.contains("\"error\":{"));
}
