use mogimail::{reply_wire, Email, LineOutcome, SmtpError, SmtpResponse, SmtpServer, SmtpSession, SmtpState};

fn feed(server: &SmtpServer, session: &mut SmtpSession, line: &str) -> LineOutcome {
    server.handle_line(line, session)
}

fn reply_code(outcome: &LineOutcome) -> String {
    match &outcome.reply {
        Some(Ok(resp)) => resp.code.clone(),
        Some(Err(e)) => e.to_response_code().to_string(),
        None => String::new(),
    }
}

fn open_transaction(server: &SmtpServer, session: &mut SmtpSession) {
    assert_eq!(reply_code(&feed(server, session, "HELO client.local\r\n")), "250");
    assert_eq!(reply_code(&feed(server, session, "MAIL FROM:<sender@example.com>\r\n")), "250");
    assert_eq!(reply_code(&feed(server, session, "RCPT TO:<recipient@example.com>\r\n")), "250");
    assert_eq!(reply_code(&feed(server, session, "DATA\r\n")), "354");
}

#[test]
fn test_server_creation() {
    let server = SmtpServer::new("test.local");
    assert_eq!(server.hostname, "test.local");
}

#[test]
fn end_to_end_scenario_delivers_message() {
    let server = SmtpServer::new("test.local");
    let mut session = SmtpSession::new();
    let mut emails: Vec<Email> = Vec::new();
    let script = [
        ("HELO a.example\r\n", "250"),
        ("MAIL FROM:<s@e.com>\r\n", "250"),
        ("RCPT TO:<r@e.com>\r\n", "250"),
        ("DATA\r\n", "354"),
        ("Subject: X\r\n", ""),
        ("\r\n", ""),
        ("Body\r\n", ""),
        (".\r\n", "250"),
    ];
    for (line, code) in script.iter() {
        let outcome = feed(&server, &mut session, line);
        assert_eq!(reply_code(&outcome), *code, "line {line:?}");
        assert!(!outcome.close);
        if let Some(email) = outcome.email {
            emails.push(email);
        }
    }
    assert_eq!(emails.len(), 1);
    assert_eq!(emails[0].from, "s@e.com");
    assert_eq!(emails[0].to, vec!["r@e.com"]);
    assert_eq!(emails[0].data, "Subject: X\n\nBody");
    assert_eq!(session.state, SmtpState::GreetingReceived);
    assert_eq!(session.client_domain, Some("a.example".to_string()));
}

#[test]
fn full_recipient_list_delivers_one_message() {
    let server = SmtpServer::new("test.local");
    let mut session = SmtpSession::new();
    let mut emails: Vec<Email> = Vec::new();
    let mut lines: Vec<String> = vec!["HELO client.local\n".to_string(), "MAIL FROM:<a@b.c>\n".to_string()];
    for i in 0..100 {
        lines.push(format!("RCPT TO:<user{i}@example.com>\n"));
    }
    lines.push("DATA\n".to_string());
    lines.push("first".to_string() + "\n");
    lines.push("second".to_string() + "\n");
    lines.push(".\n".to_string());
    for line in lines.iter() {
        let outcome = feed(&server, &mut session, line);
        assert!(matches!(outcome.reply, None | Some(Ok(_))), "line {line:?}");
        if let Some(email) = outcome.email {
            emails.push(email);
        }
    }
    assert_eq!(emails.len(), 1);
    assert_eq!(emails[0].from, "a@b.c");
    assert_eq!(emails[0].to.len(), 100);
    assert_eq!(emails[0].to[0], "user0@example.com");
    assert_eq!(emails[0].to[99], "user99@example.com");
    assert_eq!(emails[0].data, "first\nsecond");
}

#[test]
fn hundred_and_first_recipient_is_refused() {
    let server = SmtpServer::new("test.local");
    let mut session = SmtpSession::new();
    feed(&server, &mut session, "HELO client.local\r\n");
    feed(&server, &mut session, "MAIL FROM:<sender@example.com>\r\n");
    for i in 0..100 {
        let line = format!("RCPT TO:<user{i}@example.com>\r\n");
        assert_eq!(reply_code(&feed(&server, &mut session, &line)), "250");
    }
    let outcome = feed(&server, &mut session, "RCPT TO:<extra@example.com>\r\n");
    assert!(matches!(outcome.reply, Some(Err(SmtpError::TooManyRecipients { max: 100 }))));
    assert_eq!(reply_code(&outcome), "552");
    assert_eq!(session.to.len(), 100);
    assert_eq!(session.recipient_count(), 100);
}

#[test]
fn long_data_line_aborts_transaction() {
    let server = SmtpServer::new("test.local");
    let mut session = SmtpSession::new();
    open_transaction(&server, &mut session);
    feed(&server, &mut session, "Subject: long\r\n");
    let long_line = "a".repeat(999) + "\r\n";
    let outcome = feed(&server, &mut session, &long_line);
    assert!(outcome.email.is_none());
    assert!(matches!(outcome.reply, Some(Err(SmtpError::LineTooLong { max: 1000 }))));
    assert_eq!(reply_code(&outcome), "500");
    assert_eq!(session.state, SmtpState::GreetingReceived);
    assert!(!session.in_data_mode);
    assert!(session.from.is_none());
    assert!(session.data.is_empty());
    assert_eq!(session.client_domain, Some("client.local".to_string()));
    // The end marker is now an ordinary (unknown) command.
    let after = feed(&server, &mut session, ".\r\n");
    assert!(after.email.is_none());
    assert_eq!(reply_code(&after), "500");
}

#[test]
fn data_line_at_the_limit_is_accepted() {
    let server = SmtpServer::new("test.local");
    let mut session = SmtpSession::new();
    open_transaction(&server, &mut session);
    let line = "b".repeat(998) + "\r\n";
    let outcome = feed(&server, &mut session, &line);
    assert!(outcome.reply.is_none());
    assert_eq!(session.data_size, 1000);
    let done = feed(&server, &mut session, ".\r\n");
    assert_eq!(done.email.unwrap().data, "b".repeat(998));
}

#[test]
fn too_much_data_aborts_transaction() {
    let server = SmtpServer::new("test.local");
    let mut session = SmtpSession::new();
    open_transaction(&server, &mut session);
    let line = "c".repeat(998) + "\r\n";
    for _ in 0..10485 {
        let outcome = feed(&server, &mut session, &line);
        assert!(outcome.reply.is_none());
    }
    assert_eq!(session.current_data_size(), 10_485_000);
    let outcome = feed(&server, &mut session, &line);
    assert!(outcome.email.is_none());
    assert!(matches!(outcome.reply, Some(Err(SmtpError::TooMuchData { max: 10485760 }))));
    assert_eq!(reply_code(&outcome), "552");
    assert_eq!(session.state, SmtpState::GreetingReceived);
    assert_eq!(session.data_size, 0);
    assert_eq!(session.client_domain, Some("client.local".to_string()));
}

#[test]
fn reset_after_sender_then_new_transaction() {
    let server = SmtpServer::new("test.local");
    let mut session = SmtpSession::new();
    feed(&server, &mut session, "HELO client.local\r\n");
    feed(&server, &mut session, "MAIL FROM:<old@example.com>\r\n");
    let outcome = feed(&server, &mut session, "RSET\r\n");
    assert_eq!(reply_code(&outcome), "250");
    assert!(session.from.is_none());
    assert_eq!(session.client_domain, Some("client.local".to_string()));
    assert_eq!(session.state, SmtpState::GreetingReceived);

    let mut emails: Vec<Email> = Vec::new();
    for line in [
        "MAIL FROM:<new@example.com>\r\n",
        "RCPT TO:<to@example.com>\r\n",
        "DATA\r\n",
        "Hello\r\n",
        ".\r\n",
    ] {
        let outcome = feed(&server, &mut session, line);
        assert!(matches!(outcome.reply, None | Some(Ok(_))));
        if let Some(email) = outcome.email {
            emails.push(email);
        }
    }
    assert_eq!(emails.len(), 1);
    assert_eq!(emails[0].from, "new@example.com");
    assert_eq!(emails[0].to, vec!["to@example.com"]);
    assert_eq!(emails[0].data, "Hello");
}

#[test]
fn out_of_order_commands_are_refused() {
    let server = SmtpServer::new("test.local");
    let mut session = SmtpSession::new();
    let outcome = feed(&server, &mut session, "MAIL FROM:<a@b.c>\r\n");
    assert!(matches!(outcome.reply, Some(Err(SmtpError::InvalidState(_)))));
    assert_eq!(reply_code(&outcome), "503");
    assert_eq!(session.state, SmtpState::Initial);
    assert!(session.from.is_none());

    feed(&server, &mut session, "HELO client.local\r\n");
    let outcome = feed(&server, &mut session, "RCPT TO:<a@b.c>\r\n");
    assert_eq!(reply_code(&outcome), "503");
    assert_eq!(session.state, SmtpState::GreetingReceived);
    assert!(session.to.is_empty());

    feed(&server, &mut session, "MAIL FROM:<a@b.c>\r\n");
    let outcome = feed(&server, &mut session, "DATA\r\n");
    assert_eq!(reply_code(&outcome), "503");
    assert_eq!(session.state, SmtpState::MailReceived);
    assert_eq!(session.from, Some("a@b.c".to_string()));
    assert!(!session.in_data_mode);
}

#[test]
fn quit_closes_and_blank_lines_are_ignored() {
    let server = SmtpServer::new("test.local");
    let mut session = SmtpSession::new();
    let blank = feed(&server, &mut session, "   \r\n");
    assert!(blank.reply.is_none());
    assert!(!blank.close);
    let noop = feed(&server, &mut session, "noop\r\n");
    assert_eq!(reply_code(&noop), "250");
    assert!(!noop.close);
    let quit = feed(&server, &mut session, "QUIT\r\n");
    assert_eq!(reply_code(&quit), "221");
    assert!(quit.close);
}

#[test]
fn unknown_command_and_overlong_command() {
    let server = SmtpServer::new("test.local");
    let mut session = SmtpSession::new();
    let outcome = feed(&server, &mut session, "INVALID\r\n");
    assert!(matches!(outcome.reply, Some(Err(SmtpError::InvalidCommand))));
    let long = "HELO ".to_string() + &"a".repeat(600) + "\r\n";
    let outcome = feed(&server, &mut session, &long);
    assert!(matches!(outcome.reply, Some(Err(SmtpError::LineTooLong { max: 512 }))));
    assert_eq!(session.state, SmtpState::Initial);
}

#[test]
fn reply_wire_of_errors_and_replies() {
    let ok: Result<SmtpResponse, SmtpError> = Ok(SmtpResponse::ok());
    assert_eq!(reply_wire(&ok), "250 OK\r\n");
    let err: Result<SmtpResponse, SmtpError> = Err(SmtpError::TooManyRecipients { max: 100 });
    assert_eq!(reply_wire(&err), "552 Too many recipients (max 100)\r\n");
    let state: Result<SmtpResponse, SmtpError> =
        Err(SmtpError::InvalidState("MAIL command requires HELO first".to_string()));
    assert_eq!(
        reply_wire(&state),
        "503 Bad sequence of commands: MAIL command requires HELO first\r\n"
    );
    let long: Result<SmtpResponse, SmtpError> = Ok(SmtpResponse::new("250", &"x".repeat(600)));
    assert_eq!(reply_wire(&long), "250 Response too long (truncated)\r\n");
}

#[test]
fn reply_at_the_line_limit_is_sent_whole() {
    // 3 + 1 + 506 + 2 = 512 bytes.
    let resp = SmtpResponse::new("250", &"y".repeat(506));
    assert_eq!(resp.to_wire().len(), 512);
    assert_eq!(resp.to_wire(), resp.format());
    let over = SmtpResponse::new("250", &"y".repeat(507));
    assert_eq!(over.to_wire(), "250 Response too long (truncated)\r\n");
}

#[test]
fn data_lines_keep_inner_spaces_and_lf_only_input() {
    let server = SmtpServer::new("test.local");
    let mut session = SmtpSession::new();
    open_transaction(&server, &mut session);
    feed(&server, &mut session, "  indented \n");
    feed(&server, &mut session, " .\n");
    let done = feed(&server, &mut session, ".\n");
    assert_eq!(done.email.unwrap().data, "  indented \n .");
}

#[test]
fn ehlo_greets_with_capabilities() {
    let server = SmtpServer::new("test.local");
    let mut session = SmtpSession::new();
    let outcome = feed(&server, &mut session, "EHLO client.local\r\n");
    match outcome.reply {
        Some(Ok(resp)) => {
            assert_eq!(
                resp.format(),
                "250-test.local Hello client.local\r\n250-PIPELINING\r\n250 SIZE 10240000\r\n"
            );
        }
        _ => panic!("EHLO refused"),
    }
    assert_eq!(session.state, SmtpState::GreetingReceived);
}
