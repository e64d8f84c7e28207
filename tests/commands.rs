use mogimail::{SmtpCommandHandler, SmtpError, SmtpLimits, SmtpSession};

fn create_handler<'a>() -> SmtpCommandHandler<'a> {
    SmtpCommandHandler::new("test.local")
}

#[test]
fn test_helo_command() {
    let handler = create_handler();
    let mut session = SmtpSession::new();

    let response = handler
        .process_command("HELO client.local", &mut session)
        .unwrap();

    assert_eq!(response.code, "250");
    assert_eq!(response.message, "test.local Hello client.local");
    assert_eq!(session.client_domain, Some("client.local".to_string()));
}

#[test]
fn test_helo_missing_domain() {
    let handler = create_handler();
    let mut session = SmtpSession::new();

    let result = handler.process_command("HELO", &mut session);
    assert!(result.is_err());
}

#[test]
fn test_mail_command() {
    let handler = create_handler();
    let mut session = SmtpSession::new();

    // First HELO
    handler
        .process_command("HELO client.local", &mut session)
        .unwrap();

    // Then MAIL
    let response = handler
        .process_command("MAIL FROM:<sender@example.com>", &mut session)
        .unwrap();

    assert_eq!(response.code, "250");
    assert_eq!(session.from, Some("sender@example.com".to_string()));
}

#[test]
fn test_mail_without_helo() {
    let handler = create_handler();
    let mut session = SmtpSession::new();

    let result = handler.process_command("MAIL FROM:<sender@example.com>", &mut session);
    assert!(result.is_err());
}

#[test]
fn test_mail_invalid_syntax() {
    let handler = create_handler();
    let mut session = SmtpSession::new();

    handler
        .process_command("HELO client.local", &mut session)
        .unwrap();

    let result = handler.process_command("MAIL sender@example.com", &mut session);
    assert!(result.is_err());
}

#[test]
fn test_rcpt_command() {
    let handler = create_handler();
    let mut session = SmtpSession::new();

    // Setup session
    handler
        .process_command("HELO client.local", &mut session)
        .unwrap();
    handler
        .process_command("MAIL FROM:<sender@example.com>", &mut session)
        .unwrap();

    // RCPT command
    let response = handler
        .process_command("RCPT TO:<recipient@example.com>", &mut session)
        .unwrap();

    assert_eq!(response.code, "250");
    assert_eq!(session.to, vec!["recipient@example.com".to_string()]);
}

#[test]
fn test_rcpt_without_mail() {
    let handler = create_handler();
    let mut session = SmtpSession::new();

    handler
        .process_command("HELO client.local", &mut session)
        .unwrap();

    let result = handler.process_command("RCPT TO:<recipient@example.com>", &mut session);
    assert!(result.is_err());
}

#[test]
fn test_data_command() {
    let handler = create_handler();
    let mut session = SmtpSession::new();

    // Setup session
    handler
        .process_command("HELO client.local", &mut session)
        .unwrap();
    handler
        .process_command("MAIL FROM:<sender@example.com>", &mut session)
        .unwrap();
    handler
        .process_command("RCPT TO:<recipient@example.com>", &mut session)
        .unwrap();

    // DATA command
    let response = handler.process_command("DATA", &mut session).unwrap();

    assert_eq!(response.code, "354");
    assert!(session.in_data_mode);
}

#[test]
fn test_data_without_rcpt() {
    let handler = create_handler();
    let mut session = SmtpSession::new();

    handler
        .process_command("HELO client.local", &mut session)
        .unwrap();
    handler
        .process_command("MAIL FROM:<sender@example.com>", &mut session)
        .unwrap();

    let result = handler.process_command("DATA", &mut session);
    assert!(result.is_err());
}

#[test]
fn commands_test_rset_command() {
    let handler = create_handler();
    let mut session = SmtpSession::new();

    // Setup session with transaction
    handler
        .process_command("HELO client.local", &mut session)
        .unwrap();
    handler
        .process_command("MAIL FROM:<sender@example.com>", &mut session)
        .unwrap();
    handler
        .process_command("RCPT TO:<recipient@example.com>", &mut session)
        .unwrap();

    // RSET should clear transaction
    let response = handler.process_command("RSET", &mut session).unwrap();

    assert_eq!(response.code, "250");
    assert!(session.from.is_none());
    assert!(session.to.is_empty());
}

#[test]
fn test_noop_command() {
    let handler = create_handler();
    let mut session = SmtpSession::new();

    let response = handler.process_command("NOOP", &mut session).unwrap();
    assert_eq!(response.code, "250");
}

#[test]
fn test_quit_command() {
    let handler = create_handler();
    let mut session = SmtpSession::new();

    let response = handler.process_command("QUIT", &mut session).unwrap();
    assert_eq!(response.code, "221");
}

#[test]
fn test_invalid_command() {
    let handler = create_handler();
    let mut session = SmtpSession::new();

    let result = handler.process_command("INVALID", &mut session);
    assert!(result.is_err());
}

#[test]
fn test_command_line_too_long() {
    let handler = create_handler();
    let mut session = SmtpSession::new();

    let long_command = "HELO ".to_string() + &"a".repeat(SmtpLimits::COMMAND_LINE_MAX_LENGTH);
    let result = handler.process_command(&long_command, &mut session);
    assert!(matches!(result, Err(SmtpError::LineTooLong { .. })));
}

#[test]
fn test_validate_email_address() {
    let handler = create_handler();

    // Valid addresses
    assert!(handler.validate_email_address("user@example.com").is_ok());
    assert!(handler.validate_email_address("test@test.local").is_ok());

    // Invalid addresses
    assert!(handler.validate_email_address("invalid").is_err());
    assert!(handler.validate_email_address("@example.com").is_err());
    assert!(handler.validate_email_address("user@").is_err());

    // Too long user part
    let long_user = "a".repeat(SmtpLimits::USER_MAX_LENGTH + 1) + "@example.com";
    assert!(matches!(
        handler.validate_email_address(&long_user),
        Err(SmtpError::UserTooLong { .. })
    ));

    // Too long domain part
    let long_domain = "user@".to_string() + &"a".repeat(SmtpLimits::DOMAIN_MAX_LENGTH + 1);
    assert!(matches!(
        handler.validate_email_address(&long_domain),
        Err(SmtpError::DomainTooLong { .. })
    ));
}

#[test]
fn test_empty_email_addresses() {
    let handler = create_handler();
    let mut session = SmtpSession::new();

    handler
        .process_command("HELO client.local", &mut session)
        .unwrap();

    // Empty FROM address
    let result = handler.process_command("MAIL FROM:<>", &mut session);
    assert!(result.is_err());

    // Empty TO address
    session
        .set_sender("sender@example.com".to_string())
        .unwrap();
    let result = handler.process_command("RCPT TO:<>", &mut session);
    assert!(result.is_err());
}

#[test]
fn address_with_two_at_signs_is_refused() {
    let handler = create_handler();
    assert!(matches!(
        handler.validate_email_address("a@b@c"),
        Err(SmtpError::InvalidSyntax(_))
    ));
}

#[test]
fn verbs_and_keywords_ignore_letter_case() {
    let handler = create_handler();
    let mut session = SmtpSession::new();
    handler.process_command("helo client.local", &mut session).unwrap();
    handler.process_command("mail from: <a@b.c>", &mut session).unwrap();
    assert_eq!(session.from, Some("a@b.c".to_string()));
    handler.process_command("Rcpt To:<d@e.f>", &mut session).unwrap();
    assert_eq!(session.to, vec!["d@e.f".to_string()]);
}

#[test]
fn path_errors_name_the_fault() {
    let handler = create_handler();
    let mut session = SmtpSession::new();
    handler.process_command("HELO client.local", &mut session).unwrap();
    let e = handler.process_command("MAIL FROM:a@b.c", &mut session).unwrap_err();
    assert_eq!(e.to_response_message(), "Syntax error: FROM address must be enclosed in angle brackets");
    let e = handler.process_command("MAIL TO:<a@b.c>", &mut session).unwrap_err();
    assert_eq!(e.to_response_message(), "Syntax error: MAIL command must be 'MAIL FROM:<address>'");
    let e = handler.process_command("MAIL FROM:<>", &mut session).unwrap_err();
    assert_eq!(e.to_response_message(), "Syntax error: FROM address cannot be empty");
    let e = handler.process_command("MAIL FROM:<ab.c>", &mut session).unwrap_err();
    assert_eq!(e.to_response_message(), "Syntax error: Email address must contain @ symbol");
    let e = handler.process_command("DATA now", &mut session).unwrap_err();
    assert!(matches!(e, SmtpError::InvalidState(_)));
    assert_eq!(session.state, mogimail::SmtpState::GreetingReceived);
}

#[test]
fn greeting_takes_exactly_one_domain() {
    let handler = create_handler();
    let mut session = SmtpSession::new();
    let e = handler.process_command("HELO a.example b.example", &mut session).unwrap_err();
    assert_eq!(e.to_response_code(), "501");
    assert_eq!(e.to_response_message(), "Syntax error: HELO takes exactly one domain argument");
    assert_eq!(session.state, mogimail::SmtpState::Initial);
    let long = "HELO ".to_string() + &"d".repeat(65);
    assert!(matches!(
        handler.process_command(&long, &mut session),
        Err(SmtpError::DomainTooLong { max: 64 })
    ));
    assert!(session.client_domain.is_none());
}

#[test]
fn nested_angle_brackets_are_refused() {
    let handler = create_handler();
    let mut session = SmtpSession::new();
    handler.process_command("HELO client.local", &mut session).unwrap();
    for line in ["MAIL FROM:<<a@b.c>>", "MAIL FROM:<a@b.c>>", "MAIL FROM:<<a@b.c>"] {
        let e = handler.process_command(line, &mut session).unwrap_err();
        assert_eq!(e.to_response_code(), "501");
        assert_eq!(
            e.to_response_message(),
            "Syntax error: FROM address must be enclosed in angle brackets"
        );
        assert!(session.from.is_none());
        assert_eq!(session.state, mogimail::SmtpState::GreetingReceived);
    }
    handler.process_command("MAIL FROM:<a@b.c>", &mut session).unwrap();
    for line in ["RCPT TO:<<d@e.f>>", "RCPT TO:<d@e.f>>", "RCPT TO:<d<@e.f>"] {
        let e = handler.process_command(line, &mut session).unwrap_err();
        assert_eq!(e.to_response_code(), "501");
        assert_eq!(
            e.to_response_message(),
            "Syntax error: TO address must be enclosed in angle brackets"
        );
        assert!(session.to.is_empty());
        assert_eq!(session.state, mogimail::SmtpState::MailReceived);
    }
}
