use mogimail::{SmtpError, SmtpLimits, SmtpSession, SmtpState};

#[test]
fn test_new_session() {
    let session = SmtpSession::new();
    assert_eq!(session.state, SmtpState::Initial);
    assert!(session.from.is_none());
    assert!(session.to.is_empty());
    assert!(session.data.is_empty());
    assert!(!session.in_data_mode);
    assert_eq!(session.data_size, 0);
    assert!(session.client_domain.is_none());
}

#[test]
fn test_set_client_domain() {
    let mut session = SmtpSession::new();
    session
        .set_client_domain("client.local".to_string())
        .unwrap();

    assert_eq!(session.state, SmtpState::GreetingReceived);
    assert_eq!(session.client_domain, Some("client.local".to_string()));
}

#[test]
fn test_domain_too_long() {
    let mut session = SmtpSession::new();
    let long_domain = "a".repeat(SmtpLimits::DOMAIN_MAX_LENGTH + 1);

    let result = session.set_client_domain(long_domain);
    assert!(matches!(result, Err(SmtpError::DomainTooLong { .. })));
}

#[test]
fn test_set_sender() {
    let mut session = SmtpSession::new();
    session
        .set_client_domain("client.local".to_string())
        .unwrap();

    session
        .set_sender("sender@example.com".to_string())
        .unwrap();
    assert_eq!(session.from, Some("sender@example.com".to_string()));
    assert_eq!(session.state, SmtpState::MailReceived);
}

#[test]
fn test_sender_path_too_long() {
    let mut session = SmtpSession::new();
    let long_path = "a".repeat(SmtpLimits::PATH_MAX_LENGTH + 1);

    let result = session.set_sender(long_path);
    assert!(matches!(result, Err(SmtpError::PathTooLong { .. })));
}

#[test]
fn test_add_recipient() {
    let mut session = SmtpSession::new();
    session
        .set_client_domain("client.local".to_string())
        .unwrap();
    session
        .set_sender("sender@example.com".to_string())
        .unwrap();

    session
        .add_recipient("recipient@example.com".to_string())
        .unwrap();
    assert_eq!(session.to, vec!["recipient@example.com".to_string()]);
    assert_eq!(session.state, SmtpState::RecipientsReceived);
}

#[test]
fn test_too_many_recipients() {
    let mut session = SmtpSession::new();
    session
        .set_client_domain("client.local".to_string())
        .unwrap();
    session
        .set_sender("sender@example.com".to_string())
        .unwrap();

    // Add maximum allowed recipients
    for i in 0..SmtpLimits::MAX_RECIPIENTS {
        session
            .add_recipient(format!("user{i}@example.com"))
            .unwrap();
    }

    // Try to add one more
    let result = session.add_recipient("extra@example.com".to_string());
    assert!(matches!(result, Err(SmtpError::TooManyRecipients { .. })));
}

#[test]
fn test_data_collection() {
    let mut session = SmtpSession::new();
    session
        .set_client_domain("client.local".to_string())
        .unwrap();
    session
        .set_sender("sender@example.com".to_string())
        .unwrap();
    session
        .add_recipient("recipient@example.com".to_string())
        .unwrap();

    session.start_data_mode().unwrap();
    assert!(session.in_data_mode);
    assert_eq!(session.state, SmtpState::DataMode);

    session.add_data_line("Subject: Test".to_string()).unwrap();
    session.add_data_line("".to_string()).unwrap();
    session.add_data_line("Test body".to_string()).unwrap();

    let email = session.finish_data_collection().unwrap();
    assert_eq!(email.from, "sender@example.com");
    assert_eq!(email.to, vec!["recipient@example.com"]);
    assert_eq!(email.data, "Subject: Test\n\nTest body");
    assert!(!session.in_data_mode);
}

#[test]
fn test_line_too_long() {
    let mut session = SmtpSession::new();
    session
        .set_client_domain("client.local".to_string())
        .unwrap();
    session
        .set_sender("sender@example.com".to_string())
        .unwrap();
    session
        .add_recipient("recipient@example.com".to_string())
        .unwrap();
    session.start_data_mode().unwrap();

    let long_line = "a".repeat(SmtpLimits::TEXT_LINE_MAX_LENGTH + 1);
    let result = session.add_data_line(long_line);
    assert!(matches!(result, Err(SmtpError::LineTooLong { .. })));
}

#[test]
fn test_can_execute_command() {
    let mut session = SmtpSession::new();

    // Initial state
    assert!(session.can_execute_command("HELO"));
    assert!(session.can_execute_command("NOOP"));
    assert!(session.can_execute_command("QUIT"));
    assert!(!session.can_execute_command("MAIL"));
    assert!(!session.can_execute_command("RCPT"));
    assert!(!session.can_execute_command("DATA"));
    assert!(!session.can_execute_command("RSET"));

    // After HELO
    session
        .set_client_domain("client.local".to_string())
        .unwrap();
    assert!(session.can_execute_command("MAIL"));
    assert!(session.can_execute_command("RSET"));
    assert!(!session.can_execute_command("RCPT"));
    assert!(!session.can_execute_command("DATA"));

    // After MAIL
    session
        .set_sender("sender@example.com".to_string())
        .unwrap();
    assert!(session.can_execute_command("RCPT"));
    assert!(!session.can_execute_command("DATA"));

    // After RCPT
    session
        .add_recipient("recipient@example.com".to_string())
        .unwrap();
    assert!(session.can_execute_command("DATA"));
    assert!(session.can_execute_command("RCPT")); // Can add more recipients
}

#[test]
fn test_reset() {
    let mut session = SmtpSession::new();
    session
        .set_client_domain("client.local".to_string())
        .unwrap();
    session
        .set_sender("sender@example.com".to_string())
        .unwrap();
    session
        .add_recipient("recipient@example.com".to_string())
        .unwrap();

    session.reset();

    assert_eq!(session.state, SmtpState::GreetingReceived);
    assert!(session.from.is_none());
    assert!(session.to.is_empty());
    assert!(session.data.is_empty());
    assert!(!session.in_data_mode);
    assert_eq!(session.data_size, 0);
    // Should keep client domain
    assert_eq!(session.client_domain, Some("client.local".to_string()));
}

#[test]
fn test_full_reset() {
    let mut session = SmtpSession::new();
    session
        .set_client_domain("client.local".to_string())
        .unwrap();
    session
        .set_sender("sender@example.com".to_string())
        .unwrap();

    session.full_reset();

    assert_eq!(session.state, SmtpState::Initial);
    assert!(session.from.is_none());
    assert!(session.to.is_empty());
    assert!(session.data.is_empty());
    assert!(!session.in_data_mode);
    assert_eq!(session.data_size, 0);
    assert!(session.client_domain.is_none());
}

#[test]
fn test_has_complete_transaction() {
    let mut session = SmtpSession::new();
    assert!(!session.has_complete_transaction());

    session
        .set_client_domain("client.local".to_string())
        .unwrap();
    assert!(!session.has_complete_transaction());

    session
        .set_sender("sender@example.com".to_string())
        .unwrap();
    assert!(!session.has_complete_transaction());

    session
        .add_recipient("recipient@example.com".to_string())
        .unwrap();
    assert!(session.has_complete_transaction());
}

#[test]
fn new_sender_leaves_the_data_phase() {
    let mut session = SmtpSession::new();
    session.set_client_domain("client.local".to_string()).unwrap();
    session.set_sender("a@b.c".to_string()).unwrap();
    session.add_recipient("d@e.f".to_string()).unwrap();
    session.start_data_mode().unwrap();
    session.add_data_line("line".to_string()).unwrap();
    session.set_sender("g@h.i".to_string()).unwrap();
    assert_eq!(session.state, SmtpState::MailReceived);
    assert!(!session.in_data_mode);
    assert!(session.data.is_empty());
    assert_eq!(session.data_size, 0);
}

#[test]
fn finishing_resets_the_transaction() {
    let mut session = SmtpSession::new();
    session.set_client_domain("client.local".to_string()).unwrap();
    session.set_sender("a@b.c".to_string()).unwrap();
    session.add_recipient("d@e.f".to_string()).unwrap();
    session.start_data_mode().unwrap();
    session.add_data_line("x".to_string()).unwrap();
    let email = session.finish_data_collection().unwrap();
    assert_eq!(email.data, "x");
    assert_eq!(session.state, SmtpState::GreetingReceived);
    assert!(session.from.is_none());
    assert!(session.to.is_empty());
    assert_eq!(session.client_domain, Some("client.local".to_string()));
    assert!(matches!(
        session.finish_data_collection(),
        Err(SmtpError::InvalidState(_))
    ));
}
