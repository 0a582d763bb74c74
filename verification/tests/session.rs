use smtp::parser::Command;
use smtp::parser::parse_command;
use smtp::session::Session;
use smtp::session::SessionOutcome;
use smtp::session::SessionState;
use smtp::session::greeting_line;

fn command(line: &[u8]) -> Command {
    match parse_command(line) {
        Ok(c) => c,
        Err(e) => panic!("line failed to parse: {:?}", e),
    }
}

fn reply_of(outcome: SessionOutcome) -> Vec<u8> {
    match outcome {
        SessionOutcome::Reply(r) => r,
        SessionOutcome::Violation => panic!("expected a reply, got a violation"),
    }
}

#[test]
fn end_to_end_session() {
    let greeting = greeting_line(b"mail.ntecs.de", b"rust-smtp");
    assert_eq!(greeting, b"220 mail.ntecs.de ESMTP rust-smtp\r\n".to_vec());

    let mut s = Session::new();
    assert_eq!(s.state(), SessionState::AwaitGreeting);

    let r = reply_of(s.handle_command(command(b"EHLO a\r\n")));
    assert_eq!(r, b"250 Hello a\r\n".to_vec());
    assert_eq!(s.state(), SessionState::AwaitMailFrom);

    let r = reply_of(s.handle_command(command(b"MAIL FROM:<a@b>\r\n")));
    assert_eq!(r, b"250 Ok\r\n".to_vec());
    assert_eq!(s.state(), SessionState::AwaitRcptTo);

    let r = reply_of(s.handle_command(command(b"RCPT TO:<c@d>\r\n")));
    assert_eq!(r, b"250 Ok\r\n".to_vec());
    assert_eq!(s.state(), SessionState::AwaitRcptTo);

    let r = reply_of(s.handle_command(command(b"DATA\r\n")));
    assert_eq!(r, b"354 End data with <CR><LF>.<CR><LF>\r\n".to_vec());
    assert_eq!(s.state(), SessionState::CollectingData);
    assert!(s.in_data_mode());

    assert_eq!(s.handle_data_line(b"body line one"), None);
    assert_eq!(s.handle_data_line(b"body line two"), None);
    assert_eq!(s.handle_data_line(b".."), None);
    assert_eq!(s.handle_data_line(b"."), Some(b"250 Ok\r\n".to_vec()));
    assert_eq!(s.state(), SessionState::AwaitRcptTo);

    let r = reply_of(s.handle_command(command(b"QUIT\r\n")));
    assert_eq!(r, b"221 Bye\r\n".to_vec());
    assert!(s.is_terminated());
    assert_eq!(s.state(), SessionState::Closed);
}

#[test]
fn session_records_envelope() {
    let mut s = Session::new();
    reply_of(s.handle_command(command(b"HELO client.example\r\n")));
    assert_eq!(s.client_hostname(), &Some(b"client.example".to_vec()));
    reply_of(s.handle_command(command(b"MAIL FROM:<a@b>\r\n")));
    assert_eq!(s.sender(), &Some(b"a@b".to_vec()));
}

#[test]
fn repeated_rcpt_appends_in_order() {
    let mut s = Session::new();
    reply_of(s.handle_command(command(b"EHLO a\r\n")));
    reply_of(s.handle_command(command(b"MAIL FROM:<a@b>\r\n")));
    let r = reply_of(s.handle_command(command(b"RCPT TO:<c@d>\r\n")));
    assert_eq!(r, b"250 Ok\r\n".to_vec());
    let r = reply_of(s.handle_command(command(b"RCPT TO:<e@f>\r\n")));
    assert_eq!(r, b"250 Ok\r\n".to_vec());
    let r = reply_of(s.handle_command(command(b"RCPT TO:c@d\r\n")));
    assert_eq!(r, b"250 Ok\r\n".to_vec());
    assert_eq!(s.state(), SessionState::AwaitRcptTo);
    assert_eq!(
        s.recipients(),
        &vec![b"c@d".to_vec(), b"e@f".to_vec(), b"c@d".to_vec()],
    );
}

#[test]
fn commands_out_of_order_are_violations() {
    let mut s = Session::new();
    assert!(matches!(s.handle_command(command(b"MAIL FROM:<a@b>\r\n")), SessionOutcome::Violation));
    assert!(matches!(s.handle_command(command(b"DATA\r\n")), SessionOutcome::Violation));
    assert_eq!(s.state(), SessionState::AwaitGreeting);

    reply_of(s.handle_command(command(b"EHLO a\r\n")));
    assert!(matches!(s.handle_command(command(b"RCPT TO:<c@d>\r\n")), SessionOutcome::Violation));
    assert!(matches!(s.handle_command(command(b"EHLO b\r\n")), SessionOutcome::Violation));
    assert_eq!(s.state(), SessionState::AwaitMailFrom);
}

#[test]
fn data_needs_a_recipient() {
    let mut s = Session::new();
    reply_of(s.handle_command(command(b"EHLO a\r\n")));
    reply_of(s.handle_command(command(b"MAIL FROM:<a@b>\r\n")));
    assert!(matches!(s.handle_command(command(b"DATA\r\n")), SessionOutcome::Violation));
    assert_eq!(s.state(), SessionState::AwaitRcptTo);

    reply_of(s.handle_command(command(b"RCPT TO:<c@d>\r\n")));
    let r = reply_of(s.handle_command(command(b"DATA\r\n")));
    assert_eq!(r, b"354 End data with <CR><LF>.<CR><LF>\r\n".to_vec());
}

#[test]
fn quit_is_legal_in_every_live_state() {
    let mut s = Session::new();
    let r = reply_of(s.handle_command(command(b"QUIT\r\n")));
    assert_eq!(r, b"221 Bye\r\n".to_vec());
    assert!(s.is_terminated());

    let mut s = Session::new();
    reply_of(s.handle_command(command(b"EHLO a\r\n")));
    let r = reply_of(s.handle_command(command(b"QUIT\r\n")));
    assert_eq!(r, b"221 Bye\r\n".to_vec());

    let mut s = Session::new();
    reply_of(s.handle_command(command(b"EHLO a\r\n")));
    reply_of(s.handle_command(command(b"MAIL FROM:<a@b>\r\n")));
    let r = reply_of(s.handle_command(command(b"QUIT\r\n")));
    assert_eq!(r, b"221 Bye\r\n".to_vec());
}

#[test]
fn invalid_and_unknown_are_violations() {
    let mut s = Session::new();
    assert!(matches!(s.handle_command(Command::Invalid), SessionOutcome::Violation));
    assert!(matches!(s.handle_command(Command::Unknown), SessionOutcome::Violation));
    assert_eq!(s.state(), SessionState::AwaitGreeting);
}

#[test]
fn data_terminator_must_be_exact() {
    let mut s = Session::new();
    reply_of(s.handle_command(command(b"EHLO a\r\n")));
    reply_of(s.handle_command(command(b"MAIL FROM:<a@b>\r\n")));
    reply_of(s.handle_command(command(b"RCPT TO:<c@d>\r\n")));
    reply_of(s.handle_command(command(b"DATA\r\n")));
    assert_eq!(s.handle_data_line(b""), None);
    assert_eq!(s.handle_data_line(b". "), None);
    assert_eq!(s.handle_data_line(b"not.the.end"), None);
    assert!(s.in_data_mode());
    assert_eq!(s.handle_data_line(b"."), Some(b"250 Ok\r\n".to_vec()));
    assert!(!s.in_data_mode());
}
