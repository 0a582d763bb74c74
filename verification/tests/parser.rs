use smtp::SmtpCommand;
use smtp::parse_line;
use smtp::parser::Command;
use smtp::parser::ParseError;
use smtp::parser::parse_command;
use smtp::parser::strip_crlf;

fn assert_syntax_error(line: &[u8], reason: &str) {
    match parse_command(line) {
        Err(ParseError::SyntaxError(m)) => assert_eq!(m, reason),
        other => panic!("expected syntax error {:?}, got {:?}", reason, other),
    }
}

fn assert_mail_from(line: &[u8], addr: &[u8]) {
    match parse_command(line) {
        Ok(Command::MailFrom(a)) => assert_eq!(a, addr.to_vec()),
        other => panic!("expected MAIL FROM {:?}, got {:?}", addr, other),
    }
}

#[test]
fn test_commands() {
    assert!(matches!(parse_command(b"\r"), Err(ParseError::InvalidLineEnding)));
    assert!(matches!(parse_command(b"\n"), Err(ParseError::InvalidLineEnding)));
    assert!(matches!(parse_command(b"\n\r"), Err(ParseError::InvalidLineEnding)));
    assert!(matches!(
        parse_command(b"MAIL FROM:<mneumann@ntecs.de>"),
        Err(ParseError::InvalidLineEnding)
    ));
    assert!(matches!(
        parse_command(b"MAIL FROM:<mneumann@ntecs.de>\r"),
        Err(ParseError::InvalidLineEnding)
    ));
    assert!(matches!(
        parse_command(b"MAIL FROM:<mneumann@ntecs.de>\n"),
        Err(ParseError::InvalidLineEnding)
    ));
    assert!(matches!(
        parse_command(b"MAIL FROM:<mneumann@ntecs.de>\n\r"),
        Err(ParseError::InvalidLineEnding)
    ));

    assert_syntax_error(
        b"MAIL FROM:<mneumann@ntecs.de blah\r\n",
        "Invalid MAIL command: Missing >",
    );

    assert_mail_from(b"MAIL FROM:<mneumann@ntecs.de>\r\n", b"mneumann@ntecs.de");
    assert_mail_from(b"MAIL FROM:mneumann@ntecs.de\r\n", b"mneumann@ntecs.de");

    assert!(matches!(parse_command(b"DATA\r\n"), Ok(Command::Data)));
    assert!(matches!(parse_command(b"data\r\n"), Ok(Command::Data)));
    assert_syntax_error(b"data test\r\n", "Invalid DATA command");
}

#[test]
fn test_parse_commands() {
    assert!(parse_line(b"ehlo mail.ntecs.de\r\n") == SmtpCommand::Ehlo);
    assert!(parse_line(b"helo mail.ntecs.de\r\n") == SmtpCommand::Helo);
    assert!(parse_line(b"DATA\r\n") == SmtpCommand::Data);
}

#[test]
fn parse_line_other_tokens() {
    assert_eq!(parse_line(b"MAIL FROM:<a@b>\r\n"), SmtpCommand::Mail);
    assert_eq!(parse_line(b"rCpT TO:<a@b>\r\n"), SmtpCommand::Rcpt);
    assert_eq!(parse_line(b"NOOP\r\n"), SmtpCommand::Unknown);
    assert_eq!(parse_line(b"HI\r\n"), SmtpCommand::Unknown);
    assert_eq!(parse_line(b""), SmtpCommand::Unknown);
}

#[test]
fn hostname_taken_verbatim() {
    match parse_command(b"HELO mail.ntecs.de\r\n") {
        Ok(Command::Helo(h)) => assert_eq!(h, b"mail.ntecs.de".to_vec()),
        other => panic!("expected HELO, got {:?}", other),
    }
    match parse_command(b"EHLO a\r\n") {
        Ok(Command::Ehlo(h)) => assert_eq!(h, b"a".to_vec()),
        other => panic!("expected EHLO, got {:?}", other),
    }
    // No trimming beyond the one separating space: further bytes, spaces
    // included, belong to the hostname.
    match parse_command(b"HELO  spaced out \r\n") {
        Ok(Command::Helo(h)) => assert_eq!(h, b" spaced out ".to_vec()),
        other => panic!("expected HELO, got {:?}", other),
    }
}

#[test]
fn token_case_variants_agree() {
    for line in [
        b"mail FROM:<x@y>\r\n".as_slice(),
        b"Mail FROM:<x@y>\r\n",
        b"MAIL FROM:<x@y>\r\n",
        b"mAiL FROM:<x@y>\r\n",
    ] {
        match parse_command(line) {
            Ok(Command::MailFrom(a)) => assert_eq!(a, b"x@y".to_vec()),
            other => panic!("expected MAIL FROM, got {:?}", other),
        }
    }
    assert!(matches!(parse_command(b"DaTa\r\n"), Ok(Command::Data)));
    assert!(matches!(parse_command(b"qUiT\r\n"), Ok(Command::Quit)));
}

#[test]
fn keyword_case_insensitive_too() {
    assert_mail_from(b"MAIL from:<x@y>\r\n", b"x@y");
    match parse_command(b"RCPT to:<c@d>\r\n") {
        Ok(Command::RcptTo(a)) => assert_eq!(a, b"c@d".to_vec()),
        other => panic!("expected RCPT TO, got {:?}", other),
    }
}

#[test]
fn rcpt_both_address_forms() {
    match parse_command(b"RCPT TO:<c@d>\r\n") {
        Ok(Command::RcptTo(a)) => assert_eq!(a, b"c@d".to_vec()),
        other => panic!("expected RCPT TO, got {:?}", other),
    }
    match parse_command(b"RCPT TO:c@d\r\n") {
        Ok(Command::RcptTo(a)) => assert_eq!(a, b"c@d".to_vec()),
        other => panic!("expected RCPT TO, got {:?}", other),
    }
}

#[test]
fn quit_parses() {
    assert!(matches!(parse_command(b"QUIT\r\n"), Ok(Command::Quit)));
    assert_syntax_error(b"QUIT now\r\n", "Invalid QUIT command");
}

#[test]
fn missing_separator_errors() {
    assert_syntax_error(b"MAIL\r\n", "Invalid MAIL command: Missing SP");
    assert_syntax_error(b"MAILFROM:<x@y>\r\n", "Invalid MAIL command: Missing SP");
    assert_syntax_error(b"RCPT\r\n", "Invalid RCPT command: Missing SP");
    assert_syntax_error(b"HELO\r\n", "Invalid HELO command: Missing SP");
    assert_syntax_error(b"EHLO\r\n", "Invalid EHLO command: Missing SP");
}

#[test]
fn bad_keyword_errors() {
    assert_syntax_error(b"MAIL TO:<x@y>\r\n", "Invalid MAIL command");
    assert_syntax_error(b"RCPT FROM:<x@y>\r\n", "Invalid RCPT command");
}

#[test]
fn unterminated_bracket_errors() {
    assert_syntax_error(b"MAIL FROM:<x@y\r\n", "Invalid MAIL command: Missing >");
    assert_syntax_error(b"RCPT TO:<c@d\r\n", "Invalid RCPT command: Missing >");
}

#[test]
fn trailing_garbage_errors() {
    assert_syntax_error(b"MAIL FROM:<x@y> z\r\n", "Invalid MAIL command");
    assert_syntax_error(b"MAIL FROM:x@y z\r\n", "Invalid MAIL command");
    assert_syntax_error(b"RCPT TO:<c@d>x\r\n", "Invalid RCPT command");
}

#[test]
fn multiple_spaces_before_keyword_accepted() {
    assert_mail_from(b"MAIL   FROM:<x@y>\r\n", b"x@y");
}

#[test]
fn unknown_commands() {
    assert!(matches!(parse_command(b"NOOP\r\n"), Err(ParseError::UnknownCommand)));
    assert!(matches!(parse_command(b"\r\n"), Err(ParseError::UnknownCommand)));
    assert!(matches!(parse_command(b"HI\r\n"), Err(ParseError::UnknownCommand)));
}

#[test]
fn half_terminators_are_rejected() {
    assert!(matches!(parse_command(b"MAIL FROM:<x>\r"), Err(ParseError::InvalidLineEnding)));
    assert!(matches!(parse_command(b"MAIL FROM:<x>\n"), Err(ParseError::InvalidLineEnding)));
    assert!(matches!(parse_command(b""), Err(ParseError::InvalidLineEnding)));
}

#[test]
fn empty_angle_address_is_accepted() {
    assert_mail_from(b"MAIL FROM:<>\r\n", b"");
}

#[test]
fn strip_crlf_wants_both_bytes() {
    assert_eq!(strip_crlf(b"abc\r\n"), Some(b"abc".as_slice()));
    assert_eq!(strip_crlf(b"\r\n"), Some(b"".as_slice()));
    assert_eq!(strip_crlf(b"abc\n"), None);
    assert_eq!(strip_crlf(b"abc\r"), None);
    assert_eq!(strip_crlf(b"abc\n\r"), None);
    assert_eq!(strip_crlf(b""), None);
}
