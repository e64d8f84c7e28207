//! Failure kinds of the protocol engine and their fixed reply mapping.

use vstd::prelude::*;

verus! {

/// Declares `std::io::Error` so that the transport-failure kind can carry it.
#[verifier::external_type_specification]
#[verifier::external_body]
pub struct ExIoError(std::io::Error);

/// Every way a command or a data line can be refused.
#[derive(Debug)]
pub enum SmtpError {
    Io(std::io::Error),
    InvalidCommand,
    InvalidState(String),
    InvalidSyntax(String),
    LineTooLong { max: usize },
    PathTooLong { max: usize },
    TooManyRecipients { max: usize },
    TooMuchData { max: usize },
    DomainTooLong { max: usize },
    UserTooLong { max: usize },
    NonUtf8Data,
    ConnectionClosed,
    ProtocolViolation,
}

/// Size limits of the protocol.
pub struct SmtpLimits;

impl SmtpLimits {
    /// Maximum length of a user name (local part), in bytes.
    pub const USER_MAX_LENGTH: usize = 64;

    /// Maximum length of a domain name, in bytes.
    pub const DOMAIN_MAX_LENGTH: usize = 64;

    /// Maximum length of a reverse or forward path, in bytes.
    pub const PATH_MAX_LENGTH: usize = 256;

    /// Maximum length of a command line, in bytes.
    pub const COMMAND_LINE_MAX_LENGTH: usize = 512;

    /// Maximum length of a reply line including its line terminator, in bytes.
    pub const REPLY_LINE_MAX_LENGTH: usize = 512;

    /// Maximum length of a text line including its line terminator, in bytes.
    pub const TEXT_LINE_MAX_LENGTH: usize = 1000;

    /// Maximum number of recipients of one message.
    pub const MAX_RECIPIENTS: usize = 100;

    /// Maximum total size of the data of one message, in bytes.
    pub const MAX_DATA_SIZE: usize = 10 * 1024 * 1024;
}

/// The character of a decimal digit.
pub open spec fn digit_char(d: nat) -> char {
    if d == 0 { '0' }
    else if d == 1 { '1' }
    else if d == 2 { '2' }
    else if d == 3 { '3' }
    else if d == 4 { '4' }
    else if d == 5 { '5' }
    else if d == 6 { '6' }
    else if d == 7 { '7' }
    else if d == 8 { '8' }
    else { '9' }
}

/// The decimal notation of `n`, without leading zeros.
pub open spec fn decimal(n: nat) -> Seq<char>
    decreases n,
{
    if n < 10 {
        seq![digit_char(n)]
    } else {
        decimal(n / 10).push(digit_char(n % 10))
    }
}

/// The status code that a failure kind is reported with.
pub open spec fn error_code(e: SmtpError) -> Seq<char> {
    match e {
        SmtpError::Io(_) => "421"@,
        SmtpError::InvalidCommand => "500"@,
        SmtpError::InvalidState(_) => "503"@,
        SmtpError::InvalidSyntax(_) => "501"@,
        SmtpError::LineTooLong { .. } => "500"@,
        SmtpError::PathTooLong { .. } => "501"@,
        SmtpError::TooManyRecipients { .. } => "552"@,
        SmtpError::TooMuchData { .. } => "552"@,
        SmtpError::DomainTooLong { .. } => "501"@,
        SmtpError::UserTooLong { .. } => "501"@,
        SmtpError::NonUtf8Data => "500"@,
        SmtpError::ConnectionClosed => "421"@,
        SmtpError::ProtocolViolation => "500"@,
    }
}

/// The reply text that a failure kind is reported with.
pub open spec fn error_message(e: SmtpError) -> Seq<char> {
    match e {
        SmtpError::Io(_) => "Service not available"@,
        SmtpError::InvalidCommand => "Syntax error, command unrecognized"@,
        SmtpError::InvalidState(msg) => "Bad sequence of commands: "@ + msg@,
        SmtpError::InvalidSyntax(msg) => "Syntax error: "@ + msg@,
        SmtpError::LineTooLong { max } => "Line too long (max "@ + decimal(max as nat)
            + " characters)"@,
        SmtpError::PathTooLong { max } => "Path too long (max "@ + decimal(max as nat)
            + " characters)"@,
        SmtpError::TooManyRecipients { max } => "Too many recipients (max "@ + decimal(
            max as nat,
        ) + ")"@,
        SmtpError::TooMuchData { max } => "Too much mail data (max "@ + decimal(max as nat)
            + " bytes)"@,
        SmtpError::DomainTooLong { max } => "Domain name too long (max "@ + decimal(max as nat)
            + " characters)"@,
        SmtpError::UserTooLong { max } => "User name too long (max "@ + decimal(max as nat)
            + " characters)"@,
        SmtpError::NonUtf8Data => "Invalid character encoding"@,
        SmtpError::ConnectionClosed => "Connection closed"@,
        SmtpError::ProtocolViolation => "Protocol violation"@,
    }
}

/// The one-character string of a decimal digit.
fn digit_str(d: usize) -> (r: &'static str)
    requires
        d < 10,
    ensures
        r@ == seq![digit_char(d as nat)],
{
    proof {
        reveal_strlit("0");
        reveal_strlit("1");
        reveal_strlit("2");
        reveal_strlit("3");
        reveal_strlit("4");
        reveal_strlit("5");
        reveal_strlit("6");
        reveal_strlit("7");
        reveal_strlit("8");
        reveal_strlit("9");
    }
    match d {
        0 => "0",
        1 => "1",
        2 => "2",
        3 => "3",
        4 => "4",
        5 => "5",
        6 => "6",
        7 => "7",
        8 => "8",
        _ => "9",
    }
}

/// Appends the decimal notation of `n` to `out`.
fn push_decimal(out: &mut String, n: usize)
    ensures
        final(out)@ == old(out)@ + decimal(n as nat),
    decreases n,
{
    if n >= 10 {
        push_decimal(out, n / 10);
    }
    out.append(digit_str(n % 10));
}

/// `prefix`, then the decimal notation of `n`, then `suffix`.
fn text_with_number(prefix: &str, n: usize, suffix: &str) -> (r: String)
    ensures
        r@ == prefix@ + decimal(n as nat) + suffix@,
{
    let mut out = String::from_str(prefix);
    push_decimal(&mut out, n);
    out.append(suffix);
    out
}

/// `prefix` followed by `rest`.
fn text_concat(prefix: &str, rest: &str) -> (r: String)
    ensures
        r@ == prefix@ + rest@,
{
    let mut out = String::from_str(prefix);
    out.append(rest);
    out
}

impl SmtpError {
    /// The status code this failure is reported with.
    pub fn to_response_code(&self) -> (r: &'static str)
        ensures
            r@ == error_code(*self),
    {
        match self {
            SmtpError::Io(_) => "421",
            SmtpError::InvalidCommand => "500",
            SmtpError::InvalidState(_) => "503",
            SmtpError::InvalidSyntax(_) => "501",
            SmtpError::LineTooLong { .. } => "500",
            SmtpError::PathTooLong { .. } => "501",
            SmtpError::TooManyRecipients { .. } => "552",
            SmtpError::TooMuchData { .. } => "552",
            SmtpError::DomainTooLong { .. } => "501",
            SmtpError::UserTooLong { .. } => "501",
            SmtpError::NonUtf8Data => "500",
            SmtpError::ConnectionClosed => "421",
            SmtpError::ProtocolViolation => "500",
        }
    }

    /// The reply text this failure is reported with.
    pub fn to_response_message(&self) -> (r: String)
        ensures
            r@ == error_message(*self),
    {
        match self {
            SmtpError::Io(_) => String::from_str("Service not available"),
            SmtpError::InvalidCommand => String::from_str("Syntax error, command unrecognized"),
            SmtpError::InvalidState(msg) => text_concat("Bad sequence of commands: ", msg.as_str()),
            SmtpError::InvalidSyntax(msg) => text_concat("Syntax error: ", msg.as_str()),
            SmtpError::LineTooLong { max } => text_with_number(
                "Line too long (max ",
                *max,
                " characters)",
            ),
            SmtpError::PathTooLong { max } => text_with_number(
                "Path too long (max ",
                *max,
                " characters)",
            ),
            SmtpError::TooManyRecipients { max } => text_with_number(
                "Too many recipients (max ",
                *max,
                ")",
            ),
            SmtpError::TooMuchData { max } => text_with_number(
                "Too much mail data (max ",
                *max,
                " bytes)",
            ),
            SmtpError::DomainTooLong { max } => text_with_number(
                "Domain name too long (max ",
                *max,
                " characters)",
            ),
            SmtpError::UserTooLong { max } => text_with_number(
                "User name too long (max ",
                *max,
                " characters)",
            ),
            SmtpError::NonUtf8Data => String::from_str("Invalid character encoding"),
            SmtpError::ConnectionClosed => String::from_str("Connection closed"),
            SmtpError::ProtocolViolation => String::from_str("Protocol violation"),
        }
    }
}

} // verus!
