//! The per-line decisions of a connection: which component a line goes to,
//! what is answered, when a message is complete and when to close.
//!
//! Reading lines and writing replies is left to the caller, which feeds each
//! received line to [`SmtpServer::handle_line`] and acts on the outcome.

use vstd::prelude::*;

use crate::commands::{command_post, is_state_error, SmtpCommandHandler};
use crate::email::Email;
use crate::error::{error_code, SmtpError, SmtpLimits};
use crate::response::{string_views, SmtpResponse};
use crate::session::{join_lines, line_cost, SmtpSession, SmtpState};
use crate::text::{chars_of, str_eq, trim, trim_range};

verus! {

/// A received line without its line terminator (CRLF, or a lone LF).
pub open spec fn line_text(line: Seq<char>) -> Seq<char> {
    if line.len() >= 2 && line[line.len() - 2] == '\r' && line[line.len() - 1] == '\n' {
        line.take(line.len() - 2)
    } else if line.len() >= 1 && line[line.len() - 1] == '\n' {
        line.take(line.len() - 1)
    } else {
        line
    }
}

/// The line that ends the data phase.
pub open spec fn is_end_of_data(text: Seq<char>) -> bool {
    text == seq!['.']
}

/// What a connection does after one received line.
#[derive(Debug)]
pub struct LineOutcome {
    /// The reply to send, or the error to report in its place; nothing for a
    /// collected data line or a blank command line.
    pub reply: Option<Result<SmtpResponse, SmtpError>>,
    /// The message that the line completed, for the message sink.
    pub email: Option<Email>,
    /// Whether to close the connection once the reply is sent.
    pub close: bool,
}

/// The outcome of the data-phase line `text`.
pub open spec fn data_line_post(
    text: Seq<char>,
    old: SmtpSession,
    new: SmtpSession,
    r: LineOutcome,
) -> bool {
    &&& !r.close
    &&& if is_end_of_data(text) {
        if old.from is Some && old.to@.len() > 0 {
            &&& r.reply matches Some(Ok(resp))
            &&& resp.is_plain("250"@, "OK"@)
            &&& r.email matches Some(email)
            &&& email.from == old.from->0
            &&& email.to == old.to
            &&& email.data@ == join_lines(string_views(old.data@))
            &&& old.after_reset(&new)
        } else {
            &&& r.reply matches Some(rr)
            &&& is_state_error(
                rr,
                if old.from is None {
                    "No sender specified"@
                } else {
                    "No recipients specified"@
                },
            )
            &&& r.email is None
            &&& old.after_reset(&new)
        }
    } else if line_cost(text) > SmtpLimits::TEXT_LINE_MAX_LENGTH {
        &&& r.reply matches Some(Err(SmtpError::LineTooLong { max }))
        &&& max == SmtpLimits::TEXT_LINE_MAX_LENGTH
        &&& r.email is None
        &&& old.after_reset(&new)
    } else if old.data_size + line_cost(text) > SmtpLimits::MAX_DATA_SIZE {
        &&& r.reply matches Some(Err(SmtpError::TooMuchData { max }))
        &&& max == SmtpLimits::MAX_DATA_SIZE
        &&& r.email is None
        &&& old.after_reset(&new)
    } else {
        &&& r.reply is None
        &&& r.email is None
        &&& new.data@.len() == old.data@.len() + 1
        &&& new.data@.drop_last() == old.data@
        &&& new.data@.last()@ == text
        &&& new.data_size == old.data_size + line_cost(text)
        &&& new.state == old.state
        &&& new.from == old.from
        &&& new.to == old.to
        &&& new.in_data_mode == old.in_data_mode
        &&& new.client_domain == old.client_domain
    }
}

/// The outcome of the command line `line`.
pub open spec fn command_line_post(
    host: Seq<char>,
    line: Seq<char>,
    old: SmtpSession,
    new: SmtpSession,
    r: LineOutcome,
) -> bool {
    let command = trim(line);
    &&& r.email is None
    &&& if command.len() == 0 {
        &&& r.reply is None
        &&& !r.close
        &&& new == old
    } else {
        &&& r.reply matches Some(rr)
        &&& command_post(host, command, old, new, rr)
        &&& r.close == (rr matches Ok(resp) && resp.code@ == "221"@)
    }
}

/// The outcome of the line `line`, as read with its line terminator, on a
/// server named `host`.
pub open spec fn line_post(
    host: Seq<char>,
    line: Seq<char>,
    old: SmtpSession,
    new: SmtpSession,
    r: LineOutcome,
) -> bool {
    if old.in_data_mode {
        data_line_post(line_text(line), old, new, r)
    } else {
        command_line_post(host, line, old, new, r)
    }
}

/// A data line whose accounted size exceeds the text line limit ends the
/// transaction: no message is produced, `LineTooLong` is reported, and the
/// session is back to the greeted state with the client's domain kept.
pub proof fn lemma_long_data_line_aborts(
    host: Seq<char>,
    line: Seq<char>,
    old: SmtpSession,
    new: SmtpSession,
    r: LineOutcome,
)
    requires
        old.in_data_mode,
        line_cost(line_text(line)) > SmtpLimits::TEXT_LINE_MAX_LENGTH,
        line_post(host, line, old, new, r),
    ensures
        r.email is None,
        r.reply matches Some(Err(e)) && e == (SmtpError::LineTooLong {
            max: SmtpLimits::TEXT_LINE_MAX_LENGTH,
        }),
        error_code(r.reply->0->Err_0) == "500"@,
        new.state == SmtpState::GreetingReceived,
        new.no_transaction(),
        new.client_domain == old.client_domain,
{
    reveal_strlit(".");
    assert(line_cost(seq!['.']) == 3) by {
        reveal_with_fuel(vstd::utf8::encode_utf8, 2);
    }
}

/// A data line that would take the collected data past the total size
/// limit ends the transaction in the same way, reporting `TooMuchData`.
pub proof fn lemma_too_much_data_aborts(
    host: Seq<char>,
    line: Seq<char>,
    old: SmtpSession,
    new: SmtpSession,
    r: LineOutcome,
)
    requires
        old.in_data_mode,
        !is_end_of_data(line_text(line)),
        line_cost(line_text(line)) <= SmtpLimits::TEXT_LINE_MAX_LENGTH,
        old.data_size + line_cost(line_text(line)) > SmtpLimits::MAX_DATA_SIZE,
        line_post(host, line, old, new, r),
    ensures
        r.email is None,
        r.reply matches Some(Err(e)) && e == (SmtpError::TooMuchData {
            max: SmtpLimits::MAX_DATA_SIZE,
        }),
        error_code(r.reply->0->Err_0) == "552"@,
        new.state == SmtpState::GreetingReceived,
        new.no_transaction(),
        new.client_domain == old.client_domain,
{
}

/// An embedded server: the host name it answers greetings with, and the
/// handling of each line a client sends.
#[derive(Debug, Clone)]
pub struct SmtpServer {
    /// The host name given in greeting replies.
    pub hostname: String,
}

impl SmtpServer {
    /// A server named `hostname`.
    pub fn new(hostname: &str) -> (r: Self)
        ensures
            r.hostname@ == hostname@,
    {
        SmtpServer { hostname: hostname.to_owned() }
    }

    /// The data-phase line collector. The end marker finalizes the
    /// transaction: the message is handed out with `250 OK` and the
    /// transaction is reset. Any other line is collected; a line over the
    /// line limit, or one that takes the data past the total limit, aborts
    /// the transaction with a reset and reports the error.
    fn handle_data_line(&self, line: &str, session: &mut SmtpSession) -> (r: LineOutcome)
        requires
            old(session).in_data_mode,
        ensures
            data_line_post(line@, *old(session), *final(session), r),
            old(session).wf() ==> final(session).wf(),
    {
        if is_dot(line) {
            match session.finish_data_collection() {
                Ok(email) => LineOutcome {
                    reply: Some(Ok(SmtpResponse::ok())),
                    email: Some(email),
                    close: false,
                },
                Err(e) => {
                    session.reset();
                    LineOutcome { reply: Some(Err(e)), email: None, close: false }
                },
            }
        } else {
            let ghost before = session.data@;
            match session.add_data_line(line.to_owned()) {
                Ok(()) => {
                    assert(session.data@.drop_last() =~= before);
                    LineOutcome { reply: None, email: None, close: false }
                },
                Err(e) => {
                    session.reset();
                    LineOutcome { reply: Some(Err(e)), email: None, close: false }
                },
            }
        }
    }

    /// Handles one line received from a client, as read from the
    /// connection with its line terminator.
    ///
    /// In the data phase the line, without its terminator, goes to the
    /// data-phase collector. Otherwise the
    /// line, trimmed, is a command; a blank line is ignored.
    pub fn handle_line(&self, line: &str, session: &mut SmtpSession) -> (r: LineOutcome)
        ensures
            line_post(self.hostname@, line@, *old(session), *final(session), r),
            old(session).wf() ==> final(session).wf(),
    {
        if session.in_data_mode {
            self.handle_data_line(strip_line_end(line), session)
        } else {
            let chars = chars_of(line);
            let (lo, hi) = trim_range(&chars);
            if lo >= hi {
                return LineOutcome { reply: None, email: None, close: false };
            }
            let command = line.substring_char(lo, hi);
            let handler = SmtpCommandHandler::new(self.hostname.as_str());
            let result = handler.process_command(command, session);
            let close = match &result {
                Ok(resp) => str_eq(resp.code.as_str(), "221"),
                Err(_) => false,
            };
            LineOutcome { reply: Some(result), email: None, close }
        }
    }
}

/// Whether `line` is exactly `.`.
fn is_dot(line: &str) -> (r: bool)
    ensures
        r == is_end_of_data(line@),
{
    let n = line.unicode_len();
    if n != 1 {
        return false;
    }
    let c = line.get_char(0);
    assert(c == '.' ==> line@ =~= seq!['.']);
    c == '.'
}

/// `line` without its line terminator.
fn strip_line_end(line: &str) -> (r: &str)
    ensures
        r@ == line_text(line@),
{
    let n = line.unicode_len();
    if n >= 2 && line.get_char(n - 2) == '\r' && line.get_char(n - 1) == '\n' {
        line.substring_char(0, n - 2)
    } else if n >= 1 && line.get_char(n - 1) == '\n' {
        line.substring_char(0, n - 1)
    } else {
        line
    }
}

} // verus!
