//! The per-connection session state machine.

use vstd::prelude::*;

use crate::commands::{parse_verb, verb_of, SmtpCommand};
use crate::email::Email;
use crate::error::{SmtpError, SmtpLimits};
use crate::response::string_views;
use crate::text::{byte_len, chars_of, str_byte_len};

verus! {

/// Where a session stands in the protocol.
#[derive(Debug, Clone, Copy, PartialEq, Eq, Structural)]
pub enum SmtpState {
    /// Waiting for a greeting.
    Initial,
    /// Greeted; ready for a sender.
    GreetingReceived,
    /// Sender given; ready for recipients.
    MailReceived,
    /// At least one recipient given; ready for more or for the data phase.
    RecipientsReceived,
    /// Collecting message lines.
    DataMode,
}

/// The bytes a data line is accounted for: its length and its line terminator.
pub open spec fn line_cost(line: Seq<char>) -> nat {
    byte_len(line) + 2
}

/// The accounted size of a sequence of data lines.
pub open spec fn accounted_size(lines: Seq<Seq<char>>) -> nat
    decreases lines.len(),
{
    if lines.len() == 0 {
        0
    } else {
        accounted_size(lines.drop_last()) + line_cost(lines.last())
    }
}

/// Lines joined by single newlines, with no trailing newline.
pub open spec fn join_lines(lines: Seq<Seq<char>>) -> Seq<char>
    decreases lines.len(),
{
    if lines.len() == 0 {
        Seq::empty()
    } else if lines.len() == 1 {
        lines[0]
    } else {
        join_lines(lines.drop_last()) + "\n"@ + lines.last()
    }
}

/// Whether a command may run in a state.
pub open spec fn can_execute(state: SmtpState, verb: SmtpCommand) -> bool {
    match verb {
        SmtpCommand::Helo | SmtpCommand::Ehlo | SmtpCommand::Noop | SmtpCommand::Quit => true,
        SmtpCommand::Mail => state == SmtpState::GreetingReceived,
        SmtpCommand::Rcpt => state == SmtpState::MailReceived || state
            == SmtpState::RecipientsReceived,
        SmtpCommand::Data => state == SmtpState::RecipientsReceived,
        SmtpCommand::Rset => state != SmtpState::Initial,
    }
}

/// The state and data of one client connection.
#[derive(Debug)]
pub struct SmtpSession {
    /// Where the session stands.
    pub state: SmtpState,
    /// The sender address.
    pub from: Option<String>,
    /// The recipient addresses, in the order they were given.
    pub to: Vec<String>,
    /// The message lines collected in the data phase.
    pub data: Vec<String>,
    /// Whether message lines are being collected.
    pub in_data_mode: bool,
    /// The accounted size of the collected lines.
    pub data_size: usize,
    /// The client's domain, from the greeting.
    pub client_domain: Option<String>,
}

impl SmtpSession {
    /// The session's invariant.
    pub open spec fn wf(&self) -> bool {
        &&& self.to@.len() <= SmtpLimits::MAX_RECIPIENTS
        &&& self.data_size == accounted_size(string_views(self.data@))
        &&& self.data_size <= SmtpLimits::MAX_DATA_SIZE
        &&& self.in_data_mode <==> self.state == SmtpState::DataMode
        &&& self.from is Some ==> (self.state == SmtpState::MailReceived || self.state
            == SmtpState::RecipientsReceived || self.state == SmtpState::DataMode)
        &&& self.to@.len() > 0 <==> (self.state == SmtpState::RecipientsReceived || self.state
            == SmtpState::DataMode)
    }

    /// No transaction is under way: no sender, recipients or data.
    pub open spec fn no_transaction(&self) -> bool {
        &&& self.from is None
        &&& self.to@.len() == 0
        &&& self.data@.len() == 0
        &&& !self.in_data_mode
        &&& self.data_size == 0
    }

    /// The result of a transaction reset of `self`: the greeting and the
    /// client's domain stay.
    pub open spec fn after_reset(&self, next: &Self) -> bool {
        &&& next.state == SmtpState::GreetingReceived
        &&& next.no_transaction()
        &&& next.client_domain == self.client_domain
    }

    /// A session that has seen nothing yet.
    pub fn new() -> (r: Self)
        ensures
            r.state == SmtpState::Initial,
            r.no_transaction(),
            r.client_domain is None,
            r.wf(),
    {
        SmtpSession {
            state: SmtpState::Initial,
            from: None,
            to: Vec::new(),
            data: Vec::new(),
            in_data_mode: false,
            data_size: 0,
            client_domain: None,
        }
    }

    /// Ends the current transaction; the greeting and the client's domain stay.
    pub fn reset(&mut self)
        ensures
            old(self).after_reset(final(self)),
            final(self).wf(),
    {
        self.state = SmtpState::GreetingReceived;
        self.from = None;
        self.to.clear();
        self.data.clear();
        self.in_data_mode = false;
        self.data_size = 0;
        proof {
            assert(string_views(self.data@) =~= Seq::<Seq<char>>::empty());
        }
    }

    /// Returns the session to its initial state, forgetting the greeting.
    pub fn full_reset(&mut self)
        ensures
            final(self).state == SmtpState::Initial,
            final(self).no_transaction(),
            final(self).client_domain is None,
            final(self).wf(),
    {
        self.state = SmtpState::Initial;
        self.from = None;
        self.to.clear();
        self.data.clear();
        self.in_data_mode = false;
        self.data_size = 0;
        self.client_domain = None;
        proof {
            assert(string_views(self.data@) =~= Seq::<Seq<char>>::empty());
        }
    }

    /// Starts a transaction from `sender`, dropping any recipients and data
/// and leaving the data phase.
    pub fn set_sender(&mut self, sender: String) -> (r: Result<(), SmtpError>)
        ensures
            byte_len(sender@) > SmtpLimits::PATH_MAX_LENGTH ==> {
                &&& r == Err::<(), SmtpError>(
                    SmtpError::PathTooLong { max: SmtpLimits::PATH_MAX_LENGTH },
                )
                &&& *final(self) == *old(self)
            },
            byte_len(sender@) <= SmtpLimits::PATH_MAX_LENGTH ==> {
                &&& r is Ok
                &&& final(self).state == SmtpState::MailReceived
                &&& final(self).from == Some(sender)
                &&& final(self).to@.len() == 0
                &&& final(self).data@.len() == 0
                &&& final(self).data_size == 0
                &&& !final(self).in_data_mode
                &&& final(self).client_domain == old(self).client_domain
            },
            old(self).wf() ==> final(self).wf(),
    {
        if str_byte_len(sender.as_str()) > SmtpLimits::PATH_MAX_LENGTH {
            return Err(SmtpError::PathTooLong { max: SmtpLimits::PATH_MAX_LENGTH });
        }
        self.from = Some(sender);
        self.in_data_mode = false;
        self.to.clear();
        self.data.clear();
        self.data_size = 0;
        self.state = SmtpState::MailReceived;
        proof {
            assert(string_views(self.data@) =~= Seq::<Seq<char>>::empty());
        }
        Ok(())
    }

    /// Adds `recipient` to the transaction; the data phase, if on, ends.
    pub fn add_recipient(&mut self, recipient: String) -> (r: Result<(), SmtpError>)
        ensures
            byte_len(recipient@) > SmtpLimits::PATH_MAX_LENGTH ==> {
                &&& r == Err::<(), SmtpError>(
                    SmtpError::PathTooLong { max: SmtpLimits::PATH_MAX_LENGTH },
                )
                &&& *final(self) == *old(self)
            },
            byte_len(recipient@) <= SmtpLimits::PATH_MAX_LENGTH && old(self).to@.len()
                >= SmtpLimits::MAX_RECIPIENTS ==> {
                &&& r == Err::<(), SmtpError>(
                    SmtpError::TooManyRecipients { max: SmtpLimits::MAX_RECIPIENTS },
                )
                &&& *final(self) == *old(self)
            },
            byte_len(recipient@) <= SmtpLimits::PATH_MAX_LENGTH && old(self).to@.len()
                < SmtpLimits::MAX_RECIPIENTS ==> {
                &&& r is Ok
                &&& final(self).state == SmtpState::RecipientsReceived
                &&& final(self).to@ == old(self).to@.push(recipient)
                &&& final(self).from == old(self).from
                &&& final(self).data == old(self).data
                &&& final(self).data_size == old(self).data_size
                &&& !final(self).in_data_mode
                &&& final(self).client_domain == old(self).client_domain
            },
            old(self).wf() ==> final(self).wf(),
    {
        if str_byte_len(recipient.as_str()) > SmtpLimits::PATH_MAX_LENGTH {
            return Err(SmtpError::PathTooLong { max: SmtpLimits::PATH_MAX_LENGTH });
        }
        if self.to.len() >= SmtpLimits::MAX_RECIPIENTS {
            return Err(SmtpError::TooManyRecipients { max: SmtpLimits::MAX_RECIPIENTS });
        }
        self.to.push(recipient);
        self.in_data_mode = false;
        self.state = SmtpState::RecipientsReceived;
        Ok(())
    }

    /// Enters the data phase; only allowed once recipients were given.
    pub fn start_data_mode(&mut self) -> (r: Result<(), SmtpError>)
        ensures
            old(self).state != SmtpState::RecipientsReceived ==> {
                &&& r matches Err(SmtpError::InvalidState(m))
                &&& m@ == "DATA command requires RCPT first"@
                &&& *final(self) == *old(self)
            },
            old(self).state == SmtpState::RecipientsReceived ==> {
                &&& r is Ok
                &&& final(self).state == SmtpState::DataMode
                &&& final(self).in_data_mode
                &&& final(self).data@.len() == 0
                &&& final(self).data_size == 0
                &&& final(self).from == old(self).from
                &&& final(self).to == old(self).to
                &&& final(self).client_domain == old(self).client_domain
            },
            old(self).wf() ==> final(self).wf(),
    {
        if self.state != SmtpState::RecipientsReceived {
            return Err(SmtpError::InvalidState(String::from_str("DATA command requires RCPT first")));
        }
        self.in_data_mode = true;
        self.data.clear();
        self.data_size = 0;
        self.state = SmtpState::DataMode;
        proof {
            assert(string_views(self.data@) =~= Seq::<Seq<char>>::empty());
        }
        Ok(())
    }

    /// Collects one message line, within the line and total size limits.
    pub fn add_data_line(&mut self, line: String) -> (r: Result<(), SmtpError>)
        ensures
            line_cost(line@) > SmtpLimits::TEXT_LINE_MAX_LENGTH ==> {
                &&& r == Err::<(), SmtpError>(
                    SmtpError::LineTooLong { max: SmtpLimits::TEXT_LINE_MAX_LENGTH },
                )
                &&& *final(self) == *old(self)
            },
            line_cost(line@) <= SmtpLimits::TEXT_LINE_MAX_LENGTH && old(self).data_size
                + line_cost(line@) > SmtpLimits::MAX_DATA_SIZE ==> {
                &&& r == Err::<(), SmtpError>(
                    SmtpError::TooMuchData { max: SmtpLimits::MAX_DATA_SIZE },
                )
                &&& *final(self) == *old(self)
            },
            line_cost(line@) <= SmtpLimits::TEXT_LINE_MAX_LENGTH && old(self).data_size
                + line_cost(line@) <= SmtpLimits::MAX_DATA_SIZE ==> {
                &&& r is Ok
                &&& final(self).data@ == old(self).data@.push(line)
                &&& final(self).data_size == old(self).data_size + line_cost(line@)
                &&& final(self).state == old(self).state
                &&& final(self).from == old(self).from
                &&& final(self).to == old(self).to
                &&& final(self).in_data_mode == old(self).in_data_mode
                &&& final(self).client_domain == old(self).client_domain
            },
            old(self).wf() ==> final(self).wf(),
    {
        let len = str_byte_len(line.as_str());
        if len > SmtpLimits::TEXT_LINE_MAX_LENGTH - 2 {
            return Err(SmtpError::LineTooLong { max: SmtpLimits::TEXT_LINE_MAX_LENGTH });
        }
        let line_size = len + 2;
        if self.data_size > SmtpLimits::MAX_DATA_SIZE - line_size {
            return Err(SmtpError::TooMuchData { max: SmtpLimits::MAX_DATA_SIZE });
        }
        let ghost before = self.data@;
        self.data.push(line);
        self.data_size = self.data_size + line_size;
        proof {
            assert(string_views(self.data@).drop_last() =~= string_views(before));
        }
        Ok(())
    }

    /// Ends the data phase and hands out the message; the transaction is
    /// then reset.
    pub fn finish_data_collection(&mut self) -> (r: Result<Email, SmtpError>)
        ensures
            !old(self).in_data_mode ==> {
                &&& r matches Err(SmtpError::InvalidState(m))
                &&& m@ == "Not in data collection mode"@
                &&& *final(self) == *old(self)
            },
            old(self).in_data_mode && old(self).from is None ==> {
                &&& r matches Err(SmtpError::InvalidState(m))
                &&& m@ == "No sender specified"@
                &&& *final(self) == *old(self)
            },
            old(self).in_data_mode && old(self).from is Some && old(self).to@.len() == 0 ==> {
                &&& r matches Err(SmtpError::InvalidState(m))
                &&& m@ == "No recipients specified"@
                &&& *final(self) == *old(self)
            },
            old(self).in_data_mode && old(self).from is Some && old(self).to@.len() > 0 ==> {
                &&& r matches Ok(email)
                &&& email.from == old(self).from->0
                &&& email.to == old(self).to
                &&& email.data@ == join_lines(string_views(old(self).data@))
                &&& old(self).after_reset(final(self))
            },
            old(self).wf() ==> final(self).wf(),
    {
        if !self.in_data_mode {
            return Err(SmtpError::InvalidState(String::from_str("Not in data collection mode")));
        }
        if self.from.is_none() {
            return Err(SmtpError::InvalidState(String::from_str("No sender specified")));
        }
        if self.to.len() == 0 {
            return Err(SmtpError::InvalidState(String::from_str("No recipients specified")));
        }
        let body = join_with_newlines(&self.data);
        let sender = self.from.take().unwrap();
        let mut to: Vec<String> = Vec::new();
        core::mem::swap(&mut to, &mut self.to);
        let email = Email::new(sender, to, body);
        self.reset();
        Ok(email)
    }

    /// Records the client's domain from a greeting; any transaction is reset.
    pub fn set_client_domain(&mut self, domain: String) -> (r: Result<(), SmtpError>)
        ensures
            byte_len(domain@) > SmtpLimits::DOMAIN_MAX_LENGTH ==> {
                &&& r == Err::<(), SmtpError>(
                    SmtpError::DomainTooLong { max: SmtpLimits::DOMAIN_MAX_LENGTH },
                )
                &&& *final(self) == *old(self)
            },
            byte_len(domain@) <= SmtpLimits::DOMAIN_MAX_LENGTH ==> {
                &&& r is Ok
                &&& final(self).state == SmtpState::GreetingReceived
                &&& final(self).no_transaction()
                &&& final(self).client_domain == Some(domain)
            },
            old(self).wf() ==> final(self).wf(),
    {
        if str_byte_len(domain.as_str()) > SmtpLimits::DOMAIN_MAX_LENGTH {
            return Err(SmtpError::DomainTooLong { max: SmtpLimits::DOMAIN_MAX_LENGTH });
        }
        self.client_domain = Some(domain);
        self.state = SmtpState::GreetingReceived;
        self.reset();
        Ok(())
    }

    /// Whether the command named `command` (in any letter case) may run now.
    pub fn can_execute_command(&self, command: &str) -> (r: bool)
        ensures
            r == match verb_of(command@) {
                Some(verb) => can_execute(self.state, verb),
                None => false,
            },
    {
        let chars = chars_of(command);
        assert(chars@.subrange(0, chars@.len() as int) =~= command@);
        match parse_verb(&chars, 0, chars.len()) {
            Some(verb) => self.can_execute_verb(verb),
            None => false,
        }
    }

    /// Whether `verb` may run now.
    pub fn can_execute_verb(&self, verb: SmtpCommand) -> (r: bool)
        ensures
            r == can_execute(self.state, verb),
    {
        match verb {
            SmtpCommand::Helo | SmtpCommand::Ehlo | SmtpCommand::Noop | SmtpCommand::Quit => true,
            SmtpCommand::Mail => self.state == SmtpState::GreetingReceived,
            SmtpCommand::Rcpt => self.state == SmtpState::MailReceived || self.state
                == SmtpState::RecipientsReceived,
            SmtpCommand::Data => self.state == SmtpState::RecipientsReceived,
            SmtpCommand::Rset => self.state != SmtpState::Initial,
        }
    }

    /// The number of recipients given so far.
    pub fn recipient_count(&self) -> (r: usize)
        ensures
            r == self.to@.len(),
    {
        self.to.len()
    }

    /// The accounted size of the lines collected so far.
    pub fn current_data_size(&self) -> (r: usize)
        ensures
            r == self.data_size,
    {
        self.data_size
    }

    /// Whether a sender and at least one recipient are given and the data
    /// phase may start.
    pub fn has_complete_transaction(&self) -> (r: bool)
        ensures
            r == (self.from is Some && self.to@.len() > 0 && self.state
                == SmtpState::RecipientsReceived),
    {
        self.from.is_some() && self.to.len() > 0 && self.state == SmtpState::RecipientsReceived
    }
}

impl Default for SmtpSession {
    fn default() -> (r: Self)
        ensures
            r.state == SmtpState::Initial,
            r.no_transaction(),
            r.client_domain is None,
            r.wf(),
    {
        Self::new()
    }
}

/// The lines joined by single newlines.
fn join_with_newlines(lines: &Vec<String>) -> (r: String)
    ensures
        r@ == join_lines(string_views(lines@)),
{
    let ghost views = string_views(lines@);
    let mut out = String::new();
    let n = lines.len();
    let mut i: usize = 0;
    while i < n
        invariant
            n == lines@.len(),
            views == string_views(lines@),
            i <= n,
            out@ == join_lines(views.take(i as int)),
        decreases n - i,
    {
        if i > 0 {
            out.append("\n");
        }
        out.append(lines[i].as_str());
        proof {
            let next = views.take(i + 1);
            assert(next.drop_last() =~= views.take(i as int));
            assert(next.last() == lines@[i as int]@);
            if i == 0 {
                assert(out@ =~= next[0]);
            }
        }
        i = i + 1;
    }
    assert(views.take(n as int) =~= views);
    out
}

} // verus!
