//! The command parser and dispatcher.

use vstd::prelude::*;

use crate::error::{error_code, SmtpError, SmtpLimits};
use crate::response::SmtpResponse;
use crate::session::{can_execute, SmtpSession, SmtpState};
use crate::text::{
    ascii_upper, byte_len, char_ascii_upper, chars_of, contains_char, eq_ignore_case, find_char, find_from,
    join_words, split_words, str_byte_len, str_views, tokens, trim, trim_range,
};

verus! {

/// The commands of the protocol.
#[derive(Debug, Clone, Copy, PartialEq, Eq, Structural)]
pub enum SmtpCommand {
    Helo,
    Ehlo,
    Mail,
    Rcpt,
    Data,
    Rset,
    Noop,
    Quit,
}

/// The command that a word names. Letter case is ignored for the ASCII
/// letters `a` to `z` only: `mail` and `MaIl` name `MAIL`, while a word
/// spelled with other letters (such as a dotless `ı`) names no command.
pub open spec fn verb_of(word: Seq<char>) -> Option<SmtpCommand> {
    if eq_ignore_case(word, "HELO"@) {
        Some(SmtpCommand::Helo)
    } else if eq_ignore_case(word, "EHLO"@) {
        Some(SmtpCommand::Ehlo)
    } else if eq_ignore_case(word, "MAIL"@) {
        Some(SmtpCommand::Mail)
    } else if eq_ignore_case(word, "RCPT"@) {
        Some(SmtpCommand::Rcpt)
    } else if eq_ignore_case(word, "DATA"@) {
        Some(SmtpCommand::Data)
    } else if eq_ignore_case(word, "RSET"@) {
        Some(SmtpCommand::Rset)
    } else if eq_ignore_case(word, "NOOP"@) {
        Some(SmtpCommand::Noop)
    } else if eq_ignore_case(word, "QUIT"@) {
        Some(SmtpCommand::Quit)
    } else {
        None
    }
}

/// Whether `chars[start..end]` equals `word` without regard to letter case.
pub fn matches_word(chars: &Vec<char>, start: usize, end: usize, word: &str) -> (r: bool)
    requires
        start <= end <= chars@.len(),
    ensures
        r == eq_ignore_case(chars@.subrange(start as int, end as int), word@),
{
    let ghost part = chars@.subrange(start as int, end as int);
    let n = word.unicode_len();
    if end - start != n {
        return false;
    }
    let mut i: usize = 0;
    while i < n
        invariant
            n == word@.len(),
            end - start == n,
            start <= end <= chars@.len(),
            part == chars@.subrange(start as int, end as int),
            i <= n,
            forall|j: int| 0 <= j < i ==> ascii_upper(#[trigger] part[j]) == ascii_upper(word@[j]),
        decreases n - i,
    {
        if char_ascii_upper(chars[start + i]) != char_ascii_upper(word.get_char(i)) {
            assert(ascii_upper(part[i as int]) != ascii_upper(word@[i as int]));
            return false;
        }
        i = i + 1;
    }
    true
}

/// The command that `chars[start..end]` names, if any.
pub fn parse_verb(chars: &Vec<char>, start: usize, end: usize) -> (r: Option<SmtpCommand>)
    requires
        start <= end <= chars@.len(),
    ensures
        r == verb_of(chars@.subrange(start as int, end as int)),
{
    if matches_word(chars, start, end, "HELO") {
        Some(SmtpCommand::Helo)
    } else if matches_word(chars, start, end, "EHLO") {
        Some(SmtpCommand::Ehlo)
    } else if matches_word(chars, start, end, "MAIL") {
        Some(SmtpCommand::Mail)
    } else if matches_word(chars, start, end, "RCPT") {
        Some(SmtpCommand::Rcpt)
    } else if matches_word(chars, start, end, "DATA") {
        Some(SmtpCommand::Data)
    } else if matches_word(chars, start, end, "RSET") {
        Some(SmtpCommand::Rset)
    } else if matches_word(chars, start, end, "NOOP") {
        Some(SmtpCommand::Noop)
    } else if matches_word(chars, start, end, "QUIT") {
        Some(SmtpCommand::Quit)
    } else {
        None
    }
}

/// Why a path argument (`FROM:<...>` or `TO:<...>`) is refused.
#[derive(Debug, Clone, Copy, PartialEq, Eq, Structural)]
pub enum PathFault {
    /// It does not begin with the keyword.
    Keyword,
    /// What follows the keyword is not enclosed in exactly one pair of
    /// angle brackets.
    Brackets,
    /// The angle brackets enclose nothing.
    Empty,
}

/// Why an address is refused.
#[derive(Debug, Clone, Copy, PartialEq, Eq, Structural)]
pub enum AddressFault {
    /// It holds no `@`.
    NoAt,
    /// The part before the `@` is too long.
    UserTooLong,
    /// The part after the `@` is too long.
    DomainTooLong,
    /// A part is empty, or it holds more than one `@`.
    Malformed,
}

/// What follows the keyword of a path argument, trimmed.
pub open spec fn path_text(arg: Seq<char>, keyword: Seq<char>) -> Seq<char> {
    trim(arg.skip(keyword.len() as int))
}

/// Why the path argument `arg` with `keyword` is refused, if it is.
pub open spec fn path_fault(arg: Seq<char>, keyword: Seq<char>) -> Option<PathFault> {
    let t = path_text(arg, keyword);
    if !(arg.len() >= keyword.len() && eq_ignore_case(arg.take(keyword.len() as int), keyword)) {
        Some(PathFault::Keyword)
    } else if !(t.len() >= 2 && t[0] == '<' && t.last() == '>') || t.subrange(
        1,
        t.len() - 1,
    ).contains('<') || t.subrange(1, t.len() - 1).contains('>') {
        Some(PathFault::Brackets)
    } else if t.len() == 2 {
        Some(PathFault::Empty)
    } else {
        None
    }
}

/// The address that the angle brackets of a path argument enclose.
pub open spec fn path_address(arg: Seq<char>, keyword: Seq<char>) -> Seq<char> {
    let t = path_text(arg, keyword);
    t.subrange(1, t.len() - 1)
}

/// Why an address is refused, if it is: it must hold exactly one `@`, with a
/// user name of 1 to 64 bytes before it and a domain of 1 to 64 bytes after it.
pub open spec fn address_fault(a: Seq<char>) -> Option<AddressFault> {
    let k = find_from(a, '@', 0);
    let user = a.take(k);
    let domain = a.skip(k + 1);
    if k == a.len() {
        Some(AddressFault::NoAt)
    } else if byte_len(user) > SmtpLimits::USER_MAX_LENGTH {
        Some(AddressFault::UserTooLong)
    } else if byte_len(domain) > SmtpLimits::DOMAIN_MAX_LENGTH {
        Some(AddressFault::DomainTooLong)
    } else if user.len() == 0 || domain.len() == 0 || domain.contains('@') {
        Some(AddressFault::Malformed)
    } else {
        None
    }
}

/// `r` is an `InvalidSyntax` error with the text `msg`.
pub open spec fn is_syntax_error<T>(r: Result<T, SmtpError>, msg: Seq<char>) -> bool {
    r matches Err(SmtpError::InvalidSyntax(m)) && m@ == msg
}

/// `r` is an `InvalidState` error with the text `msg`.
pub open spec fn is_state_error<T>(r: Result<T, SmtpError>, msg: Seq<char>) -> bool {
    r matches Err(SmtpError::InvalidState(m)) && m@ == msg
}

/// `r` is the error that address validation reports for `f`.
pub open spec fn is_address_error<T>(r: Result<T, SmtpError>, f: AddressFault) -> bool {
    match f {
        AddressFault::NoAt => is_syntax_error(r, "Email address must contain @ symbol"@),
        AddressFault::UserTooLong => r matches Err(SmtpError::UserTooLong { max })
            && max == SmtpLimits::USER_MAX_LENGTH,
        AddressFault::DomainTooLong => r matches Err(SmtpError::DomainTooLong { max })
            && max == SmtpLimits::DOMAIN_MAX_LENGTH,
        AddressFault::Malformed => is_syntax_error(r, "Invalid email address format"@),
    }
}

/// The text of the syntax error for a refused sender path.
pub open spec fn from_fault_message(f: PathFault) -> Seq<char> {
    match f {
        PathFault::Keyword => "MAIL command must be 'MAIL FROM:<address>'"@,
        PathFault::Brackets => "FROM address must be enclosed in angle brackets"@,
        PathFault::Empty => "FROM address cannot be empty"@,
    }
}

/// The text of the syntax error for a refused recipient path.
pub open spec fn to_fault_message(f: PathFault) -> Seq<char> {
    match f {
        PathFault::Keyword => "RCPT command must be 'RCPT TO:<address>'"@,
        PathFault::Brackets => "TO address must be enclosed in angle brackets"@,
        PathFault::Empty => "TO address cannot be empty"@,
    }
}

/// `resp` is the reply to a greeting from `domain`; with `extended`, the
/// capability block follows.
pub open spec fn is_greeting_reply(
    resp: SmtpResponse,
    host: Seq<char>,
    domain: Seq<char>,
    extended: bool,
) -> bool {
    &&& resp.code@ == "250"@
    &&& resp.message@ == host + " Hello "@ + domain
    &&& extended ==> resp.block() == Some(seq!["PIPELINING"@, "SIZE 10240000"@])
    &&& !extended ==> resp.multiline is None
}

/// The outcome of a greeting (`HELO`, or `EHLO` when `extended`) with the
/// arguments `args`.
pub open spec fn helo_post(
    host: Seq<char>,
    args: Seq<Seq<char>>,
    extended: bool,
    old: SmtpSession,
    new: SmtpSession,
    r: Result<SmtpResponse, SmtpError>,
) -> bool {
    if args.len() == 0 {
        &&& is_syntax_error(
            r,
            if extended {
                "EHLO requires domain argument"@
            } else {
                "HELO requires domain argument"@
            },
        )
        &&& new == old
    } else if args.len() > 1 {
        &&& is_syntax_error(
            r,
            if extended {
                "EHLO takes exactly one domain argument"@
            } else {
                "HELO takes exactly one domain argument"@
            },
        )
        &&& new == old
    } else if byte_len(args[0]) > SmtpLimits::DOMAIN_MAX_LENGTH {
        &&& r matches Err(SmtpError::DomainTooLong { max })
        &&& max == SmtpLimits::DOMAIN_MAX_LENGTH
        &&& new == old
    } else {
        &&& r matches Ok(resp)
        &&& is_greeting_reply(resp, host, args[0], extended)
        &&& new.state == SmtpState::GreetingReceived
        &&& new.no_transaction()
        &&& new.client_domain matches Some(d)
        &&& d@ == args[0]
    }
}

/// The outcome of `MAIL` with the arguments `args`.
pub open spec fn mail_post(
    args: Seq<Seq<char>>,
    old: SmtpSession,
    new: SmtpSession,
    r: Result<SmtpResponse, SmtpError>,
) -> bool {
    let arg = join_words(args);
    let a = path_address(arg, "FROM:"@);
    if !can_execute(old.state, SmtpCommand::Mail) {
        is_state_error(r, "MAIL command requires HELO first"@) && new == old
    } else if args.len() == 0 {
        is_syntax_error(r, "MAIL requires FROM argument"@) && new == old
    } else if path_fault(arg, "FROM:"@) is Some {
        is_syntax_error(r, from_fault_message(path_fault(arg, "FROM:"@)->0)) && new == old
    } else if address_fault(a) is Some {
        is_address_error(r, address_fault(a)->0) && new == old
    } else if byte_len(a) > SmtpLimits::PATH_MAX_LENGTH {
        &&& r matches Err(SmtpError::PathTooLong { max })
        &&& max == SmtpLimits::PATH_MAX_LENGTH
        &&& new == old
    } else {
        &&& r matches Ok(resp)
        &&& resp.is_plain("250"@, "OK"@)
        &&& new.state == SmtpState::MailReceived
        &&& new.from matches Some(sender)
        &&& sender@ == a
        &&& new.to@.len() == 0
        &&& new.data@.len() == 0
        &&& new.data_size == 0
        &&& !new.in_data_mode
        &&& new.client_domain == old.client_domain
    }
}

/// The outcome of `RCPT` with the arguments `args`.
pub open spec fn rcpt_post(
    args: Seq<Seq<char>>,
    old: SmtpSession,
    new: SmtpSession,
    r: Result<SmtpResponse, SmtpError>,
) -> bool {
    let arg = join_words(args);
    let a = path_address(arg, "TO:"@);
    if !can_execute(old.state, SmtpCommand::Rcpt) {
        is_state_error(r, "RCPT command requires MAIL first"@) && new == old
    } else if args.len() == 0 {
        is_syntax_error(r, "RCPT requires TO argument"@) && new == old
    } else if path_fault(arg, "TO:"@) is Some {
        is_syntax_error(r, to_fault_message(path_fault(arg, "TO:"@)->0)) && new == old
    } else if address_fault(a) is Some {
        is_address_error(r, address_fault(a)->0) && new == old
    } else if byte_len(a) > SmtpLimits::PATH_MAX_LENGTH {
        &&& r matches Err(SmtpError::PathTooLong { max })
        &&& max == SmtpLimits::PATH_MAX_LENGTH
        &&& new == old
    } else if old.to@.len() >= SmtpLimits::MAX_RECIPIENTS {
        &&& r matches Err(SmtpError::TooManyRecipients { max })
        &&& max == SmtpLimits::MAX_RECIPIENTS
        &&& new == old
    } else {
        &&& r matches Ok(resp)
        &&& resp.is_plain("250"@, "OK"@)
        &&& new.state == SmtpState::RecipientsReceived
        &&& new.to@.len() == old.to@.len() + 1
        &&& new.to@.drop_last() == old.to@
        &&& new.to@.last()@ == a
        &&& new.from == old.from
        &&& new.data == old.data
        &&& new.data_size == old.data_size
        &&& !new.in_data_mode
        &&& new.client_domain == old.client_domain
    }
}

/// The outcome of `DATA` with the arguments `args`.
pub open spec fn data_post(
    args: Seq<Seq<char>>,
    old: SmtpSession,
    new: SmtpSession,
    r: Result<SmtpResponse, SmtpError>,
) -> bool {
    if !can_execute(old.state, SmtpCommand::Data) {
        is_state_error(r, "DATA command requires RCPT first"@) && new == old
    } else if args.len() > 0 {
        is_syntax_error(r, "DATA command takes no arguments"@) && new == old
    } else {
        &&& r matches Ok(resp)
        &&& resp.is_plain("354"@, "End data with <CR><LF>.<CR><LF>"@)
        &&& new.state == SmtpState::DataMode
        &&& new.in_data_mode
        &&& new.data@.len() == 0
        &&& new.data_size == 0
        &&& new.from == old.from
        &&& new.to == old.to
        &&& new.client_domain == old.client_domain
    }
}

/// The outcome of `RSET`.
pub open spec fn rset_post(old: SmtpSession, new: SmtpSession, r: Result<SmtpResponse, SmtpError>) -> bool {
    if !can_execute(old.state, SmtpCommand::Rset) {
        is_state_error(r, "RSET command requires HELO first"@) && new == old
    } else {
        &&& r matches Ok(resp)
        &&& resp.is_plain("250"@, "OK"@)
        &&& old.after_reset(&new)
    }
}

/// The outcome of the command line `line`.
pub open spec fn command_post(
    host: Seq<char>,
    line: Seq<char>,
    old: SmtpSession,
    new: SmtpSession,
    r: Result<SmtpResponse, SmtpError>,
) -> bool {
    let words = tokens(line);
    let args = words.skip(1);
    if byte_len(line) > SmtpLimits::COMMAND_LINE_MAX_LENGTH {
        &&& r matches Err(SmtpError::LineTooLong { max })
        &&& max == SmtpLimits::COMMAND_LINE_MAX_LENGTH
        &&& new == old
    } else if words.len() == 0 || verb_of(words[0]) is None {
        r matches Err(SmtpError::InvalidCommand) && new == old
    } else {
        match verb_of(words[0])->0 {
            SmtpCommand::Helo => helo_post(host, args, false, old, new, r),
            SmtpCommand::Ehlo => helo_post(host, args, true, old, new, r),
            SmtpCommand::Mail => mail_post(args, old, new, r),
            SmtpCommand::Rcpt => rcpt_post(args, old, new, r),
            SmtpCommand::Data => data_post(args, old, new, r),
            SmtpCommand::Rset => rset_post(old, new, r),
            SmtpCommand::Noop => r matches Ok(resp) && resp.is_plain("250"@, "OK"@) && new == old,
            SmtpCommand::Quit => r matches Ok(resp) && resp.is_plain("221"@, "Bye"@) && new == old,
        }
    }
}

/// A command out of order is refused with `InvalidState`, reported with
/// code 503, and leaves the session as it was, outside the data phase: `MAIL` before a greeting,
/// `RCPT` before `MAIL`, and `DATA` before any recipient.
pub proof fn lemma_out_of_order_refused(
    host: Seq<char>,
    line: Seq<char>,
    old: SmtpSession,
    new: SmtpSession,
    r: Result<SmtpResponse, SmtpError>,
)
    requires
        old.wf(),
        byte_len(line) <= SmtpLimits::COMMAND_LINE_MAX_LENGTH,
        tokens(line).len() > 0,
        (verb_of(tokens(line)[0]) == Some(SmtpCommand::Mail) && old.state == SmtpState::Initial)
            || (verb_of(tokens(line)[0]) == Some(SmtpCommand::Rcpt) && (old.state
            == SmtpState::Initial || old.state == SmtpState::GreetingReceived)) || (verb_of(
            tokens(line)[0],
        ) == Some(SmtpCommand::Data) && old.to@.len() == 0),
        command_post(host, line, old, new, r),
    ensures
        r matches Err(e) && e is InvalidState,
        error_code(r->Err_0) == "503"@,
        new == old,
        !new.in_data_mode,
{
}

/// Words from index `from` on, joined by single spaces.
fn join_from(words: &Vec<&str>, from: usize) -> (r: String)
    requires
        from <= words@.len(),
    ensures
        r@ == join_words(str_views(words@).skip(from as int)),
{
    let ghost views = str_views(words@).skip(from as int);
    let mut out = String::new();
    let n = words.len();
    let mut i = from;
    while i < n
        invariant
            n == words@.len(),
            from <= i <= n,
            views == str_views(words@).skip(from as int),
            out@ == join_words(views.take(i - from)),
        decreases n - i,
    {
        if i > from {
            out.append(" ");
        }
        out.append(words[i]);
        proof {
            let next = views.take(i - from + 1);
            assert(next.drop_last() =~= views.take(i - from));
            assert(next.last() == words@[i as int]@);
            if i == from {
                assert(out@ =~= next[0]);
            }
        }
        i = i + 1;
    }
    assert(views.take(n - from) =~= views);
    out
}

/// Reads the address out of a path argument such as `FROM:<a@b>`.
pub fn parse_path(arg: &str, keyword: &str) -> (r: Result<String, PathFault>)
    ensures
        path_fault(arg@, keyword@) matches Some(f) ==> r == Err::<String, PathFault>(f),
        path_fault(arg@, keyword@) is None ==> (r matches Ok(a) && a@ == path_address(
            arg@,
            keyword@,
        )),
{
    let chars = chars_of(arg);
    let k = keyword.unicode_len();
    if chars.len() < k || !matches_word(&chars, 0, k, keyword) {
        return Err(PathFault::Keyword);
    }
    let rest = arg.substring_char(k, chars.len());
    let rest_chars = chars_of(rest);
    assert(rest@ == arg@.skip(k as int));
    let (lo, hi) = trim_range(&rest_chars);
    if lo >= hi || hi - lo < 2 || rest_chars[lo] != '<' || rest_chars[hi - 1] != '>' {
        return Err(PathFault::Brackets);
    }
    let ghost t = rest_chars@.subrange(lo as int, hi as int);
    assert(t.subrange(1, t.len() - 1) =~= rest_chars@.subrange(lo + 1, hi - 1));
    if contains_char(&rest_chars, '<', lo + 1, hi - 1) || contains_char(
        &rest_chars,
        '>',
        lo + 1,
        hi - 1,
    ) {
        return Err(PathFault::Brackets);
    }
    if hi - lo == 2 {
        return Err(PathFault::Empty);
    }
    Ok(rest.substring_char(lo + 1, hi - 1).to_owned())
}

/// The text of the syntax error for a refused sender path.
fn from_fault_text(f: PathFault) -> (r: String)
    ensures
        r@ == from_fault_message(f),
{
    match f {
        PathFault::Keyword => String::from_str("MAIL command must be 'MAIL FROM:<address>'"),
        PathFault::Brackets => String::from_str("FROM address must be enclosed in angle brackets"),
        PathFault::Empty => String::from_str("FROM address cannot be empty"),
    }
}

/// The text of the syntax error for a refused recipient path.
fn to_fault_text(f: PathFault) -> (r: String)
    ensures
        r@ == to_fault_message(f),
{
    match f {
        PathFault::Keyword => String::from_str("RCPT command must be 'RCPT TO:<address>'"),
        PathFault::Brackets => String::from_str("TO address must be enclosed in angle brackets"),
        PathFault::Empty => String::from_str("TO address cannot be empty"),
    }
}

/// Handles the protocol's commands against a session.
#[derive(Debug)]
pub struct SmtpCommandHandler<'a> {
    hostname: &'a str,
}

impl<'a> SmtpCommandHandler<'a> {
    /// The server's host name, given in greeting replies.
    pub closed spec fn host(&self) -> Seq<char> {
        self.hostname@
    }

    /// A handler for a server named `hostname`.
    pub fn new(hostname: &'a str) -> (r: Self)
        ensures
            r.host() == hostname@,
    {
        SmtpCommandHandler { hostname }
    }

    /// Runs one command line against `session`.
    pub fn process_command(&self, command_line: &str, session: &mut SmtpSession) -> (r: Result<
        SmtpResponse,
        SmtpError,
    >)
        ensures
            command_post(self.host(), command_line@, *old(session), *final(session), r),
            old(session).wf() ==> final(session).wf(),
    {
        if str_byte_len(command_line) > SmtpLimits::COMMAND_LINE_MAX_LENGTH {
            return Err(SmtpError::LineTooLong { max: SmtpLimits::COMMAND_LINE_MAX_LENGTH });
        }
        let parts = split_words(command_line);
        if parts.len() == 0 {
            return Err(SmtpError::InvalidCommand);
        }
        let verb_chars = chars_of(parts[0]);
        let verb = parse_verb(&verb_chars, 0, verb_chars.len());
        proof {
            assert(verb_chars@.subrange(0, verb_chars@.len() as int) =~= str_views(parts@)[0]);
        }
        match verb {
            Some(SmtpCommand::Helo) => self.handle_helo(parts, false, session),
            Some(SmtpCommand::Ehlo) => self.handle_helo(parts, true, session),
            Some(SmtpCommand::Mail) => self.handle_mail(parts, session),
            Some(SmtpCommand::Rcpt) => self.handle_rcpt(parts, session),
            Some(SmtpCommand::Data) => self.handle_data(parts, session),
            Some(SmtpCommand::Rset) => self.handle_rset(session),
            Some(SmtpCommand::Noop) => self.handle_noop(),
            Some(SmtpCommand::Quit) => self.handle_quit(),
            None => Err(SmtpError::InvalidCommand),
        }
    }

    /// Handles a greeting: `HELO`, or `EHLO` when `extended`.
    fn handle_helo(&self, parts: Vec<&str>, extended: bool, session: &mut SmtpSession) -> (r:
        Result<SmtpResponse, SmtpError>)
        requires
            parts@.len() >= 1,
        ensures
            helo_post(
                self.host(),
                str_views(parts@).skip(1),
                extended,
                *old(session),
                *final(session),
                r,
            ),
            old(session).wf() ==> final(session).wf(),
    {
        if parts.len() < 2 {
            let msg = if extended {
                "EHLO requires domain argument"
            } else {
                "HELO requires domain argument"
            };
            return Err(SmtpError::InvalidSyntax(String::from_str(msg)));
        }
        if parts.len() > 2 {
            let msg = if extended {
                "EHLO takes exactly one domain argument"
            } else {
                "HELO takes exactly one domain argument"
            };
            return Err(SmtpError::InvalidSyntax(String::from_str(msg)));
        }
        let client_domain = parts[1];
        match session.set_client_domain(client_domain.to_owned()) {
            Ok(()) => {},
            Err(e) => {
                return Err(e);
            },
        }
        if extended {
            Ok(SmtpResponse::ehlo(self.hostname, client_domain))
        } else {
            Ok(SmtpResponse::helo(self.hostname, client_domain))
        }
    }

    /// Handles `MAIL FROM:<address>`.
    fn handle_mail(&self, parts: Vec<&str>, session: &mut SmtpSession) -> (r: Result<
        SmtpResponse,
        SmtpError,
    >)
        requires
            parts@.len() >= 1,
        ensures
            mail_post(str_views(parts@).skip(1), *old(session), *final(session), r),
            old(session).wf() ==> final(session).wf(),
    {
        if !session.can_execute_verb(SmtpCommand::Mail) {
            return Err(SmtpError::InvalidState(String::from_str("MAIL command requires HELO first")));
        }
        if parts.len() < 2 {
            return Err(SmtpError::InvalidSyntax(String::from_str("MAIL requires FROM argument")));
        }
        let from_part = join_from(&parts, 1);
        let addr = match parse_path(from_part.as_str(), "FROM:") {
            Ok(a) => a,
            Err(f) => {
                return Err(SmtpError::InvalidSyntax(from_fault_text(f)));
            },
        };
        match self.validate_email_address(addr.as_str()) {
            Ok(()) => {},
            Err(e) => {
                return Err(e);
            },
        }
        match session.set_sender(addr) {
            Ok(()) => Ok(SmtpResponse::ok()),
            Err(e) => Err(e),
        }
    }

    /// Handles `RCPT TO:<address>`.
    fn handle_rcpt(&self, parts: Vec<&str>, session: &mut SmtpSession) -> (r: Result<
        SmtpResponse,
        SmtpError,
    >)
        requires
            parts@.len() >= 1,
        ensures
            rcpt_post(str_views(parts@).skip(1), *old(session), *final(session), r),
            old(session).wf() ==> final(session).wf(),
    {
        if !session.can_execute_verb(SmtpCommand::Rcpt) {
            return Err(SmtpError::InvalidState(String::from_str("RCPT command requires MAIL first")));
        }
        if parts.len() < 2 {
            return Err(SmtpError::InvalidSyntax(String::from_str("RCPT requires TO argument")));
        }
        let to_part = join_from(&parts, 1);
        let addr = match parse_path(to_part.as_str(), "TO:") {
            Ok(a) => a,
            Err(f) => {
                return Err(SmtpError::InvalidSyntax(to_fault_text(f)));
            },
        };
        match self.validate_email_address(addr.as_str()) {
            Ok(()) => {},
            Err(e) => {
                return Err(e);
            },
        }
        let ghost before = session.to@;
        match session.add_recipient(addr) {
            Ok(()) => {
                assert(session.to@.drop_last() =~= before);
                Ok(SmtpResponse::ok())
            },
            Err(e) => Err(e),
        }
    }

    /// Handles `DATA`.
    fn handle_data(&self, parts: Vec<&str>, session: &mut SmtpSession) -> (r: Result<
        SmtpResponse,
        SmtpError,
    >)
        requires
            parts@.len() >= 1,
        ensures
            data_post(str_views(parts@).skip(1), *old(session), *final(session), r),
            old(session).wf() ==> final(session).wf(),
    {
        if !session.can_execute_verb(SmtpCommand::Data) {
            return Err(SmtpError::InvalidState(String::from_str("DATA command requires RCPT first")));
        }
        if parts.len() > 1 {
            return Err(SmtpError::InvalidSyntax(String::from_str("DATA command takes no arguments")));
        }
        match session.start_data_mode() {
            Ok(()) => Ok(SmtpResponse::data_start()),
            Err(e) => Err(e),
        }
    }

    /// Handles `RSET`.
    fn handle_rset(&self, session: &mut SmtpSession) -> (r: Result<SmtpResponse, SmtpError>)
        ensures
            rset_post(*old(session), *final(session), r),
            old(session).wf() ==> final(session).wf(),
    {
        if !session.can_execute_verb(SmtpCommand::Rset) {
            return Err(SmtpError::InvalidState(String::from_str("RSET command requires HELO first")));
        }
        session.reset();
        Ok(SmtpResponse::ok())
    }

    /// Handles `NOOP`.
    fn handle_noop(&self) -> (r: Result<SmtpResponse, SmtpError>)
        ensures
            r matches Ok(resp) && resp.is_plain("250"@, "OK"@),
    {
        Ok(SmtpResponse::ok())
    }

    /// Handles `QUIT`.
    fn handle_quit(&self) -> (r: Result<SmtpResponse, SmtpError>)
        ensures
            r matches Ok(resp) && resp.is_plain("221"@, "Bye"@),
    {
        Ok(SmtpResponse::quit())
    }

    /// Checks that `addr` holds exactly one `@`, with a user name and a
    /// domain of allowed length on either side of it.
    pub fn validate_email_address(&self, addr: &str) -> (r: Result<(), SmtpError>)
        ensures
            address_fault(addr@) is None ==> r is Ok,
            address_fault(addr@) matches Some(f) ==> is_address_error(r, f),
    {
        let chars = chars_of(addr);
        let n = chars.len();
        let at = find_char(&chars, '@', 0);
        if at == n {
            return Err(SmtpError::InvalidSyntax(String::from_str("Email address must contain @ symbol")));
        }
        let user = addr.substring_char(0, at);
        let domain = addr.substring_char(at + 1, n);
        assert(user@ == addr@.take(at as int));
        assert(domain@ == addr@.skip(at + 1));
        if str_byte_len(user) > SmtpLimits::USER_MAX_LENGTH {
            return Err(SmtpError::UserTooLong { max: SmtpLimits::USER_MAX_LENGTH });
        }
        if str_byte_len(domain) > SmtpLimits::DOMAIN_MAX_LENGTH {
            return Err(SmtpError::DomainTooLong { max: SmtpLimits::DOMAIN_MAX_LENGTH });
        }
        let second = find_char(&chars, '@', at + 1);
        proof {
            if second < n {
                assert(domain@[second - at - 1] == '@');
            }
            if domain@.contains('@') {
                let j = choose|j: int| 0 <= j < domain@.len() && domain@[j] == '@';
                lemma_find_from_first(chars@, '@', at + 1, at + 1 + j);
            }
        }
        if at == 0 || at + 1 == n || second < n {
            return Err(SmtpError::InvalidSyntax(String::from_str("Invalid email address format")));
        }
        Ok(())
    }
}

/// `find_from` stops no later than any index at or after `i` that holds `c`.
pub proof fn lemma_find_from_first(s: Seq<char>, c: char, i: int, j: int)
    requires
        0 <= i <= j < s.len(),
        s[j] == c,
    ensures
        find_from(s, c, i) <= j,
    decreases j - i,
{
    if s[i] != c {
        lemma_find_from_first(s, c, i + 1, j);
    }
}

} // verus!
