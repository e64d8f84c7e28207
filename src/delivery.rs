//! What a well-formed transaction on a connection produces: the laws that
//! tie the line handler's outcomes together over a whole exchange.

use vstd::prelude::*;

use crate::commands::{address_fault, path_address, path_fault, verb_of, SmtpCommand};
use crate::error::{error_code, SmtpError, SmtpLimits};
use crate::response::string_views;
use crate::server::{line_post, line_text, LineOutcome};
use crate::session::{accounted_size, join_lines, line_cost, SmtpSession, SmtpState};
use crate::text::{
    byte_len, eq_ignore_case, find_from, is_space, join_words, lemma_byte_len_ascii,
    lemma_byte_len_concat, lemma_tokens_one, lemma_tokens_two, lemma_trim_crlf, space_end,
    space_start, tokens, trim,
};

verus! {

/// A non-empty run of characters other than white space.
pub open spec fn is_word(w: Seq<char>) -> bool {
    &&& w.len() > 0
    &&& forall|k: int| 0 <= k < w.len() ==> !is_space(#[trigger] w[k])
}

/// A domain a client may greet with.
pub open spec fn is_client_domain(d: Seq<char>) -> bool {
    is_word(d) && byte_len(d) <= SmtpLimits::DOMAIN_MAX_LENGTH
}

/// An address that the path syntax and the address rules accept: a word
/// without angle brackets that holds one `@` between parts of allowed length.
pub open spec fn is_address(a: Seq<char>) -> bool {
    &&& is_word(a)
    &&& !a.contains('<')
    &&& !a.contains('>')
    &&& address_fault(a) is None
}

/// `w` followed by CRLF.
pub open spec fn crlf(w: Seq<char>) -> Seq<char> {
    w + "\r\n"@
}

/// The greeting line.
pub open spec fn helo_line(domain: Seq<char>) -> Seq<char> {
    crlf("HELO"@ + " "@ + domain)
}

/// The line that gives the sender.
pub open spec fn mail_line(sender: Seq<char>) -> Seq<char> {
    crlf("MAIL"@ + " "@ + ("FROM:"@ + "<"@ + sender + ">"@))
}

/// The line that gives a recipient.
pub open spec fn rcpt_line(recipient: Seq<char>) -> Seq<char> {
    crlf("RCPT"@ + " "@ + ("TO:"@ + "<"@ + recipient + ">"@))
}

/// A command line that says only `verb`.
pub open spec fn verb_line(verb: Seq<char>) -> Seq<char> {
    crlf(verb)
}

/// Reply, message and close flag of a line that moves the exchange on.
pub open spec fn quiet(r: LineOutcome) -> bool {
    &&& r.email is None
    &&& !r.close
    &&& (r.reply is None || (r.reply matches Some(Ok(_))))
}

/// Session with the client greeted as `domain` and a transaction open from
/// `sender` to the recipients `done`.
pub open spec fn in_transaction(
    s: SmtpSession,
    domain: Seq<char>,
    sender: Seq<char>,
    done: Seq<Seq<char>>,
) -> bool {
    &&& !s.in_data_mode
    &&& s.state == if done.len() == 0 {
        SmtpState::MailReceived
    } else {
        SmtpState::RecipientsReceived
    }
    &&& s.from matches Some(f) && f@ == sender
    &&& string_views(s.to@) == done
    &&& s.data@.len() == 0
    &&& s.data_size == 0
    &&& s.client_domain matches Some(d) && d@ == domain
}

proof fn lemma_verbs()
    ensures
        verb_of("HELO"@) == Some(SmtpCommand::Helo),
        verb_of("MAIL"@) == Some(SmtpCommand::Mail),
        verb_of("RCPT"@) == Some(SmtpCommand::Rcpt),
        verb_of("DATA"@) == Some(SmtpCommand::Data),
        verb_of("RSET"@) == Some(SmtpCommand::Rset),
{
    reveal_strlit("RSET");
    reveal_strlit("HELO");
    reveal_strlit("EHLO");
    reveal_strlit("MAIL");
    reveal_strlit("RCPT");
    reveal_strlit("DATA");
    assert(!eq_ignore_case("MAIL"@, "HELO"@) && !eq_ignore_case("MAIL"@, "EHLO"@)) by {
        assert(crate::text::ascii_upper("MAIL"@[0]) != crate::text::ascii_upper("HELO"@[0]));
        assert(crate::text::ascii_upper("MAIL"@[0]) != crate::text::ascii_upper("EHLO"@[0]));
    }
    assert(!eq_ignore_case("RCPT"@, "HELO"@) && !eq_ignore_case("RCPT"@, "EHLO"@)
        && !eq_ignore_case("RCPT"@, "MAIL"@)) by {
        assert(crate::text::ascii_upper("RCPT"@[0]) != crate::text::ascii_upper("HELO"@[0]));
        assert(crate::text::ascii_upper("RCPT"@[0]) != crate::text::ascii_upper("EHLO"@[0]));
        assert(crate::text::ascii_upper("RCPT"@[0]) != crate::text::ascii_upper("MAIL"@[0]));
    }
    assert(!eq_ignore_case("DATA"@, "HELO"@) && !eq_ignore_case("DATA"@, "EHLO"@)
        && !eq_ignore_case("DATA"@, "MAIL"@) && !eq_ignore_case("DATA"@, "RCPT"@)) by {
        assert(crate::text::ascii_upper("DATA"@[0]) != crate::text::ascii_upper("HELO"@[0]));
        assert(crate::text::ascii_upper("DATA"@[0]) != crate::text::ascii_upper("EHLO"@[0]));
        assert(crate::text::ascii_upper("DATA"@[0]) != crate::text::ascii_upper("MAIL"@[0]));
        assert(crate::text::ascii_upper("DATA"@[0]) != crate::text::ascii_upper("RCPT"@[0]));
    }
    assert(!eq_ignore_case("RSET"@, "HELO"@) && !eq_ignore_case("RSET"@, "EHLO"@)
        && !eq_ignore_case("RSET"@, "MAIL"@) && !eq_ignore_case("RSET"@, "RCPT"@)
        && !eq_ignore_case("RSET"@, "DATA"@)) by {
        assert(crate::text::ascii_upper("RSET"@[0]) != crate::text::ascii_upper("HELO"@[0]));
        assert(crate::text::ascii_upper("RSET"@[0]) != crate::text::ascii_upper("EHLO"@[0]));
        assert(crate::text::ascii_upper("RSET"@[0]) != crate::text::ascii_upper("MAIL"@[0]));
        assert(crate::text::ascii_upper("RSET"@[1]) != crate::text::ascii_upper("RCPT"@[1]));
        assert(crate::text::ascii_upper("RSET"@[0]) != crate::text::ascii_upper("DATA"@[0]));
    }
}

/// The greeting line greets with `domain` and opens no transaction.
pub proof fn lemma_helo_step(
    host: Seq<char>,
    domain: Seq<char>,
    old: SmtpSession,
    new: SmtpSession,
    r: LineOutcome,
)
    requires
        is_client_domain(domain),
        !old.in_data_mode,
        line_post(host, helo_line(domain), old, new, r),
    ensures
        quiet(r),
        new.state == SmtpState::GreetingReceived,
        new.no_transaction(),
        new.client_domain matches Some(d) && d@ == domain,
{
    reveal_strlit("HELO");
    reveal_strlit(" ");
    reveal_strlit("250");
    reveal_strlit("221");
    let w = "HELO"@ + " "@ + domain;
    assert(w[0] == 'H');
    assert(w.last() == domain.last());
    lemma_trim_crlf(w);
    lemma_tokens_two("HELO"@, domain);
    lemma_verbs();
    lemma_byte_len_concat("HELO"@ + " "@, domain);
    lemma_byte_len_ascii("HELO"@ + " "@);
    assert(tokens(w).skip(1) =~= seq![domain]);
    assert("250"@[0] != "221"@[1] || "250"@ != "221"@);
}

/// Session in the data phase of a transaction from `sender` to `rcpts`,
/// with the lines `got` collected so far.
pub open spec fn collecting(
    s: SmtpSession,
    domain: Seq<char>,
    sender: Seq<char>,
    rcpts: Seq<Seq<char>>,
    got: Seq<Seq<char>>,
) -> bool {
    &&& s.in_data_mode
    &&& s.state == SmtpState::DataMode
    &&& s.from matches Some(f) && f@ == sender
    &&& string_views(s.to@) == rcpts
    &&& string_views(s.data@) == got
    &&& s.data_size == accounted_size(got)
    &&& s.client_domain matches Some(d) && d@ == domain
}

/// An accepted address takes at most 129 bytes: two parts of at most 64
/// bytes and the `@` between them.
pub proof fn lemma_address_byte_len(a: Seq<char>)
    requires
        address_fault(a) is None,
    ensures
        byte_len(a) <= 2 * SmtpLimits::USER_MAX_LENGTH + 1,
{
    let k = find_from(a, '@', 0);
    crate::text::lemma_find_from(a, '@', 0);
    let user = a.take(k);
    let domain = a.skip(k + 1);
    assert(a =~= user + seq!['@'] + domain);
    lemma_byte_len_concat(user + seq!['@'], domain);
    lemma_byte_len_concat(user, seq!['@']);
    lemma_byte_len_ascii(seq!['@']);
}

/// `trim` leaves text that neither begins nor ends with white space.
proof fn lemma_trim_plain(t: Seq<char>)
    requires
        t.len() > 0,
        !is_space(t[0]),
        !is_space(t.last()),
    ensures
        trim(t) == t,
{
    assert(space_end(t, 0) == 0);
    assert(space_start(t, t.len() as int) == t.len());
    assert(t.subrange(0, t.len() as int) =~= t);
}

/// The path argument `kw<a>`, with no angle brackets in `a`, is accepted
/// and yields `a`.
pub proof fn lemma_path(kw: Seq<char>, a: Seq<char>)
    requires
        a.len() > 0,
        !a.contains('<'),
        !a.contains('>'),
    ensures
        path_fault(kw + "<"@ + a + ">"@, kw) is None,
        path_address(kw + "<"@ + a + ">"@, kw) == a,
{
    reveal_strlit("<");
    reveal_strlit(">");
    let x = kw + "<"@ + a + ">"@;
    let t = "<"@ + a + ">"@;
    assert(x.take(kw.len() as int) =~= kw);
    assert(x.skip(kw.len() as int) =~= t);
    assert(t[0] == '<');
    assert(t.last() == '>');
    assert(t.subrange(1, t.len() - 1) =~= a);
    lemma_trim_plain(t);
}

/// A keyword, `<`, a word and `>` make a word.
proof fn lemma_path_word(kw: Seq<char>, a: Seq<char>)
    requires
        is_word(kw),
        is_word(a),
    ensures
        is_word(kw + "<"@ + a + ">"@),
{
    reveal_strlit("<");
    reveal_strlit(">");
    let x = kw + "<"@ + a + ">"@;
    assert forall|k: int| 0 <= k < x.len() implies !is_space(#[trigger] x[k]) by {
        if k < kw.len() {
            assert(x[k] == kw[k]);
        } else if k == kw.len() {
            assert(x[k] == '<');
        } else if k < kw.len() + 1 + a.len() {
            assert(x[k] == a[k - kw.len() - 1]);
        } else {
            assert(x[k] == '>');
        }
    }
}

/// The line that gives the sender opens a transaction from `sender`.
pub proof fn lemma_mail_step(
    host: Seq<char>,
    domain: Seq<char>,
    sender: Seq<char>,
    old: SmtpSession,
    new: SmtpSession,
    r: LineOutcome,
)
    requires
        is_address(sender),
        !old.in_data_mode,
        old.state == SmtpState::GreetingReceived,
        old.client_domain matches Some(d) && d@ == domain,
        line_post(host, mail_line(sender), old, new, r),
    ensures
        quiet(r),
        in_transaction(new, domain, sender, Seq::empty()),
{
    reveal_strlit("MAIL");
    reveal_strlit(" ");
    reveal_strlit("FROM:");
    reveal_strlit("<");
    reveal_strlit(">");
    reveal_strlit("250");
    reveal_strlit("221");
    let x = "FROM:"@ + "<"@ + sender + ">"@;
    let w = "MAIL"@ + " "@ + x;
    assert(is_word("FROM:"@));
    lemma_path_word("FROM:"@, sender);
    assert(w[0] == 'M');
    assert(w.last() == '>');
    lemma_trim_crlf(w);
    lemma_tokens_two("MAIL"@, x);
    lemma_verbs();
    lemma_path("FROM:"@, sender);
    lemma_address_byte_len(sender);
    assert(w =~= "MAIL"@ + " "@ + "FROM:"@ + "<"@ + sender + ">"@);
    lemma_byte_len_concat("MAIL"@ + " "@ + "FROM:"@ + "<"@ + sender, ">"@);
    lemma_byte_len_concat("MAIL"@ + " "@ + "FROM:"@ + "<"@, sender);
    lemma_byte_len_ascii("MAIL"@ + " "@ + "FROM:"@ + "<"@);
    lemma_byte_len_ascii(">"@);
    assert(tokens(w).skip(1) =~= seq![x]);
    assert(join_words(seq![x]) == x);
    assert(string_views(new.to@) =~= Seq::<Seq<char>>::empty());
    assert("250"@[0] != "221"@[1] || "250"@ != "221"@);
}

/// How the line that gives `recipient` is read: the command `RCPT` with the
/// one argument `TO:<recipient>`, which yields `recipient`.
proof fn lemma_rcpt_line(recipient: Seq<char>)
    requires
        is_address(recipient),
    ensures
        ({
            let x = "TO:"@ + "<"@ + recipient + ">"@;
            let w = "RCPT"@ + " "@ + x;
            &&& trim(rcpt_line(recipient)) == w
            &&& w.len() > 0
            &&& byte_len(w) <= SmtpLimits::COMMAND_LINE_MAX_LENGTH
            &&& tokens(w).len() == 2
            &&& verb_of(tokens(w)[0]) == Some(SmtpCommand::Rcpt)
            &&& tokens(w).skip(1) == seq![x]
            &&& join_words(seq![x]) == x
            &&& path_fault(x, "TO:"@) is None
            &&& path_address(x, "TO:"@) == recipient
            &&& byte_len(recipient) <= SmtpLimits::PATH_MAX_LENGTH
        }),
{
    reveal_strlit("RCPT");
    reveal_strlit(" ");
    reveal_strlit("TO:");
    reveal_strlit("<");
    reveal_strlit(">");
    let x = "TO:"@ + "<"@ + recipient + ">"@;
    let w = "RCPT"@ + " "@ + x;
    assert(is_word("TO:"@));
    lemma_path_word("TO:"@, recipient);
    assert(w[0] == 'R');
    assert(w.last() == '>');
    lemma_trim_crlf(w);
    lemma_tokens_two("RCPT"@, x);
    lemma_verbs();
    lemma_path("TO:"@, recipient);
    lemma_address_byte_len(recipient);
    assert(w =~= "RCPT"@ + " "@ + "TO:"@ + "<"@ + recipient + ">"@);
    lemma_byte_len_concat("RCPT"@ + " "@ + "TO:"@ + "<"@ + recipient, ">"@);
    lemma_byte_len_concat("RCPT"@ + " "@ + "TO:"@ + "<"@, recipient);
    lemma_byte_len_ascii("RCPT"@ + " "@ + "TO:"@ + "<"@);
    lemma_byte_len_ascii(">"@);
    assert(tokens(w).skip(1) =~= seq![x]);
}

/// The line that gives a recipient adds it to the transaction.
pub proof fn lemma_rcpt_step(
    host: Seq<char>,
    domain: Seq<char>,
    sender: Seq<char>,
    done: Seq<Seq<char>>,
    recipient: Seq<char>,
    old: SmtpSession,
    new: SmtpSession,
    r: LineOutcome,
)
    requires
        is_address(recipient),
        done.len() < SmtpLimits::MAX_RECIPIENTS,
        in_transaction(old, domain, sender, done),
        line_post(host, rcpt_line(recipient), old, new, r),
    ensures
        quiet(r),
        in_transaction(new, domain, sender, done.push(recipient)),
{
    reveal_strlit("250");
    reveal_strlit("221");
    lemma_rcpt_line(recipient);
    assert(old.to@.len() == done.len());
    assert(string_views(new.to@) =~= done.push(recipient)) by {
        assert(new.to@ =~= new.to@.drop_last().push(new.to@.last()));
    }
    assert("250"@[0] != "221"@[1] || "250"@ != "221"@);
}

/// Once 100 recipients are given, the line that gives another one is
/// refused with `TooManyRecipients`, reported with code 552, and the
/// session, its 100 recipients included, stays as it was.
pub proof fn lemma_recipient_limit(
    host: Seq<char>,
    domain: Seq<char>,
    sender: Seq<char>,
    done: Seq<Seq<char>>,
    recipient: Seq<char>,
    old: SmtpSession,
    new: SmtpSession,
    r: LineOutcome,
)
    requires
        is_address(recipient),
        done.len() == SmtpLimits::MAX_RECIPIENTS,
        in_transaction(old, domain, sender, done),
        line_post(host, rcpt_line(recipient), old, new, r),
    ensures
        r.reply matches Some(Err(e)) && e == (SmtpError::TooManyRecipients {
            max: SmtpLimits::MAX_RECIPIENTS,
        }),
        error_code(r.reply->0->Err_0) == "552"@,
        r.email is None,
        !r.close,
        new == old,
        new.to@.len() == SmtpLimits::MAX_RECIPIENTS,
{
    lemma_rcpt_line(recipient);
    assert(old.to@.len() == done.len());
}

/// `DATA` after at least one recipient opens the data phase.
pub proof fn lemma_data_step(
    host: Seq<char>,
    domain: Seq<char>,
    sender: Seq<char>,
    rcpts: Seq<Seq<char>>,
    old: SmtpSession,
    new: SmtpSession,
    r: LineOutcome,
)
    requires
        rcpts.len() > 0,
        in_transaction(old, domain, sender, rcpts),
        line_post(host, verb_line("DATA"@), old, new, r),
    ensures
        quiet(r),
        collecting(new, domain, sender, rcpts, Seq::empty()),
{
    reveal_strlit("DATA");
    reveal_strlit("354");
    reveal_strlit("221");
    let w = "DATA"@;
    assert(is_word(w));
    lemma_trim_crlf(w);
    lemma_tokens_one(w);
    lemma_verbs();
    lemma_byte_len_ascii(w);
    assert(tokens(w).skip(1) =~= Seq::<Seq<char>>::empty());
    assert(string_views(new.data@) =~= Seq::<Seq<char>>::empty());
    assert("354"@[0] != "221"@[0]);
}

/// A data line within the limits is collected.
pub proof fn lemma_body_step(
    host: Seq<char>,
    domain: Seq<char>,
    sender: Seq<char>,
    rcpts: Seq<Seq<char>>,
    got: Seq<Seq<char>>,
    line: Seq<char>,
    old: SmtpSession,
    new: SmtpSession,
    r: LineOutcome,
)
    requires
        line != seq!['.'],
        line_cost(line) <= SmtpLimits::TEXT_LINE_MAX_LENGTH,
        accounted_size(got) + line_cost(line) <= SmtpLimits::MAX_DATA_SIZE,
        collecting(old, domain, sender, rcpts, got),
        line_post(host, crlf(line), old, new, r),
    ensures
        quiet(r),
        collecting(new, domain, sender, rcpts, got.push(line)),
{
    reveal_strlit("\r\n");
    assert(line_text(crlf(line)) =~= line);
    assert(string_views(new.data@) =~= got.push(line)) by {
        assert(new.data@ =~= new.data@.drop_last().push(new.data@.last()));
    }
    assert(got.push(line).drop_last() =~= got);
}

/// The end marker completes the message: from the sender, to the
/// recipients, with the collected lines joined by newlines.
pub proof fn lemma_dot_step(
    host: Seq<char>,
    domain: Seq<char>,
    sender: Seq<char>,
    rcpts: Seq<Seq<char>>,
    got: Seq<Seq<char>>,
    old: SmtpSession,
    new: SmtpSession,
    r: LineOutcome,
)
    requires
        rcpts.len() > 0,
        collecting(old, domain, sender, rcpts, got),
        line_post(host, crlf("."@), old, new, r),
    ensures
        !r.close,
        r.reply matches Some(Ok(resp)) && resp.is_plain("250"@, "OK"@),
        r.email matches Some(e) && e.from@ == sender && string_views(e.to@) == rcpts
            && e.data@ == join_lines(got),
        new.state == SmtpState::GreetingReceived,
        new.no_transaction(),
        new.client_domain matches Some(d) && d@ == domain,
{
    reveal_strlit(".");
    reveal_strlit("\r\n");
    assert(line_text(crlf("."@)) =~= seq!['.']);
}

/// The outcome of line `k` of `lines`, handled in order.
pub open spec fn line_post_at(
    host: Seq<char>,
    lines: Seq<Seq<char>>,
    sessions: Seq<SmtpSession>,
    outcomes: Seq<LineOutcome>,
    k: int,
) -> bool {
    line_post(host, lines[k], sessions[k], sessions[k + 1], outcomes[k])
}

/// Handling `lines` one after the other on a server named `host` passes
/// through `sessions` (the session before each line, and after the last)
/// and yields `outcomes`.
pub open spec fn runs(
    host: Seq<char>,
    lines: Seq<Seq<char>>,
    sessions: Seq<SmtpSession>,
    outcomes: Seq<LineOutcome>,
) -> bool {
    &&& sessions.len() == lines.len() + 1
    &&& outcomes.len() == lines.len()
    &&& forall|k: int| 0 <= k < lines.len() ==> #[trigger] line_post_at(host, lines, sessions, outcomes, k)
}

/// The lines of one transaction once the client is greeted: sender,
/// recipients, `DATA`, the message lines and the end marker.
pub open spec fn mail_lines(
    sender: Seq<char>,
    rcpts: Seq<Seq<char>>,
    body: Seq<Seq<char>>,
) -> Seq<Seq<char>> {
    seq![mail_line(sender)] + rcpts.map_values(|a: Seq<char>| rcpt_line(a)) + seq![
        verb_line("DATA"@),
    ] + body.map_values(|b: Seq<char>| crlf(b)) + seq![crlf("."@)]
}

/// The lines of one complete transaction, greeting first.
pub open spec fn transaction_lines(
    domain: Seq<char>,
    sender: Seq<char>,
    rcpts: Seq<Seq<char>>,
    body: Seq<Seq<char>>,
) -> Seq<Seq<char>> {
    seq![helo_line(domain)] + mail_lines(sender, rcpts, body)
}

/// Message lines that stay within the line and total size limits and do not
/// end the data phase early.
pub open spec fn is_body(body: Seq<Seq<char>>) -> bool {
    &&& forall|i: int| 0 <= i < body.len() ==> #[trigger] body[i] != seq!['.']
    &&& forall|i: int| 0 <= i < body.len() ==> line_cost(#[trigger] body[i])
        <= SmtpLimits::TEXT_LINE_MAX_LENGTH
    &&& accounted_size(body) <= SmtpLimits::MAX_DATA_SIZE
}

/// The accounted size of a prefix is at most that of the whole.
pub proof fn lemma_accounted_prefix(s: Seq<Seq<char>>, j: int)
    requires
        0 <= j <= s.len(),
    ensures
        accounted_size(s.take(j)) <= accounted_size(s),
    decreases s.len() - j,
{
    if j < s.len() {
        assert(s.take(j + 1).drop_last() =~= s.take(j));
        lemma_accounted_prefix(s, j + 1);
    } else {
        assert(s.take(j) =~= s);
    }
}

proof fn lemma_rcpt_phase(
    host: Seq<char>,
    first: Seq<char>,
    domain: Seq<char>,
    sender: Seq<char>,
    rcpts: Seq<Seq<char>>,
    body: Seq<Seq<char>>,
    lines: Seq<Seq<char>>,
    sessions: Seq<SmtpSession>,
    outcomes: Seq<LineOutcome>,
    j: int,
)
    requires
        0 <= j <= rcpts.len() <= SmtpLimits::MAX_RECIPIENTS,
        forall|i: int| 0 <= i < rcpts.len() ==> is_address(#[trigger] rcpts[i]),
        lines == seq![first] + mail_lines(sender, rcpts, body),
        runs(host, lines, sessions, outcomes),
        in_transaction(sessions[2], domain, sender, Seq::empty()),
    ensures
        in_transaction(sessions[2 + j], domain, sender, rcpts.take(j)),
        forall|k: int| 2 <= k < 2 + j ==> quiet(#[trigger] outcomes[k]),
    decreases j,
{
    if j > 0 {
        lemma_rcpt_phase(host, first, domain, sender, rcpts, body, lines, sessions, outcomes, j - 1);
        let k = 1 + j;
        assert(line_post_at(host, lines, sessions, outcomes, k));
        assert(lines[k] == rcpt_line(rcpts[j - 1]));
        lemma_rcpt_step(
            host,
            domain,
            sender,
            rcpts.take(j - 1),
            rcpts[j - 1],
            sessions[k],
            sessions[k + 1],
            outcomes[k],
        );
        assert(rcpts.take(j - 1).push(rcpts[j - 1]) =~= rcpts.take(j));
    } else {
        assert(rcpts.take(0) =~= Seq::<Seq<char>>::empty());
    }
}

proof fn lemma_body_phase(
    host: Seq<char>,
    first: Seq<char>,
    domain: Seq<char>,
    sender: Seq<char>,
    rcpts: Seq<Seq<char>>,
    body: Seq<Seq<char>>,
    lines: Seq<Seq<char>>,
    sessions: Seq<SmtpSession>,
    outcomes: Seq<LineOutcome>,
    j: int,
)
    requires
        0 <= j <= body.len(),
        is_body(body),
        lines == seq![first] + mail_lines(sender, rcpts, body),
        runs(host, lines, sessions, outcomes),
        collecting(sessions[3 + rcpts.len() as int], domain, sender, rcpts, Seq::empty()),
    ensures
        collecting(sessions[3 + rcpts.len() as int + j], domain, sender, rcpts, body.take(j)),
        forall|k: int| 3 + rcpts.len() <= k < 3 + rcpts.len() as int + j ==> quiet(#[trigger] outcomes[k]),
    decreases j,
{
    if j > 0 {
        lemma_body_phase(host, first, domain, sender, rcpts, body, lines, sessions, outcomes, j - 1);
        let k = 2 + rcpts.len() as int + j;
        assert(line_post_at(host, lines, sessions, outcomes, k));
        assert(lines[k] == crlf(body[j - 1]));
        assert(body.take(j).drop_last() =~= body.take(j - 1));
        lemma_accounted_prefix(body, j);
        lemma_body_step(
            host,
            domain,
            sender,
            rcpts,
            body.take(j - 1),
            body[j - 1],
            sessions[k],
            sessions[k + 1],
            outcomes[k],
        );
        assert(body.take(j - 1).push(body[j - 1]) =~= body.take(j));
    } else {
        assert(body.take(0) =~= Seq::<Seq<char>>::empty());
    }
}

/// From a greeted, idle session, the lines of a transaction that follow
/// the first line deliver exactly one message, at the end marker.
proof fn lemma_mail_lines_deliver(
    host: Seq<char>,
    first: Seq<char>,
    domain: Seq<char>,
    sender: Seq<char>,
    rcpts: Seq<Seq<char>>,
    body: Seq<Seq<char>>,
    lines: Seq<Seq<char>>,
    sessions: Seq<SmtpSession>,
    outcomes: Seq<LineOutcome>,
)
    requires
        is_address(sender),
        1 <= rcpts.len() <= SmtpLimits::MAX_RECIPIENTS,
        forall|i: int| 0 <= i < rcpts.len() ==> is_address(#[trigger] rcpts[i]),
        is_body(body),
        lines == seq![first] + mail_lines(sender, rcpts, body),
        runs(host, lines, sessions, outcomes),
        !sessions[1].in_data_mode,
        sessions[1].state == SmtpState::GreetingReceived,
        sessions[1].client_domain matches Some(d) && d@ == domain,
    ensures
        forall|k: int| 1 <= k < lines.len() - 1 ==> quiet(#[trigger] outcomes[k]),
        !outcomes.last().close,
        outcomes.last().reply matches Some(Ok(resp)) && resp.is_plain("250"@, "OK"@),
        outcomes.last().email matches Some(e) && e.from@ == sender && string_views(e.to@)
            == rcpts && e.data@ == join_lines(body),
        sessions.last().state == SmtpState::GreetingReceived,
        sessions.last().no_transaction(),
        sessions.last().client_domain matches Some(d) && d@ == domain,
{
    let m = rcpts.len() as int;
    let b = body.len() as int;
    assert(lines.len() == 4 + m + b);
    assert(line_post_at(host, lines, sessions, outcomes, 1));
    assert(lines[1] == mail_line(sender));
    lemma_mail_step(host, domain, sender, sessions[1], sessions[2], outcomes[1]);
    lemma_rcpt_phase(host, first, domain, sender, rcpts, body, lines, sessions, outcomes, m);
    assert(rcpts.take(m) =~= rcpts);
    assert(line_post_at(host, lines, sessions, outcomes, 2 + m));
    assert(lines[2 + m] == verb_line("DATA"@));
    lemma_data_step(host, domain, sender, rcpts, sessions[2 + m], sessions[3 + m], outcomes[2 + m]);
    lemma_body_phase(host, first, domain, sender, rcpts, body, lines, sessions, outcomes, b);
    assert(body.take(b) =~= body);
    assert(line_post_at(host, lines, sessions, outcomes, 3 + m + b));
    assert(lines[3 + m + b] == crlf("."@));
    lemma_dot_step(
        host,
        domain,
        sender,
        rcpts,
        body,
        sessions[3 + m + b],
        sessions[4 + m + b],
        outcomes[3 + m + b],
    );
    assert forall|k: int| 1 <= k < lines.len() - 1 implies quiet(#[trigger] outcomes[k]) by {
        if k == 2 + m {
        } else if k < 2 {
        } else if k < 2 + m {
        } else {
        }
    }
}

/// A complete transaction delivers exactly one message: greeting, sender,
/// 1 to 100 recipients, `DATA`, message lines and the end marker produce no
/// message until the end marker, and that one is from the given sender, to
/// the given recipients in order, with the message lines joined by single
/// newlines. Every line before it is answered with success and nothing
/// closes the connection; afterwards the session is greeted and idle.
pub proof fn lemma_transaction_delivers_one_message(
    host: Seq<char>,
    domain: Seq<char>,
    sender: Seq<char>,
    rcpts: Seq<Seq<char>>,
    body: Seq<Seq<char>>,
    lines: Seq<Seq<char>>,
    sessions: Seq<SmtpSession>,
    outcomes: Seq<LineOutcome>,
)
    requires
        is_client_domain(domain),
        is_address(sender),
        1 <= rcpts.len() <= SmtpLimits::MAX_RECIPIENTS,
        forall|i: int| 0 <= i < rcpts.len() ==> is_address(#[trigger] rcpts[i]),
        is_body(body),
        lines == transaction_lines(domain, sender, rcpts, body),
        runs(host, lines, sessions, outcomes),
        !sessions[0].in_data_mode,
    ensures
        forall|k: int| 0 <= k < lines.len() - 1 ==> quiet(#[trigger] outcomes[k]),
        !outcomes.last().close,
        outcomes.last().reply matches Some(Ok(resp)) && resp.is_plain("250"@, "OK"@),
        outcomes.last().email matches Some(e) && e.from@ == sender && string_views(e.to@)
            == rcpts && e.data@ == join_lines(body),
        sessions.last().state == SmtpState::GreetingReceived,
        sessions.last().no_transaction(),
        sessions.last().client_domain matches Some(d) && d@ == domain,
{
    assert(line_post_at(host, lines, sessions, outcomes, 0));
    assert(lines[0] == helo_line(domain));
    lemma_helo_step(host, domain, sessions[0], sessions[1], outcomes[0]);
    lemma_mail_lines_deliver(
        host,
        helo_line(domain),
        domain,
        sender,
        rcpts,
        body,
        lines,
        sessions,
        outcomes,
    );
    assert forall|k: int| 0 <= k < lines.len() - 1 implies quiet(#[trigger] outcomes[k]) by {
        if k >= 1 {
        }
    }
}

/// `RSET` after a partial transaction (a sender, no recipients yet) drops
/// the sender and keeps the client's domain; a complete transaction that
/// follows on the same connection then delivers exactly its own message,
/// with nothing of the dropped one in it.
pub proof fn lemma_reset_then_transaction(
    host: Seq<char>,
    domain: Seq<char>,
    dropped_sender: Seq<char>,
    sender: Seq<char>,
    rcpts: Seq<Seq<char>>,
    body: Seq<Seq<char>>,
    lines: Seq<Seq<char>>,
    sessions: Seq<SmtpSession>,
    outcomes: Seq<LineOutcome>,
)
    requires
        in_transaction(sessions[0], domain, dropped_sender, Seq::empty()),
        is_address(sender),
        1 <= rcpts.len() <= SmtpLimits::MAX_RECIPIENTS,
        forall|i: int| 0 <= i < rcpts.len() ==> is_address(#[trigger] rcpts[i]),
        is_body(body),
        lines == seq![verb_line("RSET"@)] + mail_lines(sender, rcpts, body),
        runs(host, lines, sessions, outcomes),
    ensures
        quiet(outcomes[0]),
        sessions[1].from is None,
        sessions[1].client_domain == sessions[0].client_domain,
        forall|k: int| 0 <= k < lines.len() - 1 ==> quiet(#[trigger] outcomes[k]),
        outcomes.last().email matches Some(e) && e.from@ == sender && string_views(e.to@)
            == rcpts && e.data@ == join_lines(body),
        sessions.last().client_domain matches Some(d) && d@ == domain,
{
    reveal_strlit("RSET");
    reveal_strlit("250");
    reveal_strlit("221");
    assert(line_post_at(host, lines, sessions, outcomes, 0));
    assert(lines[0] == verb_line("RSET"@));
    let w = "RSET"@;
    assert(is_word(w));
    lemma_trim_crlf(w);
    lemma_tokens_one(w);
    lemma_verbs();
    lemma_byte_len_ascii(w);
    assert("250"@[0] != "221"@[1] || "250"@ != "221"@);
    lemma_mail_lines_deliver(
        host,
        verb_line("RSET"@),
        domain,
        sender,
        rcpts,
        body,
        lines,
        sessions,
        outcomes,
    );
    assert forall|k: int| 0 <= k < lines.len() - 1 implies quiet(#[trigger] outcomes[k]) by {
        if k >= 1 {
        }
    }
}

} // verus!
