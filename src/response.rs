//! Protocol replies and their wire form.

use vstd::prelude::*;

use crate::error::{error_code, error_message, SmtpError, SmtpLimits};
use crate::text::{byte_len, find_from, lemma_find_from_at, str_byte_len};

verus! {

/// One reply line: the code, a separator (`" "` or `"-"`), the text and CRLF.
pub open spec fn reply_line(code: Seq<char>, sep: Seq<char>, text: Seq<char>) -> Seq<char> {
    code + sep + text + "\r\n"@
}

/// Line `i` of a capability block: dash-continued unless it is the last one.
pub open spec fn block_line(code: Seq<char>, lines: Seq<Seq<char>>, i: int) -> Seq<char> {
    if i == lines.len() - 1 {
        reply_line(code, " "@, lines[i])
    } else {
        reply_line(code, "-"@, lines[i])
    }
}

/// The first `n` lines of a capability block, rendered.
pub open spec fn block_text(code: Seq<char>, lines: Seq<Seq<char>>, n: nat) -> Seq<char>
    decreases n,
{
    if n == 0 {
        Seq::empty()
    } else {
        block_text(code, lines, (n - 1) as nat) + block_line(code, lines, n - 1)
    }
}

/// The wire form of a reply with the given code, text and optional capability block.
pub open spec fn wire_text(
    code: Seq<char>,
    message: Seq<char>,
    block: Option<Seq<Seq<char>>>,
) -> Seq<char> {
    match block {
        None => reply_line(code, " "@, message),
        Some(lines) => reply_line(code, "-"@, message) + block_text(code, lines, lines.len()),
    }
}

/// The views of a sequence of strings.
pub open spec fn string_views(v: Seq<String>) -> Seq<Seq<char>> {
    v.map_values(|s: String| s@)
}

/// The text that replaces a reply too long for one line.
pub open spec fn truncated_text() -> Seq<char> {
    "Response too long (truncated)"@
}

/// A status code: three decimal digits.
pub open spec fn is_status_code(code: Seq<char>) -> bool {
    &&& code.len() == 3
    &&& forall|i: int| 0 <= i < 3 ==> '0' <= #[trigger] code[i] <= '9'
}

/// Reads a single reply line back into its code (what precedes the first
/// space) and its text (what follows it, up to the closing CRLF).
pub open spec fn parse_reply(w: Seq<char>) -> (Seq<char>, Seq<char>) {
    let k = find_from(w, ' ', 0);
    (w.take(k), w.subrange(k + 1, w.len() - 2))
}

/// A single-line reply is written as its code, a space, its text and CRLF,
/// and reading that line back yields the same code and text.
pub proof fn lemma_single_line_round_trip(r: SmtpResponse)
    requires
        is_status_code(r.code@),
        r.multiline is None,
    ensures
        r.formatted() == r.code@ + " "@ + r.message@ + "\r\n"@,
        parse_reply(r.formatted()) == (r.code@, r.message@),
{
    let code = r.code@;
    let w = r.formatted();
    reveal_strlit(" ");
    reveal_strlit("\r\n");
    let rest = " "@ + r.message@ + "\r\n"@;
    assert(w =~= code + rest);
    assert forall|k: int| 0 <= k < 3 implies w[k] != ' ' by {
        assert(w[k] == code[k]);
    }
    lemma_find_from_at(w, ' ', 0, 3);
    assert(w.take(3) =~= code);
    assert(w.subrange(4, w.len() - 2) =~= r.message@);
}

/// A reply to a client: a status code, a text and an optional capability block.
#[derive(Debug, Clone)]
pub struct SmtpResponse {
    /// The three-digit status code, such as `"250"`.
    pub code: String,
    /// The human-readable text.
    pub message: String,
    /// Capability lines that follow the text, if any.
    pub multiline: Option<Vec<String>>,
}

impl SmtpResponse {
    /// The capability block as a sequence of strings, if any.
    pub open spec fn block(&self) -> Option<Seq<Seq<char>>> {
        match self.multiline {
            Some(v) => Some(string_views(v@)),
            None => None,
        }
    }

    /// The wire form of this reply.
    pub open spec fn formatted(&self) -> Seq<char> {
        wire_text(self.code@, self.message@, self.block())
    }

    /// Whether this reply has the given code and text and no capability block.
    pub open spec fn is_plain(&self, code: Seq<char>, message: Seq<char>) -> bool {
        &&& self.code@ == code
        &&& self.message@ == message
        &&& self.multiline is None
    }

    /// A single-line reply.
    pub fn new(code: &str, message: &str) -> (r: Self)
        ensures
            r.is_plain(code@, message@),
    {
        SmtpResponse {
            code: code.to_owned(),
            message: message.to_owned(),
            multiline: None,
        }
    }

    /// A reply with a capability block after its text.
    pub fn new_multiline(code: &str, message: &str, lines: Vec<String>) -> (r: Self)
        ensures
            r.code@ == code@,
            r.message@ == message@,
            r.multiline == Some(lines),
    {
        SmtpResponse {
            code: code.to_owned(),
            message: message.to_owned(),
            multiline: Some(lines),
        }
    }

    /// `250 OK`.
    pub fn ok() -> (r: Self)
        ensures
            r.is_plain("250"@, "OK"@),
    {
        Self::new("250", "OK")
    }

    /// The greeting sent when a client connects.
    pub fn greeting() -> (r: Self)
        ensures
            r.is_plain("220"@, "Welcome to MogiMail"@),
    {
        Self::new("220", "Welcome to MogiMail")
    }

    /// The reply to a greeting command: the server's and the client's names.
    pub fn helo(hostname: &str, client_domain: &str) -> (r: Self)
        ensures
            r.is_plain("250"@, hostname@ + " Hello "@ + client_domain@),
    {
        let mut message = String::from_str(hostname);
        message.append(" Hello ");
        message.append(client_domain);
        Self::new("250", message.as_str())
    }

    /// The reply to an extended greeting: as for a greeting, followed by
    /// the capabilities offered.
    pub fn ehlo(hostname: &str, client_domain: &str) -> (r: Self)
        ensures
            r.code@ == "250"@,
            r.message@ == hostname@ + " Hello "@ + client_domain@,
            r.block() == Some(seq!["PIPELINING"@, "SIZE 10240000"@]),
    {
        let mut message = String::from_str(hostname);
        message.append(" Hello ");
        message.append(client_domain);
        let mut capabilities: Vec<String> = Vec::new();
        capabilities.push(String::from_str("PIPELINING"));
        capabilities.push(String::from_str("SIZE 10240000"));
        let r = Self::new_multiline("250", message.as_str(), capabilities);
        assert(string_views(capabilities@) =~= seq!["PIPELINING"@, "SIZE 10240000"@]);
        r
    }

    /// The intermediate reply that opens the data phase.
    pub fn data_start() -> (r: Self)
        ensures
            r.is_plain("354"@, "End data with <CR><LF>.<CR><LF>"@),
    {
        Self::new("354", "End data with <CR><LF>.<CR><LF>")
    }

    /// The reply to the closing command.
    pub fn quit() -> (r: Self)
        ensures
            r.is_plain("221"@, "Bye"@),
    {
        Self::new("221", "Bye")
    }

    /// An error reply with the given code and text.
    pub fn error(code: &str, message: &str) -> (r: Self)
        ensures
            r.is_plain(code@, message@),
    {
        Self::new(code, message)
    }

    /// The reply as sent on the wire.
    pub fn format(&self) -> (r: String)
        ensures
            r@ == self.formatted(),
    {
        let code = self.code.as_str();
        match &self.multiline {
            None => {
                let mut out = String::from_str(code);
                out.append(" ");
                out.append(self.message.as_str());
                out.append("\r\n");
                out
            },
            Some(lines) => {
                let ghost views = string_views(lines@);
                let mut out = String::from_str(code);
                out.append("-");
                out.append(self.message.as_str());
                out.append("\r\n");
                let n = lines.len();
                let mut i: usize = 0;
                while i < n
                    invariant
                        n == lines@.len(),
                        views == string_views(lines@),
                        code@ == self.code@,
                        i <= n,
                        out@ == reply_line(code@, "-"@, self.message@) + block_text(
                            code@,
                            views,
                            i as nat,
                        ),
                    decreases n - i,
                {
                    out.append(code);
                    if i == n - 1 {
                        out.append(" ");
                    } else {
                        out.append("-");
                    }
                    out.append(lines[i].as_str());
                    out.append("\r\n");
                    assert(views[i as int] == lines@[i as int]@);
                    i = i + 1;
                }
                out
            },
        }
    }

    /// The reply as sent on the wire, with its text replaced when the wire
    /// form would exceed the reply line limit.
    pub fn to_wire(&self) -> (r: String)
        ensures
            byte_len(self.formatted()) <= SmtpLimits::REPLY_LINE_MAX_LENGTH ==> r@
                == self.formatted(),
            byte_len(self.formatted()) > SmtpLimits::REPLY_LINE_MAX_LENGTH ==> r@ == reply_line(
                self.code@,
                " "@,
                truncated_text(),
            ),
    {
        let formatted = self.format();
        if str_byte_len(formatted.as_str()) > SmtpLimits::REPLY_LINE_MAX_LENGTH {
            Self::new(self.code.as_str(), "Response too long (truncated)").format()
        } else {
            formatted
        }
    }

    /// Whether the code is a success code (it begins with `2`).
    pub fn is_success(&self) -> (r: bool)
        ensures
            r == (self.code@.len() > 0 && self.code@[0] == '2'),
    {
        let code = self.code.as_str();
        !code.is_empty() && code.get_char(0) == '2'
    }

    /// Whether the code is an error code (it begins with `4` or `5`).
    pub fn is_error(&self) -> (r: bool)
        ensures
            r == (self.code@.len() > 0 && (self.code@[0] == '4' || self.code@[0] == '5')),
    {
        let code = self.code.as_str();
        if code.is_empty() {
            false
        } else {
            let c = code.get_char(0);
            c == '4' || c == '5'
        }
    }
}

/// The reply with which an error is reported.
pub open spec fn is_error_reply(resp: SmtpResponse, e: SmtpError) -> bool {
    resp.is_plain(error_code(e), error_message(e))
}

impl SmtpResponse {
    /// The reply with which `e` is reported.
    pub fn from_error(e: &SmtpError) -> (r: Self)
        ensures
            is_error_reply(r, *e),
    {
        let message = e.to_response_message();
        SmtpResponse::error(e.to_response_code(), message.as_str())
    }
}

/// The bytes to send for a reply, or for the error reported in its place,
/// kept within the reply line limit.
pub fn reply_wire(reply: &Result<SmtpResponse, SmtpError>) -> (r: String)
    ensures
        *reply matches Ok(resp) ==> r@ == wire_or_truncated(resp),
        *reply matches Err(e) ==> exists|resp: SmtpResponse| #[trigger] is_error_reply(resp, e)
            && r@ == wire_or_truncated(resp),
{
    match reply {
        Ok(resp) => resp.to_wire(),
        Err(e) => SmtpResponse::from_error(e).to_wire(),
    }
}

/// The wire form of `resp`, or its truncated form when that exceeds the
/// reply line limit.
pub open spec fn wire_or_truncated(resp: SmtpResponse) -> Seq<char> {
    if byte_len(resp.formatted()) <= SmtpLimits::REPLY_LINE_MAX_LENGTH {
        resp.formatted()
    } else {
        reply_line(resp.code@, " "@, truncated_text())
    }
}

} // verus!
