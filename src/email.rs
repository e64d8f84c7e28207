//! Messages produced by completed transactions.

use vstd::prelude::*;

use crate::text::{
    byte_len, chars_of, contains_seq, find_char, find_from, lemma_find_from, occurs_at,
    occurs_at_before, str_byte_len, str_contains, str_eq,
};

verus! {

/// Declares `std::time::SystemTime` so that a message can carry the time it
/// was received.
#[verifier::external_type_specification]
#[verifier::external_body]
pub struct ExSystemTime(std::time::SystemTime);

/// Relies on `Clone` of `std::time::SystemTime`, a `Copy` type: the clone is
/// the same instant. The derived `Clone` of [`Email`] calls it.
pub assume_specification[ <std::time::SystemTime as Clone>::clone ](
    t: &std::time::SystemTime,
) -> (r: std::time::SystemTime)
    ensures
        r == *t,
;

/// Relies on `std::time::SystemTime::now`: the current time of the system
/// clock. Nothing is promised of the value.
#[verifier::external_body]
fn now() -> std::time::SystemTime {
    std::time::SystemTime::now()
}

/// The end of the content of the line that starts at `i`: before its
/// `\n`, and before a `\r` that precedes that `\n`.
pub open spec fn line_content_end(s: Seq<char>, i: int) -> int {
    let e = find_from(s, '\n', i);
    if e < s.len() && e > i && s[e - 1] == '\r' {
        e - 1
    } else {
        e
    }
}

/// The header lines of `s` from index `i` on hold a `Subject` header; its
/// value is returned. The header lines end at the first empty line.
pub open spec fn subject_from(s: Seq<char>, i: int) -> Option<Seq<char>>
    decreases s.len() - i,
{
    if i < 0 || i >= s.len() {
        None
    } else {
        let end = line_content_end(s, i);
        let line = s.subrange(i, end);
        if line.len() == 0 {
            None
        } else if occurs_at(line, "Subject: "@, 0) {
            Some(line.skip("Subject: "@.len() as int))
        } else if occurs_at(line, "subject: "@, 0) {
            Some(line.skip("subject: "@.len() as int))
        } else if find_from(s, '\n', i) >= s.len() {
            None
        } else {
            proof {
                lemma_find_from(s, '\n', i);
            }
            subject_from(s, find_from(s, '\n', i) + 1)
        }
    }
}

/// Where the body of `s` begins, looking from index `i` on: after the first
/// empty line, when anything follows it.
pub open spec fn body_start_from(s: Seq<char>, i: int) -> Option<int>
    decreases s.len() - i,
{
    if i < 0 || i >= s.len() {
        None
    } else {
        let e = find_from(s, '\n', i);
        if line_content_end(s, i) == i {
            if e + 1 < s.len() {
                Some(e + 1)
            } else {
                None
            }
        } else if e >= s.len() {
            None
        } else {
            proof {
                lemma_find_from(s, '\n', i);
            }
            body_start_from(s, e + 1)
        }
    }
}

/// The view of an optional string slice.
pub open spec fn opt_view(o: Option<&str>) -> Option<Seq<char>> {
    match o {
        Some(x) => Some(x@),
        None => None,
    }
}

/// A message received by the server.
#[derive(Debug, Clone)]
pub struct Email {
    /// The sender's address.
    pub from: String,
    /// The recipients' addresses, in the order they were given.
    pub to: Vec<String>,
    /// The message text, headers and body.
    pub data: String,
    /// When the message was received.
    pub timestamp: std::time::SystemTime,
}

impl Email {
    /// A message received now.
    pub fn new(from: String, to: Vec<String>, data: String) -> (r: Self)
        ensures
            r.from == from,
            r.to == to,
            r.data == data,
    {
        Email { from, to, data, timestamp: now() }
    }

    /// Whether `recipient` is one of the recipients.
    pub fn has_recipient(&self, recipient: &str) -> (r: bool)
        ensures
            r == exists|i: int| 0 <= i < self.to@.len() && #[trigger] self.to@[i]@ == recipient@,
    {
        let n = self.to.len();
        let mut i: usize = 0;
        while i < n
            invariant
                n == self.to@.len(),
                i <= n,
                forall|j: int| 0 <= j < i ==> #[trigger] self.to@[j]@ != recipient@,
            decreases n - i,
        {
            if str_eq(self.to[i].as_str(), recipient) {
                return true;
            }
            i = i + 1;
        }
        false
    }

    /// Whether `sender` is the sender.
    pub fn is_from_sender(&self, sender: &str) -> (r: bool)
        ensures
            r == (self.from@ == sender@),
    {
        str_eq(self.from.as_str(), sender)
    }

    /// The size of the message text in bytes.
    pub fn data_size(&self) -> (r: usize)
        ensures
            r == byte_len(self.data@),
    {
        str_byte_len(self.data.as_str())
    }

    /// The value of the `Subject` header (`Subject: ` or `subject: `), if
    /// the header lines hold one.
    pub fn get_subject(&self) -> (r: Option<&str>)
        ensures
            opt_view(r) == subject_from(self.data@, 0),
    {
        let data = self.data.as_str();
        let chars = chars_of(data);
        let upper = chars_of("Subject: ");
        let lower = chars_of("subject: ");
        let n = chars.len();
        let mut i: usize = 0;
        while i < n
            invariant
                n == chars@.len(),
                chars@ == data@,
                data@ == self.data@,
                upper@ == "Subject: "@,
                lower@ == "subject: "@,
                i <= n,
                subject_from(chars@, 0) == subject_from(chars@, i as int),
            decreases n - i,
        {
            let e = find_char(&chars, '\n', i);
            let end = if e < n && e > i && chars[e - 1] == '\r' {
                e - 1
            } else {
                e
            };
            let ghost line = chars@.subrange(i as int, end as int);
            if end == i {
                return None;
            }
            proof {
                assert forall|w: Seq<char>| occurs_at(chars@.take(end as int), w, i as int)
                    <==> occurs_at(line, w, 0) by {
                    if i + w.len() <= end {
                        assert(chars@.take(end as int).subrange(i as int, i + w.len())
                            =~= line.subrange(0, w.len() as int));
                    }
                }
            }
            if occurs_at_before(&chars, &upper, i, end) {
                let value = data.substring_char(i + upper.len(), end);
                assert(value@ =~= line.skip(upper@.len() as int));
                return Some(value);
            }
            if occurs_at_before(&chars, &lower, i, end) {
                let value = data.substring_char(i + lower.len(), end);
                assert(value@ =~= line.skip(lower@.len() as int));
                return Some(value);
            }
            if e == n {
                proof {
                    assert(subject_from(chars@, n as int) is None);
                }
                return None;
            }
            i = e + 1;
        }
        None
    }

    /// The message body: what follows the first empty line, if anything does.
    pub fn get_body(&self) -> (r: Option<&str>)
        ensures
            body_start_from(self.data@, 0) matches Some(k) ==> (r matches Some(b) && b@
                == self.data@.skip(k)),
            body_start_from(self.data@, 0) is None ==> r is None,
    {
        let data = self.data.as_str();
        let chars = chars_of(data);
        let n = chars.len();
        let mut i: usize = 0;
        while i < n
            invariant
                n == chars@.len(),
                chars@ == data@,
                data@ == self.data@,
                i <= n,
                body_start_from(chars@, 0) == body_start_from(chars@, i as int),
            decreases n - i,
        {
            let e = find_char(&chars, '\n', i);
            let end = if e < n && e > i && chars[e - 1] == '\r' {
                e - 1
            } else {
                e
            };
            if end == i {
                if e + 1 < n {
                    return Some(data.substring_char(e + 1, n));
                }
                return None;
            }
            if e == n {
                return None;
            }
            i = e + 1;
        }
        None
    }

    /// Whether `text` occurs in the message text.
    pub fn contains_text(&self, text: &str) -> (r: bool)
        ensures
            r == contains_seq(self.data@, text@),
    {
        str_contains(self.data.as_str(), text)
    }
}

} // verus!
