//! Character-level helpers shared by the parser, the session and the
//! message accessors.

use vstd::prelude::*;

verus! {

/// The length in bytes of the UTF-8 encoding of `s`.
pub open spec fn byte_len(s: Seq<char>) -> nat {
    vstd::utf8::encode_utf8(s).len()
}

/// The characters that Unicode classes as white space.
pub open spec fn is_space(c: char) -> bool {
    ||| c == ' '
    ||| '\t' <= c <= '\r'
    ||| c == '\u{85}'
    ||| c == '\u{A0}'
    ||| c == '\u{1680}'
    ||| '\u{2000}' <= c <= '\u{200A}'
    ||| c == '\u{2028}'
    ||| c == '\u{2029}'
    ||| c == '\u{202F}'
    ||| c == '\u{205F}'
    ||| c == '\u{3000}'
}

/// The upper-case form of an ASCII letter; any other character unchanged.
pub open spec fn ascii_upper(c: char) -> char {
    if 'a' <= c <= 'z' {
        ((c as u8) - 32) as u8 as char
    } else {
        c
    }
}

/// `s` and `t` are equal when ASCII letters are compared without regard to case.
pub open spec fn eq_ignore_case(s: Seq<char>, t: Seq<char>) -> bool {
    &&& s.len() == t.len()
    &&& forall|i: int| 0 <= i < s.len() ==> ascii_upper(#[trigger] s[i]) == ascii_upper(t[i])
}

/// The end of the word that starts at `i`: the first index at or after `i`
/// that holds white space, or the length of `s`.
pub open spec fn word_end(s: Seq<char>, i: int) -> int
    decreases s.len() - i,
{
    if i < 0 || i >= s.len() || is_space(s[i]) {
        i
    } else {
        word_end(s, i + 1)
    }
}

/// The first index at or after `i` that holds `c`, or the length of `s`.
pub open spec fn find_from(s: Seq<char>, c: char, i: int) -> int
    decreases s.len() - i,
{
    if i < 0 || i >= s.len() {
        s.len() as int
    } else if s[i] == c {
        i
    } else {
        find_from(s, c, i + 1)
    }
}

/// The words of `s` from index `i` on: its maximal runs of characters that
/// are not white space, in order.
pub open spec fn tokens_from(s: Seq<char>, i: int) -> Seq<Seq<char>>
    decreases s.len() - i,
{
    if i < 0 || i >= s.len() {
        Seq::empty()
    } else if is_space(s[i]) {
        tokens_from(s, i + 1)
    } else {
        proof {
            lemma_word_end(s, i);
        }
        seq![s.subrange(i, word_end(s, i))] + tokens_from(s, word_end(s, i))
    }
}

/// The words of `s`, split on white space.
pub open spec fn tokens(s: Seq<char>) -> Seq<Seq<char>> {
    tokens_from(s, 0)
}

/// Words joined by single spaces.
pub open spec fn join_words(words: Seq<Seq<char>>) -> Seq<char>
    decreases words.len(),
{
    if words.len() == 0 {
        Seq::empty()
    } else if words.len() == 1 {
        words[0]
    } else {
        join_words(words.drop_last()) + " "@ + words.last()
    }
}

/// The first index at or after `i` that does not hold white space, or the
/// length of `s`.
pub open spec fn space_end(s: Seq<char>, i: int) -> int
    decreases s.len() - i,
{
    if 0 <= i < s.len() && is_space(s[i]) {
        space_end(s, i + 1)
    } else {
        i
    }
}

/// The index after the last character before `j` that is not white space,
/// or 0.
pub open spec fn space_start(s: Seq<char>, j: int) -> int
    decreases j,
{
    if 0 < j <= s.len() && is_space(s[j - 1]) {
        space_start(s, j - 1)
    } else {
        j
    }
}

/// `s` without its leading and trailing white space.
pub open spec fn trim(s: Seq<char>) -> Seq<char> {
    let lo = space_end(s, 0);
    let hi = space_start(s, s.len() as int);
    if hi <= lo {
        Seq::empty()
    } else {
        s.subrange(lo, hi)
    }
}

/// `word` occurs in `s` at index `i`.
pub open spec fn occurs_at(s: Seq<char>, word: Seq<char>, i: int) -> bool {
    &&& 0 <= i
    &&& i + word.len() <= s.len()
    &&& s.subrange(i, i + word.len()) == word
}

/// `word` occurs somewhere in `s`.
pub open spec fn contains_seq(s: Seq<char>, word: Seq<char>) -> bool {
    exists|i: int| occurs_at(s, word, i)
}

/// The views of a sequence of string slices.
pub open spec fn str_views(v: Seq<&str>) -> Seq<Seq<char>> {
    v.map_values(|p: &str| p@)
}

/// A word that starts at a character other than white space is not empty.
pub proof fn lemma_word_end(s: Seq<char>, i: int)
    requires
        0 <= i <= s.len(),
    ensures
        i <= word_end(s, i) <= s.len(),
        i < s.len() && !is_space(s[i]) ==> i < word_end(s, i),
    decreases s.len() - i,
{
    if i < s.len() && !is_space(s[i]) {
        lemma_word_end(s, i + 1);
    }
}

/// The UTF-8 encoding of a concatenation is the concatenation of the
/// encodings.
pub proof fn lemma_encode_concat(a: Seq<char>, b: Seq<char>)
    ensures
        vstd::utf8::encode_utf8(a + b) == vstd::utf8::encode_utf8(a) + vstd::utf8::encode_utf8(b),
    decreases a.len(),
{
    if a.len() > 0 {
        assert((a + b).drop_first() =~= a.drop_first() + b);
        lemma_encode_concat(a.drop_first(), b);
        assert(vstd::utf8::encode_utf8(a + b) =~= vstd::utf8::encode_utf8(a)
            + vstd::utf8::encode_utf8(b));
    } else {
        assert(a + b =~= b);
        assert(vstd::utf8::encode_utf8(a) =~= Seq::<u8>::empty());
        assert(vstd::utf8::encode_utf8(a + b) =~= vstd::utf8::encode_utf8(a)
            + vstd::utf8::encode_utf8(b));
    }
}

/// The byte length of a concatenation is the sum of the byte lengths.
pub proof fn lemma_byte_len_concat(a: Seq<char>, b: Seq<char>)
    ensures
        byte_len(a + b) == byte_len(a) + byte_len(b),
{
    lemma_encode_concat(a, b);
}

/// Text of ASCII characters takes one byte per character.
pub proof fn lemma_byte_len_ascii(s: Seq<char>)
    requires
        vstd::utf8::is_ascii_chars(s),
    ensures
        byte_len(s) == s.len(),
{
    vstd::utf8::is_ascii_chars_encode_utf8(s);
}

/// `find_from` stays within `i` and the length of `s`, and stops at `c`.
pub proof fn lemma_find_from(s: Seq<char>, c: char, i: int)
    requires
        0 <= i <= s.len(),
    ensures
        i <= find_from(s, c, i) <= s.len(),
        find_from(s, c, i) < s.len() ==> s[find_from(s, c, i)] == c,
    decreases s.len() - i,
{
    if i < s.len() && s[i] != c {
        lemma_find_from(s, c, i + 1);
    }
}

/// `find_from` stops at the first index that holds `c`.
pub proof fn lemma_find_from_at(s: Seq<char>, c: char, i: int, j: int)
    requires
        0 <= i <= j < s.len(),
        forall|k: int| i <= k < j ==> s[k] != c,
        s[j] == c,
    ensures
        find_from(s, c, i) == j,
    decreases j - i,
{
    if i < j {
        lemma_find_from_at(s, c, i + 1, j);
    }
}

/// `word_end` runs to the first white space.
pub proof fn lemma_word_end_run(s: Seq<char>, i: int, j: int)
    requires
        0 <= i <= j <= s.len(),
        forall|k: int| i <= k < j ==> !is_space(#[trigger] s[k]),
        j == s.len() || is_space(s[j]),
    ensures
        word_end(s, i) == j,
    decreases j - i,
{
    if i < j {
        lemma_word_end_run(s, i + 1, j);
    }
}

/// The words of a word, a space and a word are those two words.
pub proof fn lemma_tokens_two(v: Seq<char>, x: Seq<char>)
    requires
        v.len() > 0,
        x.len() > 0,
        forall|k: int| 0 <= k < v.len() ==> !is_space(#[trigger] v[k]),
        forall|k: int| 0 <= k < x.len() ==> !is_space(#[trigger] x[k]),
    ensures
        tokens(v + " "@ + x) == seq![v, x],
{
    reveal_strlit(" ");
    let s = v + " "@ + x;
    let n = v.len() as int;
    assert forall|k: int| 0 <= k < n implies !is_space(#[trigger] s[k]) by {
        assert(s[k] == v[k]);
    }
    lemma_word_end_run(s, 0, n);
    assert forall|k: int| n + 1 <= k < s.len() implies !is_space(#[trigger] s[k]) by {
        assert(s[k] == x[k - n - 1]);
    }
    lemma_word_end_run(s, n + 1, s.len() as int);
    assert(s.subrange(0, n) =~= v);
    assert(s.subrange(n + 1, s.len() as int) =~= x);
    assert(tokens_from(s, s.len() as int) =~= Seq::<Seq<char>>::empty());
    assert(tokens_from(s, n + 1) =~= seq![x]);
    assert(tokens_from(s, n) == tokens_from(s, n + 1));
    assert(tokens(s) =~= seq![v, x]);
}

/// The words of a single word are that word.
pub proof fn lemma_tokens_one(v: Seq<char>)
    requires
        v.len() > 0,
        forall|k: int| 0 <= k < v.len() ==> !is_space(#[trigger] v[k]),
    ensures
        tokens(v) == seq![v],
{
    lemma_word_end_run(v, 0, v.len() as int);
    assert(v.subrange(0, v.len() as int) =~= v);
    assert(tokens_from(v, v.len() as int) =~= Seq::<Seq<char>>::empty());
    assert(tokens(v) =~= seq![v]);
}

/// Trimming a word followed by CRLF leaves the word.
pub proof fn lemma_trim_crlf(w: Seq<char>)
    requires
        w.len() > 0,
        !is_space(w[0]),
        !is_space(w.last()),
    ensures
        trim(w + "\r\n"@) == w,
{
    reveal_strlit("\r\n");
    let s = w + "\r\n"@;
    let n = s.len() as int;
    assert(s[0] == w[0]);
    assert(s[n - 1] == '\n');
    assert(s[n - 2] == '\r');
    assert(s[n - 3] == w.last());
    assert(space_end(s, 0) == 0);
    assert(space_start(s, n - 2) == n - 2);
    assert(space_start(s, n - 1) == n - 2);
    assert(space_start(s, n) == n - 2);
    assert(s.subrange(0, n - 2) =~= w);
}

/// Whether `c` is white space.
pub fn char_is_space(c: char) -> (r: bool)
    ensures
        r == is_space(c),
{
    c == ' ' || ('\t' <= c && c <= '\r') || c == '\u{85}' || c == '\u{A0}' || c == '\u{1680}'
        || ('\u{2000}' <= c && c <= '\u{200A}') || c == '\u{2028}' || c == '\u{2029}'
        || c == '\u{202F}' || c == '\u{205F}' || c == '\u{3000}'
}

/// The upper-case form of an ASCII letter; any other character unchanged.
pub fn char_ascii_upper(c: char) -> (r: char)
    ensures
        r == ascii_upper(c),
{
    if 'a' <= c && c <= 'z' {
        (c as u8 - 32) as char
    } else {
        c
    }
}

/// The characters of `s`, in order.
pub fn chars_of(s: &str) -> (v: Vec<char>)
    ensures
        v@ == s@,
{
    let mut v: Vec<char> = Vec::new();
    for c in it: s.chars()
        invariant
            it.seq() == s@,
            v@ == it.seq().take(it.index() as int),
    {
        v.push(c);
    }
    v
}

/// The first index at or after `start` where `chars` holds `c`, or its length.
pub fn find_char(chars: &Vec<char>, c: char, start: usize) -> (r: usize)
    requires
        start <= chars@.len(),
    ensures
        r == find_from(chars@, c, start as int),
        start <= r <= chars@.len(),
        r < chars@.len() ==> chars@[r as int] == c,
{
    let n = chars.len();
    let mut i = start;
    while i < n
        invariant
            n == chars@.len(),
            start <= i <= n,
            find_from(chars@, c, start as int) == find_from(chars@, c, i as int),
        decreases n - i,
    {
        if chars[i] == c {
            return i;
        }
        i = i + 1;
    }
    i
}

/// The range of `chars` left once leading and trailing white space is
/// dropped: `(space_end(chars, 0), space_start(chars, len))`.
pub fn trim_range(chars: &Vec<char>) -> (r: (usize, usize))
    ensures
        r.0 == space_end(chars@, 0),
        r.1 == space_start(chars@, chars@.len() as int),
        r.0 <= chars@.len(),
        r.1 <= chars@.len(),
        r.0 < r.1 ==> chars@.subrange(r.0 as int, r.1 as int) == trim(chars@),
        r.1 <= r.0 ==> trim(chars@).len() == 0,
{
    let n = chars.len();
    let mut lo: usize = 0;
    while lo < n && char_is_space(chars[lo])
        invariant
            n == chars@.len(),
            lo <= n,
            space_end(chars@, 0) == space_end(chars@, lo as int),
        decreases n - lo,
    {
        lo = lo + 1;
    }
    let mut hi: usize = n;
    while hi > 0 && char_is_space(chars[hi - 1])
        invariant
            n == chars@.len(),
            hi <= n,
            space_start(chars@, n as int) == space_start(chars@, hi as int),
        decreases hi,
    {
        hi = hi - 1;
    }
    (lo, hi)
}

/// The words of `line`, split on white space.
pub fn split_words(line: &str) -> (r: Vec<&str>)
    ensures
        str_views(r@) == tokens(line@),
{
    let chars = chars_of(line);
    let n = chars.len();
    let mut words: Vec<&str> = Vec::new();
    let mut i: usize = 0;
    while i < n
        invariant
            n == chars@.len(),
            chars@ == line@,
            i <= n,
            str_views(words@) + tokens_from(chars@, i as int) == tokens(chars@),
        decreases n - i,
    {
        if char_is_space(chars[i]) {
            i = i + 1;
        } else {
            let mut j = i;
            while j < n && !char_is_space(chars[j])
                invariant
                    n == chars@.len(),
                    i <= j <= n,
                    word_end(chars@, i as int) == word_end(chars@, j as int),
                decreases n - j,
            {
                j = j + 1;
            }
            let ghost before = words@;
            let word = line.substring_char(i, j);
            words.push(word);
            proof {
                assert(str_views(words@) =~= str_views(before).push(word@));
                assert(tokens_from(chars@, i as int) == seq![chars@.subrange(i as int, j as int)]
                    + tokens_from(chars@, j as int));
                assert(str_views(words@) + tokens_from(chars@, j as int) =~= str_views(before)
                    + tokens_from(chars@, i as int));
            }
            i = j;
        }
    }
    assert(str_views(words@) =~= str_views(words@) + tokens_from(chars@, n as int));
    words
}

/// Whether `a` and `b` hold the same characters.
pub fn str_eq(a: &str, b: &str) -> (r: bool)
    ensures
        r == (a@ == b@),
{
    let x = chars_of(a);
    let y = chars_of(b);
    if x.len() != y.len() {
        return false;
    }
    let n = x.len();
    let mut i: usize = 0;
    while i < n
        invariant
            n == x@.len(),
            n == y@.len(),
            x@ == a@,
            y@ == b@,
            i <= n,
            forall|j: int| 0 <= j < i ==> x@[j] == y@[j],
        decreases n - i,
    {
        if x[i] != y[i] {
            assert(x@[i as int] != y@[i as int]);
            return false;
        }
        i = i + 1;
    }
    assert(x@ =~= y@);
    true
}

/// Whether `word` occurs in `chars` at index `i`, within `chars[..end]`.
pub fn occurs_at_before(chars: &Vec<char>, word: &Vec<char>, i: usize, end: usize) -> (r: bool)
    requires
        i <= end <= chars@.len(),
    ensures
        r == occurs_at(chars@.take(end as int), word@, i as int),
{
    let m = word.len();
    if end - i < m {
        return false;
    }
    let mut j: usize = 0;
    while j < m
        invariant
            m == word@.len(),
            i + m <= end <= chars@.len(),
            j <= m,
            forall|k: int| 0 <= k < j ==> chars@[i + k] == word@[k],
        decreases m - j,
    {
        if chars[i + j] != word[j] {
            assert(chars@.take(end as int).subrange(i as int, i + m)[j as int] != word@[j as int]);
            return false;
        }
        j = j + 1;
    }
    assert(chars@.take(end as int).subrange(i as int, i + m) =~= word@);
    true
}

/// Whether `word` occurs in `s`.
pub fn str_contains(s: &str, word: &str) -> (r: bool)
    ensures
        r == contains_seq(s@, word@),
{
    let chars = chars_of(s);
    let w = chars_of(word);
    let n = chars.len();
    let m = w.len();
    if m == 0 {
        assert(s@.subrange(0, 0) =~= word@);
        assert(occurs_at(s@, word@, 0));
        return true;
    }
    if m > n {
        assert(!contains_seq(s@, word@));
        return false;
    }
    assert(chars@.take(n as int) =~= chars@);
    let mut i: usize = 0;
    while i <= n - m
        invariant
            n == chars@.len(),
            m == w@.len(),
            0 < m <= n,
            chars@ == s@,
            w@ == word@,
            chars@.take(n as int) == chars@,
            i <= n - m + 1,
            forall|k: int| 0 <= k < i ==> !occurs_at(s@, word@, k),
        decreases n - m + 1 - i,
    {
        if occurs_at_before(&chars, &w, i, n) {
            return true;
        }
        i = i + 1;
    }
    assert forall|k: int| !occurs_at(s@, word@, k) by {
        if 0 <= k < i {
        }
    }
    false
}

/// Whether `chars[lo..hi]` holds `c`.
pub fn contains_char(chars: &Vec<char>, c: char, lo: usize, hi: usize) -> (r: bool)
    requires
        lo <= hi <= chars@.len(),
    ensures
        r == chars@.subrange(lo as int, hi as int).contains(c),
{
    let ghost part = chars@.subrange(lo as int, hi as int);
    let mut i = lo;
    while i < hi
        invariant
            lo <= i <= hi <= chars@.len(),
            part == chars@.subrange(lo as int, hi as int),
            forall|k: int| 0 <= k < i - lo ==> part[k] != c,
        decreases hi - i,
    {
        if chars[i] == c {
            assert(part[i - lo] == c);
            return true;
        }
        i = i + 1;
    }
    false
}

/// The length in bytes of `s`.
pub fn str_byte_len(s: &str) -> (r: usize)
    ensures
        r == byte_len(s@),
{
    s.as_bytes().len()
}

} // verus!
