//! The Feeder: an incremental cursor over the script text.
//!
//! It owns the not-yet-consumed text, supports non-consuming probes and
//! exact consumption (every consumed character ends up in some node's
//! stored text), and maintains the stack of open nesting constructs that
//! lets the parser tell "more input is needed" from "syntax error".
//! Scanning helpers are pure probes over the buffer: they never consume
//! and never request more input.

use vstd::prelude::*;
use crate::textutil::{spec_starts_with, str_starts_with};

verus! {

/// Returned by a parser when the construct it was reading is well-formed so
/// far but unterminated: the caller must supply another line and retry.
pub struct MoreLine;

/// Why a structural parse was abandoned: the input ran out inside an open
/// construct (feed another line and retry), or a symbol no grammar rule
/// accepts was found (the parse is over, the rest of the input was
/// discarded, and the exit-status variable was set to 2).
pub enum ParseAbort {
    MoreLine,
    SyntaxError,
}

pub open spec fn is_blank(c: char) -> bool {
    c == ' ' || c == '\t'
}

pub open spec fn is_multiline_blank(c: char) -> bool {
    is_blank(c) || c == '\n'
}

pub open spec fn is_name_head(c: char) -> bool {
    ('A' <= c && c <= 'Z') || ('a' <= c && c <= 'z') || c == '_'
}

pub open spec fn is_name_char(c: char) -> bool {
    is_name_head(c) || ('0' <= c && c <= '9')
}

/// Characters that end an unquoted word.
pub open spec fn is_word_stop(c: char) -> bool {
    c == ' ' || c == '\t' || c == '\n' || c == ';' || c == '&' || c == '|' || c == '<' || c == '>'
        || c == '(' || c == ')' || c == '{' || c == '}' || c == '$'
}

pub open spec fn is_word_char(c: char) -> bool {
    !is_word_stop(c)
}

/// A text of blanks and newlines only: what a no-op line is made of.
pub open spec fn all_multiline_blank(s: Seq<char>) -> bool {
    forall|i: int| 0 <= i < s.len() ==> is_multiline_blank(#[trigger] s[i])
}

/// The length of the leading run of blanks (spaces and tabs).
pub open spec fn blank_run(s: Seq<char>) -> int
    decreases s.len(),
{
    if s.len() == 0 || !is_blank(s[0]) {
        0
    } else {
        1 + blank_run(s.skip(1))
    }
}

/// A maximal blank prefix has exactly the length `blank_run` gives.
pub proof fn lemma_blank_run_is(s: Seq<char>, n: int)
    requires
        0 <= n <= s.len(),
        forall|j: int| 0 <= j < n ==> is_blank(#[trigger] s[j]),
        n < s.len() ==> !is_blank(s[n]),
    ensures
        blank_run(s) == n,
    decreases n,
{
    if n == 0 {
    } else {
        assert(forall|j: int| 0 <= j < n - 1 ==> s.skip(1)[j] == #[trigger] s[j + 1]);
        lemma_blank_run_is(s.skip(1), n - 1);
    }
}

/// Characters that end a word inside a brace expansion: the ordinary word
/// stops plus the comma that separates brace alternatives.
pub open spec fn is_brace_word_char(c: char) -> bool {
    !is_word_stop(c) && c != ','
}

fn is_blank_exec(c: char) -> (r: bool)
    ensures
        r == is_blank(c),
{
    c == ' ' || c == '\t'
}

fn is_word_char_exec(c: char) -> (r: bool)
    ensures
        r == is_word_char(c),
{
    !(c == ' ' || c == '\t' || c == '\n' || c == ';' || c == '&' || c == '|' || c == '<' || c == '>'
        || c == '(' || c == ')' || c == '{' || c == '}' || c == '$')
}

/// The incremental text cursor.
pub struct Feeder {
    /// Text not yet consumed by the parser.
    pub remaining: String,
    /// Open nesting constructs: each entry is the opening token and the
    /// closing tokens that would end it.  The first entry is the top level,
    /// which nothing closes.
    pub nest: Vec<(String, Vec<String>)>,
    /// Number of lines fed so far.
    pub lineno: usize,
}

impl Feeder {
    /// At the top level the nest stack holds exactly its base entry, which
    /// has no closers; parsing is at top level exactly when nothing else
    /// has been pushed, and every closing token pushed is a real token
    /// (nonempty).
    pub open spec fn nest_wf(&self) -> bool {
        &&& self.nest@.len() >= 1
        &&& self.nest@[0].1@.len() == 0
        &&& forall|i: int, j: int|
            0 <= i < self.nest@.len() && 0 <= j < (#[trigger] self.nest@[i]).1@.len() ==> (
            #[trigger] self.nest@[i].1@[j])@.len() > 0
    }

    pub fn new(text: &str) -> (f: Feeder)
        ensures
            f.remaining@ == text@,
            f.nest_wf(),
            f.nest@.len() == 1,
    {
        let mut nest: Vec<(String, Vec<String>)> = Vec::new();
        nest.push((String::new(), Vec::new()));
        Feeder { remaining: text.to_owned(), nest, lineno: 1 }
    }

    /// Number of unconsumed characters.
    pub fn len(&self) -> (n: usize)
        ensures
            n == self.remaining@.len(),
    {
        self.remaining.as_str().unicode_len()
    }

    /// Remove and return the first `n` characters.
    pub fn consume(&mut self, n: usize) -> (r: String)
        requires
            n <= old(self).remaining@.len(),
        ensures
            r@ == old(self).remaining@.subrange(0, n as int),
            final(self).remaining@ == old(self).remaining@.skip(n as int),
            final(self).nest == old(self).nest,
            final(self).lineno == old(self).lineno,
    {
        let whole = self.remaining.clone();
        let len = whole.as_str().unicode_len();
        let head = whole.as_str().substring_char(0, n).to_owned();
        self.remaining = whole.as_str().substring_char(n, len).to_owned();
        proof {
            assert(final(self).remaining@ =~= old(self).remaining@.skip(n as int));
        }
        head
    }

    /// Non-consuming probe: does the buffer start with `token`?
    pub fn starts_with(&self, token: &str) -> (r: bool)
        ensures
            r == spec_starts_with(self.remaining@, token@),
    {
        str_starts_with(self.remaining.as_str(), token)
    }

    /// Append one more line of input to the buffer.
    pub fn add_line(&mut self, line: &str)
        ensures
            final(self).remaining@ == old(self).remaining@ + line@,
            final(self).nest == old(self).nest,
    {
        self.remaining.append(line);
        if self.lineno < usize::MAX {
            self.lineno = self.lineno + 1;
        }
    }

    /// Put `text` back in front of the buffer: used to undo a partial parse
    /// when a construct turns out to need more input.
    pub fn replace_front(&mut self, text: &str)
        ensures
            final(self).remaining@ == text@ + old(self).remaining@,
            final(self).nest == old(self).nest,
            final(self).lineno == old(self).lineno,
    {
        let mut s = text.to_owned();
        s.append(self.remaining.as_str());
        self.remaining = s;
    }

    /// Enter a nesting construct opened by `open`, closable by `closers`.
    pub fn nest_push(&mut self, open: &str, closers: Vec<String>)
        requires
            forall|j: int| 0 <= j < closers@.len() ==> (#[trigger] closers@[j])@.len() > 0,
        ensures
            final(self).nest@.len() == old(self).nest@.len() + 1,
            final(self).nest@.last().0@ == open@,
            final(self).nest@.last().1 == closers,
            final(self).nest@.drop_last() == old(self).nest@,
            final(self).remaining == old(self).remaining,
            final(self).lineno == old(self).lineno,
            old(self).nest_wf() ==> final(self).nest_wf(),
    {
        self.nest.push((open.to_owned(), closers));
    }

    /// Leave the innermost nesting construct.
    pub fn nest_pop(&mut self)
        requires
            old(self).nest@.len() >= 2,
        ensures
            final(self).nest@ == old(self).nest@.drop_last(),
            final(self).remaining == old(self).remaining,
            final(self).lineno == old(self).lineno,
            old(self).nest_wf() ==> final(self).nest_wf(),
    {
        self.nest.pop();
    }

    /// Length of the longest prefix of blanks (spaces and tabs).
    pub fn scanner_blank(&self) -> (n: usize)
        ensures
            n <= self.remaining@.len(),
            forall|i: int| 0 <= i < n ==> is_blank(#[trigger] self.remaining@[i]),
            n < self.remaining@.len() ==> !is_blank(self.remaining@[n as int]),
    {
        let s = self.remaining.as_str();
        let len = s.unicode_len();
        let mut i: usize = 0;
        while i < len
            invariant
                0 <= i <= len,
                len == s@.len(),
                s@ == self.remaining@,
                forall|j: int| 0 <= j < i ==> is_blank(#[trigger] s@[j]),
            decreases len - i,
        {
            if !is_blank_exec(s.get_char(i)) {
                return i;
            }
            i = i + 1;
        }
        i
    }

    /// Length of the longest prefix of blanks and newlines.
    pub fn scanner_multiline_blank(&self) -> (n: usize)
        ensures
            n <= self.remaining@.len(),
            forall|i: int| 0 <= i < n ==> is_multiline_blank(#[trigger] self.remaining@[i]),
            n < self.remaining@.len() ==> !is_multiline_blank(self.remaining@[n as int]),
    {
        let s = self.remaining.as_str();
        let len = s.unicode_len();
        let mut i: usize = 0;
        while i < len
            invariant
                0 <= i <= len,
                len == s@.len(),
                s@ == self.remaining@,
                forall|j: int| 0 <= j < i ==> is_multiline_blank(#[trigger] s@[j]),
            decreases len - i,
        {
            let c = s.get_char(i);
            if !(c == ' ' || c == '\t' || c == '\n') {
                return i;
            }
            i = i + 1;
        }
        i
    }

    /// Length of the longest prefix of word characters.
    pub fn scanner_word(&self) -> (n: usize)
        ensures
            n <= self.remaining@.len(),
            forall|i: int| 0 <= i < n ==> is_word_char(#[trigger] self.remaining@[i]),
            n < self.remaining@.len() ==> !is_word_char(self.remaining@[n as int]),
    {
        let s = self.remaining.as_str();
        let len = s.unicode_len();
        let mut i: usize = 0;
        while i < len
            invariant
                0 <= i <= len,
                len == s@.len(),
                s@ == self.remaining@,
                forall|j: int| 0 <= j < i ==> is_word_char(#[trigger] s@[j]),
            decreases len - i,
        {
            if !is_word_char_exec(s.get_char(i)) {
                return i;
            }
            i = i + 1;
        }
        i
    }

    /// Length of the longest prefix of word characters valid inside a brace
    /// expansion (a comma ends such a word).
    pub fn scanner_brace_word(&self) -> (n: usize)
        ensures
            n <= self.remaining@.len(),
            forall|i: int| 0 <= i < n ==> is_brace_word_char(#[trigger] self.remaining@[i]),
            n < self.remaining@.len() ==> !is_brace_word_char(self.remaining@[n as int]),
    {
        let s = self.remaining.as_str();
        let len = s.unicode_len();
        let mut i: usize = 0;
        while i < len
            invariant
                0 <= i <= len,
                len == s@.len(),
                s@ == self.remaining@,
                forall|j: int| 0 <= j < i ==> is_brace_word_char(#[trigger] s@[j]),
            decreases len - i,
        {
            let c = s.get_char(i);
            if !(is_word_char_exec(c) && c != ',') {
                return i;
            }
            i = i + 1;
        }
        i
    }

    /// Length of a variable-name prefix: a letter or underscore, then
    /// letters, digits and underscores.
    pub fn scanner_name(&self) -> (n: usize)
        ensures
            n <= self.remaining@.len(),
            n > 0 ==> is_name_head(self.remaining@[0]),
            forall|i: int| 0 <= i < n ==> is_name_char(#[trigger] self.remaining@[i]),
            n < self.remaining@.len() && n > 0 ==> !is_name_char(self.remaining@[n as int]),
            n == 0 ==> self.remaining@.len() == 0 || !is_name_head(self.remaining@[0]),
    {
        let s = self.remaining.as_str();
        let len = s.unicode_len();
        if len == 0 {
            return 0;
        }
        let c0 = s.get_char(0);
        if !(('A' <= c0 && c0 <= 'Z') || ('a' <= c0 && c0 <= 'z') || c0 == '_') {
            return 0;
        }
        let mut i: usize = 1;
        while i < len
            invariant
                1 <= i <= len,
                len == s@.len(),
                s@ == self.remaining@,
                is_name_head(s@[0]),
                forall|j: int| 0 <= j < i ==> is_name_char(#[trigger] s@[j]),
            decreases len - i,
        {
            let c = s.get_char(i);
            if !(('A' <= c && c <= 'Z') || ('a' <= c && c <= 'z') || c == '_' || ('0' <= c && c
                <= '9')) {
                return i;
            }
            i = i + 1;
        }
        i
    }

    /// Length of a decimal integer literal prefix: digits, with one leading
    /// `-` allowed when a digit follows it.
    pub fn scanner_integer(&self) -> (n: usize)
        ensures
            n <= self.remaining@.len(),
            n > 0 ==> (crate::numstr::is_dec_digit(self.remaining@[0]) || self.remaining@[0]
                == '-'),
            n > 0 && self.remaining@[0] == '-' ==> n >= 2,
            forall|i: int| 1 <= i < n ==> crate::numstr::is_dec_digit(#[trigger] self.remaining@[i]),
            n > 0 && n < self.remaining@.len() ==> !crate::numstr::is_dec_digit(
                self.remaining@[n as int],
            ),
    {
        let s = self.remaining.as_str();
        let len = s.unicode_len();
        if len == 0 {
            return 0;
        }
        let c0 = s.get_char(0);
        let start: usize = if c0 == '-' {
            1
        } else {
            0
        };
        if start == 1 && (len < 2 || !is_digit_exec(s.get_char(1))) {
            return 0;
        }
        if start == 0 && !is_digit_exec(c0) {
            return 0;
        }
        let mut i: usize = start + 1;
        let mut stopped: bool = false;
        while i < len && !stopped
            invariant
                start < i <= len,
                start <= 1,
                len == s@.len(),
                s@ == self.remaining@,
                start == 1 ==> s@[0] == '-',
                forall|j: int| start <= j < i ==> crate::numstr::is_dec_digit(#[trigger] s@[j]),
                stopped ==> i < len && !crate::numstr::is_dec_digit(s@[i as int]),
            decreases len - i, (if stopped { 0int } else { 1int }),
        {
            if !is_digit_exec(s.get_char(i)) {
                stopped = true;
            } else {
                i = i + 1;
            }
        }
        i
    }

    /// Length of the longest prefix of decimal digits.
    pub fn scanner_digits(&self) -> (n: usize)
        ensures
            n <= self.remaining@.len(),
            forall|i: int| 0 <= i < n ==> crate::numstr::is_dec_digit(#[trigger] self.remaining@[i]),
            n < self.remaining@.len() ==> !crate::numstr::is_dec_digit(self.remaining@[n as int]),
    {
        let s = self.remaining.as_str();
        let len = s.unicode_len();
        let mut i: usize = 0;
        while i < len
            invariant
                0 <= i <= len,
                len == s@.len(),
                s@ == self.remaining@,
                forall|j: int| 0 <= j < i ==> crate::numstr::is_dec_digit(#[trigger] s@[j]),
            decreases len - i,
        {
            if !is_digit_exec(s.get_char(i)) {
                return i;
            }
            i = i + 1;
        }
        i
    }

    /// Length of a job-terminator prefix: `;`, `&` or a newline (1), unless
    /// the buffer starts with one of the two-character list connectors or
    /// case terminators, which are not job ends.
    pub fn scanner_job_end(&self) -> (n: usize)
        ensures
            n <= self.remaining@.len(),
            n == 1 ==> (self.remaining@[0] == ';' || self.remaining@[0] == '&'
                || self.remaining@[0] == '\n'),
            n == 0 ==> !(self.remaining@.len() > 0 && (self.remaining@[0] == ';'
                || self.remaining@[0] == '&' || self.remaining@[0] == '\n')
                && !spec_starts_with(self.remaining@, "&&"@) && !spec_starts_with(
                self.remaining@,
                ";;"@,
            )),
            n <= 1,
    {
        proof {
            reveal_strlit("&&");
            reveal_strlit(";;");
        }
        if self.starts_with("&&") || self.starts_with(";;") {
            return 0;
        }
        let s = self.remaining.as_str();
        if s.unicode_len() == 0 {
            return 0;
        }
        let c = s.get_char(0);
        if c == ';' || c == '&' || c == '\n' {
            1
        } else {
            0
        }
    }
}

fn is_digit_exec(c: char) -> (r: bool)
    ensures
        r == crate::numstr::is_dec_digit(c),
{
    '0' <= c && c <= '9'
}

} // verus!
