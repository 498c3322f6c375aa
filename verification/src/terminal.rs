//! The line buffer behind the interactive terminal, and the pure parts of
//! tab completion: the longest common prefix of the candidates, and the
//! replacement of the word under the cursor.  Rendering and candidate
//! listing live outside; this is the state they display.

use vstd::prelude::*;

verus! {

/// The length of the common prefix of `chars` and `s`, scanning from
/// position `i`: it ends at the first disagreement or at the shorter of
/// the two.
pub open spec fn common_len_spec(chars: Seq<char>, s: Seq<char>, i: int) -> int
    decreases s.len() - i,
    when 0 <= i <= s.len()
{
    if i >= s.len() {
        i
    } else if i >= chars.len() || chars[i] != s[i] {
        i
    } else {
        common_len_spec(chars, s, i + 1)
    }
}

/// How far `s` agrees with the reference `chars`, per `common_len_spec`:
/// the length of their common prefix.
pub fn common_length(chars: &Vec<char>, s: &String) -> (r: usize)
    ensures
        r as int == common_len_spec(chars@, s@, 0),
        r <= chars@.len(),
        r <= s@.len(),
{
    let max_len = chars.len();
    let ss = s.as_str();
    let slen = ss.unicode_len();
    let mut i: usize = 0;
    while i < slen
        invariant
            0 <= i <= slen,
            ss@ == s@,
            slen == s@.len(),
            max_len == chars@.len(),
            i <= max_len,
            common_len_spec(chars@, s@, i as int) == common_len_spec(chars@, s@, 0),
        decreases slen - i,
    {
        let c = ss.get_char(i);
        if i >= max_len || chars[i] != c {
            return i;
        }
        i = i + 1;
    }
    slen
}

proof fn lemma_common_len_le(chars: Seq<char>, s: Seq<char>, i: int)
    requires
        0 <= i <= s.len(),
        i <= chars.len(),
    ensures
        common_len_spec(chars, s, i) <= chars.len(),
        common_len_spec(chars, s, i) <= s.len(),
    decreases s.len() - i,
{
    if i < s.len() && !(i >= chars.len() || chars[i] != s[i]) {
        lemma_common_len_le(chars, s, i + 1);
    }
}

/// The least agreement of every candidate with the first one.
pub open spec fn min_common_spec(paths: Seq<String>, refc: Seq<char>, i: int, acc: int) -> int
    decreases paths.len() - i,
    when 0 <= i <= paths.len()
{
    if i >= paths.len() {
        acc
    } else {
        let c = common_len_spec(refc, paths[i]@, 0);
        min_common_spec(paths, refc, i + 1, if c < acc {
            c
        } else {
            acc
        })
    }
}

/// The longest prefix of the first candidate that every candidate agrees
/// with; empty when there are no candidates.
pub fn common_string(paths: &Vec<String>) -> (r: String)
    ensures
        paths@.len() == 0 ==> r@ == Seq::<char>::empty(),
        paths@.len() > 0 ==> {
            let l = min_common_spec(paths@, paths@[0]@, 1, paths@[0]@.len() as int);
            0 <= l <= paths@[0]@.len() && r@ == paths@[0]@.subrange(0, l)
        },
{
    if paths.len() == 0 {
        return String::new();
    }
    let first = &paths[0];
    let flen = first.as_str().unicode_len();
    let mut ref_chars: Vec<char> = Vec::new();
    let mut ci: usize = 0;
    while ci < flen
        invariant
            0 <= ci <= flen,
            first@ == paths@[0]@,
            flen == paths@[0]@.len(),
            paths@.len() > 0,
            ref_chars@ =~= paths@[0]@.subrange(0, ci as int),
        decreases flen - ci,
    {
        ref_chars.push(first.as_str().get_char(ci));
        proof {
            assert(ref_chars@ =~= paths@[0]@.subrange(0, ci + 1));
        }
        ci = ci + 1;
    }
    proof {
        assert(ref_chars@ =~= paths@[0]@);
    }
    let mut common_len: usize = flen;
    let mut i: usize = 1;
    while i < paths.len()
        invariant
            1 <= i <= paths@.len(),
            first@ == paths@[0]@,
            flen == paths@[0]@.len(),
            ref_chars@ == paths@[0]@,
            common_len <= flen,
            min_common_spec(paths@, paths@[0]@, i as int, common_len as int) == min_common_spec(
                paths@,
                paths@[0]@,
                1,
                flen as int,
            ),
        decreases paths@.len() - i,
    {
        let len = common_length(&ref_chars, &paths[i]);
        proof {
            lemma_common_len_le(ref_chars@, paths@[i as int]@, 0);
        }
        if len < common_len {
            common_len = len;
        }
        i = i + 1;
    }
    first.as_str().substring_char(0, common_len).to_owned()
}

/// The interactive line buffer: the prompt, the edited characters, and
/// the cursor position within them.
pub struct Terminal {
    /// Characters of the prompt; the edit buffer starts after them.
    pub prompt: String,
    /// The edited line, prompt included, one character per cell.
    pub chars: Vec<char>,
    /// The cursor: an index into `chars`.
    pub head: usize,
}

/// Where the word under the cursor starts: scanning left from `head`,
/// stop at the prompt's end or after a blank.
pub open spec fn word_start(chars: Seq<char>, h: int, plen: int) -> int
    decreases h,
    when 0 <= h <= chars.len()
{
    if h <= plen || h <= 0 || chars[h - 1] == ' ' {
        h
    } else {
        word_start(chars, h - 1, plen)
    }
}

/// Where the word under the cursor ends: scanning right from `head`,
/// stop at the line's end or before a blank.
pub open spec fn word_end(chars: Seq<char>, h: int) -> int
    decreases chars.len() - h,
    when 0 <= h <= chars.len()
{
    if h >= chars.len() || chars[h] == ' ' {
        h
    } else {
        word_end(chars, h + 1)
    }
}

/// A replacement text with every blank escaped.
pub open spec fn escaped(t: Seq<char>) -> Seq<char>
    decreases t.len(),
{
    if t.len() == 0 {
        Seq::empty()
    } else {
        (if t[0] == ' ' {
            seq!['\\', ' ']
        } else {
            seq![t[0]]
        }) + escaped(t.skip(1))
    }
}

/// What is typed in place of the word under the cursor: the replacement
/// with blanks escaped, except that a single trailing blank is kept
/// unescaped.
pub open spec fn typed_form(t: Seq<char>) -> Seq<char> {
    if t.len() > 0 && t.last() == ' ' {
        escaped(t.take(t.len() - 1)) + seq![' ']
    } else {
        escaped(t)
    }
}

impl Terminal {
    /// The cursor stays within the line, after the prompt.
    pub open spec fn wf(self) -> bool {
        self.prompt@.len() <= self.head <= self.chars@.len()
    }

    /// A fresh terminal showing `prompt`.
    pub fn new(prompt: &str) -> (t: Terminal)
        ensures
            t.wf(),
            t.prompt@ == prompt@,
            t.chars@ == prompt@,
            t.head == prompt@.len(),
    {
        let plen = prompt.unicode_len();
        let mut chars: Vec<char> = Vec::new();
        let mut i: usize = 0;
        while i < plen
            invariant
                0 <= i <= plen,
                plen == prompt@.len(),
                chars@ =~= prompt@.subrange(0, i as int),
            decreases plen - i,
        {
            chars.push(prompt.get_char(i));
            proof {
                assert(chars@ =~= prompt@.subrange(0, i + 1));
            }
            i = i + 1;
        }
        proof {
            assert(chars@ =~= prompt@);
        }
        Terminal { prompt: prompt.to_owned(), chars, head: plen }
    }

    /// Insert one character at the cursor.
    pub fn insert(&mut self, c: char)
        requires
            old(self).wf(),
            old(self).chars@.len() < usize::MAX,
        ensures
            final(self).wf(),
            final(self).prompt == old(self).prompt,
            final(self).chars@ == old(self).chars@.insert(old(self).head as int, c),
            final(self).head == old(self).head + 1,
    {
        self.chars.insert(self.head, c);
        self.head = self.head + 1;
    }

    /// Remove the character before the cursor, when the cursor is past
    /// the prompt.
    pub fn backspace(&mut self)
        requires
            old(self).wf(),
        ensures
            final(self).wf(),
            final(self).prompt == old(self).prompt,
            old(self).head > old(self).prompt@.len() ==> final(self).chars@ == old(self).chars@.remove(old(self).head - 1) && final(self).head == old(self).head - 1,
            old(self).head <= old(self).prompt@.len() ==> *final(self) == *old(self),
    {
        if self.head > self.prompt.as_str().unicode_len() {
            self.chars.remove(self.head - 1);
            self.head = self.head - 1;
        }
    }

    /// Remove the character under the cursor, when there is one.
    pub fn delete(&mut self)
        requires
            old(self).wf(),
        ensures
            final(self).wf(),
            final(self).prompt == old(self).prompt,
            old(self).head < old(self).chars@.len() ==> final(self).chars@ == old(self).chars@.remove(old(self).head as int) && final(self).head == old(self).head,
            old(self).head >= old(self).chars@.len() ==> *final(self) == *old(self),
    {
        if self.head < self.chars.len() {
            self.chars.remove(self.head);
        }
    }

    /// Replace the word under the cursor by `to`, with blanks escaped as
    /// they would be typed: the buffer becomes the text before the word,
    /// the typed form of `to`, and the text after the word — except that
    /// a trailing blank of `to` is dropped when the text after the word
    /// already starts with one.
    pub fn replace_input(&mut self, to: &String)
        requires
            old(self).wf(),
        ensures
            final(self).wf(),
            final(self).prompt == old(self).prompt,
            ({
                let ws = word_start(
                    old(self).chars@,
                    old(self).head as int,
                    old(self).prompt@.len() as int,
                );
                let we = word_end(old(self).chars@, old(self).head as int);
                let suffix = old(self).chars@.skip(we);
                let typed = typed_form(to@);
                let kept = if to@.len() > 0 && to@.last() == ' ' && suffix.len() > 0 && suffix[0]
                    == ' ' {
                    typed.take(typed.len() - 1)
                } else {
                    typed
                };
                final(self).chars@ == old(self).chars@.take(ws) + kept + suffix && final(self).head as int == ws + kept.len()
            }),
    {
        let plen = self.prompt.as_str().unicode_len();
        // Find the word's boundaries.
        let mut ws: usize = self.head;
        while !(ws <= plen || ws == 0 || self.chars[ws - 1] == ' ')
            invariant
                0 <= ws <= self.chars@.len(),
                word_start(self.chars@, ws as int, plen as int) == word_start(
                    self.chars@,
                    self.head as int,
                    plen as int,
                ),
                plen == self.prompt@.len(),
                *self == *old(self),
            decreases ws,
        {
            ws = ws - 1;
        }
        let mut we: usize = self.head;
        while !(we >= self.chars.len() || self.chars[we] == ' ')
            invariant
                0 <= we <= self.chars@.len(),
                word_end(self.chars@, we as int) == word_end(self.chars@, self.head as int),
                *self == *old(self),
            decreases self.chars@.len() - we,
        {
            we = we + 1;
        }
        proof {
            assert(word_start(self.chars@, ws as int, plen as int) == ws as int);
            assert(word_end(self.chars@, we as int) == we as int);
            lemma_word_start_bounds(self.chars@, self.head as int, plen as int);
            lemma_word_end_bounds(self.chars@, self.head as int);
            assert(ws <= self.head <= we);
        }
        // The typed form of the replacement.
        let ts = to.as_str();
        let tlen = ts.unicode_len();
        let keep_trailing_blank = tlen > 0 && ts.get_char(tlen - 1) == ' ';
        let escape_upto = if keep_trailing_blank {
            tlen - 1
        } else {
            tlen
        };
        let mut typed: Vec<char> = Vec::new();
        let mut i: usize = 0;
        while i < escape_upto
            invariant
                0 <= i <= escape_upto <= tlen,
                ts@ == to@,
                tlen == to@.len(),
                typed@ == escaped(to@.take(i as int)),
            decreases escape_upto - i,
        {
            let c = ts.get_char(i);
            proof {
                lemma_escaped_snoc(to@, i as int);
            }
            if c == ' ' {
                typed.push('\\');
                typed.push(' ');
            } else {
                typed.push(c);
            }
            proof {
                assert(typed@ =~= escaped(to@.take(i as int)) + (if to@[i as int] == ' ' {
                    seq!['\\', ' ']
                } else {
                    seq![to@[i as int]]
                }));
            }
            i = i + 1;
        }
        proof {
            if !keep_trailing_blank {
                assert(to@.take(tlen as int) =~= to@);
            }
        }
        if keep_trailing_blank {
            typed.push(' ');
        }
        // Decide whether the trailing blank is dropped.
        let drop_blank = keep_trailing_blank && we < self.chars.len() && {
            let c = self.chars[we];
            c == ' '
        };
        let final_len = if drop_blank {
            typed.len() - 1
        } else {
            typed.len()
        };
        // Rebuild the line.
        let mut out: Vec<char> = Vec::new();
        let mut k: usize = 0;
        while k < ws
            invariant
                0 <= k <= ws <= self.chars@.len(),
                out@ =~= self.chars@.take(ws as int).take(k as int),
                *self == *old(self),
            decreases ws - k,
        {
            out.push(self.chars[k]);
            proof {
                assert(out@ =~= self.chars@.take(ws as int).take(k + 1));
            }
            k = k + 1;
        }
        proof {
            assert(out@ =~= self.chars@.take(ws as int));
        }
        let mut k2: usize = 0;
        while k2 < final_len
            invariant
                0 <= k2 <= final_len <= typed@.len(),
                out@ =~= self.chars@.take(ws as int) + typed@.subrange(0, k2 as int),
                *self == *old(self),
                ws <= self.chars@.len(),
            decreases final_len - k2,
        {
            out.push(typed[k2]);
            proof {
                assert(out@ =~= self.chars@.take(ws as int) + typed@.subrange(0, k2 + 1));
            }
            k2 = k2 + 1;
        }
        let new_head = out.len();
        let mut k3: usize = we;
        while k3 < self.chars.len()
            invariant
                we <= k3 <= self.chars@.len(),
                out@ =~= self.chars@.take(ws as int) + typed@.subrange(0, final_len as int)
                    + self.chars@.subrange(we as int, k3 as int),
                *self == *old(self),
                ws <= we <= self.chars@.len(),
                final_len <= typed@.len(),
            decreases self.chars@.len() - k3,
        {
            out.push(self.chars[k3]);
            proof {
                assert(out@ =~= self.chars@.take(ws as int) + typed@.subrange(0, final_len as int)
                    + self.chars@.subrange(we as int, k3 + 1));
            }
            k3 = k3 + 1;
        }
        proof {
            assert(self.chars@.subrange(we as int, self.chars@.len() as int) =~= self.chars@.skip(
                we as int,
            ));
            let typed_spec = typed_form(to@);
            assert(typed@ =~= typed_spec);
            assert(typed@.subrange(0, final_len as int) =~= (if drop_blank {
                typed_spec.take(typed_spec.len() - 1)
            } else {
                typed_spec
            }));
        }
        self.chars = out;
        self.head = new_head;
    }
}

proof fn lemma_word_start_bounds(chars: Seq<char>, h: int, plen: int)
    requires
        0 <= h <= chars.len(),
    ensures
        0 <= word_start(chars, h, plen) <= h,
        plen <= h ==> plen <= word_start(chars, h, plen),
    decreases h,
{
    if !(h <= plen || h <= 0 || chars[h - 1] == ' ') {
        lemma_word_start_bounds(chars, h - 1, plen);
    }
}

proof fn lemma_word_end_bounds(chars: Seq<char>, h: int)
    requires
        0 <= h <= chars.len(),
    ensures
        h <= word_end(chars, h) <= chars.len(),
    decreases chars.len() - h,
{
    if !(h >= chars.len() || chars[h] == ' ') {
        lemma_word_end_bounds(chars, h + 1);
    }
}

proof fn lemma_escaped_snoc(t: Seq<char>, i: int)
    requires
        0 <= i < t.len(),
    ensures
        escaped(t.take(i + 1)) == escaped(t.take(i)) + (if t[i] == ' ' {
            seq!['\\', ' ']
        } else {
            seq![t[i]]
        }),
    decreases i,
{
    if i == 0 {
        assert(t.take(1).skip(1) =~= Seq::<char>::empty());
        assert(t.take(0) =~= Seq::<char>::empty());
        assert(escaped(t.take(0)) =~= Seq::<char>::empty());
        assert(t.take(1)[0] == t[0]);
        assert(escaped(t.take(1)) =~= (if t[0] == ' ' {
            seq!['\\', ' ']
        } else {
            seq![t[0]]
        }));
    } else {
        lemma_escaped_snoc(t.skip(1), i - 1);
        assert(t.take(i + 1).skip(1) =~= t.skip(1).take(i));
        assert(t.take(i).skip(1) =~= t.skip(1).take(i - 1));
        assert(t.skip(1)[i - 1] == t[i]);
        assert(t.take(i + 1)[0] == t[0]);
        assert(t.take(i)[0] == t[0]);
        let head: Seq<char> = if t[0] == ' ' {
            seq!['\\', ' ']
        } else {
            seq![t[0]]
        };
        assert(escaped(t.take(i + 1)) == head + escaped(t.skip(1).take(i)));
        assert(escaped(t.take(i)) == head + escaped(t.skip(1).take(i - 1)));
        let tailbit: Seq<char> = if t[i] == ' ' {
            seq!['\\', ' ']
        } else {
            seq![t[i]]
        };
        assert(head + (escaped(t.skip(1).take(i - 1)) + tailbit) =~= (head + escaped(
            t.skip(1).take(i - 1),
        )) + tailbit);
    }
}

} // verus!
