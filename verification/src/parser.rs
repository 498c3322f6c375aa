//! A line-oriented scanner for the simplest command shape: a command as a
//! flat list of argument, delimiter and end-of-command elements, each with
//! its position in the source line.

use vstd::prelude::*;
use crate::shellcore::ShellCore;

verus! {

/// A position in the source: line number, column, and the element's
/// length.
#[derive(Clone, Copy, PartialEq, Eq, Structural, Debug)]
pub struct TextPos {
    pub lineno: u32,
    pub pos: u32,
    pub length: usize,
}

/// An argument: a run of characters up to a delimiter.
#[derive(Debug)]
pub struct Arg {
    pub text: String,
    pub pos: TextPos,
}

/// A delimiter: a run of spaces and tabs.
#[derive(Debug)]
pub struct Delim {
    pub text: String,
    pub pos: TextPos,
}

/// An end of command: `;` or a newline.
#[derive(Debug)]
pub struct Eoc {
    pub text: String,
    pub pos: TextPos,
}

/// A blank element: what a line with nothing recognizable scans to.
#[derive(Debug)]
pub struct Empty {}

/// One element of a scanned command.
#[derive(Debug)]
pub enum CmdElem {
    Arg(Arg),
    Delim(Delim),
    Eoc(Eoc),
}

/// A command with its arguments: the scanned elements in order, and the
/// full text the scan started from.
#[derive(Debug)]
pub struct CommandWithArgs {
    pub elems: Vec<CmdElem>,
    pub text: String,
    pub text_pos: usize,
}

/// A top-level element: a command, or nothing.
#[derive(Debug)]
pub enum TopElem {
    Command(CommandWithArgs),
    Empty(Empty),
}

/// The text being scanned, with its position bookkeeping.
#[derive(Debug)]
pub struct ReadingText {
    pub remaining: String,
    pub from_lineno: u32,
    pub to_lineno: u32,
    pub pos_in_line: u32,
}

/// The characters that end an argument.
pub open spec fn is_arg_delim(c: char) -> bool {
    c == ' ' || c == '\n' || c == '\t' || c == ';'
}

pub open spec fn is_blank_delim(c: char) -> bool {
    c == ' ' || c == '\t'
}

/// A column count wraps around as a 32-bit counter does.
pub open spec fn wrap_u32(n: int) -> int {
    n % 0x1_0000_0000
}

proof fn lemma_wrap_add(x: int, t: int)
    requires
        0 <= x < 0x1_0000_0000,
        0 <= t < 0x1_0000_0000,
    ensures
        wrap_u32(x + t) == if x + t < 0x1_0000_0000 {
            x + t
        } else {
            x + t - 0x1_0000_0000
        },
{
    if x + t < 0x1_0000_0000 {
        assert((x + t) % 0x1_0000_0000 == x + t) by (nonlinear_arith)
            requires
                0 <= x + t < 0x1_0000_0000,
        ;
    } else {
        assert((x + t) % 0x1_0000_0000 == x + t - 0x1_0000_0000) by (nonlinear_arith)
            requires
                0x1_0000_0000 <= x + t < 2 * 0x1_0000_0000,
        ;
    }
}

/// Scan an argument: everything before the first delimiter character.
/// `None` when no delimiter occurs at all; nothing is consumed then.
pub fn arg(text: &mut ReadingText) -> (r: Option<Arg>)
    ensures
        match r {
            Some(a) => {
                &&& a.pos.length < old(text).remaining@.len()
                &&& a.text@ == old(text).remaining@.subrange(0, a.pos.length as int)
                &&& final(text).remaining@ == old(text).remaining@.skip(a.pos.length as int)
                &&& is_arg_delim(old(text).remaining@[a.pos.length as int])
                &&& forall|j: int|
                    0 <= j < a.pos.length ==> !is_arg_delim(#[trigger] old(text).remaining@[j])
                &&& a.pos.lineno == old(text).from_lineno
                &&& a.pos.pos == old(text).pos_in_line
                &&& (a.pos.length < 0x1_0000_0000 ==> final(text).pos_in_line as int == wrap_u32(
                    old(text).pos_in_line + a.pos.length,
                ))
                &&& final(text).from_lineno == old(text).from_lineno
                &&& final(text).to_lineno == old(text).to_lineno
            },
            None => *final(text) == *old(text) && (forall|j: int|
                0 <= j < old(text).remaining@.len() ==> !is_arg_delim(
                    #[trigger] old(text).remaining@[j],
                )),
        },
{
    let s = text.remaining.clone();
    let len = s.as_str().unicode_len();
    let mut pos: usize = 0;
    while pos < len
        invariant
            0 <= pos <= len,
            len == s@.len(),
            s@ == text.remaining@,
            *text == *old(text),
            forall|j: int| 0 <= j < pos ==> !is_arg_delim(#[trigger] s@[j]),
        decreases len - pos,
    {
        let ch = s.as_str().get_char(pos);
        if ch == ' ' || ch == '\n' || ch == '\t' || ch == ';' {
            let ans = Arg {
                text: s.as_str().substring_char(0, pos).to_owned(),
                pos: TextPos { lineno: text.from_lineno, pos: text.pos_in_line, length: pos },
            };
            let t: u32 = if pos <= 0xFFFFFFFFusize {
                pos as u32
            } else {
                0
            };
            proof {
                if pos < 0x1_0000_0000 {
                    lemma_wrap_add(text.pos_in_line as int, t as int);
                }
            }
            text.pos_in_line = text.pos_in_line.wrapping_add(t);
            text.remaining = s.as_str().substring_char(pos, len).to_owned();
            proof {
                assert(final(text).remaining@ =~= old(text).remaining@.skip(pos as int));
            }
            return Some(ans);
        }
        pos = pos + 1;
    }
    None
}

/// Scan a delimiter: a maximal run of spaces and tabs.  `None` when the
/// text starts with anything else; nothing is consumed then.
pub fn delimiter(text: &mut ReadingText) -> (r: Option<Delim>)
    ensures
        match r {
            Some(d) => {
                &&& 0 < d.pos.length <= old(text).remaining@.len()
                &&& d.text@ == old(text).remaining@.subrange(0, d.pos.length as int)
                &&& final(text).remaining@ == old(text).remaining@.skip(d.pos.length as int)
                &&& forall|j: int|
                    0 <= j < d.pos.length ==> is_blank_delim(#[trigger] old(text).remaining@[j])
                &&& (d.pos.length < old(text).remaining@.len() ==> !is_blank_delim(
                    old(text).remaining@[d.pos.length as int],
                ))
                &&& d.pos.lineno == old(text).from_lineno
                &&& (d.pos.length < 0x1_0000_0000 ==> final(text).pos_in_line as int == wrap_u32(
                    old(text).pos_in_line + d.pos.length,
                ))
                &&& final(text).from_lineno == old(text).from_lineno
                &&& final(text).to_lineno == old(text).to_lineno
            },
            None => *final(text) == *old(text) && (old(text).remaining@.len() == 0
                || !is_blank_delim(old(text).remaining@[0])),
        },
{
    let s = text.remaining.clone();
    let len = s.as_str().unicode_len();
    if len == 0 {
        return None;
    }
    let c0 = s.as_str().get_char(0);
    if !(c0 == ' ' || c0 == '\t') {
        return None;
    }
    let mut length: usize = 1;
    let mut stopped: bool = false;
    while length < len && !stopped
        invariant
            1 <= length <= len,
            len == s@.len(),
            s@ == text.remaining@,
            *text == *old(text),
            forall|j: int| 0 <= j < length ==> is_blank_delim(#[trigger] s@[j]),
            stopped ==> length < len && !is_blank_delim(s@[length as int]),
        decreases len - length, (if stopped { 0int } else { 1int }),
    {
        let ch = s.as_str().get_char(length);
        if !(ch == ' ' || ch == '\t') {
            stopped = true;
        } else {
            length = length + 1;
        }
    }
    let t: u32 = if length <= 0xFFFFFFFFusize {
        length as u32
    } else {
        0
    };
    let ans = Delim {
        text: s.as_str().substring_char(0, length).to_owned(),
        pos: TextPos {
            lineno: text.from_lineno,
            pos: text.pos_in_line.wrapping_add(t),
            length,
        },
    };
    proof {
        if length < 0x1_0000_0000 {
            lemma_wrap_add(text.pos_in_line as int, t as int);
        }
    }
    text.pos_in_line = text.pos_in_line.wrapping_add(t);
    text.remaining = s.as_str().substring_char(length, len).to_owned();
    proof {
        assert(final(text).remaining@ =~= old(text).remaining@.skip(length as int));
    }
    Some(ans)
}

/// Scan an end of command: one `;` or newline.  `None` when the text
/// starts with anything else; nothing is consumed then.
pub fn end_of_command(text: &mut ReadingText) -> (r: Option<Eoc>)
    ensures
        match r {
            Some(e) => {
                &&& old(text).remaining@.len() > 0
                &&& (old(text).remaining@[0] == ';' || old(text).remaining@[0] == '\n')
                &&& e.text@ == old(text).remaining@.subrange(0, 1)
                &&& final(text).remaining@ == old(text).remaining@.skip(1)
                &&& e.pos.length == 1
                &&& e.pos.lineno == old(text).from_lineno
                &&& final(text).pos_in_line as int == wrap_u32(old(text).pos_in_line + 1)
                &&& final(text).from_lineno == old(text).from_lineno
                &&& final(text).to_lineno == old(text).to_lineno
            },
            None => *final(text) == *old(text) && (old(text).remaining@.len() == 0 || !(old(
                text,
            ).remaining@[0] == ';' || old(text).remaining@[0] == '\n')),
        },
{
    let s = text.remaining.clone();
    let len = s.as_str().unicode_len();
    if len == 0 {
        return None;
    }
    let ch = s.as_str().get_char(0);
    if !(ch == ';' || ch == '\n') {
        return None;
    }
    let ans = Eoc {
        text: s.as_str().substring_char(0, 1).to_owned(),
        pos: TextPos {
            lineno: text.from_lineno,
            pos: text.pos_in_line.wrapping_add(1),
            length: 1,
        },
    };
    proof {
        lemma_wrap_add(text.pos_in_line as int, 1);
    }
    text.pos_in_line = text.pos_in_line.wrapping_add(1);
    text.remaining = s.as_str().substring_char(1, len).to_owned();
    proof {
        assert(final(text).remaining@ =~= old(text).remaining@.skip(1));
    }
    Some(ans)
}

/// The source text of one scanned element.
pub open spec fn elem_text(e: CmdElem) -> Seq<char> {
    match e {
        CmdElem::Arg(a) => a.text@,
        CmdElem::Delim(d) => d.text@,
        CmdElem::Eoc(c) => c.text@,
    }
}

/// The concatenated text of the first `i` scanned elements.
pub open spec fn elems_text_pre(s: Seq<CmdElem>, i: int) -> Seq<char>
    decreases i,
    when 0 <= i <= s.len()
{
    if i <= 0 {
        Seq::empty()
    } else {
        elems_text_pre(s, i - 1) + elem_text(s[i - 1])
    }
}

proof fn lemma_elems_pre_stable(s: Seq<CmdElem>, e: CmdElem, i: int)
    requires
        0 <= i <= s.len(),
    ensures
        elems_text_pre(s.push(e), i) == elems_text_pre(s, i),
    decreases i,
{
    if i > 0 {
        lemma_elems_pre_stable(s, e, i - 1);
        assert(s.push(e)[i - 1] == s[i - 1]);
    }
}

/// Scan one command: an optional leading delimiter, then arguments with
/// the delimiters between them, up to an end of command.  The whole
/// starting text is recorded, and the scanned elements' texts concatenate
/// to exactly the consumed prefix.  `None`, with nothing consumed,
/// exactly when no delimiter character occurs anywhere in the text.
pub fn command_with_args(text: &mut ReadingText) -> (r: Option<CommandWithArgs>)
    ensures
        (exists|j: int|
            0 <= j < old(text).remaining@.len() && is_arg_delim(
                #[trigger] old(text).remaining@[j],
            )) ==> r is Some,
        match r {
            Some(c) => c.text@ == old(text).remaining@ && c.elems@.len() > 0 && c.text_pos == 0
                && elems_text_pre(c.elems@, c.elems@.len() as int) + final(text).remaining@ == old(
                text,
            ).remaining@,
            None => *final(text) == *old(text) && (forall|j: int|
                0 <= j < old(text).remaining@.len() ==> !is_arg_delim(
                    #[trigger] old(text).remaining@[j],
                )),
        },
{
    let mut ans = CommandWithArgs {
        elems: Vec::new(),
        text: text.remaining.clone(),
        text_pos: 0,
    };
    let ghost whole = text.remaining@;
    match delimiter(text) {
        Some(d) => {
            proof {
                lemma_elems_pre_stable(ans.elems@, CmdElem::Delim(d), ans.elems@.len() as int);
                assert(Seq::<char>::empty() + d.text@ =~= d.text@);
                assert(d.text@ + whole.skip(d.pos.length as int) =~= whole);
            }
            ans.elems.push(CmdElem::Delim(d));
        },
        None => {},
    }
    loop
        invariant
            ans.text@ == old(text).remaining@,
            ans.text_pos == 0,
            ans.elems@.len() == 0 ==> *text == *old(text),
            elems_text_pre(ans.elems@, ans.elems@.len() as int) + text.remaining@ == old(
                text,
            ).remaining@,
        decreases text.remaining@.len(),
    {
        let ghost rem0 = text.remaining@;
        let a = match arg(text) {
            Some(a) => a,
            None => {
                if ans.elems.len() == 0 {
                    return None;
                }
                return Some(ans);
            },
        };
        proof {
            lemma_elems_pre_stable(ans.elems@, CmdElem::Arg(a), ans.elems@.len() as int);
            assert(a.text@ + rem0.skip(a.pos.length as int) =~= rem0);
            assert((elems_text_pre(ans.elems@, ans.elems@.len() as int) + a.text@)
                + text.remaining@ =~= elems_text_pre(ans.elems@, ans.elems@.len() as int) + (
            a.text@ + text.remaining@));
        }
        ans.elems.push(CmdElem::Arg(a));
        let ghost rem1 = text.remaining@;
        match delimiter(text) {
            Some(d) => {
                proof {
                    lemma_elems_pre_stable(ans.elems@, CmdElem::Delim(d), ans.elems@.len() as int);
                    assert(d.text@ + rem1.skip(d.pos.length as int) =~= rem1);
                    assert((elems_text_pre(ans.elems@, ans.elems@.len() as int) + d.text@)
                        + text.remaining@ =~= elems_text_pre(ans.elems@, ans.elems@.len() as int)
                        + (d.text@ + text.remaining@));
                }
                ans.elems.push(CmdElem::Delim(d));
            },
            None => match end_of_command(text) {
                Some(e) => {
                    proof {
                        lemma_elems_pre_stable(ans.elems@, CmdElem::Eoc(e), ans.elems@.len() as int);
                        assert(e.text@ + rem1.skip(1) =~= rem1);
                        assert((elems_text_pre(ans.elems@, ans.elems@.len() as int) + e.text@)
                            + text.remaining@ =~= elems_text_pre(
                            ans.elems@,
                            ans.elems@.len() as int,
                        ) + (e.text@ + text.remaining@));
                    }
                    ans.elems.push(CmdElem::Eoc(e));
                    return Some(ans);
                },
                None => {
                    return Some(ans);
                },
            },
        }
    }
}

/// Scan one top-level element: currently a command, or nothing.  When a
/// command is recognized the line is consumed whole.
pub fn top_level_element(text: &mut ReadingText, _config: &mut ShellCore) -> (r: TopElem)
    ensures
        *final(_config) == *old(_config),
        match r {
            TopElem::Command(c) => c.text@ == old(text).remaining@ && final(text).remaining@.len()
                == 0,
            TopElem::Empty(_) => final(text).remaining@ == old(text).remaining@,
        },
{
    match command_with_args(text) {
        Some(result) => {
            text.remaining = String::new();
            TopElem::Command(result)
        },
        None => TopElem::Empty(Empty {}),
    }
}

} // verus!
