//! Commands: the leaves of the script tree.  A command is a simple
//! command (words and redirects), a subshell `( ... )`, or a brace group
//! `{ ... }`; the alternatives are tried in that order, first success
//! wins.
//!
//! Every parser here keeps the round-trip invariant: a parsed node's text
//! is exactly what it consumed, and a failed or unterminated parse puts
//! everything back.

use vstd::prelude::*;
use crate::feeder::{Feeder, MoreLine, ParseAbort};
use crate::shellcore::ShellCore;
use crate::elements::script::{abort_ok, Script};
use crate::elements::word::{lemma_no_dollar_skip, no_dollar, reps, word_eval_spec, Word};
use crate::elements::calculator::CalcError;
use crate::textutil::{lemma_consume_append, spec_starts_with};

verus! {

/// A redirect: an optional descriptor number, a direction, and a target
/// word.
#[derive(Debug)]
pub struct Redirect {
    /// The exact text this redirect consumed.
    pub text: String,
    /// The descriptor digits before the symbol, possibly empty.
    pub left: String,
    /// The direction: `<`, `>` or `>>`.
    pub symbol: String,
    /// The target.
    pub right: Word,
}

impl Redirect {
    /// Consume one redirect.  Nothing is consumed when none starts here,
    /// and nothing starts here unless a digit or a direction symbol does.
    #[verifier::rlimit(80)]
    pub fn parse(feeder: &mut Feeder, core: &mut ShellCore) -> (r: Result<Option<Redirect>, MoreLine>)
        ensures
            final(feeder).nest@ == old(feeder).nest@,
            *final(core) == *old(core),
            (old(feeder).remaining@.len() == 0 || (!crate::numstr::is_dec_digit(
                old(feeder).remaining@[0],
            ) && old(feeder).remaining@[0] != '>' && old(feeder).remaining@[0] != '<')) ==> r
                == Ok::<Option<Redirect>, MoreLine>(None),
            no_dollar(old(feeder).remaining@) ==> !(r is Err),
            match r {
                Ok(rr) => match rr {
                    Some(rd) => old(feeder).remaining@ == rd.text@ + final(feeder).remaining@
                        && final(feeder).remaining@.len() < old(feeder).remaining@.len(),
                    None => final(feeder).remaining@ == old(feeder).remaining@,
                },
                Err(_) => final(feeder).remaining@ == old(feeder).remaining@,
            },
    {
        proof {
            reveal_strlit(">>");
            reveal_strlit(">");
            reveal_strlit("<");
        }
        let ghost rem0 = feeder.remaining@;
        let dlen = feeder.scanner_digits();
        proof {
            lemma_consume_append(Seq::empty(), feeder.remaining@, dlen as int);
            if no_dollar(rem0) {
                lemma_no_dollar_skip(rem0, dlen as int);
            }
        }
        let left = feeder.consume(dlen);
        let symbol: String;
        if feeder.starts_with(">>") {
            proof {
                lemma_consume_append(left@, feeder.remaining@, 2);
                if no_dollar(feeder.remaining@) {
                    lemma_no_dollar_skip(feeder.remaining@, 2);
                }
            }
            symbol = feeder.consume(2);
        } else if feeder.starts_with(">") || feeder.starts_with("<") {
            proof {
                lemma_consume_append(left@, feeder.remaining@, 1);
                if no_dollar(feeder.remaining@) {
                    lemma_no_dollar_skip(feeder.remaining@, 1);
                }
            }
            symbol = feeder.consume(1);
        } else {
            feeder.replace_front(left.as_str());
            proof {
                assert(left@ + feeder.remaining@.skip(left@.len() as int) =~= rem0);
            }
            return Ok(None);
        }
        proof {
            if rem0.len() == 0 || (!crate::numstr::is_dec_digit(rem0[0]) && rem0[0] != '>'
                && rem0[0] != '<') {
                // A symbol was consumed, so a digit run (possibly empty)
                // was followed by `>` or `<`: the head is one of those.
                assert(dlen == 0);
                assert(symbol@[0] == '>' || symbol@[0] == '<');
                assert(rem0.subrange(0, symbol@.len() as int)[0] == rem0[0]);
                assert(false);
            }
        }
        let blen = feeder.scanner_blank();
        proof {
            lemma_consume_append(left@ + symbol@, feeder.remaining@, blen as int);
            if no_dollar(feeder.remaining@) {
                lemma_no_dollar_skip(feeder.remaining@, blen as int);
            }
        }
        let blanks = feeder.consume(blen);
        let mut text = left.clone();
        text.append(symbol.as_str());
        text.append(blanks.as_str());
        match Word::parse(feeder, core) {
            Err(MoreLine) => {
                feeder.replace_front(text.as_str());
                proof {
                    assert(text@ + feeder.remaining@.skip(text@.len() as int) =~= rem0);
                }
                return Err(MoreLine);
            },
            Ok(None) => {
                feeder.replace_front(text.as_str());
                proof {
                    assert(text@ + feeder.remaining@.skip(text@.len() as int) =~= rem0);
                }
                return Ok(None);
            },
            Ok(Some(w)) => {
                proof {
                    assert((text@ + w.text@) + feeder.remaining@ =~= text@ + (w.text@
                        + feeder.remaining@));
                }
                text.append(w.text.clone().as_str());
                Ok(Some(Redirect { text, left, symbol, right: w }))
            },
        }
    }
}

/// Consume blanks and one redirect into `ans` and `ans_text`: the earlier
/// redirects are kept, the parsed one is appended, and the blanks plus its
/// exact text land in `ans_text`.  Nothing is consumed when no redirect
/// follows the blanks.
pub fn eat_readirect(
    feeder: &mut Feeder,
    core: &mut ShellCore,
    ans: &mut Vec<Redirect>,
    ans_text: &mut String,
) -> (r: Result<bool, MoreLine>)
    ensures
        final(feeder).nest@ == old(feeder).nest@,
        *final(core) == *old(core),
        no_dollar(old(feeder).remaining@) ==> !(r is Err),
        match r {
            Ok(true) => old(ans_text)@ + old(feeder).remaining@ == final(ans_text)@ + final(feeder).remaining@ && final(feeder).remaining@.len() < old(feeder).remaining@.len() && final(ans)@.len() == old(ans)@.len() + 1 && final(ans)@.drop_last() == old(ans)@
                && final(ans_text)@ == old(ans_text)@ + old(feeder).remaining@.subrange(
                0,
                crate::feeder::blank_run(old(feeder).remaining@),
            ) + final(ans)@.last().text@,
            Ok(false) => final(feeder).remaining@ == old(feeder).remaining@ && *final(ans_text)
                == *old(ans_text) && *final(ans) == *old(ans),
            Err(_) => final(feeder).remaining@ == old(feeder).remaining@ && *final(ans_text)
                == *old(ans_text) && *final(ans) == *old(ans),
        },
{
    let blank_len = feeder.scanner_blank();
    proof {
        lemma_consume_append(Seq::empty(), feeder.remaining@, blank_len as int);
        if no_dollar(old(feeder).remaining@) {
            lemma_no_dollar_skip(old(feeder).remaining@, blank_len as int);
        }
    }
    let blanks = feeder.consume(blank_len);
    match Redirect::parse(feeder, core) {
        Err(MoreLine) => {
            feeder.replace_front(blanks.as_str());
            proof {
                assert(blanks@ + feeder.remaining@.skip(blanks@.len() as int) =~= old(feeder).remaining@);
            }
            Err(MoreLine)
        },
        Ok(None) => {
            feeder.replace_front(blanks.as_str());
            proof {
                assert(blanks@ + feeder.remaining@.skip(blanks@.len() as int) =~= old(feeder).remaining@);
            }
            Ok(false)
        },
        Ok(Some(rd)) => {
            proof {
                crate::feeder::lemma_blank_run_is(old(feeder).remaining@, blank_len as int);
                assert(old(feeder).remaining@.subrange(0, blank_len as int) + old(
                    feeder,
                ).remaining@.skip(blank_len as int) =~= old(feeder).remaining@);
                assert((old(ans_text)@ + blanks@) + rd.text@ + feeder.remaining@ =~= old(ans_text)@ + (blanks@ + (rd.text@ + feeder.remaining@)));
                assert(blanks@ + (rd.text@ + feeder.remaining@) =~= old(feeder).remaining@);
            }
            ans_text.append(blanks.as_str());
            ans_text.append(rd.text.clone().as_str());
            ans.push(rd);
            proof {
                assert(final(ans)@.drop_last() =~= old(ans)@);
            }
            Ok(true)
        },
    }
}

/// A simple command: its words, in order, and its redirects.
#[derive(Debug)]
pub struct SimpleCommand {
    /// The exact text this command consumed, surrounding blanks included.
    pub text: String,
    pub words: Vec<Word>,
    pub redirects: Vec<Redirect>,
}

/// The expanded texts of the words from position `i` on, threading the
/// variable table left to right.
pub open spec fn eval_words_from(
    ws: Seq<Word>,
    i: int,
    vars: Map<Seq<char>, Seq<char>>,
) -> Result<(Seq<Seq<char>>, Map<Seq<char>, Seq<char>>), CalcError>
    decreases ws.len() - i,
    when 0 <= i <= ws.len()
{
    if i >= ws.len() {
        Ok((Seq::empty(), vars))
    } else {
        match word_eval_spec(reps(ws[i].subwords@), vars) {
            Err(e) => Err(e),
            Ok((t, v2)) => match eval_words_from(ws, i + 1, v2) {
                Err(e) => Err(e),
                Ok((rest, m)) => Ok((seq![t] + rest, m)),
            },
        }
    }
}

/// Words that cannot write the variable table.
pub open spec fn words_pure(ws: Seq<Word>) -> bool {
    forall|i: int|
        0 <= i < ws.len() ==> crate::elements::word::pieces_pure(
            reps((#[trigger] ws[i]).subwords@),
        )
}

impl SimpleCommand {
    /// Evaluate this command's words to its argument list, per
    /// `eval_words_from`: each word expands in order, arithmetic
    /// assignments landing in the variable table.  A typed arithmetic
    /// failure yields nothing; words without assignments or increments
    /// leave the variable table untouched either way.
    pub fn eval_args(&self, core: &mut ShellCore) -> (r: Option<Vec<String>>)
        ensures
            final(core).history == old(core).history,
            final(core).job_table == old(core).job_table,
            words_pure(self.words@) ==> final(core).vars_map() == old(core).vars_map(),
            match eval_words_from(self.words@, 0, old(core).vars_map()) {
                Ok((ts, m)) => r matches Some(args) && args@.len() == ts.len() && (forall|i: int|
                    0 <= i < ts.len() ==> (#[trigger] args@[i])@ == ts[i]) && final(core).vars_map()
                    == m,
                Err(_) => r is None,
            },
    {
        let n = self.words.len();
        let ghost ws = self.words@;
        let ghost vars0 = core.vars_map();
        let mut args: Vec<String> = Vec::new();
        let mut i: usize = 0;
        while i < n
            invariant
                0 <= i <= n,
                n == ws.len(),
                ws == self.words@,
                args@.len() == i,
                core.history == old(core).history,
                core.job_table == old(core).job_table,
                vars0 == old(core).vars_map(),
                words_pure(ws) ==> core.vars_map() == vars0,
                match eval_words_from(ws, i as int, core.vars_map()) {
                    Ok((ts, m)) => eval_words_from(ws, 0, vars0) matches Ok(pair) && pair.0.len()
                        == i + ts.len() && pair.1 == m && (forall|j: int|
                        0 <= j < i ==> (#[trigger] args@[j])@ == pair.0[j]) && (forall|j: int|
                        i <= j < pair.0.len() ==> #[trigger] pair.0[j] == ts[j - i]),
                    Err(e) => eval_words_from(ws, 0, vars0) == Err::<(Seq<Seq<char>>, Map<Seq<
                        char,
                    >, Seq<char>>), CalcError>(e),
                },
            decreases n - i,
        {
            let w = &self.words[i];
            match w.eval_value(core) {
                Some(s) => {
                    args.push(s);
                },
                None => {
                    return None;
                },
            }
            i = i + 1;
        }
        Some(args)
    }

    /// Consume one simple command: at least one word, then redirects.
    /// Nothing is consumed when no word starts here; a buffer whose head
    /// is neither a word character nor `$` never starts one.
    pub fn parse(feeder: &mut Feeder, core: &mut ShellCore) -> (r: Result<
        Option<SimpleCommand>,
        MoreLine,
    >)
        ensures
            final(feeder).nest@ == old(feeder).nest@,
            *final(core) == *old(core),
            (old(feeder).remaining@.len() == 0 || (!crate::feeder::is_word_char(
                old(feeder).remaining@[0],
            ) && old(feeder).remaining@[0] != '$')) ==> r == Ok::<
                Option<SimpleCommand>,
                MoreLine,
            >(None),
            no_dollar(old(feeder).remaining@) ==> !(r is Err),
            no_dollar(old(feeder).remaining@) && old(feeder).remaining@.len() > 0
                && crate::feeder::is_word_char(old(feeder).remaining@[0]) ==> (r matches Ok(rr)
                && rr is Some),
            match r {
                Ok(rr) => match rr {
                    Some(c) => old(feeder).remaining@ == c.text@ + final(feeder).remaining@
                        && final(feeder).remaining@.len() < old(feeder).remaining@.len()
                        && c.words@.len() > 0,
                    None => final(feeder).remaining@ == old(feeder).remaining@,
                },
                Err(_) => final(feeder).remaining@ == old(feeder).remaining@,
            },
    {
        let mut text: String = String::new();
        let mut words: Vec<Word> = Vec::new();
        let mut redirects: Vec<Redirect> = Vec::new();
        let mut done: bool = false;
        while !done
            invariant
                text@ + feeder.remaining@ == old(feeder).remaining@,
                feeder.nest@ == old(feeder).nest@,
                *core == *old(core),
                words@.len() > 0 ==> feeder.remaining@.len() < old(feeder).remaining@.len(),
                words@.len() == 0 ==> feeder.remaining@ == old(feeder).remaining@,
                done ==> words@.len() > 0,
                (old(feeder).remaining@.len() == 0 || (!crate::feeder::is_word_char(
                    old(feeder).remaining@[0],
                ) && old(feeder).remaining@[0] != '$')) ==> (words@.len() == 0 && text@.len() == 0
                    && feeder.remaining@ == old(feeder).remaining@),
                no_dollar(old(feeder).remaining@) ==> no_dollar(feeder.remaining@),
            decreases feeder.remaining@.len(), (if done { 0int } else { 1int }),
        {
            let ghost rem_head = feeder.remaining@;
            match Word::parse(feeder, core) {
                Err(MoreLine) => {
                    feeder.replace_front(text.as_str());
                    return Err(MoreLine);
                },
                Ok(None) => {
                    if words.len() == 0 {
                        feeder.replace_front(text.as_str());
                        return Ok(None);
                    }
                    done = true;
                    continue;
                },
                Ok(Some(w)) => {
                    proof {
                        assert((text@ + w.text@) + feeder.remaining@ =~= text@ + (w.text@
                            + feeder.remaining@));
                        if no_dollar(rem_head) {
                            assert(forall|i: int|
                                0 <= i < feeder.remaining@.len() ==> #[trigger] feeder.remaining@[i]
                                    == rem_head[i + w.text@.len() as int]);
                        }
                    }
                    text.append(w.text.clone().as_str());
                    words.push(w);
                },
            }
            let blen = feeder.scanner_blank();
            proof {
                lemma_consume_append(text@, feeder.remaining@, blen as int);
                if no_dollar(feeder.remaining@) {
                    lemma_no_dollar_skip(feeder.remaining@, blen as int);
                }
            }
            let blanks = feeder.consume(blen);
            text.append(blanks.as_str());
        }
        loop
            invariant
                text@ + feeder.remaining@ == old(feeder).remaining@,
                feeder.nest@ == old(feeder).nest@,
                *core == *old(core),
                words@.len() > 0,
                feeder.remaining@.len() < old(feeder).remaining@.len(),
                old(feeder).remaining@.len() > 0 && (crate::feeder::is_word_char(
                    old(feeder).remaining@[0],
                ) || old(feeder).remaining@[0] == '$'),
                no_dollar(old(feeder).remaining@) ==> no_dollar(feeder.remaining@),
            decreases feeder.remaining@.len(),
        {
            let ghost rem_head2 = feeder.remaining@;
            let ghost text_head = text@;
            match eat_readirect(feeder, core, &mut redirects, &mut text) {
                Err(MoreLine) => {
                    feeder.replace_front(text.as_str());
                    return Err(MoreLine);
                },
                Ok(false) => {
                    break;
                },
                Ok(true) => {
                    proof {
                        if no_dollar(rem_head2) {
                            let br = crate::feeder::blank_run(rem_head2);
                            let piece = rem_head2.subrange(0, br) + redirects@.last().text@;
                            assert(text_head + rem_head2 == (text_head + rem_head2.subrange(0, br)
                                + redirects@.last().text@) + feeder.remaining@);
                            assert((text_head + rem_head2.subrange(0, br)
                                + redirects@.last().text@) + feeder.remaining@ =~= text_head + (
                            piece + feeder.remaining@));
                            crate::textutil::lemma_concat_cancel(
                                text_head,
                                rem_head2,
                                piece + feeder.remaining@,
                            );
                            assert(forall|i: int|
                                0 <= i < feeder.remaining@.len() ==> #[trigger] feeder.remaining@[i]
                                    == rem_head2[piece.len() + i]);
                            assert(no_dollar(feeder.remaining@));
                        }
                    }
                },
            }
        }
        Ok(Some(SimpleCommand { text, words, redirects }))
    }
}

/// A subshell: a nested script run in a forked child.
#[derive(Debug)]
pub struct ParenCommand {
    pub text: String,
    pub script: Option<Script>,
    pub redirects: Vec<Redirect>,
}

/// A brace group: a nested script run in the current process unless the
/// surrounding pipe or redirect context forces a fork.
#[derive(Debug)]
pub struct BraceCommand {
    pub text: String,
    pub script: Option<Script>,
    pub redirects: Vec<Redirect>,
}

/// A command: the closed set of alternatives the grammar knows.
#[derive(Debug)]
pub enum ShellCommand {
    Simple(SimpleCommand),
    Paren(ParenCommand),
    Brace(BraceCommand),
}

impl ShellCommand {
    /// The exact source text this command consumed.
    pub open spec fn text_spec(self) -> Seq<char> {
        match self {
            ShellCommand::Simple(c) => c.text@,
            ShellCommand::Paren(c) => c.text@,
            ShellCommand::Brace(c) => c.text@,
        }
    }

    /// The exact source text this command consumed.
    pub fn get_text(&self) -> (r: String)
        ensures
            r@ == self.text_spec(),
    {
        match self {
            ShellCommand::Simple(c) => c.text.clone(),
            ShellCommand::Paren(c) => c.text.clone(),
            ShellCommand::Brace(c) => c.text.clone(),
        }
    }
}

/// Enter a nesting construct: when the buffer starts with `left`, consume
/// it, push the nesting entry, parse the inner script, and pop the entry
/// again — the push and pop are symmetric on every path.  `Ok(true)`
/// leaves the parsed script in `ans`, with one of the closers at the head
/// of the buffer; `Ok(false)` happens exactly when the buffer does not
/// start with `left`, and then nothing at all is touched.
pub fn eat_inner_script(
    feeder: &mut Feeder,
    core: &mut ShellCore,
    left: &str,
    rights: Vec<String>,
    ans: &mut Option<Script>,
) -> (r: Result<bool, ParseAbort>)
    requires
        old(feeder).nest_wf(),
        left@.len() >= 1,
        rights@.len() >= 1,
        forall|j: int| 0 <= j < rights@.len() ==> (#[trigger] rights@[j])@.len() > 0,
    ensures
        final(feeder).nest@ == old(feeder).nest@,
        final(core).history == old(core).history,
        final(core).job_table == old(core).job_table,
        match r {
            Ok(true) => ((*final(ans)) matches Some(s) && s.wf() && old(feeder).remaining@ == left@
                + s.text@ + final(feeder).remaining@ && final(feeder).remaining@.len() + left@.len()
                < old(feeder).remaining@.len() + 1 && (exists|k: int|
                0 <= k < rights@.len() && spec_starts_with(
                    final(feeder).remaining@,
                    rights@[k]@,
                )) && *final(core) == *old(core)),
            Ok(false) => final(feeder).remaining@ == old(feeder).remaining@ && *final(core)
                == *old(core) && *final(ans) == *old(ans) && !spec_starts_with(
                old(feeder).remaining@,
                left@,
            ),
            Err(a) => abort_ok(
                a,
                *old(core),
                *final(core),
                old(feeder).remaining@,
                final(feeder).remaining@,
            ),
        },
        !spec_starts_with(old(feeder).remaining@, left@) ==> r == Ok::<bool, ParseAbort>(false),
    decreases old(feeder).remaining@.len(), 1int,
{
    if !feeder.starts_with(left) {
        return Ok(false);
    }
    let llen = left.unicode_len();
    proof {
        lemma_consume_append(Seq::empty(), feeder.remaining@, llen as int);
    }
    let ghost rem0 = feeder.remaining@;
    let ghost nest0 = old(feeder).nest;
    let opened = feeder.consume(llen);
    feeder.nest_push(left, rights);
    let inner = Script::parse(feeder, core, false);
    feeder.nest_pop();
    proof {
        assert(feeder.nest@ =~= nest0@);
    }
    match inner {
        Err(ParseAbort::MoreLine) => {
            proof {
                assert(opened@ + feeder.remaining@ =~= rem0);
            }
            feeder.replace_front(opened.as_str());
            Err(ParseAbort::MoreLine)
        },
        Err(ParseAbort::SyntaxError) => Err(ParseAbort::SyntaxError),
        Ok(s) => {
            proof {
                assert(opened@ + (s.text@ + feeder.remaining@) =~= (opened@ + s.text@)
                    + feeder.remaining@);
            }
            *ans = Some(s);
            Ok(true)
        },
    }
}

/// Try the command alternatives in priority order: simple, then subshell,
/// then brace group.  Leading blanks belong to whichever command matched.
pub fn parse(feeder: &mut Feeder, core: &mut ShellCore) -> (r: Result<
    Option<ShellCommand>,
    ParseAbort,
>)
    requires
        old(feeder).nest_wf(),
    ensures
        final(feeder).nest@ == old(feeder).nest@,
        final(core).history == old(core).history,
        final(core).job_table == old(core).job_table,
        crate::feeder::all_multiline_blank(old(feeder).remaining@) ==> r == Ok::<
            Option<ShellCommand>,
            ParseAbort,
        >(None),
        ({
            let rem1 = old(feeder).remaining@.skip(crate::feeder::blank_run(old(feeder).remaining@));
            rem1.len() > 0 && (rem1[0] == '(' || rem1[0] == '{')
        }) ==> !(r matches Ok(rr2) && rr2 is None),
        ({
            let rem1 = old(feeder).remaining@.skip(crate::feeder::blank_run(old(feeder).remaining@));
            no_dollar(old(feeder).remaining@) && rem1.len() > 0 && crate::feeder::is_word_char(
                rem1[0],
            )
        }) ==> (r matches Ok(rr3) && rr3 is Some),
        match r {
            Ok(rr) => match rr {
                Some(c) => old(feeder).remaining@ == c.text_spec() + final(feeder).remaining@
                    && final(feeder).remaining@.len() < old(feeder).remaining@.len() && *final(core)
                    == *old(core),
                None => final(feeder).remaining@ == old(feeder).remaining@ && *final(core) == *old(core),
            },
            Err(a) => abort_ok(
                a,
                *old(core),
                *final(core),
                old(feeder).remaining@,
                final(feeder).remaining@,
            ),
        },
    decreases old(feeder).remaining@.len(), 3int,
{
    let blen = feeder.scanner_blank();
    proof {
        lemma_consume_append(Seq::empty(), feeder.remaining@, blen as int);
    }
    let blanks = feeder.consume(blen);
    proof {
        crate::feeder::lemma_blank_run_is(old(feeder).remaining@, blen as int);
        if no_dollar(old(feeder).remaining@) {
            lemma_no_dollar_skip(old(feeder).remaining@, blen as int);
        }
        // On a no-op text (blanks and newlines only) every alternative
        // refuses: after the blank run the head, if any, is a newline.
        if crate::feeder::all_multiline_blank(old(feeder).remaining@) {
            assert(forall|i: int|
                0 <= i < feeder.remaining@.len() ==> feeder.remaining@[i] == old(
                    feeder,
                ).remaining@[i + blen]);
            assert(crate::feeder::all_multiline_blank(feeder.remaining@));
            if feeder.remaining@.len() > 0 {
                assert(!crate::feeder::is_blank(old(feeder).remaining@[blen as int]));
                assert(feeder.remaining@[0] == '\n');
            }
            reveal_strlit("(");
            reveal_strlit("{");
            if crate::textutil::spec_starts_with(feeder.remaining@, "("@) {
                assert(feeder.remaining@.subrange(0, 1)[0] == feeder.remaining@[0]);
            }
            if crate::textutil::spec_starts_with(feeder.remaining@, "{"@) {
                assert(feeder.remaining@.subrange(0, 1)[0] == feeder.remaining@[0]);
            }
            assert(!crate::textutil::spec_starts_with(feeder.remaining@, "("@));
            assert(!crate::textutil::spec_starts_with(feeder.remaining@, "{"@));
        }
    }
    match SimpleCommand::parse(feeder, core) {
        Err(MoreLine) => {
            feeder.replace_front(blanks.as_str());
            return Err(ParseAbort::MoreLine);
        },
        Ok(Some(mut c)) => {
            let mut text = blanks;
            proof {
                assert((text@ + c.text@) + feeder.remaining@ =~= text@ + (c.text@
                    + feeder.remaining@));
            }
            text.append(c.text.as_str());
            c.text = text;
            return Ok(Some(ShellCommand::Simple(c)));
        },
        Ok(None) => {},
    }
    match ParenCommand::parse(feeder, core) {
        Err(ParseAbort::MoreLine) => {
            feeder.replace_front(blanks.as_str());
            return Err(ParseAbort::MoreLine);
        },
        Err(ParseAbort::SyntaxError) => {
            return Err(ParseAbort::SyntaxError);
        },
        Ok(Some(mut c)) => {
            let mut text = blanks;
            proof {
                assert((text@ + c.text@) + feeder.remaining@ =~= text@ + (c.text@
                    + feeder.remaining@));
            }
            text.append(c.text.as_str());
            c.text = text;
            return Ok(Some(ShellCommand::Paren(c)));
        },
        Ok(None) => {},
    }
    match BraceCommand::parse(feeder, core) {
        Err(ParseAbort::MoreLine) => {
            feeder.replace_front(blanks.as_str());
            return Err(ParseAbort::MoreLine);
        },
        Err(ParseAbort::SyntaxError) => {
            return Err(ParseAbort::SyntaxError);
        },
        Ok(Some(mut c)) => {
            let mut text = blanks;
            proof {
                assert((text@ + c.text@) + feeder.remaining@ =~= text@ + (c.text@
                    + feeder.remaining@));
            }
            text.append(c.text.as_str());
            c.text = text;
            return Ok(Some(ShellCommand::Brace(c)));
        },
        Ok(None) => {},
    }
    proof {
        let rem1 = old(feeder).remaining@.skip(crate::feeder::blank_run(old(feeder).remaining@));
        if rem1.len() > 0 && (rem1[0] == '(' || rem1[0] == '{') {
            reveal_strlit("(");
            reveal_strlit("{");
            if rem1[0] == '(' {
                assert(rem1.subrange(0, 1) =~= "("@);
            } else {
                assert(rem1.subrange(0, 1) =~= "{"@);
            }
            assert(false);
        }
    }
    feeder.replace_front(blanks.as_str());
    Ok(None)
}

impl ParenCommand {
    /// Consume a subshell: `(`, a script, `)`, then redirects.
    pub fn parse(feeder: &mut Feeder, core: &mut ShellCore) -> (r: Result<
        Option<ParenCommand>,
        ParseAbort,
    >)
        requires
            old(feeder).nest_wf(),
        ensures
            final(feeder).nest@ == old(feeder).nest@,
            final(core).history == old(core).history,
            final(core).job_table == old(core).job_table,
            !spec_starts_with(old(feeder).remaining@, "("@) ==> r == Ok::<
                Option<ParenCommand>,
                ParseAbort,
            >(None),
            match r {
                Ok(rr) => match rr {
                    Some(c) => old(feeder).remaining@ == c.text@ + final(feeder).remaining@
                        && final(feeder).remaining@.len() < old(feeder).remaining@.len() && (
                    c.script matches Some(s) && s.wf()) && *final(core) == *old(core),
                    None => final(feeder).remaining@ == old(feeder).remaining@ && *final(core)
                        == *old(core) && !spec_starts_with(old(feeder).remaining@, "("@),
                },
                Err(a) => abort_ok(
                    a,
                    *old(core),
                    *final(core),
                    old(feeder).remaining@,
                    final(feeder).remaining@,
                ),
            },
        decreases old(feeder).remaining@.len(), 2int,
    {
        let mut closers: Vec<String> = Vec::new();
        closers.push(")".to_owned());
        let mut script: Option<Script> = None;
        proof {
            reveal_strlit("(");
            reveal_strlit(")");
            assert(closers@[0]@.len() > 0);
        }
        match eat_inner_script(feeder, core, "(", closers, &mut script) {
            Err(a) => Err(a),
            Ok(false) => Ok(None),
            Ok(true) => {
                let s = match script {
                    Some(s) => s,
                    None => {
                        proof {
                            assert(false);
                        }
                        return Ok(None);
                    },
                };
                let mut text: String = "(".to_owned();
                text.append(s.get_text().as_str());
                proof {
                    lemma_consume_append(text@, feeder.remaining@, 1);
                }
                let closer = feeder.consume(1);
                text.append(closer.as_str());
                let mut redirects: Vec<Redirect> = Vec::new();
                match finish_group_redirects(feeder, core, &mut text, &mut redirects) {
                    Err(MoreLine) => {
                        feeder.replace_front(text.as_str());
                        return Err(ParseAbort::MoreLine);
                    },
                    Ok(()) => {},
                }
                Ok(Some(ParenCommand { text, script: Some(s), redirects }))
            },
        }
    }
}

impl BraceCommand {
    /// Consume a brace group: `{`, a script, `}`, then redirects.
    pub fn parse(feeder: &mut Feeder, core: &mut ShellCore) -> (r: Result<
        Option<BraceCommand>,
        ParseAbort,
    >)
        requires
            old(feeder).nest_wf(),
        ensures
            final(feeder).nest@ == old(feeder).nest@,
            final(core).history == old(core).history,
            final(core).job_table == old(core).job_table,
            !spec_starts_with(old(feeder).remaining@, "{"@) ==> r == Ok::<
                Option<BraceCommand>,
                ParseAbort,
            >(None),
            match r {
                Ok(rr) => match rr {
                    Some(c) => old(feeder).remaining@ == c.text@ + final(feeder).remaining@
                        && final(feeder).remaining@.len() < old(feeder).remaining@.len() && (
                    c.script matches Some(s) && s.wf()) && *final(core) == *old(core),
                    None => final(feeder).remaining@ == old(feeder).remaining@ && *final(core)
                        == *old(core) && !spec_starts_with(old(feeder).remaining@, "{"@),
                },
                Err(a) => abort_ok(
                    a,
                    *old(core),
                    *final(core),
                    old(feeder).remaining@,
                    final(feeder).remaining@,
                ),
            },
        decreases old(feeder).remaining@.len(), 2int,
    {
        let mut closers: Vec<String> = Vec::new();
        closers.push("}".to_owned());
        let mut script: Option<Script> = None;
        proof {
            reveal_strlit("{");
            reveal_strlit("}");
            assert(closers@[0]@.len() > 0);
        }
        match eat_inner_script(feeder, core, "{", closers, &mut script) {
            Err(a) => Err(a),
            Ok(false) => Ok(None),
            Ok(true) => {
                let s = match script {
                    Some(s) => s,
                    None => {
                        proof {
                            assert(false);
                        }
                        return Ok(None);
                    },
                };
                let mut text: String = "{".to_owned();
                text.append(s.get_text().as_str());
                proof {
                    lemma_consume_append(text@, feeder.remaining@, 1);
                }
                let closer = feeder.consume(1);
                text.append(closer.as_str());
                let mut redirects: Vec<Redirect> = Vec::new();
                match finish_group_redirects(feeder, core, &mut text, &mut redirects) {
                    Err(MoreLine) => {
                        feeder.replace_front(text.as_str());
                        return Err(ParseAbort::MoreLine);
                    },
                    Ok(()) => {},
                }
                Ok(Some(BraceCommand { text, script: Some(s), redirects }))
            },
        }
    }
}

/// Consume the redirects after a group's closing token.
fn finish_group_redirects(
    feeder: &mut Feeder,
    core: &mut ShellCore,
    text: &mut String,
    redirects: &mut Vec<Redirect>,
) -> (r: Result<(), MoreLine>)
    ensures
        final(feeder).nest@ == old(feeder).nest@,
        *final(core) == *old(core),
        match r {
            Ok(()) => old(text)@ + old(feeder).remaining@ == final(text)@ + final(feeder).remaining@ && final(feeder).remaining@.len() <= old(feeder).remaining@.len(),
            Err(_) => final(feeder).remaining@ == old(feeder).remaining@ && *final(text) == *old(text),
        },
{
    let mut local: String = String::new();
    loop
        invariant
            local@ + feeder.remaining@ == old(feeder).remaining@,
            feeder.remaining@.len() <= old(feeder).remaining@.len(),
            feeder.nest@ == old(feeder).nest@,
            *core == *old(core),
            *text == *old(text),
        decreases feeder.remaining@.len(),
    {
        match eat_readirect(feeder, core, redirects, &mut local) {
            Err(MoreLine) => {
                feeder.replace_front(local.as_str());
                return Err(MoreLine);
            },
            Ok(false) => {
                proof {
                    assert((old(text)@ + local@) + feeder.remaining@ =~= old(text)@ + (local@
                        + feeder.remaining@));
                }
                text.append(local.as_str());
                return Ok(());
            },
            Ok(true) => {},
        }
    }
}

} // verus!
