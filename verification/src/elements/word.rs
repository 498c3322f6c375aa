//! Words: sequences of subword pieces, with parameter and arithmetic
//! expansion.
//!
//! A word's stored text is exactly the concatenation of its pieces' texts
//! (the round-trip invariant).  Evaluation merges each `$` piece with the
//! variable name after it, replaces parameters by their values and
//! arithmetic substitutions by their computed values, threading the
//! variable table through from left to right; `word_eval_spec` pins the
//! result down exactly.

use vstd::prelude::*;
use crate::feeder::{Feeder, MoreLine};
use crate::shellcore::{var_value, ShellCore};
use crate::elements::calc::Calc;
use crate::elements::calculator::{calculate, calculate_spec, CalcError};
use crate::elements::subword::{ArithSub, SimpleSubword, Subword, SubwordRep, VarName};
use crate::numstr::{i64_to_dec, i64_to_string};
use crate::textutil::{lemma_consume_append, str_eq};

verus! {

/// The shapes of a word's pieces.
pub open spec fn reps(s: Seq<Subword>) -> Seq<SubwordRep> {
    s.map_values(|x: Subword| x@)
}

/// The concatenated source text of the pieces from position `i` on.
pub open spec fn texts_from(ps: Seq<SubwordRep>, i: int) -> Seq<char>
    decreases ps.len() - i,
    when 0 <= i <= ps.len()
{
    if i >= ps.len() {
        Seq::empty()
    } else {
        ps[i].text() + texts_from(ps, i + 1)
    }
}

proof fn lemma_texts_push(ps: Seq<SubwordRep>, p: SubwordRep, i: int)
    requires
        0 <= i <= ps.len(),
    ensures
        texts_from(ps.push(p), i) == texts_from(ps, i) + p.text(),
    decreases ps.len() - i,
{
    if i == ps.len() {
        assert(ps.push(p)[i] == p);
        assert(texts_from(ps.push(p), i + 1) =~= Seq::<char>::empty());
        assert(texts_from(ps.push(p), i) =~= p.text());
        assert(texts_from(ps, i) + p.text() =~= p.text());
    } else {
        lemma_texts_push(ps, p, i + 1);
        assert(ps.push(p)[i] == ps[i]);
        assert((ps[i].text() + texts_from(ps, i + 1)) + p.text() =~= ps[i].text() + (texts_from(
            ps,
            i + 1,
        ) + p.text()));
    }
}

/// A text without `$`: no parameter or arithmetic substitution can start
/// anywhere in it, so scanning it can neither fail nor ask for more
/// input.
pub open spec fn no_dollar(s: Seq<char>) -> bool {
    forall|i: int| 0 <= i < s.len() ==> (#[trigger] s[i]) != '$'
}

/// A suffix of a `$`-free text is `$`-free.
pub proof fn lemma_no_dollar_skip(s: Seq<char>, n: int)
    requires
        0 <= n <= s.len(),
        no_dollar(s),
    ensures
        no_dollar(s.skip(n)),
{
    assert(forall|i: int| 0 <= i < s.skip(n).len() ==> #[trigger] s.skip(n)[i] == s[i + n]);
}

/// A word: its exact source text and its pieces.
#[derive(Debug)]
pub struct Word {
    pub text: String,
    pub subwords: Vec<Subword>,
}

impl Word {
    /// The stored text is exactly the pieces' texts, concatenated.
    pub open spec fn wf(self) -> bool {
        self.text@ == texts_from(reps(self.subwords@), 0)
    }

    /// Consume one word: a maximal run of plain text, parameter and
    /// arithmetic-substitution pieces.  An unterminated `$(( ))` asks for
    /// more input; in that case, and when no word starts here, nothing is
    /// consumed.  A buffer whose head is neither a word character nor `$`
    /// never starts a word.
    pub fn parse(feeder: &mut Feeder, core: &mut ShellCore) -> (r: Result<Option<Word>, MoreLine>)
        ensures
            final(feeder).nest@ == old(feeder).nest@,
            *final(core) == *old(core),
            (old(feeder).remaining@.len() == 0 || (!crate::feeder::is_word_char(
                old(feeder).remaining@[0],
            ) && old(feeder).remaining@[0] != '$')) ==> r == Ok::<Option<Word>, MoreLine>(None),
            no_dollar(old(feeder).remaining@) ==> r is Ok,
            no_dollar(old(feeder).remaining@) && old(feeder).remaining@.len() > 0
                && crate::feeder::is_word_char(old(feeder).remaining@[0]) ==> (r matches Ok(rr)
                && rr is Some),
            match r {
                Ok(rr) => match rr {
                    Some(w) => old(feeder).remaining@ == w.text@ + final(feeder).remaining@
                        && w.wf() && final(feeder).remaining@.len() < old(feeder).remaining@.len(),
                    None => final(feeder).remaining@ == old(feeder).remaining@,
                },
                Err(_) => final(feeder).remaining@ == old(feeder).remaining@,
            },
    {
        let mut text: String = String::new();
        let mut subwords: Vec<Subword> = Vec::new();
        loop
            invariant
                text@ == texts_from(reps(subwords@), 0),
                text@ + feeder.remaining@ == old(feeder).remaining@,
                feeder.nest@ == old(feeder).nest@,
                *core == *old(core),
                subwords@.len() > 0 ==> feeder.remaining@.len() < old(feeder).remaining@.len(),
                subwords@.len() == 0 ==> feeder.remaining@ == old(feeder).remaining@,
                (old(feeder).remaining@.len() == 0 || (!crate::feeder::is_word_char(
                    old(feeder).remaining@[0],
                ) && old(feeder).remaining@[0] != '$')) ==> (subwords@.len() == 0
                    && feeder.remaining@ == old(feeder).remaining@),
                no_dollar(old(feeder).remaining@) ==> no_dollar(feeder.remaining@),
            decreases feeder.remaining@.len(),
        {
            proof {
                reveal_strlit("$");
                reveal_strlit("$((");
                reveal_strlit("))");
            }
            let ghost reps0 = reps(subwords@);
            let ghost rem_head = feeder.remaining@;
            match SimpleSubword::parse(feeder, core) {
                Some(sw) => {
                    proof {
                        lemma_texts_push(reps0, SubwordRep::Simple(sw.text@), 0);
                        assert(reps(subwords@.push(Subword::Simple(sw))) =~= reps0.push(
                            SubwordRep::Simple(sw.text@),
                        ));
                        assert((text@ + sw.text@) + feeder.remaining@ =~= text@ + (sw.text@
                            + feeder.remaining@));
                        if no_dollar(rem_head) {
                            assert(forall|i: int|
                                0 <= i < feeder.remaining@.len() ==> #[trigger] feeder.remaining@[i]
                                    == rem_head[i + sw.text@.len() as int]);
                        }
                    }
                    text.append(sw.text.clone().as_str());
                    subwords.push(Subword::Simple(sw));
                    continue;
                },
                None => {},
            }
            if feeder.starts_with("$((") {
                let ghost rem0 = feeder.remaining@;
                proof {
                    lemma_consume_append(Seq::empty(), feeder.remaining@, 3);
                    if no_dollar(old(feeder).remaining@) {
                        assert(feeder.remaining@.subrange(0, 3)[0] == feeder.remaining@[0]);
                        assert(false);
                    }
                }
                let open = feeder.consume(3);
                match Calc::parse(feeder, core) {
                    Err(MoreLine) => {
                        proof {
                            assert(open@ + feeder.remaining@ =~= rem0);
                        }
                        feeder.replace_front(open.as_str());
                        feeder.replace_front(text.as_str());
                        return Err(MoreLine);
                    },
                    Ok(None) => {
                        proof {
                            assert(open@ + feeder.remaining@ =~= rem0);
                        }
                        feeder.replace_front(open.as_str());
                        feeder.replace_front(text.as_str());
                        return Ok(None);
                    },
                    Ok(Some(calc)) => {
                        let close = feeder.consume(2);
                        let mut atext: String = open;
                        atext.append(calc.text.as_str());
                        atext.append(close.as_str());
                        let piece = Subword::Arith(ArithSub { text: atext, calc });
                        proof {
                            lemma_texts_push(reps0, piece@, 0);
                            assert(reps(subwords@.push(piece)) =~= reps0.push(piece@));
                        }
                        let ptext = piece.get_text();
                        proof {
                            assert((text@ + ptext@) + feeder.remaining@ =~= text@ + (ptext@
                                + feeder.remaining@));
                            assert(ptext@ + feeder.remaining@ =~= rem0);
                        }
                        text.append(ptext.as_str());
                        subwords.push(piece);
                        continue;
                    },
                }
            }
            if feeder.starts_with("$") {
                proof {
                    lemma_consume_append(Seq::empty(), feeder.remaining@, 1);
                    if no_dollar(old(feeder).remaining@) {
                        assert(feeder.remaining@.subrange(0, 1)[0] == feeder.remaining@[0]);
                        assert(false);
                    }
                }
                let ghost rem0 = feeder.remaining@;
                let dollar = feeder.consume(1);
                let piece = Subword::Simple(SimpleSubword { text: dollar });
                proof {
                    lemma_texts_push(reps0, piece@, 0);
                    assert(reps(subwords@.push(piece)) =~= reps0.push(piece@));
                    assert((text@ + rem0.subrange(0, 1)) + feeder.remaining@ =~= text@ + rem0);
                }
                let ptext = piece.get_text();
                text.append(ptext.as_str());
                subwords.push(piece);
                let ghost reps1 = reps(subwords@);
                match VarName::parse(feeder, core) {
                    Some(v) => {
                        proof {
                            lemma_texts_push(reps1, SubwordRep::Name(v.text@), 0);
                            assert(reps(subwords@.push(Subword::Name(v))) =~= reps1.push(
                                SubwordRep::Name(v.text@),
                            ));
                            assert((text@ + v.text@) + feeder.remaining@ =~= text@ + (v.text@
                                + feeder.remaining@));
                        }
                        text.append(v.text.clone().as_str());
                        subwords.push(Subword::Name(v));
                    },
                    None => {},
                }
                continue;
            }
            // Nothing matched here: the word, if any, is complete.
            if subwords.len() == 0 {
                proof {
                    assert(text@ =~= Seq::<char>::empty());
                    assert(text@ + feeder.remaining@ =~= feeder.remaining@);
                }
                return Ok(None);
            }
            return Ok(Some(Word { text, subwords }));
        }
    }
}

/// One merged piece's expanded text: a `$name` piece becomes the
/// variable's value, an arithmetic piece its computed value (with the
/// variable table it leaves), anything else its own text.
pub open spec fn expand_rep(p: SubwordRep, vars: Map<Seq<char>, Seq<char>>) -> Result<
    (Seq<char>, Map<Seq<char>, Seq<char>>),
    CalcError,
> {
    match p {
        SubwordRep::Simple(t) => if t.len() >= 2 && t[0] == '$' {
            Ok((var_value(vars, t.skip(1)), vars))
        } else {
            Ok((t, vars))
        },
        SubwordRep::Name(t) => Ok((t, vars)),
        SubwordRep::Arith(_, elems) => match calculate_spec(elems, vars) {
            Ok((v, m)) => Ok((i64_to_dec(v as int), m)),
            Err(e) => Err(e),
        },
    }
}

/// The evaluation of a word's pieces from position `i`: a `$` piece
/// followed by a name reads that variable; every other piece expands per
/// `expand_rep`; the results are concatenated, the variable table threaded
/// left to right.
pub open spec fn eval_from(
    ps: Seq<SubwordRep>,
    i: int,
    vars: Map<Seq<char>, Seq<char>>,
) -> Result<(Seq<char>, Map<Seq<char>, Seq<char>>), CalcError>
    decreases ps.len() - i,
    when 0 <= i <= ps.len()
{
    if i >= ps.len() {
        Ok((Seq::empty(), vars))
    } else if ps[i].text() == "$"@ && i + 1 < ps.len() && ps[i + 1].is_name() {
        let t = var_value(vars, ps[i + 1].text());
        match eval_from(ps, i + 2, vars) {
            Ok((rest, m)) => Ok((t + rest, m)),
            Err(e) => Err(e),
        }
    } else {
        match expand_rep(ps[i], vars) {
            Err(e) => Err(e),
            Ok((t, v2)) => match eval_from(ps, i + 2 - 1, v2) {
                Ok((rest, m)) => Ok((t + rest, m)),
                Err(e) => Err(e),
            },
        }
    }
}

/// Pieces that cannot write the variable table: every arithmetic
/// substitution among them is over pure elements.
pub open spec fn pieces_pure(ps: Seq<SubwordRep>) -> bool {
    forall|i: int|
        0 <= i < ps.len() ==> (match #[trigger] ps[i] {
            SubwordRep::Arith(_, elems) => crate::elements::calculator::elems_pure(elems),
            _ => true,
        })
}

/// The full evaluation of a word: its expanded text and the variable
/// table it leaves behind.
pub open spec fn word_eval_spec(ps: Seq<SubwordRep>, vars: Map<Seq<char>, Seq<char>>) -> Result<
    (Seq<char>, Map<Seq<char>, Seq<char>>),
    CalcError,
> {
    eval_from(ps, 0, vars)
}

/// Merge each `$` piece with the variable name after it and replace the
/// merged piece by that variable's value; other pieces keep their shape,
/// a `$name` text among them expanding too.  Arithmetic pieces are left
/// for evaluation.  The word's stored text is untouched, so the source
/// text stays reproducible.
pub fn eval(word: &mut Word, core: &mut ShellCore)
    ensures
        final(word).text == old(word).text,
        *final(core) == *old(core),
        reps(final(word).subwords@) == param_merge(reps(old(word).subwords@), 0, old(core).vars_map()),
{
    proof {
        reveal_strlit("$");
    }
    let n = word.subwords.len();
    let mut out: Vec<Subword> = Vec::new();
    let mut i: usize = 0;
    let ghost ps = reps(word.subwords@);
    while i < n
        invariant
            0 <= i <= n,
            n == word.subwords@.len(),
            ps == reps(word.subwords@),
            *core == *old(core),
            reps(out@) + param_merge(ps, i as int, core.vars_map()) == param_merge(
                ps,
                0,
                core.vars_map(),
            ),
        decreases n - i,
    {
        let ghost out0 = reps(out@);
        let t = word.subwords[i].get_text();
        if str_eq(t.as_str(), "$") && i + 1 < n && word.subwords[i + 1].is_name() {
            let name = word.subwords[i + 1].get_text();
            let value = core.get_var(name.as_str());
            out.push(Subword::Simple(SimpleSubword { text: value }));
            proof {
                assert(reps(out@) =~= out0.push(
                    SubwordRep::Simple(var_value(core.vars_map(), ps[i + 1].text())),
                ));
                assert((out0 + seq![
                    SubwordRep::Simple(var_value(core.vars_map(), ps[i + 1].text())),
                ]) + param_merge(ps, i + 2, core.vars_map()) =~= out0 + (seq![
                    SubwordRep::Simple(var_value(core.vars_map(), ps[i + 1].text())),
                ] + param_merge(ps, i + 2, core.vars_map())));
                assert(reps(out@) =~= out0 + seq![
                    SubwordRep::Simple(var_value(core.vars_map(), ps[i + 1].text())),
                ]);
            }
            i = i + 2;
        } else {
            let piece = expand_piece(&word.subwords[i], core);
            proof {
                assert(reps(out@.push(piece)) =~= out0.push(param_rep(ps[i as int], core.vars_map())));
                assert((out0 + seq![param_rep(ps[i as int], core.vars_map())]) + param_merge(
                    ps,
                    i + 1,
                    core.vars_map(),
                ) =~= out0 + (seq![param_rep(ps[i as int], core.vars_map())] + param_merge(
                    ps,
                    i + 1,
                    core.vars_map(),
                )));
                assert(out0.push(param_rep(ps[i as int], core.vars_map())) =~= out0 + seq![
                    param_rep(ps[i as int], core.vars_map()),
                ]);
            }
            out.push(piece);
            i = i + 1;
        }
    }
    proof {
        assert(param_merge(ps, n as int, core.vars_map()) =~= Seq::<SubwordRep>::empty());
        assert(reps(out@) + Seq::<SubwordRep>::empty() =~= reps(out@));
    }
    word.subwords = out;
}

/// What one piece becomes under parameter expansion alone.
pub open spec fn param_rep(p: SubwordRep, vars: Map<Seq<char>, Seq<char>>) -> SubwordRep {
    match p {
        SubwordRep::Simple(t) => if t.len() >= 2 && t[0] == '$' {
            SubwordRep::Simple(var_value(vars, t.skip(1)))
        } else {
            p
        },
        _ => p,
    }
}

/// The pieces after merging `$`-name pairs and expanding parameters.
pub open spec fn param_merge(
    ps: Seq<SubwordRep>,
    i: int,
    vars: Map<Seq<char>, Seq<char>>,
) -> Seq<SubwordRep>
    decreases ps.len() - i,
    when 0 <= i <= ps.len()
{
    if i >= ps.len() {
        Seq::empty()
    } else if ps[i].text() == "$"@ && i + 1 < ps.len() && ps[i + 1].is_name() {
        seq![SubwordRep::Simple(var_value(vars, ps[i + 1].text()))] + param_merge(ps, i + 2, vars)
    } else {
        seq![param_rep(ps[i], vars)] + param_merge(ps, i + 1, vars)
    }
}

/// Expand one piece under parameter expansion alone, per `param_rep`.
fn expand_piece(p: &Subword, core: &ShellCore) -> (r: Subword)
    ensures
        r@ == param_rep(p@, core.vars_map()),
{
    proof {
        reveal_strlit("$");
    }
    match p {
        Subword::Simple(s) => {
            let len = s.text.as_str().unicode_len();
            if len >= 2 && s.text.as_str().get_char(0) == '$' {
                let name = s.text.as_str().substring_char(1, len).to_owned();
                let value = core.get_var(name.as_str());
                Subword::Simple(SimpleSubword { text: value })
            } else {
                p.dup()
            }
        },
        _ => p.dup(),
    }
}

impl Word {
    /// Evaluate this word to its expanded text, per `word_eval_spec`: `$`
    /// pieces are merged with the names after them and read the variable
    /// table, arithmetic substitutions are computed (their assignments
    /// landing in the table), and the pieces' values are concatenated.  A
    /// typed arithmetic failure yields nothing.
    pub fn eval_value(&self, core: &mut ShellCore) -> (r: Option<String>)
        ensures
            final(core).history == old(core).history,
            final(core).job_table == old(core).job_table,
            pieces_pure(reps(self.subwords@)) ==> final(core).vars_map() == old(core).vars_map(),
            match word_eval_spec(reps(self.subwords@), old(core).vars_map()) {
                Ok((t, m)) => (r matches Some(s) && s@ == t && final(core).vars_map() == m),
                Err(_) => r is None,
            },
    {
        proof {
            reveal_strlit("$");
        }
        let n = self.subwords.len();
        let ghost ps = reps(self.subwords@);
        let ghost vars0 = core.vars_map();
        let mut out: String = String::new();
        let mut i: usize = 0;
        while i < n
            invariant
                0 <= i <= n,
                n == self.subwords@.len(),
                ps == reps(self.subwords@),
                core.history == old(core).history,
                core.job_table == old(core).job_table,
                vars0 == old(core).vars_map(),
                pieces_pure(ps) ==> core.vars_map() == vars0,
                match eval_from(ps, i as int, core.vars_map()) {
                    Ok((t, m)) => eval_from(ps, 0, vars0) == Ok::<(Seq<char>, Map<Seq<char>, Seq<
                        char,
                    >>), CalcError>((out@ + t, m)),
                    Err(e) => eval_from(ps, 0, vars0) == Err::<(Seq<char>, Map<Seq<char>, Seq<
                        char,
                    >>), CalcError>(e),
                },
            decreases n - i,
        {
            let ghost out0 = out@;
            let t = self.subwords[i].get_text();
            if str_eq(t.as_str(), "$") && i + 1 < n && self.subwords[i + 1].is_name() {
                let name = self.subwords[i + 1].get_text();
                let value = core.get_var(name.as_str());
                out.append(value.as_str());
                proof {
                    lemma_concat_assoc(out0, value@, ps, i + 2, core.vars_map());
                }
                i = i + 2;
            } else {
                let piece_value: String = match &self.subwords[i] {
                    Subword::Simple(s) => {
                        let len = s.text.as_str().unicode_len();
                        if len >= 2 && s.text.as_str().get_char(0) == '$' {
                            let name = s.text.as_str().substring_char(1, len).to_owned();
                            core.get_var(name.as_str())
                        } else {
                            s.text.clone()
                        }
                    },
                    Subword::Name(v) => v.text.clone(),
                    Subword::Arith(a) => {
                        match calculate(&a.calc.elements, core) {
                            Ok(v) => i64_to_string(v),
                            Err(_) => {
                                return None;
                            },
                        }
                    },
                };
                out.append(piece_value.as_str());
                proof {
                    lemma_concat_assoc(out0, piece_value@, ps, i + 1, core.vars_map());
                }
                i = i + 1;
            }
        }
        proof {
            assert(out@ + Seq::<char>::empty() =~= out@);
        }
        Some(out)
    }
}

proof fn lemma_concat_assoc(
    a: Seq<char>,
    b: Seq<char>,
    ps: Seq<SubwordRep>,
    i: int,
    vars: Map<Seq<char>, Seq<char>>,
)
    requires
        0 <= i <= ps.len(),
    ensures
        match eval_from(ps, i, vars) {
            Ok((t, m)) => (a + b) + t == a + (b + t),
            Err(_) => true,
        },
{
    match eval_from(ps, i, vars) {
        Ok((t, m)) => {
            assert((a + b) + t =~= a + (b + t));
        },
        Err(_) => {},
    }
}

} // verus!
