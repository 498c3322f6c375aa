//! Tokenization of arithmetic substitutions: scanning an expression's text
//! into `CalcElement`s, and evaluating them.
//!
//! The parser consumes text until the two closing parentheses of a
//! `$(( ))` substitution; what it consumed is recorded exactly in `text`
//! (the round-trip invariant), and an exhausted buffer means the
//! substitution is unterminated and more input is needed.

use vstd::prelude::*;
use crate::feeder::{Feeder, MoreLine};
use crate::shellcore::{eprint_line, ShellCore};
use crate::elements::calculator::{calculate, calculate_spec, CalcElement};
use crate::numstr::{i64_to_dec, i64_to_string, parse_i64_wrapping, wrapped_dec_val};
use crate::textutil::{lemma_consume_append, spec_starts_with, str_eq};

verus! {

/// Characters an arithmetic operator token can start with.
pub open spec fn is_op_start(c: char) -> bool {
    c == '<' || c == '>' || c == '*' || c == '+' || c == '-' || c == '/' || c == '%' || c == '='
        || c == '!' || c == '&' || c == '^' || c == '|' || c == '~' || c == '?' || c == ':' || c
        == ','
}

impl Feeder {
    /// Length of the longest arithmetic operator token at the head of the
    /// buffer; 0 when none starts there.  Parentheses are not operator
    /// tokens: the expression parser handles them itself.
    pub fn scanner_calc_operator(&self) -> (n: usize)
        ensures
            n <= self.remaining@.len(),
            n == 0 ==> self.remaining@.len() == 0 || !is_op_start(self.remaining@[0]),
    {
        proof {
            reveal_strlit("<<=");
            reveal_strlit(">>=");
            reveal_strlit("**");
            reveal_strlit("<<");
            reveal_strlit(">>");
            reveal_strlit("<=");
            reveal_strlit(">=");
            reveal_strlit("==");
            reveal_strlit("!=");
            reveal_strlit("&&");
            reveal_strlit("||");
            reveal_strlit("++");
            reveal_strlit("--");
            reveal_strlit("+=");
            reveal_strlit("-=");
            reveal_strlit("*=");
            reveal_strlit("/=");
            reveal_strlit("%=");
            reveal_strlit("&=");
            reveal_strlit("^=");
            reveal_strlit("|=");
        }
        if self.starts_with("<<=") || self.starts_with(">>=") {
            return 3;
        }
        if self.starts_with("**") || self.starts_with("<<") || self.starts_with(">>")
            || self.starts_with("<=") || self.starts_with(">=") || self.starts_with("==")
            || self.starts_with("!=") || self.starts_with("&&") || self.starts_with("||")
            || self.starts_with("++") || self.starts_with("--") || self.starts_with("+=")
            || self.starts_with("-=") || self.starts_with("*=") || self.starts_with("/=")
            || self.starts_with("%=") || self.starts_with("&=") || self.starts_with("^=")
            || self.starts_with("|=") {
            return 2;
        }
        let s = self.remaining.as_str();
        if s.unicode_len() == 0 {
            return 0;
        }
        let c = s.get_char(0);
        if c == '<' || c == '>' || c == '*' || c == '+' || c == '-' || c == '/' || c == '%' || c
            == '=' || c == '!' || c == '&' || c == '^' || c == '|' || c == '~' || c == '?' || c
            == ':' || c == ',' {
            1
        } else {
            0
        }
    }
}

/// An arithmetic substitution: its exact source text and its tokenized
/// elements.
#[derive(Debug)]
pub struct Calc {
    /// The exact text this expression consumed.
    pub text: String,
    /// The tokenized elements, in source order.
    pub elements: Vec<CalcElement>,
}

/// What one consumed operator token `piece` does to the element list: a
/// `++` or `--` after a variable reference attaches to it as a
/// post-increment; standing where no operand precedes, it is a
/// pre-increment; `?` and `:` become the ternary's halves; a leading `+`
/// or `-` is unary, as are `!` and `~`; anything else is a binary
/// operator carrying its own text.
pub open spec fn eat_operator_elems(
    piece: Seq<char>,
    es0: Seq<CalcElement>,
    es1: Seq<CalcElement>,
    was_operand: bool,
    now_operand: bool,
) -> bool {
    if piece == "++"@ || piece == "--"@ {
        let delta: i64 = if piece == "++"@ {
            1i64
        } else {
            -1i64
        };
        if was_operand && es0.len() > 0 && es0.last() is Word {
            // Attached as a post-increment to the reference before it.
            &&& es1.len() == es0.len()
            &&& es1.drop_last() == es0.drop_last()
            &&& match (es0.last(), es1.last()) {
                (CalcElement::Word(nm0, p0), CalcElement::Word(nm1, p1)) => nm1@ == nm0@ && p1
                    == vstd::wrapping::i64_specs::wrapping_add(p0, delta),
                _ => false,
            }
            &&& now_operand
        } else if was_operand {
            &&& es1.len() == es0.len() + 1
            &&& es1.drop_last() == es0
            &&& (match es1.last() {
                CalcElement::BinaryOp(t) => t@ == piece,
                _ => false,
            })
            &&& !now_operand
        } else {
            &&& es1 == es0.push(CalcElement::Increment(delta))
            &&& !now_operand
        }
    } else {
        &&& es1.len() == es0.len() + 1
        &&& es1.drop_last() == es0
        &&& !now_operand
        &&& match es1.last() {
            CalcElement::Question => piece == "?"@,
            CalcElement::Colon => piece == ":"@,
            CalcElement::UnaryOp(t) => t@ == piece && (piece == "!"@ || piece == "~"@ || ((piece
                == "+"@ || piece == "-"@) && !was_operand)),
            CalcElement::BinaryOp(t) => t@ == piece,
            _ => false,
        }
    }
}

/// The text cursor and the accumulated expression move together: what the
/// feeder gave up, the expression's text took in, character for character.
pub open spec fn calc_feed_invariant(
    text0: Seq<char>,
    rem0: Seq<char>,
    text1: Seq<char>,
    rem1: Seq<char>,
) -> bool {
    text0 + rem0 == text1 + rem1
}

impl Calc {
    /// An equal copy of this expression.
    pub fn dup(&self) -> (r: Calc)
        ensures
            r.text@ == self.text@,
            r.elements@ == self.elements@,
    {
        let mut elements: Vec<CalcElement> = Vec::new();
        let mut i: usize = 0;
        while i < self.elements.len()
            invariant
                0 <= i <= self.elements@.len(),
                elements@ =~= self.elements@.subrange(0, i as int),
            decreases self.elements@.len() - i,
        {
            elements.push(self.elements[i].dup());
            proof {
                assert(elements@ =~= self.elements@.subrange(0, i + 1));
            }
            i = i + 1;
        }
        proof {
            assert(self.elements@.subrange(0, self.elements@.len() as int) =~= self.elements@);
        }
        Calc { text: self.text.clone(), elements }
    }

    /// An empty expression.
    pub fn new() -> (c: Calc)
        ensures
            c.text@ == Seq::<char>::empty(),
            c.elements@ == Seq::<CalcElement>::empty(),
    {
        Calc { text: String::new(), elements: Vec::new() }
    }

    /// Consume leading blanks (including newlines: an arithmetic
    /// substitution may span lines) into the expression's text.
    fn eat_blank(feeder: &mut Feeder, ans: &mut Calc)
        ensures
            calc_feed_invariant(
                old(ans).text@,
                old(feeder).remaining@,
                final(ans).text@,
                final(feeder).remaining@,
            ),
            final(feeder).remaining@.len() <= old(feeder).remaining@.len(),
            final(feeder).nest@ == old(feeder).nest@,
            final(ans).elements == old(ans).elements,
            crate::feeder::all_multiline_blank(old(ans).text@) ==> crate::feeder::all_multiline_blank(
                final(ans).text@,
            ),
    {
        let len = feeder.scanner_multiline_blank();
        proof {
            lemma_consume_append(ans.text@, feeder.remaining@, len as int);
        }
        let s = feeder.consume(len);
        ans.text.append(s.as_str());
    }

    /// Consume an integer or floating-point literal.  An integer literal
    /// of any length is read in 64-bit two's complement arithmetic,
    /// wrapping on overflow; the element pushed holds exactly the consumed
    /// literal's value (or, for a floating-point literal, its text).
    fn eat_interger(feeder: &mut Feeder, ans: &mut Calc) -> (r: bool)
        ensures
            calc_feed_invariant(
                old(ans).text@,
                old(feeder).remaining@,
                final(ans).text@,
                final(feeder).remaining@,
            ),
            final(feeder).nest@ == old(feeder).nest@,
            r ==> final(feeder).remaining@.len() < old(feeder).remaining@.len(),
            r ==> final(ans).elements@.len() == old(ans).elements@.len() + 1 && final(ans).elements@.drop_last() == old(ans).elements@ && (match final(ans).elements@.last() {
                CalcElement::Integer(v) => v == wrapped_dec_val(
                    final(ans).text@.skip(old(ans).text@.len() as int),
                ),
                CalcElement::FloatLit(t) => t@ == final(ans).text@.skip(
                    old(ans).text@.len() as int,
                ),
                _ => false,
            }),
            !r ==> *final(feeder) == *old(feeder) && *final(ans) == *old(ans),
    {
        let ilen = feeder.scanner_integer();
        if ilen == 0 {
            return false;
        }
        // A fractional part makes it a floating-point literal.
        let s = feeder.remaining.as_str();
        let rlen = s.unicode_len();
        let mut total = ilen;
        let mut is_float = false;
        if ilen < rlen && s.get_char(ilen) == '.' {
            let mut m: usize = ilen + 1;
            while m < rlen
                invariant
                    ilen + 1 <= m <= rlen,
                    rlen == s@.len(),
                decreases rlen - m,
            {
                let c = s.get_char(m);
                if !('0' <= c && c <= '9') {
                    break;
                }
                m = m + 1;
            }
            if m > ilen + 1 {
                total = m;
                is_float = true;
            }
        }
        proof {
            lemma_consume_append(ans.text@, feeder.remaining@, total as int);
        }
        let lit = feeder.consume(total);
        ans.text.append(lit.as_str());
        proof {
            assert((old(ans).text@ + lit@).skip(old(ans).text@.len() as int) =~= lit@);
        }
        if is_float {
            ans.elements.push(CalcElement::FloatLit(lit));
        } else {
            let v = parse_i64_wrapping(lit.as_str());
            ans.elements.push(CalcElement::Integer(v));
        }
        true
    }

    /// Consume a variable name; the element pushed is a reference to
    /// exactly that name, with no increment attached yet.
    fn eat_name(feeder: &mut Feeder, ans: &mut Calc) -> (r: bool)
        ensures
            calc_feed_invariant(
                old(ans).text@,
                old(feeder).remaining@,
                final(ans).text@,
                final(feeder).remaining@,
            ),
            final(feeder).nest@ == old(feeder).nest@,
            r ==> final(feeder).remaining@.len() < old(feeder).remaining@.len(),
            r ==> final(ans).elements@.len() == old(ans).elements@.len() + 1 && final(ans).elements@.drop_last() == old(ans).elements@ && (match final(ans).elements@.last() {
                CalcElement::Word(nm, post) => nm@ == final(ans).text@.skip(
                    old(ans).text@.len() as int,
                ) && post == 0,
                _ => false,
            }),
            !r ==> *final(feeder) == *old(feeder) && *final(ans) == *old(ans),
    {
        let len = feeder.scanner_name();
        if len == 0 {
            return false;
        }
        proof {
            lemma_consume_append(ans.text@, feeder.remaining@, len as int);
        }
        let name = feeder.consume(len);
        ans.text.append(name.as_str());
        proof {
            assert((old(ans).text@ + name@).skip(old(ans).text@.len() as int) =~= name@);
        }
        ans.elements.push(CalcElement::Word(name, 0));
        true
    }

    /// Consume an operator token, classifying it from what precedes it: a
    /// leading `+`/`-` is unary, `++`/`--` after a variable attaches to it
    /// as a post-increment and is otherwise a pre-increment, `?` and `:`
    /// are the ternary's halves.
    fn eat_operator(feeder: &mut Feeder, ans: &mut Calc, prev_operand: &mut bool) -> (r: bool)
        ensures
            calc_feed_invariant(
                old(ans).text@,
                old(feeder).remaining@,
                final(ans).text@,
                final(feeder).remaining@,
            ),
            final(feeder).nest@ == old(feeder).nest@,
            r ==> final(feeder).remaining@.len() < old(feeder).remaining@.len(),
            r ==> eat_operator_elems(
                final(ans).text@.skip(old(ans).text@.len() as int),
                old(ans).elements@,
                final(ans).elements@,
                *old(prev_operand),
                *final(prev_operand),
            ),
            !r ==> *final(feeder) == *old(feeder) && *final(ans) == *old(ans) && *final(prev_operand)
                == *old(prev_operand),
    {
        let len = feeder.scanner_calc_operator();
        if len == 0 {
            return false;
        }
        proof {
            lemma_consume_append(ans.text@, feeder.remaining@, len as int);
        }
        let tok = feeder.consume(len);
        ans.text.append(tok.as_str());
        proof {
            assert((old(ans).text@ + tok@).skip(old(ans).text@.len() as int) =~= tok@);
        }
        let was_operand = *prev_operand;
        *prev_operand = false;
        if str_eq(tok.as_str(), "++") || str_eq(tok.as_str(), "--") {
            let delta: i64 = if str_eq(tok.as_str(), "++") {
                1
            } else {
                -1
            };
            if was_operand {
                let n = ans.elements.len();
                let attached = if n > 0 {
                    match &ans.elements[n - 1] {
                        CalcElement::Word(name, post) => {
                            let updated = CalcElement::Word(name.clone(), post.wrapping_add(delta));
                            ans.elements.set(n - 1, updated);
                            true
                        },
                        _ => false,
                    }
                } else {
                    false
                };
                if attached {
                    proof {
                        assert(ans.elements@.drop_last() =~= old(ans).elements@.drop_last());
                    }
                    *prev_operand = true;
                } else {
                    ans.elements.push(CalcElement::BinaryOp(tok));
                    proof {
                        assert(ans.elements@.drop_last() =~= old(ans).elements@);
                    }
                }
            } else {
                ans.elements.push(CalcElement::Increment(delta));
                proof {
                    assert(ans.elements@.drop_last() =~= old(ans).elements@);
                }
            }
        } else if str_eq(tok.as_str(), "?") {
            ans.elements.push(CalcElement::Question);
            proof {
                assert(ans.elements@.drop_last() =~= old(ans).elements@);
            }
        } else if str_eq(tok.as_str(), ":") {
            ans.elements.push(CalcElement::Colon);
            proof {
                assert(ans.elements@.drop_last() =~= old(ans).elements@);
            }
        } else if !was_operand && (str_eq(tok.as_str(), "+") || str_eq(tok.as_str(), "-") ) {
            ans.elements.push(CalcElement::UnaryOp(tok));
            proof {
                assert(ans.elements@.drop_last() =~= old(ans).elements@);
            }
        } else if str_eq(tok.as_str(), "!") || str_eq(tok.as_str(), "~") {
            ans.elements.push(CalcElement::UnaryOp(tok));
            proof {
                assert(ans.elements@.drop_last() =~= old(ans).elements@);
            }
        } else {
            ans.elements.push(CalcElement::BinaryOp(tok));
            proof {
                assert(ans.elements@.drop_last() =~= old(ans).elements@);
            }
        }
        true
    }

    /// Consume a parenthesis: an opening one always, a closing one only
    /// when it closes an opening one of this expression — otherwise it
    /// belongs to the `))` that ends the substitution.
    fn eat_paren(feeder: &mut Feeder, ans: &mut Calc, depth: &mut usize) -> (r: bool)
        ensures
            calc_feed_invariant(
                old(ans).text@,
                old(feeder).remaining@,
                final(ans).text@,
                final(feeder).remaining@,
            ),
            final(feeder).nest@ == old(feeder).nest@,
            r ==> final(feeder).remaining@.len() < old(feeder).remaining@.len(),
            r ==> final(ans).elements@.len() == old(ans).elements@.len() + 1 && final(ans).elements@.drop_last() == old(ans).elements@ && (final(ans).elements@.last() == CalcElement::LeftParen && old(feeder).remaining@[0] == '('
                || final(ans).elements@.last() == CalcElement::RightParen && old(feeder).remaining@[0] == ')'),
            !r ==> *final(feeder) == *old(feeder) && *final(ans) == *old(ans) && *final(depth)
                == *old(depth),
    {
        proof {
            reveal_strlit("(");
            reveal_strlit(")");
        }
        if feeder.starts_with("(") && *depth < usize::MAX {
            proof {
                lemma_consume_append(ans.text@, feeder.remaining@, 1);
                assert(feeder.remaining@.subrange(0, 1)[0] == feeder.remaining@[0]);
            }
            let s = feeder.consume(1);
            ans.text.append(s.as_str());
            ans.elements.push(CalcElement::LeftParen);
            *depth = *depth + 1;
            return true;
        }
        if *depth > 0 && feeder.starts_with(")") {
            proof {
                lemma_consume_append(ans.text@, feeder.remaining@, 1);
                assert(feeder.remaining@.subrange(0, 1)[0] == feeder.remaining@[0]);
            }
            let s = feeder.consume(1);
            ans.text.append(s.as_str());
            ans.elements.push(CalcElement::RightParen);
            *depth = *depth - 1;
            return true;
        }
        false
    }

    /// Tokenize an arithmetic expression up to the `))` that closes the
    /// substitution.  What was consumed is recorded exactly in the
    /// expression's text; an exhausted buffer means the substitution is
    /// unterminated (`MoreLine`), and a buffer that continues with
    /// anything but `))` is not an arithmetic substitution (`None`).  In
    /// both of those cases the consumed text is put back.
    pub fn parse(feeder: &mut Feeder, core: &mut ShellCore) -> (r: Result<Option<Calc>, MoreLine>)
        ensures
            final(feeder).nest@ == old(feeder).nest@,
            *final(core) == *old(core),
            match r {
                Ok(rr) => match rr {
                    Some(c) => old(feeder).remaining@ == c.text@ + final(feeder).remaining@
                        && spec_starts_with(final(feeder).remaining@, "))"@) && (c.elements@.len()
                        == 0 ==> crate::feeder::all_multiline_blank(c.text@)),
                    None => final(feeder).remaining@ == old(feeder).remaining@,
                },
                Err(_) => final(feeder).remaining@ == old(feeder).remaining@,
            },
    {
        let mut ans = Calc::new();
        let mut prev_operand = false;
        let mut depth: usize = 0;
        loop
            invariant
                calc_feed_invariant(
                    Seq::<char>::empty(),
                    old(feeder).remaining@,
                    ans.text@,
                    feeder.remaining@,
                ),
                feeder.nest@ == old(feeder).nest@,
                *core == *old(core),
                ans.elements@.len() == 0 ==> crate::feeder::all_multiline_blank(ans.text@),
            decreases feeder.remaining@.len(),
        {
            Self::eat_blank(feeder, &mut ans);
            // After an operand a `-` or `+` is an operator, never the sign
            // of a literal.
            if prev_operand && Self::eat_operator(feeder, &mut ans, &mut prev_operand) {
                continue;
            }
            let ate_number = Self::eat_interger(feeder, &mut ans);
            let ate_name = if ate_number {
                false
            } else {
                Self::eat_name(feeder, &mut ans)
            };
            if ate_number || ate_name {
                prev_operand = true;
                continue;
            }
            let ate_paren = Self::eat_paren(feeder, &mut ans, &mut depth);
            if ate_paren {
                let n = ans.elements.len();
                prev_operand = n > 0 && match &ans.elements[n - 1] {
                    CalcElement::RightParen => true,
                    _ => false,
                };
                continue;
            }
            if Self::eat_operator(feeder, &mut ans, &mut prev_operand) {
                continue;
            }
            break;
        }
        if feeder.len() == 0 {
            feeder.replace_front(ans.text.as_str());
            return Err(MoreLine);
        }
        proof {
            reveal_strlit("))");
        }
        if feeder.starts_with("))") {
            Ok(Some(ans))
        } else {
            feeder.replace_front(ans.text.as_str());
            Ok(None)
        }
    }

    /// Evaluate the expression: its value as a decimal string, or nothing
    /// after reporting a typed arithmetic failure.  An expression without
    /// variable references, increments or assignments leaves the variable
    /// table untouched, on success and on failure alike.
    pub fn eval(&mut self, core: &mut ShellCore) -> (r: Option<String>)
        ensures
            *final(self) == *old(self),
            final(core).history == old(core).history,
            final(core).job_table == old(core).job_table,
            crate::elements::calculator::elems_pure(old(self).elements@)
                ==> final(core).vars_map() == old(core).vars_map(),
            match calculate_spec(old(self).elements@, old(core).vars_map()) {
                Ok((v, m)) => (r matches Some(s) && s@ == i64_to_dec(v as int)
                    && final(core).vars_map() == m),
                Err(er) => r is None,
            },
    {
        match calculate(&self.elements, core) {
            Ok(v) => Some(i64_to_string(v)),
            Err(e) => {
                let mut msg: String = "sush: arithmetic: ".to_owned();
                msg.append(e.message().as_str());
                eprint_line(msg.as_str());
                None
            },
        }
    }
}

} // verus!
