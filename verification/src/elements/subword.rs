//! Subwords: the pieces a word is scanned into — plain text runs, the `$`
//! of a parameter expansion, variable names, and arithmetic substitutions.

use vstd::prelude::*;
use crate::feeder::Feeder;
use crate::shellcore::ShellCore;
use crate::elements::calc::Calc;
use crate::elements::calculator::CalcElement;

verus! {

/// A plain run of word characters.
#[derive(Debug)]
pub struct SimpleSubword {
    pub text: String,
}

impl SimpleSubword {
    pub fn new(s: &str) -> (r: SimpleSubword)
        ensures
            r.text@ == s@,
    {
        SimpleSubword { text: s.to_owned() }
    }

    /// Consume a maximal run of word characters: succeeds exactly when a
    /// word character heads the buffer.
    pub fn parse(feeder: &mut Feeder, core: &mut ShellCore) -> (r: Option<SimpleSubword>)
        ensures
            final(feeder).nest@ == old(feeder).nest@,
            *final(core) == *old(core),
            match r {
                Some(sw) => sw.text@.len() > 0 && old(feeder).remaining@ == sw.text@ + final(feeder).remaining@ && (forall|i: int|
                    0 <= i < sw.text@.len() ==> crate::feeder::is_word_char(
                        #[trigger] sw.text@[i],
                    )) && (final(feeder).remaining@.len() > 0 ==> !crate::feeder::is_word_char(
                    final(feeder).remaining@[0],
                )),
                None => *final(feeder) == *old(feeder) && (old(feeder).remaining@.len() == 0
                    || !crate::feeder::is_word_char(old(feeder).remaining@[0])),
            },
    {
        let _ = core;
        let len = feeder.scanner_word();
        if len == 0 {
            return None;
        }
        proof {
            crate::textutil::lemma_consume_append(Seq::empty(), feeder.remaining@, len as int);
        }
        let text = feeder.consume(len);
        Some(SimpleSubword { text })
    }
}

/// A variable name.
#[derive(Debug)]
pub struct VarName {
    pub text: String,
}

impl VarName {
    /// Consume a maximal variable name: a letter or underscore followed by
    /// letters, digits and underscores.  Succeeds exactly when a name head
    /// character starts the buffer.
    pub fn parse(feeder: &mut Feeder, core: &mut ShellCore) -> (r: Option<VarName>)
        ensures
            final(feeder).nest@ == old(feeder).nest@,
            *final(core) == *old(core),
            match r {
                Some(v) => v.text@.len() > 0 && old(feeder).remaining@ == v.text@ + final(feeder).remaining@ && crate::feeder::is_name_head(v.text@[0]) && (forall|i: int|
                    0 <= i < v.text@.len() ==> crate::feeder::is_name_char(#[trigger] v.text@[i]))
                    && (final(feeder).remaining@.len() > 0 ==> !crate::feeder::is_name_char(
                    final(feeder).remaining@[0],
                )),
                None => *final(feeder) == *old(feeder) && (old(feeder).remaining@.len() == 0
                    || !crate::feeder::is_name_head(old(feeder).remaining@[0])),
            },
    {
        let _ = core;
        let len = feeder.scanner_name();
        if len == 0 {
            return None;
        }
        proof {
            crate::textutil::lemma_consume_append(Seq::empty(), feeder.remaining@, len as int);
        }
        let text = feeder.consume(len);
        Some(VarName { text })
    }
}

/// An arithmetic substitution `$(( ... ))`, with its full source text.
#[derive(Debug)]
pub struct ArithSub {
    /// The full consumed text, delimiters included.
    pub text: String,
    pub calc: Calc,
}

/// One piece of a word.
#[derive(Debug)]
pub enum Subword {
    Simple(SimpleSubword),
    Name(VarName),
    Arith(ArithSub),
}

/// The mathematical shape of a subword: its kind and text, and for an
/// arithmetic substitution its tokenized elements.
pub enum SubwordRep {
    Simple(Seq<char>),
    Name(Seq<char>),
    Arith(Seq<char>, Seq<CalcElement>),
}

impl SubwordRep {
    /// The source text of this piece.
    pub open spec fn text(self) -> Seq<char> {
        match self {
            SubwordRep::Simple(t) => t,
            SubwordRep::Name(t) => t,
            SubwordRep::Arith(t, _) => t,
        }
    }

    pub open spec fn is_name(self) -> bool {
        self is Name
    }
}

impl View for Subword {
    type V = SubwordRep;

    open spec fn view(&self) -> SubwordRep {
        match self {
            Subword::Simple(s) => SubwordRep::Simple(s.text@),
            Subword::Name(v) => SubwordRep::Name(v.text@),
            Subword::Arith(a) => SubwordRep::Arith(a.text@, a.calc.elements@),
        }
    }
}

impl Subword {
    /// The source text of this piece.
    pub fn get_text(&self) -> (r: String)
        ensures
            r@ == self@.text(),
    {
        match self {
            Subword::Simple(s) => s.text.clone(),
            Subword::Name(v) => v.text.clone(),
            Subword::Arith(a) => a.text.clone(),
        }
    }

    /// Whether this piece is a bare variable name.
    pub fn is_name(&self) -> (r: bool)
        ensures
            r == self@.is_name(),
    {
        match self {
            Subword::Name(_) => true,
            _ => false,
        }
    }

    /// A copy of this piece with the same shape.
    pub fn dup(&self) -> (r: Subword)
        ensures
            r@ == self@,
    {
        match self {
            Subword::Simple(s) => Subword::Simple(SimpleSubword { text: s.text.clone() }),
            Subword::Name(v) => Subword::Name(VarName { text: v.text.clone() }),
            Subword::Arith(a) => Subword::Arith(ArithSub { text: a.text.clone(), calc: a.calc.dup() }),
        }
    }
}

} // verus!
