//! Brace expansion: a value is a run of plain text and `{a,b,c}` groups,
//! and expands to the cross product of its pieces' alternatives.
//!
//! A complete group contributes one alternative per argument; an
//! incomplete group (no closing `}`, or fewer than two alternatives) is
//! taken literally, reassembled from its pieces.  The expansion of a
//! value is pinned down exactly by `value_vals`.

use vstd::prelude::*;
use crate::feeder::Feeder;
use crate::shellcore::ShellCore;
use crate::elements::subword::SimpleSubword;
use crate::textutil::lemma_consume_append;

verus! {

/// A brace group `{ ... }`: its exact source text, its comma-separated
/// arguments, and whether the closing `}` was seen.
#[derive(Debug)]
pub struct SubArgBraced {
    pub text: String,
    pub args: Vec<Value>,
    pub complete: bool,
}

/// One piece of a value.
#[derive(Debug)]
pub enum ValuePiece {
    Simple(SimpleSubword),
    Braced(SubArgBraced),
}

/// A value: a sequence of plain and braced pieces.
#[derive(Debug)]
pub struct Value {
    pub text: String,
    pub subvalues: Vec<ValuePiece>,
}

/// The source text of one piece.
pub open spec fn piece_text(p: ValuePiece) -> Seq<char> {
    match p {
        ValuePiece::Simple(sw) => sw.text@,
        ValuePiece::Braced(b) => b.text@,
    }
}

/// The concatenated source text of the first `i` pieces.
pub open spec fn texts_pre(ps: Seq<ValuePiece>, i: int) -> Seq<char>
    decreases i,
    when 0 <= i <= ps.len()
{
    if i <= 0 {
        Seq::empty()
    } else {
        texts_pre(ps, i - 1) + piece_text(ps[i - 1])
    }
}

/// The first `i` argument texts joined with commas.
pub open spec fn joined_prefix(args: Seq<Value>, i: int) -> Seq<char>
    decreases i,
    when 0 <= i <= args.len()
{
    if i <= 0 {
        Seq::empty()
    } else if i == 1 {
        args[0].text@
    } else {
        joined_prefix(args, i - 1) + seq![','] + args[i - 1].text@
    }
}

/// What an incomplete brace group expands to: itself, literally,
/// reassembled from its arguments with the group's final character (a
/// comma or closing brace) kept.
pub open spec fn incomplete_vals(b: SubArgBraced) -> Seq<Seq<char>> {
    let t = b.text@;
    let tail: Seq<char> = if t.len() > 0 && (t.last() == ',' || t.last() == '}') {
        seq![t.last()]
    } else {
        Seq::empty()
    };
    if b.args@.len() == 0 {
        seq![t]
    } else if b.args@.len() == 1 {
        seq![seq!['{'] + b.args@[0].text@ + tail]
    } else {
        seq![seq!['{'] + joined_prefix(b.args@, b.args@.len() as int) + tail]
    }
}

/// What a brace group expands to: one alternative per argument when
/// complete, itself literally when not.
pub open spec fn braced_vals(b: SubArgBraced) -> Seq<Seq<char>> {
    if b.complete {
        Seq::new(b.args@.len(), |i: int| b.args@[i].text@)
    } else {
        incomplete_vals(b)
    }
}

/// The alternatives one piece contributes.
pub open spec fn piece_vals(p: ValuePiece) -> Seq<Seq<char>> {
    match p {
        ValuePiece::Simple(sw) => seq![sw.text@],
        ValuePiece::Braced(b) => braced_vals(b),
    }
}

/// Every combination of one string from `xs` and one from `ys`, in order.
pub open spec fn cross(xs: Seq<Seq<char>>, ys: Seq<Seq<char>>) -> Seq<Seq<char>> {
    Seq::new(
        xs.len() * ys.len(),
        |k: int| xs[k / ys.len() as int] + ys[k % ys.len() as int],
    )
}

/// The cross product of the first `i` pieces' alternatives.
pub open spec fn vals_pre(ps: Seq<ValuePiece>, i: int) -> Seq<Seq<char>>
    decreases i,
    when 0 <= i <= ps.len()
{
    if i <= 0 {
        seq![Seq::empty()]
    } else {
        cross(vals_pre(ps, i - 1), piece_vals(ps[i - 1]))
    }
}

/// Everything a value expands to, in order.
pub open spec fn value_vals(v: Value) -> Seq<Seq<char>> {
    vals_pre(v.subvalues@, v.subvalues@.len() as int)
}

proof fn lemma_texts_pre_stable(ps: Seq<ValuePiece>, p: ValuePiece, i: int)
    requires
        0 <= i <= ps.len(),
    ensures
        texts_pre(ps.push(p), i) == texts_pre(ps, i),
    decreases i,
{
    if i > 0 {
        lemma_texts_pre_stable(ps, p, i - 1);
        assert(ps.push(p)[i - 1] == ps[i - 1]);
    }
}

proof fn lemma_cross_index(i: int, j: int, n: int)
    requires
        n > 0,
        0 <= j < n,
        0 <= i,
    ensures
        (i * n + j) / n == i,
        (i * n + j) % n == j,
{
    assert((i * n + j) / n == i && (i * n + j) % n == j) by (nonlinear_arith)
        requires
            n > 0,
            0 <= j < n,
            0 <= i,
    ;
}

/// The cross product of two lists of strings, per `cross`.
fn combine(a: &Vec<String>, b: &Vec<String>) -> (r: Vec<String>)
    ensures
        r@.len() == a@.len() * b@.len(),
        forall|k: int|
            0 <= k < r@.len() ==> (#[trigger] r@[k])@ == cross(
                a@.map_values(|s: String| s@),
                b@.map_values(|s: String| s@),
            )[k],
{
    let ghost xs = a@.map_values(|s: String| s@);
    let ghost ys = b@.map_values(|s: String| s@);
    let mut r: Vec<String> = Vec::new();
    let mut i: usize = 0;
    while i < a.len()
        invariant
            0 <= i <= a@.len(),
            xs == a@.map_values(|s: String| s@),
            ys == b@.map_values(|s: String| s@),
            r@.len() == i * b@.len(),
            forall|k: int| 0 <= k < r@.len() ==> (#[trigger] r@[k])@ == cross(xs, ys)[k],
        decreases a@.len() - i,
    {
        let mut j: usize = 0;
        while j < b.len()
            invariant
                0 <= i < a@.len(),
                0 <= j <= b@.len(),
                xs == a@.map_values(|s: String| s@),
                ys == b@.map_values(|s: String| s@),
                r@.len() == i * b@.len() + j,
                forall|k: int| 0 <= k < r@.len() ==> (#[trigger] r@[k])@ == cross(xs, ys)[k],
            decreases b@.len() - j,
        {
            let mut s = a[i].clone();
            s.append(b[j].as_str());
            proof {
                lemma_cross_index(i as int, j as int, b@.len() as int);
                assert(i * b@.len() + j < a@.len() * b@.len()) by (nonlinear_arith)
                    requires
                        0 <= i < a@.len(),
                        0 <= j < b@.len(),
                ;
                assert(cross(xs, ys)[r@.len() as int] == xs[i as int] + ys[j as int]);
            }
            r.push(s);
            j = j + 1;
        }
        proof {
            assert((i + 1) * b@.len() == i * b@.len() + b@.len()) by (nonlinear_arith);
        }
        i = i + 1;
    }
    proof {
        assert(r@.len() == a@.len() * b@.len());
    }
    r
}

impl Value {
    /// An empty value.
    pub fn new() -> (v: Value)
        ensures
            v.text@ == Seq::<char>::empty(),
            v.subvalues@.len() == 0,
    {
        Value { text: String::new(), subvalues: Vec::new() }
    }

    /// The stored text is exactly the pieces' texts, concatenated.
    pub open spec fn wf(self) -> bool {
        self.text@ == texts_pre(self.subvalues@, self.subvalues@.len() as int)
    }

    /// Consume one value: plain runs and brace groups.  Something parses
    /// exactly when a word character or `{` heads the buffer; otherwise
    /// nothing is consumed.
    pub fn parse(feeder: &mut Feeder, core: &mut ShellCore) -> (r: Option<Value>)
        ensures
            final(feeder).nest@ == old(feeder).nest@,
            *final(core) == *old(core),
            old(feeder).remaining@.len() > 0 && (crate::feeder::is_word_char(
                old(feeder).remaining@[0],
            ) || old(feeder).remaining@[0] == '{') ==> r is Some,
            match r {
                Some(v) => old(feeder).remaining@ == v.text@ + final(feeder).remaining@ && v.wf()
                    && final(feeder).remaining@.len() < old(feeder).remaining@.len(),
                None => final(feeder).remaining@ == old(feeder).remaining@ && (old(
                    feeder,
                ).remaining@.len() == 0 || (!crate::feeder::is_word_char(old(feeder).remaining@[0])
                    && old(feeder).remaining@[0] != '{')),
            },
    {
        let mut text: String = String::new();
        let mut subvalues: Vec<ValuePiece> = Vec::new();
        loop
            invariant
                text@ == texts_pre(subvalues@, subvalues@.len() as int),
                text@ + feeder.remaining@ == old(feeder).remaining@,
                feeder.nest@ == old(feeder).nest@,
                *core == *old(core),
                subvalues@.len() > 0 ==> feeder.remaining@.len() < old(feeder).remaining@.len(),
                subvalues@.len() == 0 ==> feeder.remaining@ == old(feeder).remaining@,
            decreases feeder.remaining@.len(),
        {
            let wlen = feeder.scanner_word();
            if wlen > 0 {
                proof {
                    lemma_consume_append(text@, feeder.remaining@, wlen as int);
                }
                let w = feeder.consume(wlen);
                text.append(w.as_str());
                let piece = ValuePiece::Simple(SimpleSubword { text: w });
                proof {
                    lemma_texts_pre_stable(subvalues@, piece, subvalues@.len() as int);
                    assert(subvalues@.push(piece)[subvalues@.len() as int] == piece);
                }
                subvalues.push(piece);
                continue;
            }
            match SubArgBraced::parse(feeder, core) {
                Some(b) => {
                    proof {
                        assert((text@ + b.text@) + feeder.remaining@ =~= text@ + (b.text@
                            + feeder.remaining@));
                        let piece = ValuePiece::Braced(b);
                        lemma_texts_pre_stable(subvalues@, piece, subvalues@.len() as int);
                        assert(subvalues@.push(piece)[subvalues@.len() as int] == piece);
                    }
                    text.append(b.text.clone().as_str());
                    subvalues.push(ValuePiece::Braced(b));
                },
                None => {
                    proof {
                        reveal_strlit("{");
                        if crate::textutil::spec_starts_with(feeder.remaining@, "{"@) {
                            assert(feeder.remaining@.subrange(0, 1)[0] == feeder.remaining@[0]);
                        }
                    }
                    if subvalues.len() == 0 {
                        return None;
                    }
                    return Some(Value { text, subvalues });
                },
            }
        }
    }

    /// Everything this value expands to, per `value_vals`: the cross
    /// product of its pieces' alternatives, in order.
    pub fn eval(&self, core: &mut ShellCore) -> (r: Vec<String>)
        ensures
            *final(core) == *old(core),
            r@.len() == value_vals(*self).len(),
            forall|k: int|
                0 <= k < r@.len() ==> (#[trigger] r@[k])@ == value_vals(*self)[k],
    {
        let mut r: Vec<String> = Vec::new();
        r.push(String::new());
        let n = self.subvalues.len();
        let mut i: usize = 0;
        while i < n
            invariant
                0 <= i <= n,
                n == self.subvalues@.len(),
                *core == *old(core),
                r@.len() == vals_pre(self.subvalues@, i as int).len(),
                forall|k: int|
                    0 <= k < r@.len() ==> (#[trigger] r@[k])@ == vals_pre(
                        self.subvalues@,
                        i as int,
                    )[k],
            decreases n - i,
        {
            let vals: Vec<String> = match &self.subvalues[i] {
                ValuePiece::Simple(sw) => {
                    let mut vs: Vec<String> = Vec::new();
                    vs.push(sw.text.clone());
                    vs
                },
                ValuePiece::Braced(b) => b.eval(core),
            };
            let r2 = combine(&r, &vals);
            proof {
                assert(r@.map_values(|s: String| s@) =~= vals_pre(self.subvalues@, i as int));
                assert(vals@.map_values(|s: String| s@) =~= piece_vals(self.subvalues@[i as int]));
            }
            r = r2;
            i = i + 1;
        }
        r
    }
}

impl SubArgBraced {
    /// Everything this group expands to, per `braced_vals`.
    pub fn eval(&self, core: &mut ShellCore) -> (r: Vec<String>)
        ensures
            *final(core) == *old(core),
            r@.len() == braced_vals(*self).len(),
            forall|k: int| 0 <= k < r@.len() ==> (#[trigger] r@[k])@ == braced_vals(*self)[k],
    {
        if self.complete {
            self.eval_complete(core)
        } else {
            self.eval_incomplete(core)
        }
    }

    /// A complete group's alternatives: one per argument, in order.
    pub fn eval_complete(&self, core: &mut ShellCore) -> (r: Vec<String>)
        requires
            self.complete,
        ensures
            *final(core) == *old(core),
            r@.len() == braced_vals(*self).len(),
            forall|k: int| 0 <= k < r@.len() ==> (#[trigger] r@[k])@ == braced_vals(*self)[k],
    {
        let mut r: Vec<String> = Vec::new();
        let n = self.args.len();
        let mut i: usize = 0;
        while i < n
            invariant
                0 <= i <= n,
                n == self.args@.len(),
                *core == *old(core),
                r@.len() == i,
                forall|k: int| 0 <= k < i ==> (#[trigger] r@[k])@ == self.args@[k].text@,
            decreases n - i,
        {
            r.push(self.args[i].text.clone());
            i = i + 1;
        }
        r
    }

    /// An incomplete group's single literal alternative, reassembled from
    /// its arguments, per `incomplete_vals`.
    pub fn eval_incomplete(&self, core: &mut ShellCore) -> (r: Vec<String>)
        requires
            !self.complete,
        ensures
            *final(core) == *old(core),
            r@.len() == braced_vals(*self).len(),
            forall|k: int| 0 <= k < r@.len() ==> (#[trigger] r@[k])@ == braced_vals(*self)[k],
    {
        proof {
            reveal_strlit("{");
        }
        let n = self.args.len();
        if n == 0 {
            let mut r: Vec<String> = Vec::new();
            r.push(self.text.clone());
            return r;
        }
        let mut s: String = "{".to_owned();
        if n == 1 {
            s.append(self.args[0].text.as_str());
        } else {
            let mut joined: String = String::new();
            let mut i: usize = 0;
            proof {
                reveal_strlit(",");
            }
            while i < n
                invariant
                    0 <= i <= n,
                    n == self.args@.len(),
                    joined@ == joined_prefix(self.args@, i as int),
                decreases n - i,
            {
                proof {
                    reveal_strlit(",");
                    assert(","@ =~= seq![',']);
                }
                if i > 0 {
                    joined.append(",");
                }
                joined.append(self.args[i].text.as_str());
                i = i + 1;
            }
            s.append(joined.as_str());
        }
        // Keep the group's final comma or closing brace, as the scan left it.
        let tlen = self.text.as_str().unicode_len();
        if tlen > 0 {
            let last = self.text.as_str().get_char(tlen - 1);
            if last == ',' || last == '}' {
                let lasts = self.text.as_str().substring_char(tlen - 1, tlen);
                proof {
                    assert(self.text@.subrange(tlen - 1, tlen as int) =~= seq![self.text@.last()]);
                }
                s.append(lasts);
            }
        }
        proof {
            assert("{"@ =~= seq!['{']);
        }
        let mut r: Vec<String> = Vec::new();
        r.push(s);
        r
    }

    /// Consume one brace group: `{`, arguments separated by commas, and
    /// the closing `}` when it is there.  Something parses exactly when a
    /// `{` heads the buffer; the group is complete exactly when it ends
    /// with its `}` and holds at least two alternatives.
    pub fn parse(feeder: &mut Feeder, core: &mut ShellCore) -> (r: Option<SubArgBraced>)
        ensures
            final(feeder).nest@ == old(feeder).nest@,
            *final(core) == *old(core),
            old(feeder).remaining@.len() > 0 && old(feeder).remaining@[0] == '{' ==> r is Some,
            match r {
                Some(b) => old(feeder).remaining@ == b.text@ + final(feeder).remaining@ && final(feeder).remaining@.len() < old(feeder).remaining@.len() && b.args@.len() >= 1 && (b.complete
                    <==> (b.text@.len() > 0 && b.text@.last() == '}' && b.args@.len() >= 2)),
                None => final(feeder).remaining@ == old(feeder).remaining@ && (old(
                    feeder,
                ).remaining@.len() == 0 || old(feeder).remaining@[0] != '{'),
            },
    {
        proof {
            reveal_strlit("{");
            reveal_strlit(",");
            reveal_strlit("}");
        }
        if !feeder.starts_with("{") {
            proof {
                if old(feeder).remaining@.len() > 0 && old(feeder).remaining@[0] == '{' {
                    assert(old(feeder).remaining@.subrange(0, 1) =~= "{"@);
                }
            }
            return None;
        }
        proof {
            lemma_consume_append(Seq::empty(), feeder.remaining@, 1);
            assert(old(feeder).remaining@.subrange(0, 1)[0] == old(feeder).remaining@[0]);
        }
        let mut text = feeder.consume(1);
        let mut args: Vec<Value> = Vec::new();
        loop
            invariant
                text@ + feeder.remaining@ == old(feeder).remaining@,
                text@.len() > 0,
                text@.last() != '}',
                feeder.nest@ == old(feeder).nest@,
                *core == *old(core),
            decreases feeder.remaining@.len(),
        {
            proof {
                reveal_strlit(",");
                reveal_strlit("}");
            }
            match Value::parse_in_brace(feeder, core) {
                Some(v) => {
                    proof {
                        assert((text@ + v.text@) + feeder.remaining@ =~= text@ + (v.text@
                            + feeder.remaining@));
                        assert(v.text@.last() != '}');
                    }
                    text.append(v.text.clone().as_str());
                    args.push(v);
                },
                None => {
                    let v = Value::new();
                    args.push(v);
                },
            }
            if feeder.starts_with(",") {
                proof {
                    lemma_consume_append(text@, feeder.remaining@, 1);
                    assert(feeder.remaining@.subrange(0, 1)[0] == feeder.remaining@[0]);
                }
                let c = feeder.consume(1);
                text.append(c.as_str());
                continue;
            }
            let closed = feeder.starts_with("}");
            if closed {
                proof {
                    lemma_consume_append(text@, feeder.remaining@, 1);
                    assert(feeder.remaining@.subrange(0, 1)[0] == feeder.remaining@[0]);
                }
                let c = feeder.consume(1);
                text.append(c.as_str());
            }
            let complete = closed && args.len() >= 2;
            return Some(SubArgBraced { text, args, complete });
        }
    }
}

impl Value {
    /// Consume one value inside a brace group: a plain run that a comma
    /// or closing brace ends.  Something parses exactly when such a word
    /// character heads the buffer; otherwise nothing is consumed.
    fn parse_in_brace(feeder: &mut Feeder, core: &mut ShellCore) -> (r: Option<Value>)
        ensures
            final(feeder).nest@ == old(feeder).nest@,
            *final(core) == *old(core),
            match r {
                Some(v) => old(feeder).remaining@ == v.text@ + final(feeder).remaining@
                    && final(feeder).remaining@.len() < old(feeder).remaining@.len()
                    && v.text@.len() > 0 && (forall|i: int|
                    0 <= i < v.text@.len() ==> crate::feeder::is_brace_word_char(
                        #[trigger] v.text@[i],
                    )),
                None => final(feeder).remaining@ == old(feeder).remaining@ && (old(
                    feeder,
                ).remaining@.len() == 0 || !crate::feeder::is_brace_word_char(
                    old(feeder).remaining@[0],
                )),
            },
    {
        let _ = core;
        let wlen = feeder.scanner_brace_word();
        if wlen == 0 {
            return None;
        }
        proof {
            lemma_consume_append(Seq::empty(), feeder.remaining@, wlen as int);
        }
        let w = feeder.consume(wlen);
        let mut subvalues: Vec<ValuePiece> = Vec::new();
        let text = w.clone();
        subvalues.push(ValuePiece::Simple(SimpleSubword { text: w }));
        Some(Value { text, subvalues })
    }
}

} // verus!
