//! Jobs: pipelines chained by the list connectors `&&` and `||`,
//! evaluated left to right with short-circuiting.

use vstd::prelude::*;
use crate::feeder::{Feeder, ParseAbort};
use crate::shellcore::ShellCore;
use crate::elements::pipeline::Pipeline;
use crate::elements::script::abort_ok;
use crate::textutil::{lemma_consume_append, spec_starts_with, str_starts_with};

verus! {

/// A job: its pipelines in order, and the exact text of each `&&` or `||`
/// connector (with the blanks and newlines that followed it).
#[derive(Debug)]
pub struct Job {
    /// The exact text this job consumed.
    pub text: String,
    pub pipelines: Vec<Pipeline>,
    /// The connector texts between consecutive pipelines; each starts with
    /// `&&` or `||`.
    pub connectors: Vec<String>,
}

/// The concatenated text of the pipelines from position `i` on, each
/// followed by its connector.
pub open spec fn job_text_from(pls: Seq<Pipeline>, conns: Seq<String>, i: int) -> Seq<char>
    decreases pls.len() - i,
    when 0 <= i <= pls.len()
{
    if i >= pls.len() {
        Seq::empty()
    } else {
        pls[i].text@ + (if i < conns.len() {
            conns[i]@
        } else {
            Seq::empty()
        }) + job_text_from(pls, conns, i + 1)
    }
}

proof fn lemma_job_push(pls: Seq<Pipeline>, conns: Seq<String>, p: Pipeline, i: int)
    requires
        0 <= i <= pls.len(),
        conns.len() == pls.len(),
    ensures
        job_text_from(pls.push(p), conns, i) == job_text_from(pls, conns, i) + p.text@,
    decreases pls.len() - i,
{
    if i == pls.len() {
        assert(pls.push(p)[i] == p);
        assert(job_text_from(pls.push(p), conns, i + 1) =~= Seq::<char>::empty());
        assert(job_text_from(pls.push(p), conns, i) =~= p.text@);
        assert(job_text_from(pls, conns, i) =~= Seq::<char>::empty());
        assert(job_text_from(pls, conns, i) + p.text@ =~= p.text@);
    } else {
        lemma_job_push(pls, conns, p, i + 1);
        assert(pls.push(p)[i] == pls[i]);
        let sep = if i < conns.len() {
            conns[i]@
        } else {
            Seq::<char>::empty()
        };
        assert((pls[i].text@ + sep + job_text_from(pls, conns, i + 1)) + p.text@ =~= pls[i].text@
            + sep + (job_text_from(pls, conns, i + 1) + p.text@));
    }
}

proof fn lemma_job_push_conn(pls: Seq<Pipeline>, conns: Seq<String>, s: String, i: int)
    requires
        0 <= i <= pls.len(),
        conns.len() + 1 == pls.len(),
    ensures
        job_text_from(pls, conns.push(s), i) == job_text_from(pls, conns, i) + (if i <= conns.len()
        {
            s@
        } else {
            Seq::<char>::empty()
        }),
    decreases pls.len() - i,
{
    if i >= pls.len() {
        assert(job_text_from(pls, conns.push(s), i) =~= Seq::<char>::empty());
        assert(job_text_from(pls, conns, i) + Seq::<char>::empty() =~= Seq::<char>::empty());
    } else {
        lemma_job_push_conn(pls, conns, s, i + 1);
        if i < conns.len() {
            assert(conns.push(s)[i] == conns[i]);
            assert((pls[i].text@ + conns[i]@ + job_text_from(pls, conns, i + 1)) + s@ =~= pls[
                i
            ].text@ + conns[i]@ + (job_text_from(pls, conns, i + 1) + s@));
        } else {
            assert(i == conns.len());
            assert(conns.push(s)[i] == s);
            assert(job_text_from(pls, conns, i + 1) =~= Seq::<char>::empty());
            assert(job_text_from(pls, conns.push(s), i + 1) =~= Seq::<char>::empty());
            assert(job_text_from(pls, conns.push(s), i) =~= pls[i].text@ + s@);
            assert(job_text_from(pls, conns, i) =~= pls[i].text@);
        }
    }
}

/// Whether the pipeline after a connector runs, given the status of the
/// one before it: `&&` runs it on success (status 0), `||` on failure.
pub open spec fn spec_should_run_next(connector: Seq<char>, last_status: int) -> bool {
    if spec_starts_with(connector, "&&"@) {
        last_status == 0
    } else if spec_starts_with(connector, "||"@) {
        last_status != 0
    } else {
        true
    }
}

/// Decide whether the pipeline after `connector` runs, per
/// `spec_should_run_next`: the list connectors evaluate left to right and
/// short-circuit.
pub fn should_run_next(connector: &str, last_status: i32) -> (r: bool)
    ensures
        r == spec_should_run_next(connector@, last_status as int),
{
    if str_starts_with(connector, "&&") {
        last_status == 0
    } else if str_starts_with(connector, "||") {
        last_status != 0
    } else {
        true
    }
}

impl Job {
    /// The stored text is exactly the pipelines' texts with the
    /// connectors between them; a job with no pipelines (a blank line) is
    /// empty.
    pub open spec fn wf(self) -> bool {
        &&& (self.pipelines@.len() == 0 ==> self.connectors@.len() == 0 && self.text@
            == Seq::<char>::empty())
        &&& (self.pipelines@.len() > 0 ==> self.connectors@.len() + 1 == self.pipelines@.len())
        &&& self.text@ == job_text_from(self.pipelines@, self.connectors@, 0)
    }

    /// An empty job: what a blank line parses to.
    pub fn empty() -> (j: Job)
        ensures
            j.wf(),
            j.text@ == Seq::<char>::empty(),
            j.pipelines@.len() == 0,
    {
        let j = Job { text: String::new(), pipelines: Vec::new(), connectors: Vec::new() };
        proof {
            assert(job_text_from(j.pipelines@, j.connectors@, 0) =~= Seq::<char>::empty());
        }
        j
    }

    /// The exact source text this job consumed.
    pub fn get_text(&self) -> (r: String)
        ensures
            r@ == self.text@,
    {
        self.text.clone()
    }

    /// Consume one job: pipelines chained by `&&` or `||`.  A trailing
    /// connector with nothing after it asks for more input; nothing is
    /// consumed when no pipeline starts here.
    #[verifier::rlimit(60)]
    pub fn parse(feeder: &mut Feeder, core: &mut ShellCore) -> (r: Result<Option<Job>, ParseAbort>)
        requires
            old(feeder).nest_wf(),
        ensures
            final(feeder).nest@ == old(feeder).nest@,
            final(core).history == old(core).history,
            final(core).job_table == old(core).job_table,
            crate::feeder::all_multiline_blank(old(feeder).remaining@) ==> r == Ok::<
                Option<Job>,
                ParseAbort,
            >(None),
            ({
                let rem1 = old(feeder).remaining@.skip(
                    crate::feeder::blank_run(old(feeder).remaining@),
                );
                rem1.len() > 0 && (rem1[0] == '(' || rem1[0] == '{')
            }) ==> !(r matches Ok(rr2) && rr2 is None),
            ({
                let rem1 = old(feeder).remaining@.skip(
                    crate::feeder::blank_run(old(feeder).remaining@),
                );
                crate::elements::word::no_dollar(old(feeder).remaining@) && rem1.len() > 0
                    && crate::feeder::is_word_char(rem1[0])
            }) ==> !(r matches Ok(rr3) && rr3 is None),
            match r {
                Ok(rr) => match rr {
                    Some(j) => old(feeder).remaining@ == j.text@ + final(feeder).remaining@
                        && final(feeder).remaining@.len() < old(feeder).remaining@.len() && j.wf()
                        && j.pipelines@.len() > 0 && *final(core) == *old(core),
                    None => final(feeder).remaining@ == old(feeder).remaining@ && *final(core)
                        == *old(core),
                },
                Err(a) => abort_ok(
                    a,
                    *old(core),
                    *final(core),
                    old(feeder).remaining@,
                    final(feeder).remaining@,
                ),
            },
        decreases old(feeder).remaining@.len(), 7int,
    {
        let mut text: String = String::new();
        let mut pipelines: Vec<Pipeline> = Vec::new();
        let mut connectors: Vec<String> = Vec::new();
        match Pipeline::parse(feeder, core) {
            Err(a) => {
                return Err(a);
            },
            Ok(None) => {
                return Ok(None);
            },
            Ok(Some(p)) => {
                proof {
                    lemma_job_push(pipelines@, connectors@, p, 0);
                    assert(job_text_from(pipelines@, connectors@, 0) + p.text@ =~= p.text@);
                    assert(text@ + p.text@ =~= p.text@);
                }
                text.append(p.get_text().as_str());
                pipelines.push(p);
            },
        }
        loop
            invariant
                feeder.nest_wf(),
                text@ + feeder.remaining@ == old(feeder).remaining@,
                feeder.remaining@.len() < old(feeder).remaining@.len(),
                feeder.nest@ == old(feeder).nest@,
                *core == *old(core),
                pipelines@.len() >= 1,
                connectors@.len() + 1 == pipelines@.len(),
                text@ == job_text_from(pipelines@, connectors@, 0),
                !crate::feeder::all_multiline_blank(old(feeder).remaining@),
            decreases feeder.remaining@.len(),
        {
            proof {
                reveal_strlit("&&");
                reveal_strlit("||");
            }
            if !(feeder.starts_with("&&") || feeder.starts_with("||")) {
                break;
            }
            let ghost rem_before = feeder.remaining@;
            proof {
                lemma_consume_append(Seq::empty(), feeder.remaining@, 2);
            }
            let mut sep = feeder.consume(2);
            let blen = feeder.scanner_multiline_blank();
            proof {
                lemma_consume_append(sep@, feeder.remaining@, blen as int);
            }
            let blanks = feeder.consume(blen);
            sep.append(blanks.as_str());
            if feeder.len() == 0 {
                proof {
                    assert(sep@ + feeder.remaining@ =~= rem_before);
                }
                feeder.replace_front(sep.as_str());
                feeder.replace_front(text.as_str());
                return Err(ParseAbort::MoreLine);
            }
            match Pipeline::parse(feeder, core) {
                Err(ParseAbort::MoreLine) => {
                    proof {
                        assert(sep@ + feeder.remaining@ =~= rem_before);
                    }
                    feeder.replace_front(sep.as_str());
                    feeder.replace_front(text.as_str());
                    return Err(ParseAbort::MoreLine);
                },
                Err(ParseAbort::SyntaxError) => {
                    return Err(ParseAbort::SyntaxError);
                },
                Ok(None) => {
                    // No pipeline after the connector: put it back and let
                    // the script level classify what remains.
                    proof {
                        assert(sep@ + feeder.remaining@ =~= rem_before);
                    }
                    feeder.replace_front(sep.as_str());
                    break;
                },
                Ok(Some(p)) => {
                    proof {
                        lemma_job_push_conn(pipelines@, connectors@, sep, 0);
                        lemma_job_push(pipelines@, connectors@.push(sep), p, 0);
                        assert((text@ + sep@) + p.text@ =~= text@ + (sep@ + p.text@));
                        assert(((text@ + sep@) + p.text@) + feeder.remaining@ =~= text@ + (sep@ + (
                        p.text@ + feeder.remaining@)));
                    }
                    text.append(sep.as_str());
                    text.append(p.get_text().as_str());
                    connectors.push(sep);
                    pipelines.push(p);
                },
            }
        }
        Ok(Some(Job { text, pipelines, connectors }))
    }
}

} // verus!
