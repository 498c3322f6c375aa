//! Scripts: the root of the tree.  A script is a sequence of jobs, each
//! with its terminator (`;`, `&`, a newline, or nothing).
//!
//! After the job loop the residual buffer is classified against the
//! active nesting level: a closing token of the level means the script is
//! complete; leftover text that no rule accepts is a syntax error, which
//! sets the exit-status variable to 2 and discards the rest of the input;
//! an exhausted buffer inside an open construct means more input is
//! needed, and everything consumed is put back for the retry.

use vstd::prelude::*;
use crate::feeder::{Feeder, ParseAbort};
use crate::shellcore::{eprint_line, ShellCore};
use crate::elements::job::Job;
use crate::textutil::{lemma_consume_append, spec_starts_with};

verus! {

/// What an abandoned parse leaves behind: an unterminated construct puts
/// everything back untouched; a syntax error leaves the buffer empty and
/// the exit-status variable at 2.
pub open spec fn abort_ok(
    a: ParseAbort,
    c0: ShellCore,
    c1: ShellCore,
    r0: Seq<char>,
    r1: Seq<char>,
) -> bool {
    match a {
        ParseAbort::MoreLine => r1 == r0 && c1 == c0,
        ParseAbort::SyntaxError => r1.len() == 0 && c1.vars_map() == c0.vars_map().insert(
            "?"@,
            "2"@,
        ),
    }
}

/// A script: its jobs in order, each with the terminator that followed it.
#[derive(Debug)]
pub struct Script {
    /// The exact text this script consumed.
    pub text: String,
    pub jobs: Vec<Job>,
    /// One terminator per job: `;`, `&`, a newline, or empty.
    pub job_ends: Vec<String>,
}

/// The concatenated text of the jobs from position `i` on, each followed
/// by its terminator.
pub open spec fn script_text_from(jobs: Seq<Job>, ends: Seq<String>, i: int) -> Seq<char>
    decreases jobs.len() - i,
    when 0 <= i <= jobs.len()
{
    if i >= jobs.len() {
        Seq::empty()
    } else {
        jobs[i].text@ + (if i < ends.len() {
            ends[i]@
        } else {
            Seq::empty()
        }) + script_text_from(jobs, ends, i + 1)
    }
}

proof fn lemma_script_push(jobs: Seq<Job>, ends: Seq<String>, j: Job, e: String, i: int)
    requires
        0 <= i <= jobs.len(),
        ends.len() == jobs.len(),
    ensures
        script_text_from(jobs.push(j), ends.push(e), i) == script_text_from(jobs, ends, i)
            + j.text@ + e@,
    decreases jobs.len() - i,
{
    if i == jobs.len() {
        assert(jobs.push(j)[i] == j);
        assert(ends.push(e)[i] == e);
        assert(script_text_from(jobs.push(j), ends.push(e), i + 1) =~= Seq::<char>::empty());
        assert(script_text_from(jobs.push(j), ends.push(e), i) =~= j.text@ + e@);
        assert(script_text_from(jobs, ends, i) =~= Seq::<char>::empty());
        assert(script_text_from(jobs, ends, i) + j.text@ + e@ =~= j.text@ + e@);
    } else {
        lemma_script_push(jobs, ends, j, e, i + 1);
        assert(jobs.push(j)[i] == jobs[i]);
        assert(ends.push(e)[i] == ends[i]);
        assert((jobs[i].text@ + ends[i]@ + script_text_from(jobs, ends, i + 1)) + j.text@ + e@
            =~= jobs[i].text@ + ends[i]@ + (script_text_from(jobs, ends, i + 1) + j.text@ + e@));
    }
}

/// The three-way classification of a residual buffer against the active
/// nesting level.
#[derive(Clone, Copy, PartialEq, Eq, Structural, Debug)]
pub enum NestStatus {
    /// A closing token of the level heads the buffer, or the top level's
    /// input is spent: the script is complete.
    NormalEnd,
    /// Text remains that no rule accepts, or a closer arrived before any
    /// job: a syntax error.
    UnexpectedSymbol,
    /// The buffer is spent but the level still owes a closer: feed
    /// another line and retry.
    NeedMoreLine,
}

/// Whether some closing token of the level heads the buffer.
pub open spec fn closer_heads(rem: Seq<char>, closers: Seq<String>) -> bool {
    exists|k: int| 0 <= k < closers.len() && spec_starts_with(rem, (#[trigger] closers[k])@)
}

/// The classification itself: a present closer ends the script (unless no
/// job was parsed); leftover text without one is a syntax error; an
/// exhausted buffer completes the top level and asks for more input on
/// any other level.
pub open spec fn check_nest_spec(jobs_len: int, rem: Seq<char>, closers: Seq<String>) -> NestStatus {
    if closer_heads(rem, closers) {
        if jobs_len == 0 {
            NestStatus::UnexpectedSymbol
        } else {
            NestStatus::NormalEnd
        }
    } else if rem.len() > 0 {
        NestStatus::UnexpectedSymbol
    } else if closers.len() == 0 {
        NestStatus::NormalEnd
    } else {
        NestStatus::NeedMoreLine
    }
}

/// Report a symbol no grammar rule accepts: print its first token, set
/// the exit-status variable to 2, and discard the rest of the input.
fn report_syntax_error(feeder: &mut Feeder, core: &mut ShellCore)
    ensures
        final(feeder).remaining@.len() == 0,
        final(feeder).nest@ == old(feeder).nest@,
        final(core).vars_map() == old(core).vars_map().insert("?"@, "2"@),
        final(core).history == old(core).history,
        final(core).job_table == old(core).job_table,
{
    let len = feeder.len();
    let rest = feeder.consume(len);
    let s = rest.as_str();
    let slen = s.unicode_len();
    let mut tlen: usize = 0;
    while tlen < slen
        invariant
            0 <= tlen <= slen,
            slen == s@.len(),
        decreases slen - tlen,
    {
        let c = s.get_char(tlen);
        if c == ' ' || c == '\t' || c == '\n' {
            break;
        }
        tlen = tlen + 1;
    }
    let token = s.substring_char(0, tlen);
    let mut msg: String = "Unexpected token: ".to_owned();
    msg.append(token);
    eprint_line(msg.as_str());
    core.set_var("?", "2");
}

/// The round-trip law: a well-formed script's stored text — which, by
/// `Script::parse`, is exactly the input it consumed — is reproduced by
/// concatenating every job's stored text with its terminator, and each
/// job's text is in turn the concatenation of its pipelines' texts with
/// the connectors between them.
pub proof fn lemma_script_round_trip(s: Script)
    requires
        s.wf(),
    ensures
        s.text@ == script_text_from(s.jobs@, s.job_ends@, 0),
        forall|i: int|
            0 <= i < s.jobs@.len() ==> (#[trigger] s.jobs@[i]).text@ == crate::elements::job::job_text_from(
                s.jobs@[i].pipelines@,
                s.jobs@[i].connectors@,
                0,
            ),
{
}

impl Script {
    /// The stored text is exactly the jobs' texts, each followed by its
    /// terminator.
    pub open spec fn wf(self) -> bool {
        &&& self.jobs@.len() == self.job_ends@.len()
        &&& self.text@ == script_text_from(self.jobs@, self.job_ends@, 0)
        &&& forall|i: int| 0 <= i < self.jobs@.len() ==> (#[trigger] self.jobs@[i]).wf()
    }

    /// An empty script.
    pub fn new() -> (s: Script)
        ensures
            s.wf(),
            s.text@ == Seq::<char>::empty(),
            s.jobs@.len() == 0,
    {
        let s = Script { text: String::new(), jobs: Vec::new(), job_ends: Vec::new() };
        proof {
            assert(script_text_from(s.jobs@, s.job_ends@, 0) =~= Seq::<char>::empty());
        }
        s
    }

    /// The exact source text this script consumed.
    pub fn get_text(&self) -> (r: String)
        ensures
            r@ == self.text@,
    {
        self.text.clone()
    }

    /// Parse a script: jobs and their terminators, then classify the
    /// residual buffer against the active nesting level (see
    /// `check_nest_spec`).  With `permit_empty`, an all-blank input parses
    /// as a no-op script: a pre-seeded empty job and nothing else.
    ///
    /// On success the consumed input is exactly the script's text; when
    /// the level's closers are still owed, one of them heads the residual
    /// buffer, and at the top level the buffer is empty.  A spent or
    /// all-blank buffer is never a syntax error: it completes the top
    /// level and asks for more input on any other level.
    pub fn parse(feeder: &mut Feeder, core: &mut ShellCore, permit_empty: bool) -> (r: Result<
        Script,
        ParseAbort,
    >)
        requires
            old(feeder).nest_wf(),
        ensures
            final(feeder).nest@ == old(feeder).nest@,
            final(core).history == old(core).history,
            final(core).job_table == old(core).job_table,
            old(feeder).remaining@.len() == 0 && old(feeder).nest@.last().1@.len() == 0 ==> r
                is Ok,
            old(feeder).remaining@.len() == 0 && old(feeder).nest@.last().1@.len() > 0 ==> r
                == Err::<Script, ParseAbort>(ParseAbort::MoreLine),
            permit_empty && crate::feeder::all_multiline_blank(old(feeder).remaining@) && old(
                feeder,
            ).nest@.last().1@.len() == 0 ==> r is Ok,
            permit_empty && crate::feeder::all_multiline_blank(old(feeder).remaining@) && old(
                feeder,
            ).nest@.last().1@.len() > 0 ==> r == Err::<Script, ParseAbort>(ParseAbort::MoreLine),
            permit_empty ==> (r matches Ok(s) ==> s.jobs@.len() >= 1
                && s.jobs@[0].pipelines@.len() == 0),
            match r {
                Ok(s) => {
                    &&& old(feeder).remaining@ == s.text@ + final(feeder).remaining@
                    &&& s.wf()
                    &&& *final(core) == *old(core)
                    &&& (old(feeder).nest@.last().1@.len() == 0 ==> final(feeder).remaining@.len() == 0)
                    &&& (old(feeder).nest@.last().1@.len() > 0 ==> exists|k: int|
                        0 <= k < old(feeder).nest@.last().1@.len() && spec_starts_with(
                            final(feeder).remaining@,
                            old(feeder).nest@.last().1@[k]@,
                        ))
                },
                Err(a) => abort_ok(
                    a,
                    *old(core),
                    *final(core),
                    old(feeder).remaining@,
                    final(feeder).remaining@,
                ),
            },
        decreases old(feeder).remaining@.len(), 9int,
    {
        let mut text: String = String::new();
        let mut jobs: Vec<Job> = Vec::new();
        let mut job_ends: Vec<String> = Vec::new();
        if permit_empty {
            let j = Job::empty();
            let e = String::new();
            proof {
                lemma_script_push(jobs@, job_ends@, j, e, 0);
                assert(script_text_from(jobs@, job_ends@, 0) + j.text@ + e@ =~= Seq::<char>::empty());
            }
            jobs.push(j);
            job_ends.push(e);
        }
        loop
            invariant
                feeder.nest_wf(),
                text@ + feeder.remaining@ == old(feeder).remaining@,
                feeder.nest@ == old(feeder).nest@,
                *core == *old(core),
                jobs@.len() == job_ends@.len(),
                text@ == script_text_from(jobs@, job_ends@, 0),
                forall|i: int| 0 <= i < jobs@.len() ==> (#[trigger] jobs@[i]).wf(),
                crate::feeder::all_multiline_blank(old(feeder).remaining@) ==> (feeder.remaining@
                    == old(feeder).remaining@ && text@.len() == 0),
                permit_empty ==> jobs@.len() >= 1 && jobs@[0].pipelines@.len() == 0,
            decreases feeder.remaining@.len(),
        {
            let job = match Job::parse(feeder, core) {
                Err(ParseAbort::MoreLine) => {
                    feeder.replace_front(text.as_str());
                    return Err(ParseAbort::MoreLine);
                },
                Err(ParseAbort::SyntaxError) => {
                    return Err(ParseAbort::SyntaxError);
                },
                Ok(None) => {
                    break;
                },
                Ok(Some(job)) => job,
            };
            proof {
                reveal_strlit(";;");
                reveal_strlit(";&");
            }
            let stop: bool;
            let end: String;
            if feeder.starts_with(";;") || feeder.starts_with(";&") {
                end = String::new();
                stop = false;
            } else {
                let elen = feeder.scanner_job_end();
                proof {
                    lemma_consume_append(text@ + job.text@, feeder.remaining@, elen as int);
                }
                end = feeder.consume(elen);
                stop = end.as_str().unicode_len() == 0;
            }
            proof {
                lemma_script_push(jobs@, job_ends@, job, end, 0);
                assert(((text@ + job.text@) + end@) =~= text@ + (job.text@ + end@));
                assert((text@ + (job.text@ + end@)) + feeder.remaining@ =~= text@ + (job.text@ + (
                end@ + feeder.remaining@)));
            }
            text.append(job.get_text().as_str());
            text.append(end.clone().as_str());
            jobs.push(job);
            job_ends.push(end);
            if stop {
                break;
            }
        }
        // Fold a trailing run of blanks into a no-op job so that the text
        // is reproduced exactly.
        let bl = feeder.scanner_multiline_blank();
        proof {
            if crate::feeder::all_multiline_blank(old(feeder).remaining@) {
                if (bl as int) < feeder.remaining@.len() {
                    assert(crate::feeder::is_multiline_blank(feeder.remaining@[bl as int]));
                }
                assert(bl as int == feeder.remaining@.len());
            }
        }
        if bl > 0 && jobs.len() > 0 {
            proof {
                lemma_consume_append(text@, feeder.remaining@, bl as int);
            }
            let blanks = feeder.consume(bl);
            let j = Job::empty();
            proof {
                lemma_script_push(jobs@, job_ends@, j, blanks, 0);
                assert((text@ + j.text@ + blanks@) =~= text@ + blanks@);
            }
            text.append(blanks.clone().as_str());
            jobs.push(j);
            job_ends.push(blanks);
        }
        proof {
            // On an all-blank input the job loop consumed nothing and the
            // fold took the whole buffer: nothing can be a syntax error.
            if crate::feeder::all_multiline_blank(old(feeder).remaining@) && (permit_empty || old(
                feeder,
            ).remaining@.len() == 0) {
                assert(feeder.remaining@.len() == 0);
                assert(!closer_heads(feeder.remaining@, feeder.nest@.last().1@)) by {
                    if closer_heads(feeder.remaining@, feeder.nest@.last().1@) {
                        let k = choose|k: int|
                            0 <= k < feeder.nest@.last().1@.len() && spec_starts_with(
                                feeder.remaining@,
                                (#[trigger] feeder.nest@.last().1@[k])@,
                            );
                        assert(feeder.nest@.last().1@[k]@.len() > 0);
                    }
                }
            }
        }
        // Classify the residual buffer against the active nesting level.
        match Script::check_nest(jobs.len(), feeder) {
            NestStatus::NormalEnd => Ok(Script { text, jobs, job_ends }),
            NestStatus::UnexpectedSymbol => {
                report_syntax_error(feeder, core);
                Err(ParseAbort::SyntaxError)
            },
            NestStatus::NeedMoreLine => {
                feeder.replace_front(text.as_str());
                Err(ParseAbort::MoreLine)
            },
        }
    }

    /// Classify the residual buffer against the active nesting level, per
    /// `check_nest_spec`: exactly which of the three ways the parse ends.
    pub fn check_nest(jobs_len: usize, feeder: &Feeder) -> (r: NestStatus)
        requires
            feeder.nest_wf(),
        ensures
            r == check_nest_spec(jobs_len as int, feeder.remaining@, feeder.nest@.last().1@),
    {
        let nlen = feeder.nest.len();
        let closers_len = feeder.nest[nlen - 1].1.len();
        let mut ki: usize = 0;
        let mut found: bool = false;
        while ki < closers_len && !found
            invariant
                0 <= ki <= closers_len,
                nlen == feeder.nest@.len() >= 1,
                closers_len == feeder.nest@.last().1@.len(),
                found ==> ki < closers_len && spec_starts_with(
                    feeder.remaining@,
                    feeder.nest@.last().1@[ki as int]@,
                ),
                !found ==> forall|j: int|
                    0 <= j < ki ==> !spec_starts_with(
                        feeder.remaining@,
                        (#[trigger] feeder.nest@.last().1@[j])@,
                    ),
            decreases closers_len - ki, (if found { 0int } else { 1int }),
        {
            if feeder.starts_with(feeder.nest[nlen - 1].1[ki].as_str()) {
                found = true;
            } else {
                ki = ki + 1;
            }
        }
        if found {
            if jobs_len == 0 {
                NestStatus::UnexpectedSymbol
            } else {
                NestStatus::NormalEnd
            }
        } else if feeder.len() > 0 {
            NestStatus::UnexpectedSymbol
        } else if closers_len == 0 {
            NestStatus::NormalEnd
        } else {
            NestStatus::NeedMoreLine
        }
    }
}

} // verus!
