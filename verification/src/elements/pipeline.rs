//! Pipelines: commands connected by `|`, stage *i*'s output feeding stage
//! *i+1*'s input.

use vstd::prelude::*;
use crate::feeder::{Feeder, ParseAbort};
use crate::shellcore::ShellCore;
use crate::elements::command::{self, ShellCommand};
use crate::elements::script::abort_ok;
use crate::textutil::{lemma_consume_append, spec_starts_with};

verus! {

/// A pipeline: its commands in order, and the exact text of each `|`
/// separator (with the blanks that followed it).
#[derive(Debug)]
pub struct Pipeline {
    /// The exact text this pipeline consumed.
    pub text: String,
    pub commands: Vec<ShellCommand>,
    /// The separator texts between consecutive commands.
    pub pipes: Vec<String>,
}

/// The concatenated text of the commands from position `i` on, each
/// followed by its separator.
pub open spec fn pipeline_text_from(cmds: Seq<ShellCommand>, pipes: Seq<String>, i: int) -> Seq<
    char,
>
    decreases cmds.len() - i,
    when 0 <= i <= cmds.len()
{
    if i >= cmds.len() {
        Seq::empty()
    } else {
        cmds[i].text_spec() + (if i < pipes.len() {
            pipes[i]@
        } else {
            Seq::empty()
        }) + pipeline_text_from(cmds, pipes, i + 1)
    }
}

proof fn lemma_pipeline_push(cmds: Seq<ShellCommand>, pipes: Seq<String>, c: ShellCommand, i: int)
    requires
        0 <= i <= cmds.len(),
        pipes.len() == cmds.len(),
    ensures
        pipeline_text_from(cmds.push(c), pipes, i) == pipeline_text_from(cmds, pipes, i)
            + c.text_spec(),
    decreases cmds.len() - i,
{
    if i == cmds.len() {
        assert(cmds.push(c)[i] == c);
        assert(pipeline_text_from(cmds.push(c), pipes, i + 1) =~= Seq::<char>::empty());
        assert(pipeline_text_from(cmds.push(c), pipes, i) =~= c.text_spec());
        assert(pipeline_text_from(cmds, pipes, i) =~= Seq::<char>::empty());
        assert(pipeline_text_from(cmds, pipes, i) + c.text_spec() =~= c.text_spec());
    } else {
        lemma_pipeline_push(cmds, pipes, c, i + 1);
        assert(cmds.push(c)[i] == cmds[i]);
        let sep = if i < pipes.len() {
            pipes[i]@
        } else {
            Seq::<char>::empty()
        };
        assert((cmds[i].text_spec() + sep + pipeline_text_from(cmds, pipes, i + 1)) + c.text_spec()
            =~= cmds[i].text_spec() + sep + (pipeline_text_from(cmds, pipes, i + 1)
            + c.text_spec()));
    }
}

proof fn lemma_pipeline_push_sep(cmds: Seq<ShellCommand>, pipes: Seq<String>, s: String, i: int)
    requires
        0 <= i <= cmds.len(),
        pipes.len() + 1 == cmds.len(),
    ensures
        pipeline_text_from(cmds, pipes.push(s), i) == pipeline_text_from(cmds, pipes, i) + (if i
            <= pipes.len() {
            s@
        } else {
            Seq::<char>::empty()
        }),
    decreases cmds.len() - i,
{
    if i >= cmds.len() {
        assert(pipeline_text_from(cmds, pipes.push(s), i) =~= Seq::<char>::empty());
        assert(pipeline_text_from(cmds, pipes, i) + Seq::<char>::empty() =~= Seq::<char>::empty());
    } else {
        lemma_pipeline_push_sep(cmds, pipes, s, i + 1);
        if i < pipes.len() {
            assert(pipes.push(s)[i] == pipes[i]);
            assert((cmds[i].text_spec() + pipes[i]@ + pipeline_text_from(cmds, pipes, i + 1)) + s@
                =~= cmds[i].text_spec() + pipes[i]@ + (pipeline_text_from(cmds, pipes, i + 1)
                + s@));
        } else {
            assert(i == pipes.len());
            assert(pipes.push(s)[i] == s);
            assert(pipeline_text_from(cmds, pipes, i + 1) =~= Seq::<char>::empty());
            assert(pipeline_text_from(cmds, pipes.push(s), i + 1) =~= Seq::<char>::empty());
            assert(pipeline_text_from(cmds, pipes.push(s), i) =~= cmds[i].text_spec() + s@);
            assert(pipeline_text_from(cmds, pipes, i) =~= cmds[i].text_spec());
        }
    }
}

impl Pipeline {
    /// The stored text is exactly the commands' texts with the separators
    /// between them.
    pub open spec fn wf(self) -> bool {
        &&& self.commands@.len() >= 1
        &&& self.pipes@.len() + 1 == self.commands@.len()
        &&& self.text@ == pipeline_text_from(self.commands@, self.pipes@, 0)
    }

    /// The exact source text this pipeline consumed.
    pub fn get_text(&self) -> (r: String)
        ensures
            r@ == self.text@,
    {
        self.text.clone()
    }

    /// Consume one pipeline: commands separated by `|`.  A trailing `|`
    /// with nothing after it asks for more input; nothing is consumed
    /// when no command starts here.
    #[verifier::rlimit(60)]
    pub fn parse(feeder: &mut Feeder, core: &mut ShellCore) -> (r: Result<
        Option<Pipeline>,
        ParseAbort,
    >)
        requires
            old(feeder).nest_wf(),
        ensures
            final(feeder).nest@ == old(feeder).nest@,
            final(core).history == old(core).history,
            final(core).job_table == old(core).job_table,
            crate::feeder::all_multiline_blank(old(feeder).remaining@) ==> r == Ok::<
                Option<Pipeline>,
                ParseAbort,
            >(None),
            ({
                let rem1 = old(feeder).remaining@.skip(
                    crate::feeder::blank_run(old(feeder).remaining@),
                );
                rem1.len() > 0 && (rem1[0] == '(' || rem1[0] == '{')
            }) ==> !(r matches Ok(rr2) && rr2 is None),
            ({
                let rem1 = old(feeder).remaining@.skip(
                    crate::feeder::blank_run(old(feeder).remaining@),
                );
                crate::elements::word::no_dollar(old(feeder).remaining@) && rem1.len() > 0
                    && crate::feeder::is_word_char(rem1[0])
            }) ==> !(r matches Ok(rr3) && rr3 is None),
            match r {
                Ok(rr) => match rr {
                    Some(p) => old(feeder).remaining@ == p.text@ + final(feeder).remaining@
                        && final(feeder).remaining@.len() < old(feeder).remaining@.len() && p.wf()
                        && *final(core) == *old(core),
                    None => final(feeder).remaining@ == old(feeder).remaining@ && *final(core)
                        == *old(core),
                },
                Err(a) => abort_ok(
                    a,
                    *old(core),
                    *final(core),
                    old(feeder).remaining@,
                    final(feeder).remaining@,
                ),
            },
        decreases old(feeder).remaining@.len(), 5int,
    {
        let mut text: String = String::new();
        let mut commands: Vec<ShellCommand> = Vec::new();
        let mut pipes: Vec<String> = Vec::new();
        match command::parse(feeder, core) {
            Err(a) => {
                return Err(a);
            },
            Ok(None) => {
                return Ok(None);
            },
            Ok(Some(c)) => {
                proof {
                    lemma_pipeline_push(commands@, pipes@, c, 0);
                    assert(pipeline_text_from(commands@, pipes@, 0) + c.text_spec() =~= c.text_spec());
                    assert(text@ + c.text_spec() =~= c.text_spec());
                }
                text.append(c.get_text().as_str());
                commands.push(c);
            },
        }
        loop
            invariant
                feeder.nest_wf(),
                text@ + feeder.remaining@ == old(feeder).remaining@,
                feeder.remaining@.len() < old(feeder).remaining@.len(),
                feeder.nest@ == old(feeder).nest@,
                *core == *old(core),
                commands@.len() >= 1,
                pipes@.len() + 1 == commands@.len(),
                text@ == pipeline_text_from(commands@, pipes@, 0),
                !crate::feeder::all_multiline_blank(old(feeder).remaining@),
            decreases feeder.remaining@.len(),
        {
            proof {
                reveal_strlit("|");
                reveal_strlit("||");
            }
            if !(feeder.starts_with("|") && !feeder.starts_with("||")) {
                break;
            }
            let ghost rem_before = feeder.remaining@;
            proof {
                lemma_consume_append(Seq::empty(), feeder.remaining@, 1);
            }
            let mut sep = feeder.consume(1);
            let blen = feeder.scanner_multiline_blank();
            proof {
                lemma_consume_append(sep@, feeder.remaining@, blen as int);
            }
            let blanks = feeder.consume(blen);
            sep.append(blanks.as_str());
            if feeder.len() == 0 {
                proof {
                    assert(sep@ + feeder.remaining@ =~= rem_before);
                }
                feeder.replace_front(sep.as_str());
                feeder.replace_front(text.as_str());
                return Err(ParseAbort::MoreLine);
            }
            match command::parse(feeder, core) {
                Err(ParseAbort::MoreLine) => {
                    proof {
                        assert(sep@ + feeder.remaining@ =~= rem_before);
                    }
                    feeder.replace_front(sep.as_str());
                    feeder.replace_front(text.as_str());
                    return Err(ParseAbort::MoreLine);
                },
                Err(ParseAbort::SyntaxError) => {
                    return Err(ParseAbort::SyntaxError);
                },
                Ok(None) => {
                    // No stage after the `|`: put the separator back and let
                    // the script level classify what remains.
                    proof {
                        assert(sep@ + feeder.remaining@ =~= rem_before);
                    }
                    feeder.replace_front(sep.as_str());
                    break;
                },
                Ok(Some(c)) => {
                    proof {
                        lemma_pipeline_push_sep(commands@, pipes@, sep, 0);
                        lemma_pipeline_push(commands@, pipes@.push(sep), c, 0);
                        assert((text@ + sep@) + c.text_spec() =~= text@ + (sep@ + c.text_spec()));
                        assert(((text@ + sep@) + c.text_spec()) + feeder.remaining@ =~= text@ + (
                        sep@ + (c.text_spec() + feeder.remaining@)));
                    }
                    text.append(sep.as_str());
                    text.append(c.get_text().as_str());
                    pipes.push(sep);
                    commands.push(c);
                },
            }
        }
        Ok(Some(Pipeline { text, commands, pipes }))
    }
}

} // verus!
