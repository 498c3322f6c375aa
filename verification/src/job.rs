//! Background jobs: the set of process ids spawned for one pipeline, its
//! display text, and a small status state machine.
//!
//! Lifecycle: an entry is created `Running` when a pipeline is launched in
//! the background, becomes `Done` once every pid has been waited on, and is
//! never resurrected; a stopped entry returns to `Running` when a continue
//! signal is sent.

use vstd::prelude::*;
use crate::shellcore::ShellCore;
use crate::numstr::i64_to_dec;

verus! {

#[derive(Clone, Copy, PartialEq, Eq, Structural, Debug)]
pub enum JobStatus {
    Running,
    Stopped,
    Done,
}

/// The display name of a job status, as shown by the `jobs` builtin.
pub open spec fn status_name(st: JobStatus) -> Seq<char> {
    match st {
        JobStatus::Running => "Running"@,
        JobStatus::Stopped => "Stopped"@,
        JobStatus::Done => "Done"@,
    }
}

/// One job-table entry.
#[derive(Clone, Debug)]
pub struct Job {
    /// Process ids of the pipeline's stages, in launch order.
    pub pids: Vec<i32>,
    /// The pipeline's source text, as parsed.
    pub text: String,
    pub status: JobStatus,
}

/// The status a job entry holds after a continue signal: a stopped job runs
/// again, and any other status (including the terminal `Done`) is kept.
pub open spec fn after_cont(st: JobStatus) -> JobStatus {
    if st == JobStatus::Stopped {
        JobStatus::Running
    } else {
        st
    }
}

impl Job {
    /// A new entry for a just-launched background pipeline: `Running`.
    pub fn new(text: &String, pids: Vec<i32>) -> (job: Job)
        ensures
            job.pids == pids,
            job.text == *text,
            job.status == JobStatus::Running,
    {
        Job { pids, text: text.clone(), status: JobStatus::Running }
    }

    /// Wait on every pid of this job in launch order, recording each stage's
    /// exit status; the entry becomes `Done` and the collected per-stage
    /// statuses (the pipestatus) are returned.  A `Done` entry is left as it
    /// is.  `None` means the wait syscall itself failed, which the shell
    /// treats as fatal.
    pub fn wait(&mut self, core: &mut ShellCore) -> (r: Option<Vec<String>>)
        ensures
            final(self).pids == old(self).pids,
            final(self).text == old(self).text,
            final(core).history == old(core).history,
            final(core).job_table == old(core).job_table,
            old(self).status == JobStatus::Done ==> (r matches Some(v) && v@.len() == 0
                && *final(self) == *old(self) && *final(core) == *old(core)),
            r is Some ==> final(self).status == JobStatus::Done,
            match r {
                Some(v) => old(self).status != JobStatus::Done ==> {
                    &&& v@.len() == old(self).pids@.len()
                    &&& forall|i: int|
                        0 <= i < v@.len() ==> exists|code: int|
                            0 <= code <= 255 && (#[trigger] v@[i])@ == i64_to_dec(code)
                    &&& v@.len() > 0 ==> final(core).vars_map() == old(core).vars_map().insert(
                        "?"@,
                        v@.last()@,
                    )
                },
                None => true,
            },
    {
        if let JobStatus::Done = self.status {
            return Some(Vec::new());
        }
        let mut pipestatus: Vec<String> = Vec::new();
        let mut i: usize = 0;
        let ghost orig_vars = core.vars_map();
        while i < self.pids.len()
            invariant
                0 <= i <= self.pids@.len(),
                pipestatus@.len() == i,
                *self == *old(self),
                old(self).status != JobStatus::Done,
                core.history == old(core).history,
                core.job_table == old(core).job_table,
                orig_vars == old(core).vars_map(),
                forall|j: int|
                    0 <= j < i ==> exists|code: int|
                        0 <= code <= 255 && (#[trigger] pipestatus@[j])@ == i64_to_dec(code),
                i > 0 ==> core.vars_map() == orig_vars.insert("?"@, pipestatus@.last()@),
                i == 0 ==> core.vars_map() == orig_vars,
            decreases self.pids@.len() - i,
        {
            let pid = self.pids[i];
            let ghost prev_vars = core.vars_map();
            let fatal = core.wait_process(pid);
            if fatal {
                return None;
            }
            let st = core.get_var("?");
            proof {
                let code = choose|code: int|
                    0 <= code <= 255 && core.vars_map() == prev_vars.insert(
                        "?"@,
                        i64_to_dec(code),
                    );
                assert(core.vars_map().contains_key("?"@));
                assert(st@ == i64_to_dec(code));
                assert(core.vars_map() =~= orig_vars.insert("?"@, st@));
            }
            pipestatus.push(st);
            i = i + 1;
        }
        self.status = JobStatus::Done;
        Some(pipestatus)
    }

    /// The `jobs` display line: the status, a blank, and the pipeline's text.
    pub fn status_string(&self) -> (r: String)
        ensures
            r@ == status_name(self.status) + seq![' '] + self.text@,
    {
        let mut line: String = match self.status {
            JobStatus::Running => "Running".to_owned(),
            JobStatus::Stopped => "Stopped".to_owned(),
            JobStatus::Done => "Done".to_owned(),
        };
        proof {
            reveal_strlit("Running");
            reveal_strlit("Stopped");
            reveal_strlit("Done");
            reveal_strlit(" ");
            assert(" "@ =~= seq![' ']);
        }
        line.append(" ");
        line.append(self.text.as_str());
        line
    }

    /// Send a continue signal to every pid of this job.  Continuing an
    /// already-running job is a harmless no-op, and a `Done` entry stays
    /// `Done`.
    pub fn send_cont(&mut self)
        ensures
            final(self).pids == old(self).pids,
            final(self).text == old(self).text,
            final(self).status == after_cont(old(self).status),
    {
        let mut i: usize = 0;
        while i < self.pids.len()
            invariant
                *self == *old(self),
            decreases self.pids@.len() - i,
        {
            send_sigcont(self.pids[i]);
            i = i + 1;
        }
        if let JobStatus::Stopped = self.status {
            self.status = JobStatus::Running;
        }
    }
}

/// Relies on nix::sys::signal::kill with SIGCONT: asks the OS to continue
/// the process; an error from the syscall is ignored, as continuing is
/// advisory here.
#[verifier::external_body]
fn send_sigcont(pid: i32) {
    let _ = nix::sys::signal::kill(
        nix::unistd::Pid::from_raw(pid),
        nix::sys::signal::Signal::SIGCONT,
    );
}

} // verus!
