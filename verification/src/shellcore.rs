//! Process-wide shell state: the variable table (with the exit-status entry
//! keyed `"?"`), command history, and the logic that turns a wait-syscall
//! outcome into the shell's recorded exit status.

use vstd::prelude::*;
use crate::numstr::{i64_to_dec, i64_to_string};
use crate::textutil::str_eq;
use std::io::Write;

verus! {

/// The outcome of waiting on one child process, reduced to what the shell's
/// status bookkeeping needs.
pub enum WaitOutcome {
    /// The child exited normally with the given code (0 to 255).
    Exited(i32),
    /// The child was terminated by the signal with the given number.
    Signaled(i32),
    /// A state change the shell does not handle (stopped, continued, ...).
    Unsupported,
    /// The wait syscall itself failed: fatal, nothing more can be waited on.
    Failed,
}

/// The ranges the wait syscall can actually produce.
pub open spec fn wait_outcome_wf(w: WaitOutcome) -> bool {
    match w {
        WaitOutcome::Exited(s) => 0 <= s <= 255,
        WaitOutcome::Signaled(n) => 0 <= n <= 64,
        _ => true,
    }
}

/// The exit status recorded for a wait outcome: the code itself for a normal
/// exit, 128 plus the signal number for a signal-terminated child, 1 for an
/// unsupported status, and nothing for a failed wait (fatal).
pub open spec fn wait_status_code(w: WaitOutcome) -> Option<int> {
    match w {
        WaitOutcome::Exited(s) => Some(s as int),
        WaitOutcome::Signaled(n) => Some(128 + n as int),
        WaitOutcome::Unsupported => Some(1),
        WaitOutcome::Failed => None,
    }
}

/// Exit status for a wait outcome, per `wait_status_code`.
pub fn exit_status_of(w: &WaitOutcome) -> (r: Option<i32>)
    requires
        wait_outcome_wf(*w),
    ensures
        match r {
            Some(code) => wait_status_code(*w) == Some(code as int),
            None => wait_status_code(*w) is None,
        },
{
    match w {
        WaitOutcome::Exited(s) => Some(*s),
        WaitOutcome::Signaled(n) => Some(128 + *n),
        WaitOutcome::Unsupported => Some(1),
        WaitOutcome::Failed => None,
    }
}

/// Why replacing a child's image failed.
#[derive(Clone, Copy, PartialEq, Eq, Structural, Debug)]
pub enum ExecFailure {
    /// The file exists but may not be executed.
    PermissionDenied,
    /// No executable of that name exists.
    NotFound,
    /// Any other failure.
    Other,
}

/// The exit status a child reports when replacing its image failed:
/// permission denied is 126, a command that was not found is 127, and so
/// is any other exec failure.
pub fn exec_failure_status(e: &ExecFailure) -> (r: i32)
    ensures
        r == match *e {
            ExecFailure::PermissionDenied => 126int,
            ExecFailure::NotFound => 127int,
            ExecFailure::Other => 127int,
        },
{
    match e {
        ExecFailure::PermissionDenied => 126,
        ExecFailure::NotFound => 127,
        ExecFailure::Other => 127,
    }
}

/// The variable table as a map from names to values; a later entry for the
/// same name shadows an earlier one.
pub open spec fn assoc_map(s: Seq<(String, String)>) -> Map<Seq<char>, Seq<char>>
    decreases s.len(),
{
    if s.len() == 0 {
        Map::empty()
    } else {
        assoc_map(s.drop_last()).insert(s.last().0@, s.last().1@)
    }
}

/// The value a shell variable evaluates to: its entry in the table, or the
/// empty string when it is unset.
pub open spec fn var_value(m: Map<Seq<char>, Seq<char>>, name: Seq<char>) -> Seq<char> {
    if m.contains_key(name) {
        m[name]
    } else {
        Seq::empty()
    }
}

spec fn lookup(s: Seq<(String, String)>, name: Seq<char>) -> Option<Seq<char>>
    decreases s.len(),
{
    if s.len() == 0 {
        None
    } else if s.last().0@ == name {
        Some(s.last().1@)
    } else {
        lookup(s.drop_last(), name)
    }
}

proof fn lemma_lookup_assoc(s: Seq<(String, String)>, name: Seq<char>)
    ensures
        match lookup(s, name) {
            Some(v) => assoc_map(s).contains_key(name) && assoc_map(s)[name] == v,
            None => !assoc_map(s).contains_key(name),
        },
    decreases s.len(),
{
    if s.len() > 0 {
        lemma_lookup_assoc(s.drop_last(), name);
    }
}

/// Process-wide shell state, threaded through the parser and executor.
pub struct ShellCore {
    /// Variable table entries in insertion order; later entries shadow
    /// earlier ones (see `vars_map`).
    pub vars: Vec<(String, String)>,
    /// Lines the shell has executed.
    pub history: Vec<String>,
    /// Background jobs, in creation order.
    pub job_table: Vec<crate::job::Job>,
}

impl ShellCore {
    /// The variable table seen as a map.
    pub open spec fn vars_map(&self) -> Map<Seq<char>, Seq<char>> {
        assoc_map(self.vars@)
    }

    /// A fresh shell: no history, no jobs, and the exit-status variable
    /// `"?"` set to `"0"`.
    pub fn new() -> (core: ShellCore)
        ensures
            core.vars_map() == Map::<Seq<char>, Seq<char>>::empty().insert("?"@, "0"@),
            core.history@ =~= Seq::<String>::empty(),
            core.job_table@ =~= Seq::<crate::job::Job>::empty(),
    {
        let mut core = ShellCore { vars: Vec::new(), history: Vec::new(), job_table: Vec::new() };
        core.set_var("?", "0");
        core
    }

    /// Record `value` for `name`, shadowing any earlier entry.
    pub fn set_var(&mut self, name: &str, value: &str)
        ensures
            final(self).vars_map() == old(self).vars_map().insert(name@, value@),
            final(self).history == old(self).history,
            final(self).job_table == old(self).job_table,
    {
        let pair = (name.to_owned(), value.to_owned());
        self.vars.push(pair);
        proof {
            assert(self.vars@.drop_last() =~= old(self).vars@);
        }
    }

    /// The value of `name`: its recorded value, or `""` when unset.
    pub fn get_var(&self, name: &str) -> (v: String)
        ensures
            v@ == var_value(self.vars_map(), name@),
    {
        let mut i: usize = self.vars.len();
        proof {
            assert(self.vars@.take(i as int) =~= self.vars@);
        }
        while i > 0
            invariant
                0 <= i <= self.vars@.len(),
                lookup(self.vars@, name@) == lookup(self.vars@.take(i as int), name@),
            decreases i,
        {
            i = i - 1;
            let entry = &self.vars[i];
            proof {
                assert(self.vars@.take(i + 1).last() == self.vars@[i as int]);
                assert(self.vars@.take(i + 1).drop_last() =~= self.vars@.take(i as int));
            }
            if str_eq(entry.0.as_str(), name) {
                proof {
                    lemma_lookup_assoc(self.vars@, name@);
                }
                return entry.1.clone();
            }
        }
        proof {
            assert(self.vars@.take(0) =~= Seq::<(String, String)>::empty());
            lemma_lookup_assoc(self.vars@, name@);
        }
        String::new()
    }

    /// Record a wait outcome: write the status it maps to into the
    /// exit-status variable `"?"`, and report whether the outcome was a
    /// failed wait, which the shell treats as fatal.
    pub fn apply_wait_status(&mut self, w: &WaitOutcome) -> (fatal: bool)
        requires
            wait_outcome_wf(*w),
        ensures
            match wait_status_code(*w) {
                Some(code) => !fatal && final(self).vars_map() == old(self).vars_map().insert(
                    "?"@,
                    i64_to_dec(code),
                ),
                None => fatal && *final(self) == *old(self),
            },
            final(self).history == old(self).history,
            final(self).job_table == old(self).job_table,
    {
        match exit_status_of(w) {
            Some(code) => {
                let status = i64_to_string(code as i64);
                self.set_var("?", status.as_str());
                false
            },
            None => true,
        }
    }

    /// Wait for the child with process id `pid`, record its status in the
    /// exit-status variable, and report whether the wait itself failed
    /// (fatal).  A signal-terminated or unsupported outcome is reported on
    /// standard error, as an informational message only.
    pub fn wait_process(&mut self, pid: i32) -> (fatal: bool)
        ensures
            fatal ==> *final(self) == *old(self),
            !fatal ==> exists|code: int|
                0 <= code <= 255 && final(self).vars_map() == old(self).vars_map().insert(
                    "?"@,
                    i64_to_dec(code),
                ),
            final(self).history == old(self).history,
            final(self).job_table == old(self).job_table,
    {
        let w = waitpid_blocking(pid);
        match &w {
            WaitOutcome::Signaled(n) => {
                let mut msg: String = "Pid: ".to_owned();
                msg.append(i64_to_string(pid as i64).as_str());
                msg.append(", Signal: ");
                msg.append(i64_to_string(*n as i64).as_str());
                eprint_line(msg.as_str());
            },
            WaitOutcome::Unsupported => {
                eprint_line("Unsupported wait status");
            },
            _ => {},
        }
        let fatal = self.apply_wait_status(&w);
        proof {
            if !fatal {
                let code = wait_status_code(w).unwrap();
                assert(0 <= code <= 255);
            }
        }
        fatal
    }
}

/// Relies on nix::sys::wait::waitpid with no options: it blocks until the
/// child changes state; an `Exited` status carries `WEXITSTATUS` (0 to 255),
/// a `Signaled` status the terminating signal's number.
#[verifier::external_body]
fn waitpid_blocking(pid: i32) -> (r: WaitOutcome)
    ensures
        wait_outcome_wf(r),
{
    match nix::sys::wait::waitpid(nix::unistd::Pid::from_raw(pid), None) {
        Ok(nix::sys::wait::WaitStatus::Exited(_, s)) => WaitOutcome::Exited(s),
        Ok(nix::sys::wait::WaitStatus::Signaled(_, sig, _)) => WaitOutcome::Signaled(sig as i32),
        Ok(_) => WaitOutcome::Unsupported,
        Err(_) => WaitOutcome::Failed,
    }
}

/// Relies on std::io::stderr: prints one informational line to standard
/// error.
#[verifier::external_body]
pub(crate) fn eprint_line(s: &str) {
    let _ = writeln!(std::io::stderr(), "{}", s);
}

/// Relies on std::io::stdout: prints one line to standard output.
#[verifier::external_body]
pub(crate) fn print_line(s: &str) {
    let _ = writeln!(std::io::stdout(), "{}", s);
}

} // verus!
