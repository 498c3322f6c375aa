//! Built-in commands that touch process-wide state: job control (`bg`,
//! `jobs`), `cd`, and the status computation of `exit`.

use vstd::prelude::*;
use crate::shellcore::{print_line, eprint_line, ShellCore};
use crate::job::{after_cont, Job};
use crate::numstr::{parse_i64, parse_i64_spec};

verus! {

/// Send a continue signal to every job in the table; stopped jobs run
/// again, and `Done` entries stay `Done`.  Returns 0.
pub fn bg(core: &mut ShellCore, _args: &mut Vec<String>) -> (r: i32)
    ensures
        r == 0,
        final(core).vars_map() == old(core).vars_map(),
        final(core).history == old(core).history,
        final(core).job_table@.len() == old(core).job_table@.len(),
        forall|i: int|
            0 <= i < old(core).job_table@.len() ==> {
                &&& (#[trigger] final(core).job_table@[i]).pids == old(core).job_table@[i].pids
                &&& final(core).job_table@[i].text == old(core).job_table@[i].text
                &&& final(core).job_table@[i].status == after_cont(old(core).job_table@[i].status)
            },
{
    let n = core.job_table.len();
    let mut i: usize = 0;
    while i < n
        invariant
            0 <= i <= n,
            n == core.job_table@.len() == old(core).job_table@.len(),
            core.vars_map() == old(core).vars_map(),
            core.history == old(core).history,
            forall|j: int|
                i <= j < n ==> #[trigger] core.job_table@[j] == old(core).job_table@[j],
            forall|j: int|
                0 <= j < i ==> {
                    &&& (#[trigger] core.job_table@[j]).pids == old(core).job_table@[j].pids
                    &&& core.job_table@[j].text == old(core).job_table@[j].text
                    &&& core.job_table@[j].status == after_cont(old(core).job_table@[j].status)
                },
        decreases n - i,
    {
        core.job_table[i].send_cont();
        i = i + 1;
    }
    0
}

/// Print one status line per job-table entry, in creation order.  Returns 0
/// and leaves the shell state untouched.
pub fn jobs(core: &mut ShellCore, _args: &mut Vec<String>) -> (r: i32)
    ensures
        r == 0,
        *final(core) == *old(core),
{
    let mut i: usize = 0;
    while i < core.job_table.len()
        invariant
            *core == *old(core),
        decreases core.job_table@.len() - i,
    {
        let line = core.job_table[i].status_string();
        print_line(line.as_str());
        i = i + 1;
    }
    0
}

/// Truncated remainder by 256, as Rust's `%` computes it: the result keeps
/// the dividend's sign.
pub open spec fn trunc_mod_256(n: int) -> int {
    if n >= 0 {
        n % 256
    } else {
        -((-n) % 256)
    }
}

/// The status `exit` reports for the decimal string `s`: the parsed value
/// reduced mod 256 keeping its sign, or 2 (usage error) when `s` is not a
/// number an `i32` can hold.
pub open spec fn exit_status_spec(s: Seq<char>) -> int {
    match parse_i64_spec(s) {
        Some(v) => if i32::MIN <= v <= i32::MAX {
            trunc_mod_256(v)
        } else {
            2
        },
        None => 2,
    }
}

impl ShellCore {
    /// Change the working directory to `args[1]`; on failure report it and
    /// return 1 without aborting the shell, else return 0.  The shell's own
    /// state is untouched either way.
    pub fn cd(&mut self, args: &mut Vec<String>) -> (r: i32)
        requires
            old(args)@.len() >= 2,
        ensures
            r == 0 || r == 1,
            *final(self) == *old(self),
            *final(args) == *old(args),
    {
        let path = &args[1];
        if chdir(path.as_str()).is_err() {
            eprint_line("Cannot change directory");
            return 1;
        }
        0
    }

    /// The status the `exit` builtin terminates with: an explicit argument
    /// is first recorded in the exit-status variable `"?"`, then that
    /// variable's value decides the status per `exit_status_spec`.  A
    /// non-numeric value is reported as a usage error.
    pub fn exit_builtin_status(&mut self, args: &Vec<String>) -> (r: i32)
        ensures
            final(self).vars_map() == if args@.len() > 1 {
                old(self).vars_map().insert("?"@, args@[1]@)
            } else {
                old(self).vars_map()
            },
            final(self).history == old(self).history,
            final(self).job_table == old(self).job_table,
            r as int == exit_status_spec(
                crate::shellcore::var_value(final(self).vars_map(), "?"@),
            ),
    {
        if args.len() > 1 {
            let arg = args[1].clone();
            self.set_var("?", arg.as_str());
        }
        let value = self.get_var("?");
        match parse_i64(value.as_str()) {
            Ok(n) => {
                if n < -2147483648i64 || n > 2147483647i64 {
                    let mut msg: String = "exit: ".to_owned();
                    msg.append(value.as_str());
                    msg.append(": numeric argument required");
                    eprint_line(msg.as_str());
                    return 2;
                }
                if n >= 0 {
                    (n % 256) as i32
                } else {
                    let m = (-n) % 256;
                    -(m as i32)
                }
            },
            Err(()) => {
                let mut msg: String = "exit: ".to_owned();
                msg.append(value.as_str());
                msg.append(": numeric argument required");
                eprint_line(msg.as_str());
                2
            },
        }
    }
}

/// Relies on nix::unistd::chdir: changes the process's working directory;
/// on failure (for one, a path that does not exist) the working directory
/// is left unchanged and an error is returned.
#[verifier::external_body]
fn chdir(path: &str) -> (r: Result<(), ()>)
{
    match nix::unistd::chdir(path) {
        Ok(()) => Ok(()),
        Err(_) => Err(()),
    }
}

} // verus!
