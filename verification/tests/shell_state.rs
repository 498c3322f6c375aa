use sush::builtins::{bg, jobs};
use sush::job::{Job, JobStatus};
use sush::numstr::{i64_to_string, parse_i64};
use sush::shellcore::{exec_failure_status, exit_status_of, ExecFailure, ShellCore, WaitOutcome};
use sush::terminal::{common_string, Terminal};

#[test]
fn fresh_core_has_status_zero() {
    let core = ShellCore::new();
    assert_eq!(core.get_var("?"), "0".to_string());
}

#[test]
fn variables_shadow_and_read_back() {
    let mut core = ShellCore::new();
    core.set_var("A", "1");
    core.set_var("A", "2");
    assert_eq!(core.get_var("A"), "2".to_string());
    assert_eq!(core.get_var("UNSET"), "".to_string());
}

#[test]
fn exec_failure_mapping() {
    assert_eq!(exec_failure_status(&ExecFailure::PermissionDenied), 126);
    assert_eq!(exec_failure_status(&ExecFailure::NotFound), 127);
    assert_eq!(exec_failure_status(&ExecFailure::Other), 127);
}

#[test]
fn wait_status_mapping() {
    assert_eq!(exit_status_of(&WaitOutcome::Exited(3)), Some(3));
    assert_eq!(exit_status_of(&WaitOutcome::Signaled(9)), Some(137));
    assert_eq!(exit_status_of(&WaitOutcome::Unsupported), Some(1));
    assert_eq!(exit_status_of(&WaitOutcome::Failed), None);
}

#[test]
fn pipeline_status_is_last_stage() {
    // The statuses of a two-stage pipeline like "false | true": the
    // first stage's status stays recoverable, the last one decides.
    let mut core = ShellCore::new();
    let mut pipestatus: Vec<String> = Vec::new();
    assert!(!core.apply_wait_status(&WaitOutcome::Exited(1)));
    pipestatus.push(core.get_var("?"));
    assert!(!core.apply_wait_status(&WaitOutcome::Exited(0)));
    pipestatus.push(core.get_var("?"));
    assert_eq!(core.get_var("?"), "0".to_string());
    assert_eq!(pipestatus, vec!["1".to_string(), "0".to_string()]);
}

#[test]
fn background_job_lifecycle() {
    // "sleep 1 &": a Running entry is created; waiting drains it to Done,
    // and the jobs listing shows the substituted status.
    let mut core = ShellCore::new();
    let job = Job::new(&"sleep 1 &".to_string(), vec![]);
    assert_eq!(job.status, JobStatus::Running);
    assert_eq!(job.status_string(), "Running sleep 1 &".to_string());
    core.job_table.push(job);
    let mut entry = core.job_table.pop().unwrap();
    let pipestatus = entry.wait(&mut core).expect("wait must not be fatal");
    assert_eq!(pipestatus.len(), 0);
    assert_eq!(entry.status, JobStatus::Done);
    assert_eq!(entry.status_string(), "Done sleep 1 &".to_string());
}

#[test]
fn done_is_terminal() {
    let mut core = ShellCore::new();
    let mut entry = Job::new(&"sleep 1 &".to_string(), vec![]);
    entry.wait(&mut core).unwrap();
    assert_eq!(entry.status, JobStatus::Done);
    entry.send_cont();
    assert_eq!(entry.status, JobStatus::Done);
    entry.wait(&mut core).unwrap();
    assert_eq!(entry.status, JobStatus::Done);
}

#[test]
fn continue_resumes_stopped_jobs() {
    let mut core = ShellCore::new();
    let mut stopped = Job::new(&"sleep 5".to_string(), vec![]);
    stopped.status = JobStatus::Stopped;
    core.job_table.push(stopped);
    core.job_table.push(Job::new(&"sleep 6".to_string(), vec![]));
    let mut args: Vec<String> = Vec::new();
    assert_eq!(bg(&mut core, &mut args), 0);
    assert_eq!(core.job_table[0].status, JobStatus::Running);
    assert_eq!(core.job_table[1].status, JobStatus::Running);
    assert_eq!(jobs(&mut core, &mut args), 0);
}

#[test]
fn cd_to_missing_path_fails_without_changing_directory() {
    let before = nix::unistd::getcwd().unwrap();
    let mut core = ShellCore::new();
    let mut args = vec!["cd".to_string(), "/no_such_directory_for_this_test".to_string()];
    let status = core.cd(&mut args);
    assert_eq!(status, 1);
    let status_str = i64_to_string(status as i64);
    core.set_var("?", &status_str);
    assert_ne!(core.get_var("?"), "0".to_string());
    let after = nix::unistd::getcwd().unwrap();
    assert_eq!(before, after);
}

#[test]
fn exit_builtin_status_values() {
    let mut core = ShellCore::new();
    assert_eq!(
        core.exit_builtin_status(&vec!["exit".to_string(), "300".to_string()]),
        44
    );
    assert_eq!(
        core.exit_builtin_status(&vec!["exit".to_string(), "abc".to_string()]),
        2
    );
    let mut core2 = ShellCore::new();
    core2.set_var("?", "7");
    assert_eq!(core2.exit_builtin_status(&vec!["exit".to_string()]), 7);
}

#[test]
fn decimal_conversions_round_trip() {
    assert_eq!(i64_to_string(0), "0".to_string());
    assert_eq!(i64_to_string(-42), "-42".to_string());
    assert_eq!(i64_to_string(i64::MIN), "-9223372036854775808".to_string());
    assert_eq!(parse_i64("123"), Ok(123));
    assert_eq!(parse_i64("-123"), Ok(-123));
    assert_eq!(parse_i64("+9"), Ok(9));
    assert_eq!(parse_i64(""), Err(()));
    assert_eq!(parse_i64("12a"), Err(()));
    assert_eq!(parse_i64("9223372036854775808"), Err(()));
    assert_eq!(parse_i64("-9223372036854775808"), Ok(i64::MIN));
}

#[test]
fn common_prefix_of_candidates() {
    let paths = vec!["abcd".to_string(), "abce".to_string(), "abx".to_string()];
    assert_eq!(common_string(&paths), "ab".to_string());
    let empty: Vec<String> = Vec::new();
    assert_eq!(common_string(&empty), "".to_string());
    // A candidate that is a strict prefix of the reference bounds the answer.
    let short = vec!["abcd".to_string(), "ab".to_string()];
    assert_eq!(common_string(&short), "ab".to_string());
}

#[test]
fn replace_input_swaps_word_under_cursor() {
    let mut t = Terminal::new("$ ");
    for c in "cat fi".chars() {
        t.insert(c);
    }
    t.replace_input(&"file.txt ".to_string());
    let line: String = t.chars.iter().collect();
    assert_eq!(line, "$ cat file.txt ".to_string());
}

#[test]
fn replace_input_escapes_blanks() {
    let mut t = Terminal::new("$ ");
    for c in "ls na".chars() {
        t.insert(c);
    }
    t.replace_input(&"name with blanks".to_string());
    let line: String = t.chars.iter().collect();
    assert_eq!(line, "$ ls name\\ with\\ blanks".to_string());
}
