use sush::elements::command::{self, ShellCommand};
use sush::elements::script::Script;
use sush::elements::value::Value;
use sush::feeder::{Feeder, ParseAbort};
use sush::parser::{arg, command_with_args, delimiter, end_of_command, top_level_element, ReadingText, TopElem};
use sush::shellcore::ShellCore;

fn parse_ok(text: &str) -> Script {
    let mut feeder = Feeder::new(text);
    let mut core = ShellCore::new();
    match Script::parse(&mut feeder, &mut core, true) {
        Ok(s) => {
            assert_eq!(feeder.remaining, "".to_string());
            s
        }
        Err(_) => panic!("expected a complete parse of {:?}", text),
    }
}

#[test]
fn round_trip_simple_command() {
    let s = parse_ok("echo hello world\n");
    assert_eq!(s.get_text(), "echo hello world\n".to_string());
}

#[test]
fn round_trip_pipeline_and_connectors() {
    let text = "echo a | grep b && ls ; sleep 1 &\n";
    let s = parse_ok(text);
    assert_eq!(s.get_text(), text.to_string());
}

#[test]
fn round_trip_preserves_blanks_and_terminators() {
    let text = "  echo   x  ;;  ".replace(";;", "; ls ;");
    let s = parse_ok(&text);
    assert_eq!(s.get_text(), text);
}

#[test]
fn round_trip_node_texts_concatenate() {
    let text = "echo a ; echo b\n";
    let s = parse_ok(text);
    let mut rebuilt = String::new();
    for (job, end) in s.jobs.iter().zip(s.job_ends.iter()) {
        rebuilt.push_str(&job.get_text());
        rebuilt.push_str(end);
    }
    assert_eq!(rebuilt, text.to_string());
}

#[test]
fn feeder_incompleteness_brace_group() {
    let mut feeder = Feeder::new("{ echo hi");
    let mut core = ShellCore::new();
    match Script::parse(&mut feeder, &mut core, true) {
        Err(ParseAbort::MoreLine) => {}
        _ => panic!("an unterminated brace group must ask for more input"),
    }
    // The consumed text was put back; feed the closer and retry.
    assert_eq!(feeder.remaining, "{ echo hi".to_string());
    feeder.add_line("\n}");
    match Script::parse(&mut feeder, &mut core, true) {
        Ok(s) => assert_eq!(s.get_text(), "{ echo hi\n}".to_string()),
        _ => panic!("the closed brace group must parse"),
    }
}

#[test]
fn unexpected_symbol_sets_status_two() {
    let mut feeder = Feeder::new(") oops\n");
    let mut core = ShellCore::new();
    match Script::parse(&mut feeder, &mut core, true) {
        Err(ParseAbort::SyntaxError) => {}
        _ => panic!("a stray closer is a syntax error"),
    }
    assert_eq!(core.get_var("?"), "2".to_string());
    assert_eq!(feeder.len(), 0);
}

#[test]
fn trailing_connector_asks_for_more() {
    let mut feeder = Feeder::new("ls &&");
    let mut core = ShellCore::new();
    match Script::parse(&mut feeder, &mut core, true) {
        Err(ParseAbort::MoreLine) => {}
        _ => panic!("a trailing connector needs another line"),
    }
    feeder.add_line(" pwd");
    match Script::parse(&mut feeder, &mut core, true) {
        Ok(s) => assert_eq!(s.get_text(), "ls && pwd".to_string()),
        _ => panic!("the completed list must parse"),
    }
}

#[test]
fn pipeline_stages_in_order() {
    let s = parse_ok("a | b | c\n");
    assert_eq!(s.jobs.len(), 2);  // the parsed job and the empty pre-seeded one
    let job = s
        .jobs
        .iter()
        .find(|j| !j.pipelines.is_empty())
        .expect("one job has pipelines");
    assert_eq!(job.pipelines[0].commands.len(), 3);
}

#[test]
fn word_expansion_of_parameters_and_arithmetic() {
    let mut feeder = Feeder::new("echo $FOO $((2*21))");
    let mut core = ShellCore::new();
    core.set_var("FOO", "bar");
    let cmd = command::parse(&mut feeder, &mut core)
        .ok()
        .unwrap()
        .unwrap();
    match cmd {
        ShellCommand::Simple(simple) => {
            let args = simple.eval_args(&mut core).expect("expansion succeeds");
            assert_eq!(args, vec!["echo".to_string(), "bar".to_string(), "42".to_string()]);
        }
        _ => panic!("expected a simple command"),
    }
}

#[test]
fn redirects_are_collected() {
    let mut feeder = Feeder::new("echo hi > out.txt");
    let mut core = ShellCore::new();
    let cmd = command::parse(&mut feeder, &mut core)
        .ok()
        .unwrap()
        .unwrap();
    match cmd {
        ShellCommand::Simple(simple) => {
            assert_eq!(simple.redirects.len(), 1);
            assert_eq!(simple.redirects[0].symbol, ">".to_string());
            assert_eq!(simple.redirects[0].right.text, "out.txt".to_string());
        }
        _ => panic!("expected a simple command"),
    }
}

#[test]
fn brace_expansion_complete() {
    let mut feeder = Feeder::new("a{b,c}");
    let mut core = ShellCore::new();
    let v = Value::parse(&mut feeder, &mut core).unwrap();
    assert_eq!(v.text, "a{b,c}".to_string());
    assert_eq!(v.eval(&mut core), vec!["ab".to_string(), "ac".to_string()]);
}

#[test]
fn brace_expansion_three_way() {
    let mut feeder = Feeder::new("x{1,2,3}y");
    let mut core = ShellCore::new();
    let v = Value::parse(&mut feeder, &mut core).unwrap();
    assert_eq!(
        v.eval(&mut core),
        vec!["x1y".to_string(), "x2y".to_string(), "x3y".to_string()]
    );
}

#[test]
fn brace_single_alternative_stays_literal() {
    let mut feeder = Feeder::new("{a}");
    let mut core = ShellCore::new();
    let v = Value::parse(&mut feeder, &mut core).unwrap();
    assert_eq!(v.eval(&mut core), vec!["{a}".to_string()]);
}

#[test]
fn brace_unclosed_stays_literal() {
    let mut feeder = Feeder::new("{ab");
    let mut core = ShellCore::new();
    let v = Value::parse(&mut feeder, &mut core).unwrap();
    assert_eq!(v.eval(&mut core), vec!["{ab".to_string()]);
}

#[test]
fn paren_subshell_round_trip() {
    let s = parse_ok("(echo hi)\n");
    assert_eq!(s.get_text(), "(echo hi)\n".to_string());
}

#[test]
fn nested_brace_groups_round_trip() {
    let text = "{ { echo hi\n}\n}";
    let s = parse_ok(text);
    assert_eq!(s.get_text(), text.to_string());
}

#[test]
fn unterminated_subshell_asks_for_more() {
    let mut feeder = Feeder::new("(echo hi");
    let mut core = ShellCore::new();
    match Script::parse(&mut feeder, &mut core, true) {
        Err(ParseAbort::MoreLine) => {}
        _ => panic!("an unterminated subshell must ask for more input"),
    }
    assert_eq!(feeder.remaining, "(echo hi".to_string());
}

#[test]
fn blank_line_parses_as_no_op() {
    let s = parse_ok("   ");
    for job in &s.jobs {
        assert!(job.pipelines.is_empty());
    }
}

#[test]
fn reading_text_scans_args_and_delims() {
    let mut text = ReadingText {
        remaining: "ls -l\n".to_string(),
        from_lineno: 1,
        to_lineno: 1,
        pos_in_line: 0,
    };
    let a = arg(&mut text).expect("first argument");
    assert_eq!(a.text, "ls".to_string());
    let d = delimiter(&mut text).expect("delimiter");
    assert_eq!(d.text, " ".to_string());
    let a2 = arg(&mut text).expect("second argument");
    assert_eq!(a2.text, "-l".to_string());
    let e = end_of_command(&mut text).expect("end of command");
    assert_eq!(e.text, "\n".to_string());
}

#[test]
fn command_with_args_records_whole_text() {
    let mut text = ReadingText {
        remaining: "echo hi;".to_string(),
        from_lineno: 1,
        to_lineno: 1,
        pos_in_line: 0,
    };
    let c = command_with_args(&mut text).expect("a command");
    assert_eq!(c.text, "echo hi;".to_string());
    assert!(c.elems.len() > 0);
}

#[test]
fn top_level_element_consumes_line() {
    let mut core = ShellCore::new();
    let mut text = ReadingText {
        remaining: "echo hi\n".to_string(),
        from_lineno: 1,
        to_lineno: 1,
        pos_in_line: 0,
    };
    match top_level_element(&mut text, &mut core) {
        TopElem::Command(c) => assert_eq!(c.text, "echo hi\n".to_string()),
        TopElem::Empty(_) => panic!("expected a command"),
    }
    assert_eq!(text.remaining, "".to_string());
}
