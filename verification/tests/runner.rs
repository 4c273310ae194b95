use shell::command::external::to_result;
use shell::command::registry::Builtin;
use shell::control::{complete_reaction, more_found, CompleteReaction};
use shell::complete::structure::Completion;
use shell::history::Log;
use shell::runner::process::{exec_args, Fork};
use shell::runner::{count_pipes, native_newline, plan_forks, plan_run, to_log, Parsed, PlanStep, Program, Redirect, RunPlan, Target};

fn parsed(command: &str, args: Option<Vec<&str>>, redirect: Option<Redirect>, pipeline: bool) -> Parsed {
    Parsed {
        command: command.to_string(),
        args: args.map(|a| a.iter().map(|s| s.to_string()).collect()),
        redirect,
        pipeline,
    }
}

#[test]
fn command_lines_are_logged_and_planned() {
    let mut log = Log::new();
    let line = vec![parsed("echo", Some(vec!["a", "b"]), None, false)];
    assert_eq!(RunPlan::Native(Builtin::Echo), plan_run(&line, &mut log).ok().unwrap());
    let (records, _) = log.lasts(None);
    assert_eq!(vec!["echo a b"], records);

    let line = vec![parsed("exit", None, None, false)];
    assert_eq!(RunPlan::Exit, plan_run(&line, &mut log).ok().unwrap());
    let line = vec![parsed("yes", None, None, false)];
    assert_eq!(RunPlan::Forks, plan_run(&line, &mut log).ok().unwrap());
    let line = vec![parsed("ls", None, None, false)];
    assert_eq!(RunPlan::Forks, plan_run(&line, &mut log).ok().unwrap());
    assert!(plan_run(&vec![], &mut log).is_err());
    assert_eq!(4, log.len());

    let mut other = Log::new();
    to_log(&vec![parsed("ls", None, None, true), parsed("wc", Some(vec!["-l"]), None, false)], &mut other);
    assert_eq!(vec!["ls", "wc -l"], other.lasts(None).0);
}

#[test]
fn pipelines_are_wired_through_pipes_and_tee() {
    let line = vec![
        parsed("ls", None, Some(Redirect { path: "out".to_string(), append: true, stderr: false }), true),
        parsed("nope", None, None, true),
        parsed("wc", Some(vec!["-l"]), None, false),
    ];
    assert_eq!(4, count_pipes(&line));
    let steps = plan_forks(&line, &vec![true, false, true], false);
    assert_eq!(4, steps.len());
    match &steps[0] {
        PlanStep::Fork(f) => {
            assert_eq!(None, f.stdin_pipe);
            assert!(matches!(f.stdout, Target::Pipe(0)));
            assert!(matches!(f.stderr, Target::ErrorPipe));
            assert!(matches!(&f.program, Program::External { bin, .. } if bin == "ls"));
        }
        _ => panic!("expected a process"),
    }
    match &steps[1] {
        PlanStep::Fork(f) => {
            assert_eq!(Some(0), f.stdin_pipe);
            assert!(matches!(f.stdout, Target::Pipe(1)));
            match &f.program {
                Program::External { bin, args } => {
                    assert_eq!("tee", bin);
                    assert_eq!(&Some(vec!["-a".to_string(), "out".to_string()]), args);
                }
                _ => panic!("expected tee"),
            }
        }
        _ => panic!("expected a process"),
    }
    match &steps[2] {
        PlanStep::NotFound(m) => assert_eq!("nope: command not found", m),
        _ => panic!("expected a message"),
    }
    match &steps[3] {
        PlanStep::Fork(f) => {
            assert_eq!(Some(2), f.stdin_pipe);
            assert!(matches!(f.stdout, Target::Pipe(3)));
        }
        _ => panic!("expected a process"),
    }

    let line = vec![parsed("echo", Some(vec!["x"]), Some(Redirect { path: "err".to_string(), append: false, stderr: true }), false)];
    let steps = plan_forks(&line, &vec![false], true);
    match &steps[0] {
        PlanStep::Fork(f) => {
            assert!(matches!(f.stdout, Target::Pipe(0)));
            assert!(matches!(&f.stderr, Target::File { path, append: false } if path == "err"));
            match &f.program {
                Program::Builtin { builtin, args } => {
                    assert_eq!(Builtin::Echo, *builtin);
                    assert_eq!(&Some(vec!["x".to_string()]), args);
                }
                _ => panic!("expected the builtin"),
            }
        }
        _ => panic!("expected a process"),
    }
    let steps = plan_forks(&vec![parsed("nope", None, None, false)], &vec![false], true);
    match &steps[0] {
        PlanStep::NotFound(m) => assert_eq!("\r\nnope: command not found", m),
        _ => panic!("expected a message"),
    }
}

#[test]
fn builtins_in_the_shell_break_lines_around_redirects() {
    let r = Redirect { path: "f".to_string(), append: false, stderr: false };
    let n = native_newline(Some(&r), false);
    assert_eq!("", n.stdout_start());
    assert_eq!("\n", n.stdout_end());
    assert_eq!("\n", n.stderr_start());
    let n = native_newline(None, true);
    assert_eq!("\n", n.stdout_start());
    assert_eq!("\n", n.stderr_start());
    assert_eq!("", n.stderr_end());
}

#[test]
fn external_output_is_trimmed() {
    let r = to_result(b"  hello\n".to_vec(), b"".to_vec()).ok().unwrap();
    assert_eq!(Some("hello"), r.output());
    assert_eq!(None, r.error());
    let r = to_result(b" \n".to_vec(), b"oops\n".to_vec()).ok().unwrap();
    assert_eq!(None, r.output());
    assert_eq!(Some("oops"), r.error());
    assert_eq!("stdout reading error", to_result(vec![0xff], vec![]).err().unwrap().message());
    assert_eq!("stderr reading error", to_result(vec![], vec![0xff]).err().unwrap().message());
}

#[test]
fn tab_reactions() {
    let c = Completion::from_selected("ho ".to_string());
    assert!(matches!(complete_reaction(Some("ec"), Some(&c), false), CompleteReaction::Insert(s) if s == "ho "));
    let v = Completion::from_variants(vec!["echo".to_string(), "exit".to_string()]);
    assert!(matches!(complete_reaction(Some("e"), Some(&v), false), CompleteReaction::Bell));
    assert!(matches!(complete_reaction(Some("e"), Some(&v), true), CompleteReaction::Show(s) if s == "\r\necho  exit\r\n$ e"));
    assert!(matches!(complete_reaction(None, Some(&v), true), CompleteReaction::Bell));
    assert!(matches!(complete_reaction(Some("e"), None, true), CompleteReaction::Bell));
    assert_eq!("\r\na  b\r\n$ x", more_found("x", &vec!["a", "b"]));
}

#[test]
fn processes_and_their_arguments() {
    assert!(Fork::from_status(0).unwrap().is_child());
    assert!(!Fork::from_status(42).unwrap().is_child());
    assert_eq!(42, Fork::from_status(42).unwrap().pid());
    assert!(Fork::from_status(-1).is_none());
    assert_eq!(vec!["ls", "-l", "/"], exec_args("ls", Some(&vec!["-l", "/"])));
    assert_eq!(vec!["ls"], exec_args("ls", None));
}

#[test]
fn logging_no_commands_keeps_the_history() {
    let mut log = Log::new();
    log.add(vec!["ls".to_string()]);
    shell::runner::to_log(&vec![], &mut log);
    assert_eq!(1, log.len());
    shell::runner::to_log(&vec![parsed("echo", Some(vec!["a", "b"]), None, false)], &mut log);
    assert_eq!(vec!["ls", "echo a b"], log.lasts(None).0);
}
