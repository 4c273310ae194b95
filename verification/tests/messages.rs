use shell::command::registry::cd::no_such_directory;
use shell::command::registry::history::{error_text, missing_file_text};
use shell::command::registry::pwd::pwd_text;
use shell::command::registry::yes::yes_line;
use shell::command::registry::history::validator::validate;
use shell::complete::{complete_from_listing, complete_to_variants, to_find_data};
use shell::fs::{DirEntryInfo, FileMeta, SearchDir};
use shell::error::ShellError;
use shell::fmt::NewLine;
use shell::history::load::{download_lines, read_lines};
use shell::history::{upload_plan, Log};
use shell::keyboard::{handle_key, KeyCode, KeyEvent};
use shell::runner::{count_pipes, plan_forks, Parsed, PlanStep, Redirect, Target};
use shell::text::{join, split_char};

fn breaks_everywhere() -> NewLine {
    let mut n = NewLine::new();
    n.set_stdout_start(true);
    n.set_stdout_end(true);
    n.set_stderr_start(true);
    n.set_stderr_end(true);
    n
}

#[test]
fn cd_reports_a_missing_directory() {
    assert_eq!("cd: /nope: No such file or directory", no_such_directory(&NewLine::new(), "/nope"));
    assert_eq!("\ncd: x: No such file or directory\n", no_such_directory(&breaks_everywhere(), "x"));
}

#[test]
fn pwd_prints_the_directory() {
    assert_eq!("/home/user", pwd_text(&NewLine::new(), "/home/user"));
    assert_eq!("\n/tmp\n", pwd_text(&breaks_everywhere(), "/tmp"));
}

#[test]
fn yes_prints_y_lines() {
    assert_eq!("y\n", yes_line(&NewLine::new(), true));
    assert_eq!("\ny\n", yes_line(&breaks_everywhere(), true));
    assert_eq!("y\n", yes_line(&breaks_everywhere(), false));
}

#[test]
fn history_reports_errors() {
    assert_eq!("history: incorrect arguments", error_text(&NewLine::new(), &ShellError::IncorrectArguments));
    assert_eq!("\nhistory: not supported\n", error_text(&breaks_everywhere(), &ShellError::NotSupported));
    assert_eq!("history: f: No such file or directory", missing_file_text(&NewLine::new(), "f"));
}

#[test]
fn history_files_read_line_by_line() {
    assert_eq!(Vec::<String>::new(), read_lines(""));
    assert_eq!(vec!["a", "b"], read_lines("a\nb\n"));
    assert_eq!(vec!["a", "b"], read_lines("a\r\nb"));
    assert_eq!(vec!["", "x"], read_lines("\nx\n"));
    assert_eq!(vec!["a\r"], read_lines("a\r"));

    let mut log = Log::new();
    download_lines(&mut log, "");
    assert_eq!(0, log.len());
    download_lines(&mut log, "ls\necho hi\n");
    assert_eq!(2, log.len());
    assert_eq!(vec!["ls", "echo hi"], log.lasts(None).0);
}

#[test]
fn a_rewritten_history_reads_back() {
    let mut log = Log::new();
    log.add(vec!["ls -l".to_string(), "echo a b".to_string(), "".to_string()]);
    let (text, index) = upload_plan(&log, "h", false).unwrap();
    assert_eq!(2, index);
    let mut fresh = Log::new();
    download_lines(&mut fresh, text.as_str());
    assert_eq!(log.lasts(None).0, fresh.lasts(None).0);
}

#[test]
fn splitting_and_joining_give_back_the_text() {
    for s in ["", "a", "/", "a/b", "/usr/bin/", "//x//"] {
        assert_eq!(s, join(&split_char(s, '/'), "/"));
    }
}

#[test]
fn search_directory_and_prefix_rebuild_the_word() {
    for (word, dir, prefix) in [("foo/ba", "foo/", Some("ba")), ("/usr/", "/usr/", None), ("a/b/c", "a/b/", Some("c"))] {
        let fd = to_find_data(word, "/home/");
        assert_eq!(dir, fd.find_path());
        assert_eq!(prefix, fd.file_prefix());
        assert!(fd.find_path().ends_with('/'));
        assert_eq!(word, format!("{}{}", fd.find_path(), fd.file_prefix().unwrap_or("")));
    }
    assert_eq!("/home/", to_find_data("fo", "/home").find_path());
}

#[test]
fn a_selection_extends_every_candidate() {
    let variants = vec!["foo", "bar", "foobar", "fo"];
    let c = complete_to_variants("fo", &variants).unwrap();
    let selected = c.get_selected().unwrap();
    assert_eq!("o", selected);
    for v in ["foo", "foobar"] {
        assert!(format!("{} ", v).starts_with(&format!("fo{}", selected)));
    }
    assert!(complete_to_variants("foob", &vec!["foobar", "foobaz"]).unwrap().get_selected().is_none());
    let c = complete_to_variants("fox", &vec!["foxtrot"]).unwrap();
    assert_eq!(Some("trot "), c.get_selected());
}

#[test]
fn backspace_takes_back_a_typed_character() {
    let mut log = Log::new();
    for c in ['a', ' ', 'c', 'j'] {
        let typed = handle_key("ec", &KeyEvent { code: KeyCode::Char(c), control: false }, None, None, &mut log, true);
        assert_eq!(format!("ec{}", c), typed.get_input());
        let back = handle_key(typed.get_input(), &KeyEvent { code: KeyCode::Backspace, control: false }, None, None, &mut log, true);
        assert_eq!("ec", back.get_input());
    }
}

#[test]
fn the_plan_stays_within_the_counted_pipes() {
    let tee = Redirect { path: "out".to_string(), append: false, stderr: false };
    let line = vec![
        Parsed { command: "ls".to_string(), args: None, redirect: Some(tee), pipeline: true },
        Parsed { command: "nope".to_string(), args: None, redirect: None, pipeline: true },
        Parsed { command: "wc".to_string(), args: None, redirect: None, pipeline: false },
    ];
    let pipes = count_pipes(&line);
    assert_eq!(4, pipes);
    for step in plan_forks(&line, &vec![true, false, true], false) {
        if let PlanStep::Fork(f) = step {
            if let Some(k) = f.stdin_pipe {
                assert!(k < pipes);
            }
            if let Target::Pipe(k) = f.stdout {
                assert!(k < pipes);
            }
        }
    }
}

#[test]
fn completing_the_same_input_gives_the_same_completion() {
    let commands = vec!["echo", "exit", "cd"];
    let found = || Some(vec!["/bin/ed".to_string(), "/usr/bin/env".to_string(), "/bin/ed".to_string()]);
    let first = shell::complete::complete_command("e", &commands, found());
    let second = shell::complete::complete_command("e", &commands, found());
    assert_eq!(first, second);
    assert_eq!(Some(vec!["echo", "ed", "env", "exit"]), first.unwrap().get_variants());
    let a = shell::keyboard::io::complete_input("e", &commands, found());
    let b = shell::keyboard::io::complete_input("e", &commands, found());
    assert_eq!(a, b);
}

#[test]
fn history_accepts_counts_and_flag_pairs_only() {
    assert!(validate(None).is_ok());
    assert!(validate(Some(&vec![])).is_ok());
    assert_eq!(Some(3), validate(Some(&vec!["3"])).ok().unwrap().0);
    let (count, loaders) = validate(Some(&vec!["-r", "a", "-a", "b"])).ok().unwrap();
    assert_eq!(None, count);
    let loaders = loaders.unwrap();
    assert_eq!(2, loaders.len());
    assert_eq!("a", loaders[0].get_file_path());
    assert!(loaders[0].is_download());
    assert_eq!("b", loaders[1].get_file_path());
    assert!(loaders[1].is_upload_append());
    for bad in [vec!["3", "4"], vec!["-r"], vec!["-x", "a"], vec!["-r", "a", "5"], vec!["3", "-r", "a"]] {
        assert_eq!(ShellError::IncorrectArguments, validate(Some(&bad)).err().unwrap());
    }
}

#[test]
fn completion_from_a_listing() {
    let entry = |name: &str, is_dir: bool, mode: u32| DirEntryInfo {
        name: Some(name.to_string()),
        path: Some(format!("/d/{}", name)),
        metadata: Some(FileMeta { is_file: !is_dir, is_dir, is_symlink: false, mode }),
    };
    let listing = vec![SearchDir {
        path: "/d/".to_string(),
        entries: Some(vec![entry("grep", false, 0o755), entry("groups", false, 0o644), entry("git", true, 0o755)]),
    }];
    let c = complete_from_listing("gr", &vec!["cd"], "/d", &listing).unwrap();
    assert_eq!(Some("ep "), c.get_selected());
    let c = complete_from_listing("ls gi", &vec!["cd"], "/d", &listing).unwrap();
    assert_eq!(Some("t/"), c.get_selected());
    assert!(complete_from_listing("zz", &vec!["cd"], "/d", &listing).is_none());
}

#[test]
fn a_noted_index_stays_and_reset_restarts_the_walk() {
    let mut log = Log::new();
    log.add(vec!["a".to_string(), "b".to_string()]);
    log.set_upload_index("h", 1);
    log.set_upload_index("g", 0);
    log.add(vec!["c".to_string()]);
    let _ = log.next();
    assert_eq!(Some(1), log.get_upload_index("h"));
    let after_add: Vec<Option<String>> = vec![log.prev(), log.next(), log.next()];
    log.reset();
    let after_reset: Vec<Option<String>> = vec![log.prev(), log.next(), log.next()];
    let mut fresh = Log::new();
    fresh.add(vec!["a".to_string(), "b".to_string(), "c".to_string()]);
    let after_fresh_add: Vec<Option<String>> = vec![fresh.prev(), fresh.next(), fresh.next()];
    assert_eq!(after_reset, after_fresh_add);
    assert_eq!(3, after_add.len());
}

#[test]
fn name_prefixes_hold_no_slash() {
    for word in ["a/b", "/usr/bi", "x", "dir/"] {
        if let Some(p) = to_find_data(word, "/home").file_prefix() {
            assert!(!p.is_empty() && !p.contains('/'));
        }
    }
    assert_eq!(None, to_find_data("  ", "/home").file_prefix());
}
