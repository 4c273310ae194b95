use shell::complete::structure::Completion as LineCompletion;
use shell::history::Log;
use shell::keyboard::io::{complete, complete_input, paths_to_names, Completion};
use shell::keyboard::{handle_key, to_action, KeyCode, KeyEvent, TerminalAction};

fn get_fixture_dir() -> String {
    "/work/test/fixture/keyboard/".to_string()
}

// The executables found in the fixture directories are passed in as the
// paths a search of them gives.
#[test]
fn test_complete_input() {
    let path = get_fixture_dir();

    let r = complete_input("f", &vec!["bar"], Some(vec![format!("{}1/foo", path)]));
    let f = Completion::new_selected("oo ".to_string());
    assert_eq!(Some(f), r);

    let r = complete_input("f", &vec!["fooo"], Some(vec![format!("{}1/foo", path)]));
    let f = Completion::new_selected("ooo ".to_string());
    assert_eq!(Some(f), r);

    let r = complete_input(
        "f",
        &vec!["foo", "fii"],
        Some(vec![format!("{}2/foo", path), format!("{}2/fyy", path)]),
    );
    let m = vec!["fii", "foo", "fyy"]
        .iter()
        .map(|r| r.to_string())
        .collect::<Vec<String>>();
    let f = Completion::new_variants(m);
    assert_eq!(Some(f), r);
}

#[test]
fn io_test_paths_to_names() {
    let paths = vec!["foo/bar", "/baz/maz", "/vaz/gaz/"];
    let r = vec!["bar".to_string(), "maz".to_string(), "".to_string()];
    assert_eq!(r, paths_to_names(&paths));
}

#[test]
fn test_complete() {
    assert_eq!(None, complete("foo", &vec!("foo")));

    assert_eq!(None, complete("foo", &vec!("bar")));

    assert_eq!(None, complete("foo", &vec!("foo", "foo")));

    let r = complete("f", &vec!["fo", "foo", "fooo"]);
    let f = Completion::new_selected("o".to_string());
    assert_eq!(Some(f), r);

    let r = complete("f", &vec!["fo", "foo"]);
    let f = Completion::new_selected("o".to_string());
    assert_eq!(Some(f), r);

    let r = complete("f", &vec!["foo", "foo"]);
    let f = Completion::new_selected("oo ".to_string());
    assert_eq!(Some(f), r);

    let r = complete("f", &vec!["foo"]);
    let f = Completion::new_selected("oo ".to_string());
    assert_eq!(Some(f), r);

    let r = complete("f", &vec!["fo", "foo", "fi", "fii"]);
    let m = vec!["fi", "fii", "fo", "foo"]
        .iter()
        .map(|r| r.to_string())
        .collect::<Vec<String>>();
    let f = Completion::new_variants(m);
    assert_eq!(Some(f), r);
}

fn key(code: KeyCode, control: bool) -> KeyEvent {
    KeyEvent { code, control }
}

#[test]
fn keys_map_to_actions() {
    assert_eq!(Some(TerminalAction::Command), to_action(&key(KeyCode::Enter, false)));
    assert_eq!(Some(TerminalAction::InputSub), to_action(&key(KeyCode::Backspace, false)));
    assert_eq!(Some(TerminalAction::InputComplete), to_action(&key(KeyCode::Tab, false)));
    assert_eq!(Some(TerminalAction::Exit), to_action(&key(KeyCode::Char('c'), true)));
    assert_eq!(Some(TerminalAction::Command), to_action(&key(KeyCode::Char('j'), true)));
    assert_eq!(Some(TerminalAction::InputAdd('c')), to_action(&key(KeyCode::Char('c'), false)));
    assert_eq!(Some(TerminalAction::HistoryNext), to_action(&key(KeyCode::Up, false)));
    assert_eq!(Some(TerminalAction::HistoryPrev), to_action(&key(KeyCode::Down, false)));
    assert_eq!(None, to_action(&key(KeyCode::Other, false)));
}

#[test]
fn keys_edit_the_input_line() {
    let mut log = Log::new();
    let h = handle_key("ab", &key(KeyCode::Char('c'), false), None, None, &mut log, false);
    assert_eq!("abc", h.get_input());
    assert_eq!(Some("c"), h.get_to_print());
    assert!(h.has_user_typing());

    let h = handle_key("ab", &key(KeyCode::Backspace, false), None, None, &mut log, true);
    assert_eq!("a", h.get_input());
    assert_eq!(Some(1), h.get_backspace_len());
    assert!(h.has_user_typing());

    let h = handle_key("a", &key(KeyCode::Backspace, false), None, None, &mut log, true);
    assert_eq!("", h.get_input());
    assert!(!h.has_user_typing());

    let h = handle_key("ls", &key(KeyCode::Enter, false), None, None, &mut log, true);
    assert!(h.is_enter());
    assert!(!h.has_user_typing());

    let h = handle_key("ls", &key(KeyCode::Char('c'), true), None, None, &mut log, true);
    assert!(h.is_exit());
    assert_eq!(Some("^C"), h.get_to_print());
}

#[test]
fn tab_inserts_or_hints() {
    let mut log = Log::new();
    let sel = LineCompletion::from_selected("ho ".to_string());
    let h = handle_key("ec", &key(KeyCode::Tab, false), None, Some(&sel), &mut log, true);
    assert_eq!("echo ", h.get_input());
    assert_eq!(Some("ho "), h.get_to_print());

    let vars = LineCompletion::from_variants(vec!["echo".to_string(), "exit".to_string()]);
    let h = handle_key("e", &key(KeyCode::Tab, false), None, Some(&vars), &mut log, true);
    assert_eq!(Some("\x07"), h.get_to_print());
    assert_eq!(None, h.get_hint());
    let prev = key(KeyCode::Tab, false);
    let h = handle_key("e", &key(KeyCode::Tab, false), Some(&prev), Some(&vars), &mut log, true);
    assert_eq!(None, h.get_to_print());
    assert_eq!(Some("echo  exit"), h.get_hint());
}

#[test]
fn arrows_recall_history() {
    let mut log = Log::new();
    log.add(vec!["ls".to_string(), "pwd".to_string()]);
    let h = handle_key("xy", &key(KeyCode::Up, false), None, None, &mut log, false);
    assert_eq!("pwd", h.get_input());
    assert_eq!(Some(2), h.get_backspace_len());
    let h = handle_key("pwd", &key(KeyCode::Up, false), None, None, &mut log, false);
    assert_eq!("ls", h.get_input());
    let h = handle_key("ls", &key(KeyCode::Up, false), None, None, &mut log, false);
    assert_eq!("ls", h.get_input());
    assert_eq!(Some("ls\x07"), h.get_to_print());
    let h = handle_key("ls", &key(KeyCode::Down, false), None, None, &mut log, false);
    assert_eq!("pwd", h.get_input());
    let h = handle_key("typed", &key(KeyCode::Up, false), None, None, &mut log, true);
    assert_eq!("typed", h.get_input());
    assert_eq!(None, h.get_to_print());
}
