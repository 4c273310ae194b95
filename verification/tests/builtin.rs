use shell::command::builtin::catalog;
use shell::command::builtin::{builtin_to_string, run_command_echo, run_command_type, to_builtin, Builtin};
use shell::command::registry::history::load::Loader as LoadLoader;
use shell::command::registry::history::structure::Loader;
use shell::command::registry::history::validator::validate;
use shell::command::registry::{self, type_of};
use shell::command::{get_command_list, to_command};
use shell::fmt::NewLine;

#[test]
fn test_run_command_echo() {
    let r = vec!["foo", "bar"];
    assert_eq!("foo bar", run_command_echo(&r).output().unwrap());
}

// The search of the fixture directory is passed in as the path it finds.
#[test]
fn test_run_command_type() {
    let path = "/work/test/fixture/command/builtin/".to_string();

    let r = run_command_type("not_exe", None);
    assert_eq!("not_exe: not found", r.error().unwrap());

    let r = run_command_type("type", None);
    assert_eq!("type is a shell builtin", r.output().unwrap());

    let r = run_command_type("exe", Some(format!("{}exe", path)));
    assert_eq!(format!("exe is {}exe", path), r.output().unwrap());
}

#[test]
fn builtin_names_round_trip() {
    for b in [Builtin::Type, Builtin::Echo, Builtin::Pwd, Builtin::Cd, Builtin::Exit] {
        assert_eq!(Some(b), to_builtin(&builtin_to_string(&b)));
    }
    assert_eq!(None, to_builtin("ls"));
    assert_eq!(Some(catalog::Builtin::Cd), catalog::Builtin::to_builtin("cd"));
    assert_eq!(None, catalog::Builtin::to_builtin("history"));
    assert_eq!(vec!["type", "echo", "pwd", "cd", "exit"], catalog::Builtin::list_as_strings());
}

#[test]
fn registry_lists_and_classifies_builtins() {
    assert_eq!(
        vec!["cd", "echo", "history", "exit", "pwd", "type", "yes"],
        get_command_list()
    );
    assert_eq!(Some(registry::Builtin::History), to_command("history"));
    assert_eq!(None, to_command("hist"));
    assert!(registry::Builtin::Yes.is_blocking());
    assert!(!registry::Builtin::Echo.is_blocking());
    assert!(registry::Builtin::Exit.is_exit());
    assert_eq!("yes", registry::Builtin::Yes.to_string());
}

#[test]
fn exit_asks_to_exit() {
    let r = registry::exit::run_command();
    assert!(r.is_exit());
    assert_eq!(None, r.exit_code());
    assert!(r.output().is_none());
}

#[test]
fn type_reports_to_the_right_stream() {
    let newline = NewLine::new();
    assert_eq!((false, "echo is a shell builtin".to_string()), type_of::type_report(&newline, "echo", None));
    assert_eq!((false, "ls is /bin/ls".to_string()), type_of::type_report(&newline, "ls", Some("/bin/ls".to_string())));
    assert_eq!((true, "nope: not found".to_string()), type_of::type_report(&newline, "nope", None));
    assert_eq!("", type_of::get_command(None));
    assert_eq!("x", type_of::get_command(Some(&vec!["x", "y"])));
}

#[test]
fn echo_and_cd_arguments() {
    let newline = NewLine::new();
    assert_eq!("a b", registry::echo::echo_text(&newline, Some(&vec!["a", "b"])));
    assert_eq!(" ", registry::echo::echo_text(&newline, None));
    assert_eq!("~", registry::cd::get_path(None));
    assert_eq!("/tmp", registry::cd::get_path(Some(&vec!["/tmp"])));
}

#[test]
fn loaders_follow_their_flags() {
    let l = Loader::try_new("f".to_string(), "-r").ok().unwrap();
    assert!(l.is_download());
    assert!(!l.is_upload_append());
    assert_eq!("f", l.get_file_path());
    let l = Loader::try_new("g".to_string(), "-a").ok().unwrap();
    assert!(!l.is_download());
    assert!(l.is_upload_append());
    let l = Loader::try_new("g".to_string(), "-w").ok().unwrap();
    assert!(!l.is_download());
    assert!(!l.is_upload_append());
    assert!(Loader::try_new("g".to_string(), "-x").is_err());
    assert_eq!("not supported", Loader::try_new("g".to_string(), "-x").err().unwrap().message());

    let l = LoadLoader::try_new("h".to_string(), "-a").ok().unwrap();
    assert!(l.is_upload_append());
    assert!(!l.is_download());
    assert!(LoadLoader::try_new("h".to_string(), "").is_err());
}

#[test]
fn history_arguments_are_validated() {
    let (count, loaders) = validate(None).ok().unwrap();
    assert_eq!(None, count);
    assert!(loaders.is_none());

    let (count, loaders) = validate(Some(&vec!["5"])).ok().unwrap();
    assert_eq!(Some(5), count);
    assert!(loaders.is_none());

    let (count, loaders) = validate(Some(&vec!["+7"])).ok().unwrap();
    assert_eq!(Some(7), count);
    assert!(loaders.is_none());

    let (count, loaders) = validate(Some(&vec!["-r", "a", "-a", "b"])).ok().unwrap();
    assert_eq!(None, count);
    let loaders = loaders.unwrap();
    assert_eq!(2, loaders.len());
    assert!(loaders[0].is_download());
    assert_eq!("a", loaders[0].get_file_path());
    assert!(loaders[1].is_upload_append());
    assert_eq!("b", loaders[1].get_file_path());

    for bad in [
        vec!["5", "6"],
        vec!["-r"],
        vec!["-r", "a", "5"],
        vec!["5", "-r", "a"],
        vec!["x"],
        vec!["-5"],
        vec!["99999999999999999999999"],
    ] {
        let r = validate(Some(&bad));
        assert!(r.is_err());
        assert_eq!("incorrect arguments", r.err().unwrap().message());
    }
}
