use shell::complete::structure::{Completion, FileFindData};
use shell::complete::{
    complete_command, complete_input, complete_path, complete_to_variants, completion_lookup,
    get_prefixed_variant, paths_to_names, to_find_data, whitespace_if_file, CompletionLookup,
};

#[test]
fn test_complete_to_variants() {
    let variants = vec![];
    assert!(complete_to_variants("", &variants).is_none());

    let variants = vec!["f", "b"];
    let variants = complete_to_variants("", &variants).unwrap();
    let variants = variants.get_variants().unwrap();
    assert_eq!(vec!["f", "b"], variants);

    let variants = vec!["f", "b"];
    assert!(complete_to_variants("c", &variants).is_none());

    let variants = vec!["fo", "b"];
    let selected = complete_to_variants("f", &variants).unwrap();
    let selected = selected.get_selected().unwrap();
    assert_eq!("o ", selected);

    let variants = vec!["fo", "fy"];
    let variants = complete_to_variants("f", &variants).unwrap();
    let variants = variants.get_variants().unwrap();
    assert_eq!(vec!["fo", "fy"], variants);

    let variants = vec!["fo", "foo"];
    let selected = complete_to_variants("f", &variants).unwrap();
    let selected = selected.get_selected().unwrap();
    assert_eq!("o", selected);
}

fn fixture_dir() -> String {
    "/work/test/fixture/complete/".to_string()
}

// The directory lookups of the completion are passed in as the paths that
// a listing of the fixture directory gives.
#[test]
fn test_complete_path() {
    let fixture_dir = fixture_dir();

    let find_data = FileFindData::from("".to_string(), None);
    assert!(complete_path(&find_data, None).is_none());

    let all = vec![
        format!("{}bar/", fixture_dir),
        format!("{}fo/", fixture_dir),
        format!("{}foo/", fixture_dir),
        format!("{}b", fixture_dir),
        format!("{}f", fixture_dir),
        format!("{}f.txt", fixture_dir),
    ];
    let find_data = FileFindData::from(fixture_dir.to_string(), None);
    let completion = complete_path(&find_data, Some(all)).unwrap();
    let variants = completion.get_variants().unwrap();
    assert_eq!(6, variants.len());
    assert!(variants.contains(&"bar/"));
    assert!(variants.contains(&"fo/"));
    assert!(variants.contains(&"foo/"));
    assert!(variants.contains(&"b"));
    assert!(variants.contains(&"f"));
    assert!(variants.contains(&"f.txt"));
    assert!(completion.get_selected().is_none());

    let starting_f = vec![
        format!("{}fo/", fixture_dir),
        format!("{}foo/", fixture_dir),
        format!("{}f", fixture_dir),
        format!("{}f.txt", fixture_dir),
    ];
    let find_data = FileFindData::from(fixture_dir.to_string(), Some("f".to_string()));
    let completion = complete_path(&find_data, Some(starting_f)).unwrap();
    let variants = completion.get_variants().unwrap();
    assert_eq!(3, variants.len());
    assert!(variants.contains(&"fo/"));
    assert!(variants.contains(&"foo/"));
    assert!(variants.contains(&"f.txt"));
    assert!(completion.get_selected().is_none());

    let starting_foo = vec![format!("{}foo/", fixture_dir)];
    let find_data = FileFindData::from(fixture_dir.to_string(), Some("foo".to_string()));
    let completion = complete_path(&find_data, Some(starting_foo)).unwrap();
    let selected = completion.get_selected().unwrap();
    assert_eq!("/", selected);
    assert!(completion.get_variants().is_none());

    let find_data = FileFindData::from(fixture_dir.to_string(), Some("foo/".to_string()));
    assert!(complete_path(&find_data, None).is_none());

    let path = format!("{}fo/", fixture_dir.to_string());
    let find_data = FileFindData::from(path.clone(), None);
    let completion = complete_path(&find_data, Some(vec![format!("{}b", path)])).unwrap();
    let selected = completion.get_selected().unwrap();
    assert_eq!("b ", selected);
    assert!(completion.get_variants().is_none());

    let path = format!("{}foo/", fixture_dir.to_string());
    let in_foo = vec![
        format!("{}fo", path),
        format!("{}foo", path),
        format!("{}fooo", path),
    ];
    let find_data = FileFindData::from(path.clone(), Some("f".to_string()));
    let completion = complete_path(&find_data, Some(in_foo.clone())).unwrap();
    let selected = completion.get_selected().unwrap();
    assert_eq!("o", selected);
    assert!(completion.get_variants().is_none());

    let find_data = FileFindData::from(path.clone(), None);
    let completion = complete_path(&find_data, Some(in_foo)).unwrap();
    let selected = completion.get_selected().unwrap();
    assert_eq!("fo", selected);
    assert!(completion.get_variants().is_none());

    let find_data = FileFindData::from(path.clone(), Some("foo".to_string()));
    let starting_foo = vec![format!("{}foo", path), format!("{}fooo", path)];
    let completion = complete_path(&find_data, Some(starting_foo)).unwrap();
    let selected = completion.get_selected().unwrap();
    assert_eq!("o ", selected);
    assert!(completion.get_variants().is_none());
}

#[test]
fn test_whitespace_if_file() {
    assert_eq!("dir/", whitespace_if_file("dir/".to_string()));
    assert_eq!("file ", whitespace_if_file("file".to_string()));
    assert_eq!("file.txt ", whitespace_if_file("file.txt".to_string()));
}

#[test]
fn test_get_prefixed_variant() {
    let variants = vec![];
    assert!(get_prefixed_variant("", variants).is_none());

    let variants = vec![];
    assert!(get_prefixed_variant("f", variants).is_none());

    let variants = vec!["f"];
    assert_eq!("f", get_prefixed_variant("", variants).unwrap());

    let variants = vec!["f"];
    assert_eq!("f", get_prefixed_variant("f", variants).unwrap());

    let variants = vec!["f", "fo", "b"];
    assert!(get_prefixed_variant("", variants).is_none());

    let variants = vec!["f", "fo", "foo"];
    assert_eq!("f", get_prefixed_variant("", variants).unwrap());

    let variants = vec!["f", "fo", "foo", "fy"];
    assert!(get_prefixed_variant("f", variants).is_none());

    let variants = vec!["f", "fo", "foo"];
    assert_eq!("fo", get_prefixed_variant("f", variants).unwrap());
}

#[test]
fn test_to_find_data() {
    let data = to_find_data("", "");
    assert_eq!("/", data.find_path());
    assert_eq!(None, data.file_prefix());

    let data = to_find_data(" ", " ");
    assert_eq!("/", data.find_path());
    assert_eq!(None, data.file_prefix());

    let data = to_find_data("f", "d");
    assert_eq!("d/", data.find_path());
    assert_eq!(Some("f"), data.file_prefix());

    let data = to_find_data("/f", "/d");
    assert_eq!("/", data.find_path());
    assert_eq!(Some("f"), data.file_prefix());

    let data = to_find_data("f/", "d/");
    assert_eq!("f/", data.find_path());
    assert_eq!(None, data.file_prefix());

    let data = to_find_data("/f/", "/d/");
    assert_eq!("/f/", data.find_path());
    assert_eq!(None, data.file_prefix());

    let data = to_find_data("f/b", "d");
    assert_eq!("f/", data.find_path());
    assert_eq!(Some("b"), data.file_prefix());

    let data = to_find_data("/f/b", "d");
    assert_eq!("/f/", data.find_path());
    assert_eq!(Some("b"), data.file_prefix());

    let data = to_find_data("/f/b/", "d");
    assert_eq!("/f/b/", data.find_path());
    assert_eq!(None, data.file_prefix());
}

#[test]
fn mod_test_paths_to_names() {
    let paths = vec!["/f/b/c.txt", "f/b/c", "/f/b/z/"];
    let names = vec!["c.txt", "c", "z/"];
    assert_eq!(names, paths_to_names(&paths));
}

#[test]
fn completion_selected_and_variants_exclude_each_other() {
    let c = Completion::from_selected("x".to_string());
    assert!(c.is_selected());
    assert_eq!(Some("x"), c.get_selected());
    assert!(c.get_variants().is_none());

    let c = Completion::from_variants(vec!["a".to_string(), "b".to_string()]);
    assert!(!c.is_selected());
    assert!(c.get_selected().is_none());
    assert_eq!(Some(vec!["a", "b"]), c.get_variants());
}

#[test]
fn command_completion_prefers_builtins_then_merges_sorted() {
    let commands = vec!["echo", "exit"];
    let c = complete_command("ec", &commands, None).unwrap();
    assert_eq!(Some("ho "), c.get_selected());

    let c = complete_command("e", &commands, Some(vec!["/bin/env".to_string(), "/bin/echo".to_string()])).unwrap();
    assert_eq!(Some(vec!["echo", "env", "exit"]), c.get_variants());

    assert!(complete_command("z", &commands, Some(vec!["/bin/ls".to_string()])).is_none());

    let c = complete_command("gr", &commands, Some(vec!["/usr/bin/grep".to_string()])).unwrap();
    assert_eq!(Some("ep "), c.get_selected());
}

#[test]
fn input_completion_looks_at_the_last_word() {
    match completion_lookup("ech", "/home") {
        CompletionLookup::Bins(w) => assert_eq!("ech", w),
        _ => panic!("expected a lookup of executables"),
    }
    match completion_lookup("cat sr", "/home") {
        CompletionLookup::Files(fd) => {
            assert_eq!("/home/", fd.find_path());
            assert_eq!(Some("sr"), fd.file_prefix());
        }
        _ => panic!("expected a lookup of files"),
    }
    let commands = vec!["echo"];
    let c = complete_input("cat sr", &commands, "/home", Some(vec!["/home/src/".to_string()])).unwrap();
    assert_eq!(Some("c/"), c.get_selected());
    let c = complete_input("ech", &commands, "/home", None).unwrap();
    assert_eq!(Some("o "), c.get_selected());
}

#[test]
fn completion_of_an_unmatched_word_is_none() {
    let variants = vec!["alpha", "beta"];
    assert!(complete_to_variants("gamma", &variants).is_none());
    let variants = vec!["same"];
    assert!(complete_to_variants("same", &variants).is_none());
}
