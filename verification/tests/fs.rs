use shell::fs::find::structure::{FileType, FindFilesResult};
use shell::fs::find::{find_all_starts_with, find_bins_by_name, find_bins_starts_with, find_files, find_files_starts_with};
use shell::fs::write::write_lines;
use shell::fs::{search_executable_file_in_paths, search_executable_files_in_paths, DirEntryInfo, FileMeta, SearchDir};
use shell::rule::Comprasion;

fn entry(dir: &str, name: &str, is_file: bool, is_dir: bool, is_symlink: bool, mode: u32) -> DirEntryInfo {
    DirEntryInfo {
        name: Some(name.to_string()),
        path: Some(format!("{}{}", dir, name)),
        metadata: Some(FileMeta { is_file, is_dir, is_symlink, mode }),
    }
}

// The listing of the fixture directory: a symbolic link to an executable,
// a directory, a plain file and an executable file.
fn fixture(dir: &str) -> Vec<SearchDir> {
    vec![SearchDir {
        path: dir.to_string(),
        entries: Some(vec![
            entry(dir, "exe_symlink", false, false, true, 0o777),
            entry(dir, "dir", false, true, false, 0o755),
            entry(dir, "not_exe", true, false, false, 0o644),
            entry(dir, "exe", true, false, false, 0o755),
        ]),
    }]
}

fn run_test_find() {
    let fixture_dir = "/work/test/fixture/fs/".to_string();
    let search_paths = fixture(&fixture_dir);

    let symlink = format!("{}exe_symlink", fixture_dir.as_str());
    let dir = format!("{}dir/", fixture_dir.as_str());
    let file = format!("{}not_exe", fixture_dir.as_str());
    let executable = format!("{}exe", fixture_dir.as_str());

    let files = find_files(&search_paths, None, None, false).unwrap();
    assert!(files.contains(&symlink));
    assert!(files.contains(&dir));
    assert!(files.contains(&file));
    assert!(files.contains(&executable));

    let only_types = vec![FileType::Dir];
    let files = find_files(&search_paths, Some(&only_types), None, false).unwrap();
    assert!(!files.contains(&symlink));
    assert!(files.contains(&dir));
    assert!(!files.contains(&file));
    assert!(!files.contains(&executable));

    let only_types = vec![FileType::SymLink];
    let files = find_files(&search_paths, Some(&only_types), None, false).unwrap();
    assert!(files.contains(&symlink));
    assert!(!files.contains(&dir));
    assert!(!files.contains(&file));
    assert!(!files.contains(&executable));

    let only_types = vec![FileType::Executable];
    let files = find_files(&search_paths, Some(&only_types), None, false).unwrap();
    assert!(!files.contains(&symlink));
    assert!(!files.contains(&dir));
    assert!(!files.contains(&file));
    assert!(files.contains(&executable));

    let only_types = vec![FileType::File];
    let files = find_files(&search_paths, Some(&only_types), None, false).unwrap();
    assert!(!files.contains(&symlink));
    assert!(!files.contains(&dir));
    assert!(files.contains(&file));
    assert!(files.contains(&executable));

    let name_rule = Comprasion::Equal("dir".to_string());
    let files = find_files(&search_paths, None, Some(&name_rule), false).unwrap();
    assert!(!files.contains(&symlink));
    assert!(files.contains(&dir));
    assert!(!files.contains(&file));
    assert!(!files.contains(&executable));

    let name_rule = Comprasion::AssertedStartsWith("exe".to_string());
    let files = find_files(&search_paths, None, Some(&name_rule), false).unwrap();
    assert!(files.contains(&symlink));
    assert!(!files.contains(&dir));
    assert!(!files.contains(&file));
    assert!(files.contains(&executable));
}

#[test]
fn find_test_find() {
    run_test_find();
}

#[test]
fn mod_test_find() {
    run_test_find();
}

#[test]
fn fs_test_search_executable_file_in_paths() {
    let dir = "/work/test/fixture/fs/";
    let paths = vec![SearchDir {
        path: dir.to_string(),
        entries: Some(vec![
            entry(dir, "exe", true, false, false, 0o755),
            entry(dir, "not_exe", true, false, false, 0o644),
        ]),
    }];

    let r = search_executable_file_in_paths("exe", &paths).unwrap();
    assert_eq!(format!("{}exe", dir), r);

    let r = search_executable_file_in_paths("not_exe", &paths);
    assert!(r.is_none());

    let r = search_executable_file_in_paths("not_exists", &paths);
    assert!(r.is_none());
}

#[test]
fn test_search_executable_files_in_paths() {
    let dir = "/work/test/fixture/fs/";
    let paths = vec![SearchDir {
        path: dir.to_string(),
        entries: Some(vec![
            entry(dir, "exe", true, false, false, 0o755),
            entry(dir, "not_exe", true, false, false, 0o644),
        ]),
    }];

    let r = search_executable_files_in_paths("ex", &paths).unwrap();
    let f = vec![format!("{}exe", dir)];
    assert_eq!(f, r);

    let r = search_executable_files_in_paths("not", &paths);
    assert!(r.is_none());
}

#[test]
fn search_errors_are_reported_unless_ignored() {
    let broken = vec![SearchDir { path: "/nope".to_string(), entries: None }];
    match find_files(&broken, None, None, false) {
        FindFilesResult::Failed(e) => assert_eq!("/nope: dir is invalid", e.message()),
        _ => panic!("expected a failure"),
    }
    assert_eq!(FindFilesResult::Nothing, find_files(&broken, None, None, true));
    match find_files(&vec![], None, None, true) {
        FindFilesResult::Failed(e) => assert_eq!("search paths is empty", e.message()),
        _ => panic!("expected a failure"),
    }
    let dir = "/d/";
    let no_meta = vec![SearchDir {
        path: dir.to_string(),
        entries: Some(vec![DirEntryInfo { name: Some("x".to_string()), path: Some("/d/x".to_string()), metadata: None }]),
    }];
    match find_files(&no_meta, None, None, false) {
        FindFilesResult::Failed(e) => assert_eq!("x: metadata reading error", e.message()),
        _ => panic!("expected a failure"),
    }
    assert!(!find_files(&no_meta, None, None, true).is_some());
}

#[test]
fn bins_and_files_by_name() {
    let dir = "/work/test/fixture/fs/";
    let paths = fixture(dir);
    assert_eq!(vec![format!("{}exe", dir)], find_bins_by_name("exe", &paths).unwrap());
    assert_eq!(vec![format!("{}exe", dir)], find_bins_starts_with("e", &paths).unwrap());
    assert_eq!(
        vec![format!("{}not_exe", dir), format!("{}exe", dir)],
        find_files_starts_with("", &paths).unwrap()
    );
    assert_eq!(vec![format!("{}dir/", dir)], find_all_starts_with("d", &paths).unwrap());
}

#[test]
fn output_is_written_line_by_line() {
    let (pieces, skip) = write_lines(b"a\nb\n\n".to_vec(), true).ok().unwrap();
    assert_eq!(vec!["a".to_string(), "\r\nb".to_string()], pieces);
    assert!(!skip);
    let (pieces, skip) = write_lines(b"\n\0\n".to_vec(), true).ok().unwrap();
    assert!(pieces.is_empty());
    assert!(skip);
    let (pieces, _) = write_lines(b"x".to_vec(), false).ok().unwrap();
    assert_eq!(vec!["\r\nx".to_string()], pieces);
    assert!(write_lines(vec![0xff, 0xfe], false).is_err());
}

#[test]
fn searches_ignoring_errors_mark_directories_and_never_give_empty_lists() {
    let dir = "/work/test/fixture/fs/";
    let mut paths = fixture(dir);
    paths.insert(0, SearchDir { path: "/nope".to_string(), entries: None });
    let all = find_files(&paths, None, None, true).unwrap();
    assert_eq!(4, all.len());
    for (path, is_dir) in all.iter().zip([false, true, false, false]) {
        assert_eq!(is_dir, path.ends_with('/'));
    }
    assert_eq!(FindFilesResult::Nothing, find_files(&paths, None, Some(&Comprasion::Equal("none".to_string())), true));
    for found in find_files_starts_with("n", &paths).unwrap() {
        assert_eq!(format!("{}not_exe", dir), found);
    }
    assert!(matches!(find_files_starts_with("x", &vec![]), FindFilesResult::Failed(_)));
    assert!(shell::command::external::is_external("exe", &paths));
    assert!(!shell::command::external::is_external("not_exe", &paths));
}

// The search path of the test is a hand-made listing holding `ls`.
#[test]
fn test_is_external() {
    let paths = vec![SearchDir {
        path: "/bin/".to_string(),
        entries: Some(vec![entry("/bin/", "ls", true, false, false, 0o755)]),
    }];

    assert!(shell::command::external::is_external("ls", &paths));
}
