use shell::command::registry::history::print_mode;
use shell::fmt::NewLine;
use shell::history::{upload_numbers, upload_plan, Log};

#[test]
fn test_lasts() {
    let mut log = Log::new();

    let (records, len) = log.lasts(None);
    let mut iter = records.into_iter();
    assert_eq!(None, iter.next());
    assert_eq!(0, len);

    let (records, len) = log.lasts(Some(1));
    let mut iter = records.into_iter();
    assert_eq!(None, iter.next());
    assert_eq!(0, len);

    log.add(vec!["1".to_string()]);

    let (records, len) = log.lasts(None);
    let mut iter = records.into_iter();
    assert_eq!(Some("1"), iter.next());
    assert_eq!(None, iter.next());
    assert_eq!(1, len);

    let (records, len) = log.lasts(Some(0));
    let mut iter = records.into_iter();
    assert_eq!(None, iter.next());
    assert_eq!(0, len);

    let (records, len) = log.lasts(Some(1));
    let mut iter = records.into_iter();
    assert_eq!(Some("1"), iter.next());
    assert_eq!(None, iter.next());
    assert_eq!(1, len);

    let (records, len) = log.lasts(Some(2));
    let mut iter = records.into_iter();
    assert_eq!(Some("1"), iter.next());
    assert_eq!(None, iter.next());
    assert_eq!(1, len);

    log.add(vec!["2".to_string()]);

    let (records, len) = log.lasts(None);
    let mut iter = records.into_iter();
    assert_eq!(Some("1"), iter.next());
    assert_eq!(Some("2"), iter.next());
    assert_eq!(None, iter.next());
    assert_eq!(2, len);

    let (records, len) = log.lasts(Some(0));
    let mut iter = records.into_iter();
    assert_eq!(None, iter.next());
    assert_eq!(0, len);

    let (records, len) = log.lasts(Some(1));
    let mut iter = records.into_iter();
    assert_eq!(Some("2"), iter.next());
    assert_eq!(None, iter.next());
    assert_eq!(1, len);

    let (records, len) = log.lasts(Some(2));
    let mut iter = records.into_iter();
    assert_eq!(Some("1"), iter.next());
    assert_eq!(Some("2"), iter.next());
    assert_eq!(None, iter.next());
    assert_eq!(2, len);

    let (records, len) = log.lasts(Some(3));
    let mut iter = records.into_iter();
    assert_eq!(Some("1"), iter.next());
    assert_eq!(Some("2"), iter.next());
    assert_eq!(None, iter.next());
    assert_eq!(2, len);
}

#[test]
fn history_test_upload_numbers() {
    let (previous_index, current_len) = (None, 0);
    assert_eq!((None, None), upload_numbers(previous_index, current_len));

    let (previous_index, current_len) = (None, 1);
    assert_eq!((None, Some(0)), upload_numbers(previous_index, current_len));

    let (previous_index, current_len) = (None, 2);
    assert_eq!((None, Some(1)), upload_numbers(previous_index, current_len));

    let (previous_index, current_len) = (Some(0), 0);
    assert_eq!((None, None), upload_numbers(previous_index, current_len));

    let (previous_index, current_len) = (Some(0), 1);
    assert_eq!((None, Some(0)), upload_numbers(previous_index, current_len));

    let (previous_index, current_len) = (Some(0), 2);
    assert_eq!(
        (Some(1), Some(1)),
        upload_numbers(previous_index, current_len)
    );

    let (previous_index, current_len) = (Some(1), 4);
    assert_eq!(
        (Some(2), Some(3)),
        upload_numbers(previous_index, current_len)
    );
}

#[test]
fn load_test_upload_numbers() {
    use_load_numbers();
}

fn use_load_numbers() {
    let upload_numbers = shell::history::load::upload_numbers;

    let (previous_index, current_len) = (None, 0);
    assert_eq!((None, None), upload_numbers(previous_index, current_len));

    let (previous_index, current_len) = (None, 1);
    assert_eq!((None, Some(0)), upload_numbers(previous_index, current_len));

    let (previous_index, current_len) = (None, 2);
    assert_eq!((None, Some(1)), upload_numbers(previous_index, current_len));

    let (previous_index, current_len) = (Some(0), 0);
    assert_eq!((None, None), upload_numbers(previous_index, current_len));

    let (previous_index, current_len) = (Some(0), 1);
    assert_eq!((None, Some(0)), upload_numbers(previous_index, current_len));

    let (previous_index, current_len) = (Some(0), 2);
    assert_eq!(
        (Some(1), Some(1)),
        upload_numbers(previous_index, current_len)
    );

    let (previous_index, current_len) = (Some(1), 4);
    assert_eq!(
        (Some(2), Some(3)),
        upload_numbers(previous_index, current_len)
    );
}

#[test]
fn walking_the_history_goes_from_newest_to_oldest_and_back() {
    let mut log = Log::new();
    assert_eq!(None, log.next());
    log.add(vec!["a".to_string(), "b".to_string(), "c".to_string()]);
    assert_eq!(Some("c".to_string()), log.next());
    assert_eq!(Some("b".to_string()), log.next());
    assert_eq!(Some("a".to_string()), log.next());
    assert_eq!(None, log.next());
    assert_eq!(Some("b".to_string()), log.prev());
    assert_eq!(Some("c".to_string()), log.prev());
    assert_eq!(None, log.prev());
    log.reset();
    assert_eq!(None, log.prev());
    assert_eq!(Some("c".to_string()), log.next());
}

#[test]
fn upload_index_reads_back_what_was_set() {
    let mut log = Log::new();
    assert_eq!(None, log.get_upload_index("a.txt"));
    log.set_upload_index("a.txt", 3);
    log.set_upload_index("b.txt", 5);
    assert_eq!(Some(3), log.get_upload_index("a.txt"));
    assert_eq!(Some(5), log.get_upload_index("b.txt"));
    log.set_upload_index("a.txt", 7);
    assert_eq!(Some(7), log.get_upload_index("a.txt"));
    assert_eq!(Some(5), log.get_upload_index("b.txt"));
}

#[test]
fn upload_writes_all_then_only_new_records_when_appending() {
    let mut log = Log::new();
    assert!(upload_plan(&log, "h", false).is_none());
    log.add(vec!["ls".to_string(), "pwd".to_string()]);
    let (text, index) = upload_plan(&log, "h", true).unwrap();
    assert_eq!("ls\npwd\n", text);
    assert_eq!(1, index);
    log.set_upload_index("h", index);
    log.add(vec!["echo hi".to_string()]);
    let (text, index) = upload_plan(&log, "h", true).unwrap();
    assert_eq!("echo hi\n", text);
    assert_eq!(2, index);
    let (text, _) = upload_plan(&log, "h", false).unwrap();
    assert_eq!("ls\npwd\necho hi\n", text);
}

#[test]
fn history_prints_numbered_lines() {
    let mut log = Log::new();
    log.add(vec!["ls".to_string(), "pwd".to_string(), "cd /".to_string()]);
    let newline = NewLine::new();
    assert_eq!("    1  ls\n    2  pwd\n    3  cd /", print_mode(&newline, &log, None));
    assert_eq!("    2  pwd\n    3  cd /", print_mode(&newline, &log, Some(2)));
    let mut newline = NewLine::new();
    newline.set_stdout_start(true);
    newline.set_stdout_end(true);
    assert_eq!("\n    3  cd /\n", print_mode(&newline, &log, Some(1)));
    assert_eq!("", print_mode(&NewLine::new(), &Log::new(), None));
}
