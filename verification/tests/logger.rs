use file_log::{index, log, Index, DEFAULT_EXTENSION};
use once_cell::sync::OnceCell;

fn first_run() -> Index {
    Index::start(None, None).index
}

#[test]
fn test_log_macro() {
    let logger: OnceCell<Index> = OnceCell::new();
    let record = log(&logger, first_run, "test_log", None, "Test log message");

    let file_path = format!("test_log_{}.log", index(&logger, first_run));
    assert_eq!(record.path, file_path);

    let data = String::from_utf8(record.bytes).unwrap();
    assert_eq!(data, "Test log message\n");
}

#[test]
fn test_log_macro_with_custom_extension() {
    let logger: OnceCell<Index> = OnceCell::new();
    let record = log(&logger, first_run, "test_log", Some("log2"), "Test log message");

    let file_path = format!("test_log_{}.log2", index(&logger, first_run));
    assert_eq!(record.path, file_path);

    let data = String::from_utf8(record.bytes).unwrap();
    assert_eq!(data, "Test log message\n");
}

#[test]
fn default_extension_is_log() {
    assert_eq!(DEFAULT_EXTENSION, "log");
}

#[test]
fn first_call_settles_the_index() {
    let logger: OnceCell<Index> = OnceCell::new();
    assert!(logger.get().is_none());
    let run = index(&logger, || Index::start(None, Some("7")).index);
    assert_eq!(run, 8);
    assert_eq!(logger.get().map(|i| i.index()), Some(8));
}

#[test]
fn later_calls_return_the_settled_index() {
    let logger: OnceCell<Index> = OnceCell::new();
    let first = index(&logger, || Index::start(Some("41"), None).index);
    let second = index(&logger, || Index::start(Some("500"), None).index);
    let third = index(&logger, || Index::start(None, None).index);
    assert_eq!(first, 42);
    assert_eq!(second, 42);
    assert_eq!(third, 42);
}

#[test]
fn initialiser_runs_once() {
    let logger: OnceCell<Index> = OnceCell::new();
    let mut calls = 0;
    let mut round = 0;
    while round < 5 {
        let run = index(&logger, || {
            calls += 1;
            Index::start(None, Some("2")).index
        });
        assert_eq!(run, 3);
        round += 1;
    }
    assert_eq!(calls, 1);
}

#[test]
fn log_uses_the_settled_index() {
    let logger: OnceCell<Index> = OnceCell::new();
    let run = index(&logger, || Index::start(Some("2"), None).index);
    assert_eq!(run, 3);
    let with_extension = log(&logger, first_run, "sim", Some("csv"), "step name x y z");
    assert_eq!(with_extension.path, "sim_3.csv");
    assert_eq!(with_extension.bytes, b"step name x y z\n".to_vec());
    let without = log(&logger, first_run, "sim", None, "done");
    assert_eq!(without.path, "sim_3.log");
    assert_eq!(without.bytes, b"done\n".to_vec());
}

#[test]
fn log_settles_the_index_when_it_comes_first() {
    let logger: OnceCell<Index> = OnceCell::new();
    let record = log(&logger, || Index::start(Some("4"), None).index, "log", None, "Hello");
    assert_eq!(record.path, "log_5.log");
    assert_eq!(record.bytes, b"Hello\n".to_vec());
    assert_eq!(index(&logger, first_run), 5);
}

#[test]
fn log_encodes_the_message_as_utf8() {
    let logger: OnceCell<Index> = OnceCell::new();
    let record = log(&logger, first_run, "log", None, "h\u{e9}llo");
    assert_eq!(record.path, "log_1.log");
    assert_eq!(record.bytes, vec![b'h', 0xc3, 0xa9, b'l', b'l', b'o', b'\n']);
}

#[test]
fn loggers_do_not_share_their_index() {
    let one: OnceCell<Index> = OnceCell::new();
    let two: OnceCell<Index> = OnceCell::new();
    assert_eq!(index(&one, || Index::start(Some("1"), None).index), 2);
    assert_eq!(index(&two, || Index::start(Some("10"), None).index), 11);
    assert_eq!(index(&one, first_run), 2);
    assert_eq!(index(&two, first_run), 11);
}

#[test]
fn initialiser_may_use_the_logger() {
    let logger: OnceCell<Index> = OnceCell::new();
    let run = index(&logger, || {
        let inner = index(&logger, || Index::start(Some("6"), None).index);
        assert_eq!(inner, 7);
        Index::start(Some("1"), None).index
    });
    assert_eq!(run, 7);
    assert_eq!(index(&logger, first_run), 7);
}

#[test]
fn filled_cell_is_read_without_running_the_initialiser() {
    let logger: OnceCell<Index> = OnceCell::with_value(Index::start(Some("9"), None).index);
    let mut calls = 0;
    let run = index(&logger, || {
        calls += 1;
        first_run()
    });
    assert_eq!(run, 10);
    let record = log(
        &logger,
        || {
            calls += 1;
            first_run()
        },
        "sim",
        None,
        "x",
    );
    assert_eq!(record.path, "sim_10.log");
    assert_eq!(calls, 0);
}
