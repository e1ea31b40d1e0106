use std::io::Write;
use std::sync::{Arc, Mutex};

use arena_builder::data::{
    found_entry, read_step, request_outcome, DataLoader, ErrorHandler, LoadOutcome,
    ReadAllHandler, ReadAllWrapper, ReadHandler, ReadStep, Request, Served,
};
use arena_builder::error::GenericError;

/// What a handler saw, in the order it saw it.
#[derive(Clone, Debug, PartialEq)]
enum Seen {
    Read(Vec<u8>),
    Eof,
    ReadAll(Vec<u8>),
    Error(String),
}

type Log = Arc<Mutex<Vec<Seen>>>;

fn new_log() -> Log {
    Arc::new(Mutex::new(Vec::new()))
}

fn seen(log: &Log) -> Vec<Seen> {
    log.lock().unwrap().clone()
}

struct Streaming {
    log: Log,
    fail_on_read: bool,
}

impl ErrorHandler for Streaming {
    fn on_error(self: Box<Self>, err: GenericError) {
        self.log.lock().unwrap().push(Seen::Error(err.to_text()));
    }
}

impl ReadHandler for Streaming {
    fn on_eof(self: Box<Self>) -> Result<(), GenericError> {
        self.log.lock().unwrap().push(Seen::Eof);
        Ok(())
    }

    fn on_read(&mut self, buf: &[u8]) -> Result<(), GenericError> {
        self.log.lock().unwrap().push(Seen::Read(buf.to_vec()));
        if self.fail_on_read {
            Err(GenericError::from("handler refused"))
        } else {
            Ok(())
        }
    }
}

struct Whole {
    log: Log,
}

impl ErrorHandler for Whole {
    fn on_error(self: Box<Self>, err: GenericError) {
        self.log.lock().unwrap().push(Seen::Error(err.to_text()));
    }
}

impl ReadAllHandler for Whole {
    fn on_read_all(self: Box<Self>, buf: Vec<u8>) -> Result<(), GenericError> {
        self.log.lock().unwrap().push(Seen::ReadAll(buf));
        Ok(())
    }
}

fn archive(entries: &[(&str, &[u8])]) -> Vec<u8> {
    let mut writer = zip::ZipWriter::new(std::io::Cursor::new(Vec::new()));
    for (name, data) in entries {
        writer
            .start_file(*name, zip::write::FileOptions::default())
            .unwrap();
        writer.write_all(data).unwrap();
    }
    writer.finish().unwrap().into_inner()
}

fn pattern(len: usize) -> Vec<u8> {
    (0..len).map(|i| (i % 251) as u8).collect()
}

#[test]
fn open_rejects_bytes_that_are_no_archive() {
    let err = match DataLoader::open("data.pk3", b"not a zip".to_vec()) {
        Ok(_) => panic!("opened"),
        Err(err) => err,
    };
    assert_eq!(err.description(), "data.pk3: open zip failed");
    assert!(err.source().is_some());
    assert!(err.to_text().starts_with("data.pk3: open zip failed: "));
}

#[test]
fn read_all_delivers_the_whole_entry() {
    let bytes = archive(&[("a/hello.txt", b"hello world!")]);
    let (loader, mut worker) = DataLoader::open("mem", bytes).unwrap();
    let log = new_log();
    loader
        .read_all("a/hello.txt", Whole { log: log.clone() }, Some(12))
        .unwrap();
    match worker.serve_next() {
        Served::Loaded(report) => {
            assert_eq!(report.name, "a/hello.txt");
            assert!(matches!(report.outcome, LoadOutcome::Completed(Ok(()))));
        }
        _ => panic!("not served"),
    }
    assert_eq!(seen(&log), vec![Seen::ReadAll(b"hello world!".to_vec())]);
}

#[test]
fn read_all_over_the_limit_is_abandoned() {
    let bytes = archive(&[("twelve", b"hello world!")]);
    let (loader, mut worker) = DataLoader::open("mem", bytes).unwrap();
    let log = new_log();
    loader
        .read_all("twelve", Whole { log: log.clone() }, Some(10))
        .unwrap();
    match worker.serve_next() {
        Served::Loaded(report) => match report.outcome {
            LoadOutcome::Abandoned(err, _) => {
                assert_eq!(err.to_text(), "maximum file size exceeded")
            }
            _ => panic!("not abandoned"),
        },
        _ => panic!("not served"),
    }
    assert_eq!(seen(&log), vec![]);
}

#[test]
fn missing_entry_goes_to_on_error() {
    let bytes = archive(&[("present", b"x")]);
    let (loader, mut worker) = DataLoader::open("mem", bytes).unwrap();
    let log = new_log();
    loader
        .read_all("absent", Whole { log: log.clone() }, None)
        .unwrap();
    match worker.serve_next() {
        Served::Loaded(report) => assert!(matches!(report.outcome, LoadOutcome::OpenFailed(_))),
        _ => panic!("not served"),
    }
    assert_eq!(
        seen(&log),
        vec![Seen::Error(
            "absent: open failed: specified file not found in archive".to_string()
        )]
    );
}

#[test]
fn streaming_read_comes_in_chunks_then_eof() {
    let data = pattern(3000);
    let bytes = archive(&[("big", &data)]);
    let (loader, mut worker) = DataLoader::open("mem", bytes).unwrap();
    let log = new_log();
    loader
        .read(
            "big",
            Streaming {
                log: log.clone(),
                fail_on_read: false,
            },
        )
        .unwrap();
    match worker.serve_next() {
        Served::Loaded(report) => {
            assert!(matches!(report.outcome, LoadOutcome::Completed(Ok(()))))
        }
        _ => panic!("not served"),
    }
    let calls = seen(&log);
    assert_eq!(calls.last(), Some(&Seen::Eof));
    let mut joined = Vec::new();
    for call in &calls[..calls.len() - 1] {
        match call {
            Seen::Read(chunk) => {
                assert!(!chunk.is_empty() && chunk.len() <= 1024);
                joined.extend_from_slice(chunk);
            }
            other => panic!("unexpected {:?}", other),
        }
    }
    assert_eq!(joined, data);
}

#[test]
fn failing_handler_gets_no_terminal_callback() {
    let bytes = archive(&[("e", b"abc")]);
    let (loader, mut worker) = DataLoader::open("mem", bytes).unwrap();
    let log = new_log();
    loader
        .read(
            "e",
            Streaming {
                log: log.clone(),
                fail_on_read: true,
            },
        )
        .unwrap();
    match worker.serve_next() {
        Served::Loaded(report) => match report.outcome {
            LoadOutcome::Abandoned(err, _) => assert_eq!(err.to_text(), "handler refused"),
            _ => panic!("not abandoned"),
        },
        _ => panic!("not served"),
    }
    assert_eq!(seen(&log), vec![Seen::Read(b"abc".to_vec())]);
}

#[test]
fn requests_are_served_in_order_until_quit() {
    let bytes = archive(&[("one", b"1"), ("two", b"22")]);
    let (loader, mut worker) = DataLoader::open("mem", bytes).unwrap();
    let log = new_log();
    loader.read_all("two", Whole { log: log.clone() }, None).unwrap();
    loader.read_all("one", Whole { log: log.clone() }, None).unwrap();
    loader.quit();
    loader.read_all("one", Whole { log: log.clone() }, None).unwrap();
    let mut served = Vec::new();
    loop {
        match worker.serve_next() {
            Served::Loaded(report) => served.push(report.name),
            Served::Quit => break,
            Served::Disconnected => panic!("disconnected"),
        }
    }
    assert_eq!(served, vec!["two".to_string(), "one".to_string()]);
    assert_eq!(
        seen(&log),
        vec![Seen::ReadAll(b"22".to_vec()), Seen::ReadAll(b"1".to_vec())]
    );
}

#[test]
fn worker_sees_the_loader_go_away() {
    let bytes = archive(&[("one", b"1")]);
    let (loader, mut worker) = DataLoader::open("mem", bytes).unwrap();
    drop(loader);
    assert!(matches!(worker.serve_next(), Served::Disconnected));
}

#[test]
fn read_fails_once_the_worker_is_gone() {
    let bytes = archive(&[("one", b"1")]);
    let (loader, worker) = DataLoader::open("mem", bytes).unwrap();
    drop(worker);
    let log = new_log();
    let err = loader
        .read_all("one", Whole { log: log.clone() }, None)
        .unwrap_err();
    assert_eq!(err.description(), "one: open request failed");
    assert_eq!(
        err.to_text(),
        "one: open request failed: sending on a closed channel"
    );
    loader.quit();
    assert_eq!(seen(&log), vec![]);
}

#[test]
fn batch_is_served_in_order_up_to_quit() {
    let bytes = archive(&[("one", b"1"), ("two", b"22")]);
    let (_loader, mut worker) = DataLoader::open("mem", bytes).unwrap();
    let log = new_log();
    let streaming = |fail_on_read| Streaming {
        log: log.clone(),
        fail_on_read,
    };
    let requests = vec![
        Request::load("two", streaming(false)),
        Request::load("absent", streaming(false)),
        Request::load("one", streaming(true)),
        Request::Quit,
        Request::load("one", streaming(false)),
        Request::Quit,
    ];
    let reports = worker.serve_all(requests);
    let names: Vec<&str> = reports.iter().map(|r| r.name.as_str()).collect();
    assert_eq!(names, vec!["two", "absent", "one"]);
    assert!(matches!(reports[0].outcome, LoadOutcome::Completed(Ok(()))));
    assert!(matches!(reports[1].outcome, LoadOutcome::OpenFailed(_)));
    assert!(matches!(reports[2].outcome, LoadOutcome::Abandoned(_, _)));
    assert_eq!(
        seen(&log),
        vec![
            Seen::Read(b"22".to_vec()),
            Seen::Eof,
            Seen::Error("absent: open failed: specified file not found in archive".to_string()),
            Seen::Read(b"1".to_vec()),
        ]
    );
}

#[test]
fn batch_without_quit_is_served_whole() {
    let bytes = archive(&[("one", b"1")]);
    let (_loader, mut worker) = DataLoader::open("mem", bytes).unwrap();
    let log = new_log();
    let requests = vec![
        Request::load(
            "one",
            Streaming {
                log: log.clone(),
                fail_on_read: false,
            },
        ),
        Request::load(
            "one",
            Streaming {
                log: log.clone(),
                fail_on_read: false,
            },
        ),
    ];
    assert_eq!(worker.serve_all(requests).len(), 2);
    assert_eq!(worker.serve_all(Vec::new()).len(), 0);
    assert_eq!(worker.serve_all(vec![Request::Quit]).len(), 0);
    assert_eq!(
        seen(&log),
        vec![
            Seen::Read(b"1".to_vec()),
            Seen::Eof,
            Seen::Read(b"1".to_vec()),
            Seen::Eof
        ]
    );
}

#[test]
fn empty_entry_goes_straight_to_eof() {
    let bytes = archive(&[("empty", b"")]);
    let (loader, mut worker) = DataLoader::open("mem", bytes).unwrap();
    let log = new_log();
    loader
        .read(
            "empty",
            Streaming {
                log: log.clone(),
                fail_on_read: true,
            },
        )
        .unwrap();
    loader.read_all("empty", Whole { log: log.clone() }, Some(0)).unwrap();
    assert!(matches!(worker.serve_next(), Served::Loaded(_)));
    assert!(matches!(worker.serve_next(), Served::Loaded(_)));
    assert_eq!(seen(&log), vec![Seen::Eof, Seen::ReadAll(Vec::new())]);
}

#[test]
fn entry_of_exactly_the_limit_is_delivered() {
    let data = pattern(2048);
    let bytes = archive(&[("e", &data)]);
    let (loader, mut worker) = DataLoader::open("mem", bytes).unwrap();
    let log = new_log();
    loader.read_all("e", Whole { log: log.clone() }, Some(2048)).unwrap();
    loader.read_all("e", Whole { log: log.clone() }, Some(2047)).unwrap();
    match worker.serve_next() {
        Served::Loaded(report) => {
            assert!(matches!(report.outcome, LoadOutcome::Completed(Ok(()))))
        }
        _ => panic!("not served"),
    }
    match worker.serve_next() {
        Served::Loaded(report) => assert!(matches!(report.outcome, LoadOutcome::Abandoned(_, _))),
        _ => panic!("not served"),
    }
    assert_eq!(seen(&log), vec![Seen::ReadAll(data)]);
}

#[test]
fn stored_entries_are_read_like_deflated_ones() {
    let data = pattern(1500);
    let mut writer = zip::ZipWriter::new(std::io::Cursor::new(Vec::new()));
    writer
        .start_file(
            "raw",
            zip::write::FileOptions::default().compression_method(zip::CompressionMethod::Stored),
        )
        .unwrap();
    writer.write_all(&data).unwrap();
    let bytes = writer.finish().unwrap().into_inner();
    let (loader, mut worker) = DataLoader::open("mem", bytes).unwrap();
    let log = new_log();
    loader.read_all("raw", Whole { log: log.clone() }, None).unwrap();
    assert!(matches!(worker.serve_next(), Served::Loaded(_)));
    assert_eq!(seen(&log), vec![Seen::ReadAll(data)]);
}

#[test]
fn corrupt_entry_fails_the_read() {
    let data = pattern(1500);
    let mut writer = zip::ZipWriter::new(std::io::Cursor::new(Vec::new()));
    writer
        .start_file(
            "raw",
            zip::write::FileOptions::default().compression_method(zip::CompressionMethod::Stored),
        )
        .unwrap();
    writer.write_all(&data).unwrap();
    let mut bytes = writer.finish().unwrap().into_inner();
    let at = bytes
        .windows(8)
        .position(|w| w == &data[100..108])
        .unwrap();
    bytes[at] ^= 0xff;
    let (loader, mut worker) = DataLoader::open("mem", bytes).unwrap();
    let log = new_log();
    loader.read_all("raw", Whole { log: log.clone() }, None).unwrap();
    match worker.serve_next() {
        Served::Loaded(report) => assert!(matches!(report.outcome, LoadOutcome::ReadFailed(_))),
        _ => panic!("not served"),
    }
    let calls = seen(&log);
    assert_eq!(calls.len(), 1);
    match &calls[0] {
        Seen::Error(text) => assert!(text.starts_with("raw: read failed: "), "{}", text),
        other => panic!("unexpected {:?}", other),
    }
}

#[test]
fn request_outcome_names_the_entry() {
    assert!(request_outcome::<u8>("e", Ok(())).is_ok());
    let (sender, receiver) = std::sync::mpsc::channel::<u8>();
    drop(receiver);
    let err = request_outcome("e", sender.send(1)).unwrap_err();
    assert_eq!(
        err.to_text(),
        "e: open request failed: sending on a closed channel"
    );
}

#[test]
fn with_archive_follows_the_opening() {
    let bytes = archive(&[("one", b"1")]);
    let opened = zip::ZipArchive::new(std::io::Cursor::new(bytes));
    assert!(DataLoader::with_archive("label", opened).is_ok());
    let failed = zip::ZipArchive::new(std::io::Cursor::new(Vec::new()));
    let err = match DataLoader::with_archive("label", failed) {
        Ok(_) => panic!("opened"),
        Err(err) => err,
    };
    assert_eq!(err.description(), "label: open zip failed");
}

#[test]
fn wrapper_takes_chunks_up_to_its_limit() {
    let log = new_log();
    let mut wrapper = ReadAllWrapper::new(Whole { log: log.clone() }, Some(5));
    assert_eq!(wrapper.len(), 0);
    wrapper.on_read(b"abc").unwrap();
    assert_eq!(wrapper.len(), 3);
    let err = wrapper.on_read(b"def").unwrap_err();
    assert_eq!(err.to_text(), "maximum file size exceeded");
    assert_eq!(wrapper.len(), 3);
    wrapper.on_read(b"").unwrap();
    wrapper.on_read(b"de").unwrap();
    assert_eq!(wrapper.len(), 5);
    assert!(wrapper.on_read(b"f").is_err());
    Box::new(wrapper).on_eof().unwrap();
    assert_eq!(seen(&log), vec![Seen::ReadAll(b"abcde".to_vec())]);
}

#[test]
fn wrapper_without_limit_takes_everything() {
    let log = new_log();
    let mut wrapper = ReadAllWrapper::new(Whole { log: log.clone() }, None);
    for _ in 0..100 {
        wrapper.on_read(&pattern(1024)).unwrap();
    }
    assert_eq!(wrapper.len(), 102400);
}

#[test]
fn wrapper_passes_errors_on() {
    let log = new_log();
    let wrapper = ReadAllWrapper::new(Whole { log: log.clone() }, None);
    Box::new(wrapper).on_error(GenericError::from("broken"));
    assert_eq!(seen(&log), vec![Seen::Error("broken".to_string())]);
}

#[test]
fn answer_follows_what_was_received() {
    let bytes = archive(&[("one", b"1")]);
    let (_loader, mut worker) = DataLoader::open("mem", bytes).unwrap();
    let log = new_log();
    assert!(matches!(worker.answer(Ok(Request::Quit)), Served::Quit));
    let (sender, receiver) = std::sync::mpsc::channel::<Request>();
    drop(sender);
    assert!(matches!(
        worker.answer(receiver.recv()),
        Served::Disconnected
    ));
    let request = Request::load(
        "one",
        Streaming {
            log: log.clone(),
            fail_on_read: false,
        },
    );
    match worker.answer(Ok(request)) {
        Served::Loaded(report) => {
            assert_eq!(report.name, "one");
            assert!(matches!(report.outcome, LoadOutcome::Completed(Ok(()))));
        }
        _ => panic!("not served"),
    }
    assert_eq!(seen(&log), vec![Seen::Read(b"1".to_vec()), Seen::Eof]);
}

#[test]
fn open_succeeds_exactly_on_archives() {
    assert!(DataLoader::open("a", archive(&[])).is_ok());
    assert!(DataLoader::open("a", archive(&[("x", b"")])).is_ok());
    assert!(DataLoader::open("a", Vec::new()).is_err());
    let mut broken = archive(&[("x", b"y")]);
    broken.truncate(broken.len() - 10);
    let err = match DataLoader::open("broken.pk3", broken) {
        Ok(_) => panic!("opened"),
        Err(err) => err,
    };
    assert_eq!(err.description(), "broken.pk3: open zip failed");
}

#[test]
fn worker_serves_what_the_archive_lists() {
    let bytes = archive(&[("listed", b"here")]);
    let (_loader, mut worker) = DataLoader::open("mem", bytes).unwrap();
    let log = new_log();
    let reports = worker.serve_all(vec![
        Request::load("listed", Streaming { log: log.clone(), fail_on_read: false }),
        Request::load("Listed", Streaming { log: log.clone(), fail_on_read: false }),
    ]);
    assert!(matches!(reports[0].outcome, LoadOutcome::Completed(Ok(()))));
    assert!(matches!(reports[1].outcome, LoadOutcome::OpenFailed(_)));
}

struct Refusing;

impl ErrorHandler for Refusing {
    fn on_error(self: Box<Self>, _err: GenericError) {}
}

impl ReadAllHandler for Refusing {
    fn on_read_all(self: Box<Self>, buf: Vec<u8>) -> Result<(), GenericError> {
        Err(GenericError::from(format!("refused {} bytes", buf.len())))
    }
}

#[test]
fn wrapper_gives_what_its_handler_gives() {
    let mut wrapper = ReadAllWrapper::new(Refusing, None);
    wrapper.on_read(b"abc").unwrap();
    wrapper.on_read(b"de").unwrap();
    let err = Box::new(wrapper).on_eof().unwrap_err();
    assert_eq!(err.to_text(), "refused 5 bytes");
}

#[test]
fn completed_load_carries_the_handlers_result() {
    let bytes = archive(&[("e", b"abcd")]);
    let (loader, mut worker) = DataLoader::open("mem", bytes).unwrap();
    loader.read_all("e", Refusing, None).unwrap();
    match worker.serve_next() {
        Served::Loaded(report) => match report.outcome {
            LoadOutcome::Completed(Err(err)) => assert_eq!(err.to_text(), "refused 4 bytes"),
            _ => panic!("not completed with the handler's error"),
        },
        _ => panic!("not served"),
    }
}

#[test]
fn open_failure_carries_its_reason() {
    let bytes = archive(&[("present", b"x")]);
    let (loader, mut worker) = DataLoader::open("mem", bytes).unwrap();
    let log = new_log();
    loader.read_all("absent", Whole { log: log.clone() }, None).unwrap();
    match worker.serve_next() {
        Served::Loaded(report) => match report.outcome {
            LoadOutcome::OpenFailed(cause) => {
                assert_eq!(cause, "specified file not found in archive")
            }
            _ => panic!("not failed at the opening"),
        },
        _ => panic!("not served"),
    }
}

/// An archive whose only entry says, in an extra field, that it is
/// encrypted with AES, while its flags say that it is not encrypted.
fn archive_with_unmarked_aes_entry() -> Vec<u8> {
    let mut writer = zip::ZipWriter::new(std::io::Cursor::new(Vec::new()));
    writer
        .start_file_with_extra_data(
            "locked",
            zip::write::FileOptions::default().compression_method(zip::CompressionMethod::Stored),
        )
        .unwrap();
    let field = [0xfe, 0xca, 0x07, 0x00, 0x02, 0x00, 0x41, 0x45, 0x03, 0x00, 0x00];
    writer.write_all(&field).unwrap();
    writer.end_extra_data().unwrap();
    writer.write_all(b"secret").unwrap();
    let mut bytes = writer.finish().unwrap().into_inner();
    let mut patched = 0;
    for at in 0..bytes.len() - field.len() {
        if bytes[at..at + field.len()] == field {
            bytes[at] = 0x01;
            bytes[at + 1] = 0x99;
            patched += 1;
        }
    }
    assert!(patched >= 1);
    bytes
}

#[test]
fn entry_that_wants_a_password_fails_at_the_opening() {
    let (loader, mut worker) =
        DataLoader::open("mem", archive_with_unmarked_aes_entry()).unwrap();
    let log = new_log();
    loader.read_all("locked", Whole { log: log.clone() }, None).unwrap();
    match worker.serve_next() {
        Served::Loaded(report) => match report.outcome {
            LoadOutcome::OpenFailed(cause) => {
                assert_eq!(cause, "invalid password for file in archive")
            }
            _ => panic!("not failed at the opening"),
        },
        _ => panic!("not served"),
    }
    assert_eq!(
        seen(&log),
        vec![Seen::Error(
            "locked: open failed: invalid password for file in archive".to_string()
        )]
    );
}

#[test]
fn found_entry_gives_the_entry_or_the_reason() {
    let bytes = archive(&[("one", b"1")]);
    let mut opened = zip::ZipArchive::new(std::io::Cursor::new(bytes)).unwrap();
    assert!(found_entry(opened.by_name_decrypt("one", &[])).is_ok());
    let cause = match found_entry(opened.by_name_decrypt("two", &[])) {
        Ok(_) => panic!("found"),
        Err(cause) => cause,
    };
    assert_eq!(cause, "specified file not found in archive");
    let mut locked =
        zip::ZipArchive::new(std::io::Cursor::new(archive_with_unmarked_aes_entry())).unwrap();
    let cause = match found_entry(locked.by_name_decrypt("locked", &[])) {
        Ok(_) => panic!("found"),
        Err(cause) => cause,
    };
    assert_eq!(cause, "invalid password for file in archive");
}

#[test]
fn read_step_tells_chunks_from_the_end() {
    assert!(matches!(read_step(Ok(0)), ReadStep::End));
    assert!(matches!(read_step(Ok(1)), ReadStep::Chunk(1)));
    assert!(matches!(read_step(Ok(1024)), ReadStep::Chunk(1024)));
    let failed = read_step(Err(std::io::Error::new(std::io::ErrorKind::Other, "bad sector")));
    match failed {
        ReadStep::Failed(cause) => assert_eq!(cause, "bad sector"),
        _ => panic!("not failed"),
    }
}

#[test]
fn read_failure_carries_its_reason() {
    let data = pattern(1500);
    let mut writer = zip::ZipWriter::new(std::io::Cursor::new(Vec::new()));
    writer
        .start_file(
            "raw",
            zip::write::FileOptions::default().compression_method(zip::CompressionMethod::Stored),
        )
        .unwrap();
    writer.write_all(&data).unwrap();
    let mut bytes = writer.finish().unwrap().into_inner();
    let at = bytes.windows(8).position(|w| w == &data[100..108]).unwrap();
    bytes[at] ^= 0xff;
    let (loader, mut worker) = DataLoader::open("mem", bytes).unwrap();
    let log = new_log();
    loader.read_all("raw", Whole { log: log.clone() }, None).unwrap();
    let cause = match worker.serve_next() {
        Served::Loaded(report) => match report.outcome {
            LoadOutcome::ReadFailed(cause) => cause,
            _ => panic!("not failed at a read"),
        },
        _ => panic!("not served"),
    };
    assert_eq!(
        seen(&log),
        vec![Seen::Error(format!("raw: read failed: {}", cause))]
    );
}

#[test]
fn refused_handler_is_handed_back_unended() {
    let bytes = archive(&[("e", b"abc")]);
    let (loader, mut worker) = DataLoader::open("mem", bytes).unwrap();
    let log = new_log();
    loader
        .read(
            "e",
            Streaming {
                log: log.clone(),
                fail_on_read: true,
            },
        )
        .unwrap();
    let handler = match worker.serve_next() {
        Served::Loaded(report) => match report.outcome {
            LoadOutcome::Abandoned(_, handler) => handler,
            _ => panic!("not abandoned"),
        },
        _ => panic!("not served"),
    };
    assert_eq!(seen(&log), vec![Seen::Read(b"abc".to_vec())]);
    drop(handler);
    assert_eq!(seen(&log), vec![Seen::Read(b"abc".to_vec())]);
}

#[test]
fn oversized_entry_never_reaches_the_inner_handler() {
    let data = pattern(3000);
    let bytes = archive(&[("big", &data)]);
    let (loader, mut worker) = DataLoader::open("mem", bytes).unwrap();
    let log = new_log();
    loader.read_all("big", Whole { log: log.clone() }, Some(2999)).unwrap();
    match worker.serve_next() {
        Served::Loaded(report) => match report.outcome {
            LoadOutcome::Abandoned(err, handler) => {
                assert_eq!(err.to_text(), "maximum file size exceeded");
                drop(handler);
            }
            _ => panic!("not abandoned"),
        },
        _ => panic!("not served"),
    }
    assert_eq!(seen(&log), vec![]);
}
