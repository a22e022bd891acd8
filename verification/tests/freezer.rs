//! The freezer, on files that are kept in memory.

use std::collections::BTreeMap;
use std::path::PathBuf;

use cgroups_rs::fs::error::{Cause, Error, ErrorKind};
use cgroups_rs::fs::files::{FileData, ReadReply, WriteReply, WriteRequest};
use cgroups_rs::fs::freezer::{FreezerController, StateQuery, StateStep};
use cgroups_rs::fs::misc::MiscController;
use cgroups_rs::fs::number::NumberError;
use cgroups_rs::fs::{Controllers, Resources, Subsystem};
use cgroups_rs::FreezerState;

type Files = BTreeMap<String, Vec<u8>>;

fn dir() -> PathBuf {
    PathBuf::from("/sys/fs/cgroup/test")
}

fn put(files: &mut Files, name: &str, content: &str) {
    files.insert(name.to_string(), content.as_bytes().to_vec());
}

fn get(files: &Files, name: &str) -> String {
    String::from_utf8(files[name].clone()).unwrap()
}

fn absent(name: &str) -> Error {
    Error::with_cause(
        ErrorKind::ReadFailed(format!("/sys/fs/cgroup/test/{}", name)),
        Cause::Io("No such file or directory".to_string()),
    )
}

fn read(files: &Files, name: &str) -> ReadReply {
    match files.get(name) {
        Some(bytes) => ReadReply::Data(FileData {
            bytes: bytes.clone(),
            failure: None,
        }),
        None => ReadReply::Unopened(absent(name)),
    }
}

fn write(files: &mut Files, request: WriteRequest) -> Result<(), Error> {
    let name = request.file_name.clone();
    let content = request.content.clone();
    put(files, &name, &content);
    request.finish(WriteReply::Written)
}

fn state(c: &FreezerController, files: &Files) -> Result<FreezerState, Error> {
    let mut query = c.state();
    loop {
        match query.step(read(files, &query.file_name())) {
            StateStep::Ask(next) => query = next,
            StateStep::Done(result) => return result,
        }
    }
}

#[test]
fn test_v1_state() {
    let mut files = Files::new();
    let c = FreezerController::new(dir(), dir(), false);
    assert!(!c.is_v2());

    put(&mut files, "freezer.state", "THAWED");
    assert_eq!(state(&c, &files).unwrap(), FreezerState::Thawed);

    put(&mut files, "freezer.state", "FROZEN");
    assert_eq!(state(&c, &files).unwrap(), FreezerState::Frozen);

    put(&mut files, "freezer.state", "FREEZING");
    assert_eq!(state(&c, &files).unwrap(), FreezerState::Freezing);

    put(&mut files, "freezer.state", "BOGUS");
    assert_eq!(state(&c, &files).unwrap_err().kind(), &ErrorKind::ParseError);
}

#[test]
fn test_v1_freeze_thaw() {
    let mut files = Files::new();
    let c = FreezerController::new(dir(), dir(), false);

    write(&mut files, c.freeze()).unwrap();
    assert_eq!(get(&files, "freezer.state"), "FROZEN");

    write(&mut files, c.thaw()).unwrap();
    assert_eq!(get(&files, "freezer.state"), "THAWED");
}

#[test]
fn test_v2_state() {
    let mut files = Files::new();
    let c = FreezerController::new(dir(), dir(), true);
    assert!(c.is_v2());

    put(&mut files, "cgroup.freeze", "0");
    put(&mut files, "cgroup.events", "frozen 0");
    assert_eq!(state(&c, &files).unwrap(), FreezerState::Thawed);

    put(&mut files, "cgroup.freeze", "1");
    assert_eq!(state(&c, &files).unwrap(), FreezerState::Freezing);

    put(&mut files, "cgroup.events", "frozen 1");
    assert_eq!(state(&c, &files).unwrap(), FreezerState::Frozen);

    put(&mut files, "cgroup.freeze", "2");
    assert_eq!(state(&c, &files).unwrap_err().kind(), &ErrorKind::ParseError);
}

#[test]
fn test_v2_freeze_thaw() {
    let mut files = Files::new();
    let c = FreezerController::new(dir(), dir(), true);

    write(&mut files, c.freeze()).unwrap();
    assert_eq!(get(&files, "cgroup.freeze"), "1");

    write(&mut files, c.thaw()).unwrap();
    assert_eq!(get(&files, "cgroup.freeze"), "0");
}

#[test]
fn v1_state_follows_the_request() {
    let mut files = Files::new();
    let c = FreezerController::new(dir(), dir(), false);
    write(&mut files, c.freeze()).unwrap();
    assert_eq!(state(&c, &files).unwrap(), FreezerState::Frozen);
    write(&mut files, c.thaw()).unwrap();
    assert_eq!(state(&c, &files).unwrap(), FreezerState::Thawed);
}

#[test]
fn v1_state_in_numbers_and_with_space() {
    let mut files = Files::new();
    let c = FreezerController::new(dir(), dir(), false);
    put(&mut files, "freezer.state", "1\n");
    assert_eq!(state(&c, &files).unwrap(), FreezerState::Frozen);
    put(&mut files, "freezer.state", " \t0\r\n");
    assert_eq!(state(&c, &files).unwrap(), FreezerState::Thawed);
    put(&mut files, "freezer.state", "\u{3000}FREEZING\u{a0}\n");
    assert_eq!(state(&c, &files).unwrap(), FreezerState::Freezing);
    put(&mut files, "freezer.state", "frozen");
    assert!(state(&c, &files).is_err());
    put(&mut files, "freezer.state", "");
    assert!(state(&c, &files).is_err());
}

#[test]
fn v2_state_follows_the_request() {
    let mut files = Files::new();
    let c = FreezerController::new(dir(), dir(), true);
    put(&mut files, "cgroup.events", "populated 1\nfrozen 0\n");
    write(&mut files, c.freeze()).unwrap();
    assert_eq!(state(&c, &files).unwrap(), FreezerState::Freezing);
    put(&mut files, "cgroup.events", "populated 1\nfrozen 1\n");
    assert_eq!(state(&c, &files).unwrap(), FreezerState::Frozen);
    write(&mut files, c.thaw()).unwrap();
    assert_eq!(state(&c, &files).unwrap(), FreezerState::Frozen);
    put(&mut files, "cgroup.events", "populated 1\nfrozen 0\n");
    assert_eq!(state(&c, &files).unwrap(), FreezerState::Thawed);
}

#[test]
fn v2_state_refuses_other_numbers() {
    let mut files = Files::new();
    let c = FreezerController::new(dir(), dir(), true);
    put(&mut files, "cgroup.freeze", "1");
    put(&mut files, "cgroup.events", "frozen 2");
    assert_eq!(state(&c, &files).unwrap_err(), Error::new(ErrorKind::ParseError));
    put(&mut files, "cgroup.events", "populated 0\n");
    assert_eq!(state(&c, &files).unwrap_err(), Error::new(ErrorKind::ParseError));
    put(&mut files, "cgroup.events", "frozen yes\n");
    assert_eq!(
        state(&c, &files).unwrap_err(),
        Error::with_cause(ErrorKind::ParseError, Cause::Number(NumberError::InvalidDigit))
    );
    put(&mut files, "cgroup.freeze", "\n");
    assert_eq!(
        state(&c, &files).unwrap_err(),
        Error::with_cause(ErrorKind::ParseError, Cause::Number(NumberError::Empty))
    );
}

#[test]
fn state_reports_what_cannot_be_opened() {
    let mut files = Files::new();
    let v1 = FreezerController::new(dir(), dir(), false);
    assert_eq!(state(&v1, &files).unwrap_err(), absent("freezer.state"));
    let v2 = FreezerController::new(dir(), dir(), true);
    assert_eq!(state(&v2, &files).unwrap_err(), absent("cgroup.freeze"));
    put(&mut files, "cgroup.freeze", "0");
    assert_eq!(state(&v2, &files).unwrap_err(), absent("cgroup.events"));
}

#[test]
fn state_reports_what_cannot_be_read() {
    let broken = || {
        ReadReply::Data(FileData {
            bytes: b"FROZEN".to_vec(),
            failure: Some("Input/output error".to_string()),
        })
    };
    assert_eq!(
        FreezerController::read_v1_state("freezer.state", broken()).unwrap_err(),
        Error::with_cause(
            ErrorKind::ReadFailed("freezer.state".to_string()),
            Cause::Io("Input/output error".to_string())
        )
    );
    let garbled = ReadReply::Data(FileData {
        bytes: vec![0xff, 0xfe],
        failure: None,
    });
    assert_eq!(
        FreezerController::read_v1_state("freezer.state", garbled).unwrap_err(),
        Error::with_cause(
            ErrorKind::ReadFailed("freezer.state".to_string()),
            Cause::InvalidUtf8
        )
    );
    assert_eq!(
        StateQuery::Requested.step(broken()),
        StateStep::Done(Err(Error::with_cause(
            ErrorKind::ReadFailed("cgroup.freeze".to_string()),
            Cause::Io("Input/output error".to_string())
        )))
    );
}

#[test]
fn frozen_counter_is_found_before_the_fault() {
    // The line with the key has been read when reading breaks off.
    let reply = ReadReply::Data(FileData {
        bytes: b"frozen 1\npopul".to_vec(),
        failure: Some("Input/output error".to_string()),
    });
    assert_eq!(FreezerController::read_frozen_counter("cgroup.events", reply).unwrap(), 1);
    // It has not been read to its end.
    let reply = ReadReply::Data(FileData {
        bytes: b"populated 1\nfrozen 1".to_vec(),
        failure: Some("Input/output error".to_string()),
    });
    assert_eq!(
        FreezerController::read_frozen_counter("cgroup.events", reply).unwrap_err().kind(),
        &ErrorKind::ReadFailed("cgroup.events".to_string())
    );
    // A line that cannot be decoded comes after it, or before it.
    let reply = ReadReply::Data(FileData {
        bytes: b"frozen 1\n\xff\n".to_vec(),
        failure: None,
    });
    assert_eq!(FreezerController::read_frozen_counter("cgroup.events", reply).unwrap(), 1);
    let reply = ReadReply::Data(FileData {
        bytes: b"\xff\nfrozen 1\n".to_vec(),
        failure: None,
    });
    assert_eq!(
        FreezerController::read_frozen_counter("cgroup.events", reply).unwrap_err(),
        Error::with_cause(
            ErrorKind::ReadFailed("cgroup.events".to_string()),
            Cause::InvalidUtf8
        )
    );
}

#[test]
fn writes_report_their_failures() {
    let c = FreezerController::new(dir(), dir(), false);
    assert_eq!(
        c.freeze().finish(WriteReply::Failed("Device or resource busy".to_string())).unwrap_err(),
        Error::with_cause(
            ErrorKind::WriteFailed("freezer.state".to_string(), "FROZEN".to_string()),
            Cause::Io("Device or resource busy".to_string())
        )
    );
    assert_eq!(
        c.thaw().finish(WriteReply::Unopened(absent("freezer.state"))).unwrap_err(),
        absent("freezer.state")
    );
}

#[test]
fn controllers_know_their_place() {
    let mut c = FreezerController::new(PathBuf::from("/a/b"), PathBuf::from("/a"), true);
    assert_eq!(c.get_path(), &PathBuf::from("/a/b"));
    assert_eq!(c.get_base(), &PathBuf::from("/a"));
    assert_eq!(c.control_type(), Controllers::Freezer);
    assert_eq!(FreezerController::controller_type(), Controllers::Freezer);
    assert!(c.apply(&Resources::default()).is_ok());

    c.get_path_mut().push("c");
    assert_eq!(c.get_path(), &PathBuf::from("/a/b/c"));
    assert_eq!(c.clone().get_path(), &PathBuf::from("/a/b/c"));

    let freezer = Subsystem::Freezer(c);
    assert_eq!(FreezerController::from(&freezer).get_path(), &PathBuf::from("/a/b/c"));
    let misc = Subsystem::Misc(MiscController::new(dir(), dir(), false));
    assert!(!MiscController::from(&misc).is_v2());
}

/// A control group whose kernel takes a while to do what it was asked for.
struct Kernel {
    v2: bool,
    files: Files,
    delay: usize,
}

impl Kernel {
    fn new(v2: bool) -> Kernel {
        let mut files = Files::new();
        if v2 {
            put(&mut files, "cgroup.freeze", "0\n");
            put(&mut files, "cgroup.events", "populated 1\nfrozen 0\n");
        } else {
            put(&mut files, "freezer.state", "THAWED\n");
        }
        Kernel { v2, files, delay: 0 }
    }

    fn write(&mut self, request: WriteRequest) {
        self.delay = 3;
        let frozen = request.content == "FROZEN";
        write(&mut self.files, request).unwrap();
        if frozen {
            put(&mut self.files, "freezer.state", "FREEZING\n");
        }
    }

    fn tick(&mut self) {
        if self.delay > 0 {
            self.delay -= 1;
            return;
        }
        if self.v2 {
            let events = format!("populated 1\nfrozen {}\n", get(&self.files, "cgroup.freeze").trim());
            put(&mut self.files, "cgroup.events", &events);
        } else if get(&self.files, "freezer.state") == "FREEZING\n" {
            put(&mut self.files, "freezer.state", "FROZEN\n");
        }
    }
}

/// Polls the freezer state until it reaches the expected value, tolerating transient states.
fn wait_for_state(kernel: &mut Kernel, freezer: &FreezerController, expected: FreezerState) {
    for _ in 0..100 {
        if state(freezer, &kernel.files).unwrap() == expected {
            return;
        }
        kernel.tick();
    }
    assert_eq!(state(freezer, &kernel.files).unwrap(), expected);
}

fn freeze_and_thaw(kernel: &mut Kernel) {
    let freezer = FreezerController::new(dir(), dir(), kernel.v2);
    kernel.write(freezer.freeze());
    wait_for_state(kernel, &freezer, FreezerState::Frozen);
    kernel.write(freezer.thaw());
    wait_for_state(kernel, &freezer, FreezerState::Thawed);
}

#[test]
fn test_freezer_v2_specified_controllers() {
    freeze_and_thaw(&mut Kernel::new(true));
}

#[test]
fn test_freezer_v1_freeze_thaw() {
    freeze_and_thaw(&mut Kernel::new(false));
}
