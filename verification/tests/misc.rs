//! The misc subsystem, on files that are kept in memory.

use std::collections::BTreeMap;
use std::path::PathBuf;

use cgroups_rs::fs::error::{Cause, Error, ErrorKind};
use cgroups_rs::fs::files::{FileData, ReadReply, StringRead, WriteReply, WriteRequest};
use cgroups_rs::fs::misc::{MiscApply, MiscController};
use cgroups_rs::fs::{
    Controllers, MiscLimits, MiscMaxValue, MiscResources, Resources, Subsystem,
};

/// A directory: its files, or nothing where it does not exist.
struct Dir {
    files: Option<BTreeMap<String, String>>,
}

fn test_dir() -> Dir {
    Dir {
        files: Some(BTreeMap::new()),
    }
}

fn no_such_dir() -> Dir {
    Dir { files: None }
}

fn path() -> PathBuf {
    PathBuf::from("/sys/fs/cgroup/test")
}

fn not_found(kind: ErrorKind) -> Error {
    Error::with_cause(kind, Cause::Io("No such file or directory".to_string()))
}

impl Dir {
    fn put(&mut self, name: &str, content: &str) {
        self.files.as_mut().unwrap().insert(name.to_string(), content.to_string());
    }

    fn get(&self, name: &str) -> String {
        self.files.as_ref().unwrap()[name].clone()
    }

    fn read(&self, request: StringRead) -> Result<String, Error> {
        let reply = match self.files.as_ref().and_then(|f| f.get(&request.file_name)) {
            Some(content) => ReadReply::Data(FileData {
                bytes: content.as_bytes().to_vec(),
                failure: None,
            }),
            None => {
                ReadReply::Unopened(not_found(ErrorKind::ReadFailed(request.file_name.clone())))
            }
        };
        request.finish(reply)
    }

    fn store(&mut self, request: &WriteRequest) -> WriteReply {
        match self.files.as_mut() {
            Some(files) => {
                files.insert(request.file_name.clone(), request.content.clone());
                WriteReply::Written
            }
            None => WriteReply::Unopened(not_found(ErrorKind::WriteFailed(
                request.file_name.clone(),
                request.content.clone(),
            ))),
        }
    }

    fn write(&mut self, request: WriteRequest) -> Result<(), Error> {
        let reply = self.store(&request);
        request.finish(reply)
    }

    fn apply(&mut self, mut run: MiscApply) -> Result<(), Error> {
        while let Some(request) = run.request() {
            let reply = self.store(&request);
            run.step(reply)?;
        }
        Ok(())
    }
}

fn resources(maximum: MiscLimits) -> Resources {
    Resources {
        misc: MiscResources { maximum },
    }
}

#[test]
fn test_misc_controller_read_files() {
    let mut dir = test_dir();

    dir.put("misc.capacity", "sev 50\nsev_es 100\n");
    dir.put("misc.current", "sev 10\nsev_es 20\n");
    dir.put("misc.peak", "sev 15\nsev_es 25\n");
    dir.put("misc.max", "sev 40\nsev_es max\n");
    dir.put("misc.events", "sev.max 2\n");
    dir.put("misc.events.local", "sev.max 1\n");

    let controller = MiscController::new(path(), path(), true);

    assert_eq!(dir.read(controller.capacity()).unwrap(), "sev 50\nsev_es 100");
    assert_eq!(dir.read(controller.current()).unwrap(), "sev 10\nsev_es 20");
    assert_eq!(dir.read(controller.peak()).unwrap(), "sev 15\nsev_es 25");
    assert_eq!(dir.read(controller.max()).unwrap(), "sev 40\nsev_es max");
    assert_eq!(dir.read(controller.events()).unwrap(), "sev.max 2");
    assert_eq!(dir.read(controller.events_local()).unwrap(), "sev.max 1");
}

#[test]
fn test_misc_controller_set_max() {
    let mut dir = test_dir();
    dir.put("misc.max", "");

    let controller = MiscController::new(path(), path(), true);
    dir.write(controller.set_max("sev 42")).unwrap();

    assert_eq!(dir.get("misc.max"), "sev 42");
}

#[test]
fn test_misc_controller_apply() {
    let mut dir = test_dir();
    dir.put("misc.max", "");

    let controller = MiscController::new(path(), path(), true);

    let mut maximum = MiscLimits::new();
    maximum.insert("sev".to_string(), MiscMaxValue::Value(123));

    dir.apply(controller.apply(&resources(maximum))).unwrap();

    assert_eq!(dir.get("misc.max"), "sev 123");
}

#[test]
fn test_misc_controller_apply_max() {
    let mut dir = test_dir();
    dir.put("misc.max", "");

    let controller = MiscController::new(path(), path(), true);

    let mut maximum = MiscLimits::new();
    maximum.insert("sev".to_string(), MiscMaxValue::Max);

    dir.apply(controller.apply(&resources(maximum))).unwrap();

    assert_eq!(dir.get("misc.max"), "sev max");
}

#[test]
fn test_misc_controller_apply_empty() {
    let mut dir = test_dir();
    dir.put("misc.max", "");

    let controller = MiscController::new(path(), path(), true);

    // No misc limits: apply must be a no-op and leave misc.max untouched.
    dir.apply(controller.apply(&Resources::default())).unwrap();

    assert_eq!(dir.get("misc.max"), "");
}

#[test]
fn test_misc_controller_read_missing_files() {
    // The cgroup directory itself does not exist: all reads must fail.
    let missing = no_such_dir();
    let controller = MiscController::new(path().join("no-such-cgroup"), path(), true);

    assert!(missing.read(controller.capacity()).is_err());
    assert!(missing.read(controller.current()).is_err());
    assert!(missing.read(controller.peak()).is_err());
    assert!(missing.read(controller.max()).is_err());
    assert!(missing.read(controller.events()).is_err());
    assert!(missing.read(controller.events_local()).is_err());
}

#[test]
fn test_misc_controller_set_max_missing_dir() {
    // The cgroup directory itself does not exist: creating misc.max fails.
    let mut missing = no_such_dir();
    let controller = MiscController::new(path().join("no-such-cgroup"), path(), true);

    assert!(missing.write(controller.set_max("sev 1")).is_err());
}

#[test]
fn set_max_reports_a_failed_write() {
    let controller = MiscController::new(path(), path(), false);
    assert_eq!(
        controller
            .set_max("sev 42")
            .finish(WriteReply::Failed("Invalid argument".to_string()))
            .unwrap_err(),
        Error::with_cause(
            ErrorKind::WriteFailed("misc.max".to_string(), "sev 42".to_string()),
            Cause::Io("Invalid argument".to_string())
        )
    );
}

#[test]
fn reads_report_their_failures() {
    let controller = MiscController::new(path(), path(), false);
    let broken = FileData {
        bytes: b"sev 1\n".to_vec(),
        failure: Some("Input/output error".to_string()),
    };
    assert_eq!(
        controller.peak().finish(ReadReply::Data(broken)).unwrap_err(),
        Error::with_cause(
            ErrorKind::ReadFailed("misc.peak".to_string()),
            Cause::Io("Input/output error".to_string())
        )
    );
    let garbled = FileData {
        bytes: vec![0xc3, 0x28],
        failure: None,
    };
    assert_eq!(
        controller.peak().finish(ReadReply::Data(garbled)).unwrap_err(),
        Error::with_cause(ErrorKind::ReadFailed("misc.peak".to_string()), Cause::InvalidUtf8)
    );
}

#[test]
fn limits_are_applied_once_each() {
    let mut maximum = MiscLimits::new();
    assert_eq!(maximum.insert("sev".to_string(), MiscMaxValue::Value(1)), None);
    assert_eq!(maximum.insert("tdx".to_string(), MiscMaxValue::Max), None);
    assert_eq!(
        maximum.insert("sev".to_string(), MiscMaxValue::Value(u64::MAX)),
        Some(MiscMaxValue::Value(1))
    );
    assert_eq!(maximum.len(), 2);
    assert_eq!(maximum.entry(0), ("sev", MiscMaxValue::Value(u64::MAX)));

    let controller = MiscController::new(path(), path(), true);
    let mut run = controller.apply(&resources(maximum));
    let first = run.request().unwrap();
    assert_eq!((first.file_name.as_str(), first.content.as_str()), ("misc.max", "sev 18446744073709551615"));
    run.step(WriteReply::Written).unwrap();
    assert_eq!(run.request().unwrap().content, "tdx max");
    run.step(WriteReply::Written).unwrap();
    assert_eq!(run.request(), None);
}

#[test]
fn apply_stops_at_the_first_failure() {
    let mut maximum = MiscLimits::default();
    maximum.insert("sev".to_string(), MiscMaxValue::Value(0));
    maximum.insert("tdx".to_string(), MiscMaxValue::Value(10));
    let controller = MiscController::new(path(), path(), true);
    let mut run = controller.apply(&resources(maximum));
    assert_eq!(
        run.step(WriteReply::Failed("Invalid argument".to_string())).unwrap_err().kind(),
        &ErrorKind::WriteFailed("misc.max".to_string(), "sev 0".to_string())
    );
    assert_eq!(run.request(), None);
}

#[test]
fn misc_controllers_know_their_place() {
    let mut c = MiscController::new(PathBuf::from("/a/b"), PathBuf::from("/a"), true);
    assert!(c.is_v2());
    assert_eq!(c.get_path(), &PathBuf::from("/a/b"));
    assert_eq!(c.get_base(), &PathBuf::from("/a"));
    assert_eq!(c.control_type(), Controllers::Misc);
    assert_eq!(MiscController::controller_type(), Controllers::Misc);
    c.get_path_mut().pop();
    assert_eq!(c.clone().get_path(), &PathBuf::from("/a"));
    assert_eq!(MiscController::from(&Subsystem::Misc(c)).get_base(), &PathBuf::from("/a"));
}

#[test]
fn misc_resources() {
    let mut root = test_dir();
    root.put("misc.capacity", "sev 50\nsev_es 100\n");
    let root_misc = MiscController::new(
        PathBuf::from("/sys/fs/cgroup"),
        PathBuf::from("/sys/fs/cgroup"),
        true,
    );
    let capacity = root.read(root_misc.capacity()).unwrap_or_default();
    let first_res = capacity.lines().find_map(|line| line.split_whitespace().next());

    let mut maximum = MiscLimits::new();
    if let Some(res_name) = first_res {
        maximum.insert(res_name.to_string(), MiscMaxValue::Max);
    }
    let mut dir = test_dir();
    let controller = MiscController::new(path(), path(), true);
    dir.apply(controller.apply(&resources(maximum))).unwrap();
    assert_eq!(dir.get("misc.max"), "sev max");
    assert_eq!(dir.read(controller.max()).unwrap(), "sev max");
}
