//! Memory notifications, with the operations answered from memory.

use nix::errno::Errno;
use nix::sys::inotify::AddWatchFlags;

use cgroups_rs::fs::error::{Cause, Error, ErrorKind};
use cgroups_rs::fs::events::{notify_memory_pressure, notify_on_oom_v1, notify_on_oom_v2};
use cgroups_rs::fs::files::FileData;
use cgroups_rs::fs::inotify::WatchEvent;
use cgroups_rs::fs::memory_event::{EventListener, ListenerInput, ListenerPhase};
use cgroups_rs::fs::number::NumberError;
use cgroups_rs::fs::oom::{read_oom_count, OomAction, OomInput, OomTarget, OomWatcher, Reaction};

const PARENT: i32 = 1;
const EVENTS: i32 = 2;

fn data(content: &str) -> Result<FileData, String> {
    Ok(FileData {
        bytes: content.as_bytes().to_vec(),
        failure: None,
    })
}

fn event(wd: i32, flags: AddWatchFlags, name: Option<&str>) -> WatchEvent {
    WatchEvent {
        wd,
        mask: flags.bits(),
        name: name.map(|n| n.as_bytes().to_vec()),
    }
}

fn modified() -> WatchEvent {
    event(EVENTS, AddWatchFlags::IN_MODIFY, None)
}

fn watcher(content: &str) -> OomWatcher {
    notify_on_oom_v2("test-key", b"/sys/fs/cgroup/test")
        .unwrap()
        .created(Ok(()))
        .unwrap()
        .watched(Ok(PARENT))
        .unwrap()
        .watched(Ok(EVENTS))
        .unwrap()
        .read(data(content))
        .unwrap()
}

/// Hands a batch to the watcher, with what the file holds meanwhile, and gives what it sent.
fn deliver(w: &mut OomWatcher, batch: Vec<WatchEvent>, content: &str) -> Vec<String> {
    let mut sent = Vec::new();
    assert_eq!(w.action(), OomAction::ReadEvents);
    w.step(OomInput::Events(batch));
    loop {
        let input = match w.action() {
            OomAction::ReadEvents | OomAction::Close => return sent,
            OomAction::CheckDir => OomInput::DirExists(true),
            OomAction::ReadCount => OomInput::Contents(data(content)),
            OomAction::Notify => {
                sent.push(w.key().to_string());
                OomInput::Sent(true)
            }
        };
        w.step(input);
    }
}

#[test]
fn test_read_oom_count() {
    let path = b"/sys/fs/cgroup/test/memory.events";

    // full format, including the newer sock_throttled line
    assert_eq!(
        read_oom_count(
            path,
            data("low 0\nhigh 0\nmax 0\noom 3\noom_kill 0\noom_group_kill 0\nsock_throttled 0\n")
        )
        .unwrap(),
        3
    );

    // line order must not matter, and missing lines are fine (older kernels)
    assert_eq!(read_oom_count(path, data("oom 7\nlow 0\n")).unwrap(), 7);

    // key absent -> error
    assert!(read_oom_count(path, data("low 0\nhigh 0\n")).is_err());

    // file absent -> error
    assert!(read_oom_count(b"nope", Err("No such file or directory".to_string())).is_err());
}

#[test]
fn test_notify_on_oom_v2() {
    let mut w = watcher("low 0\nhigh 0\nmax 0\noom 5\noom_kill 0\n");

    // Pre-existing OOMs are the baseline, not notified.
    assert_eq!(w.base(), 5);
    assert_eq!(w.action(), OomAction::ReadEvents);
    assert!(deliver(&mut w, vec![modified()], "low 0\nhigh 0\nmax 0\noom 5\noom_kill 0\n").is_empty());

    // A kill-count change without a new OOM must not notify.
    assert!(deliver(&mut w, vec![modified()], "low 0\nhigh 0\nmax 0\noom 5\noom_kill 1\n").is_empty());

    // One new OOM produces exactly one notification.
    assert_eq!(
        deliver(&mut w, vec![modified()], "low 0\nhigh 0\nmax 0\noom 6\noom_kill 1\n"),
        vec!["test-key".to_string()]
    );

    // no duplicate flood while the count stays the same
    assert!(deliver(
        &mut w,
        vec![modified(), modified()],
        "low 0\nhigh 0\nmax 0\noom 6\noom_kill 1\n"
    )
    .is_empty());

    // A second OOM is notified again.
    assert_eq!(
        deliver(&mut w, vec![modified(), modified()], "low 0\nhigh 0\nmax 0\noom 7\noom_kill 1\n"),
        vec!["test-key".to_string()]
    );

    // Destroying the cgroup closes the channel.
    let removed = event(PARENT, AddWatchFlags::IN_DELETE | AddWatchFlags::IN_ISDIR, Some("test"));
    assert!(deliver(&mut w, vec![removed], "").is_empty());
    assert_eq!(w.action(), OomAction::Close);
}

#[test]
fn test_notify_on_oom_v2_closes_when_cgroup_moves() {
    let mut w = watcher("low 0\nhigh 0\nmax 0\noom 0\noom_kill 0\n");

    let made = event(PARENT, AddWatchFlags::IN_CREATE | AddWatchFlags::IN_ISDIR, Some("test.sibling"));
    let gone = event(PARENT, AddWatchFlags::IN_DELETE | AddWatchFlags::IN_ISDIR, Some("test.sibling"));
    assert!(deliver(&mut w, vec![made, gone], "").is_empty());
    assert_eq!(w.action(), OomAction::ReadEvents);

    let moved = event(PARENT, AddWatchFlags::IN_MOVED_FROM | AddWatchFlags::IN_ISDIR, Some("test"));
    assert!(deliver(&mut w, vec![moved], "").is_empty());
    assert_eq!(w.action(), OomAction::Close);
}

#[test]
fn reactions() {
    let target = OomTarget {
        parent_watch: PARENT,
        events_watch: EVENTS,
        cgroup_name: b"test".to_vec(),
    };
    let react = |wd, flags, name| target.reaction(&event(wd, flags, name));

    // An overflow counts whatever it is reported with.
    assert_eq!(react(-1, AddWatchFlags::IN_Q_OVERFLOW, None), Reaction::Resync);
    assert_eq!(
        react(PARENT, AddWatchFlags::IN_Q_OVERFLOW | AddWatchFlags::IN_DELETE, Some("test")),
        Reaction::Resync
    );
    // Removal is for the parent's watch and the name alone.
    assert_eq!(react(PARENT, AddWatchFlags::IN_DELETE, Some("test")), Reaction::Close);
    assert_eq!(react(PARENT, AddWatchFlags::IN_MOVED_FROM, Some("test")), Reaction::Close);
    assert_eq!(react(EVENTS, AddWatchFlags::IN_DELETE, Some("test")), Reaction::Ignore);
    assert_eq!(react(PARENT, AddWatchFlags::IN_DELETE, Some("tes")), Reaction::Ignore);
    assert_eq!(react(PARENT, AddWatchFlags::IN_DELETE, None), Reaction::Ignore);
    assert_eq!(react(PARENT, AddWatchFlags::IN_MOVED_TO, Some("test")), Reaction::Ignore);
    // A lost watch closes, whichever it is.
    assert_eq!(react(PARENT, AddWatchFlags::IN_IGNORED, None), Reaction::Close);
    assert_eq!(react(EVENTS, AddWatchFlags::IN_UNMOUNT, None), Reaction::Close);
    assert_eq!(react(7, AddWatchFlags::IN_IGNORED, None), Reaction::Close);
    // The count is for the other watch.
    assert_eq!(react(EVENTS, AddWatchFlags::IN_MODIFY, None), Reaction::Count);
    assert_eq!(react(PARENT, AddWatchFlags::IN_MODIFY, Some("test")), Reaction::Ignore);
    assert_eq!(react(EVENTS, AddWatchFlags::IN_ATTRIB, None), Reaction::Ignore);
}

#[test]
fn overflow_resynchronises() {
    let lost = || event(-1, AddWatchFlags::IN_Q_OVERFLOW, None);

    let mut w = watcher("oom 1\n");
    assert_eq!(deliver(&mut w, vec![lost()], "oom 4\n"), vec!["test-key".to_string()]);
    assert_eq!(w.base(), 4);

    w.step(OomInput::Events(vec![lost(), modified()]));
    assert_eq!(w.action(), OomAction::CheckDir);
    assert_eq!(w.dir(), b"/sys/fs/cgroup/test");
    w.step(OomInput::DirExists(false));
    assert_eq!(w.action(), OomAction::Close);
}

#[test]
fn watcher_closes_on_failures() {
    let mut w = watcher("oom 1\n");
    w.step(OomInput::ReadFailed(Errno::EINTR as i32));
    assert_eq!(w.action(), OomAction::ReadEvents);
    w.step(OomInput::ReadFailed(Errno::EBADF as i32));
    assert_eq!(w.action(), OomAction::Close);

    let mut w = watcher("oom 1\n");
    w.step(OomInput::Events(vec![modified()]));
    assert_eq!(w.action(), OomAction::ReadCount);
    assert_eq!(w.path(), b"/sys/fs/cgroup/test/memory.events");
    w.step(OomInput::Contents(Err("No such file or directory".to_string())));
    assert_eq!(w.action(), OomAction::Close);

    let mut w = watcher("oom 1\n");
    w.step(OomInput::Events(vec![modified()]));
    w.step(OomInput::Contents(data("oom 2\n")));
    assert_eq!(w.action(), OomAction::Notify);
    w.step(OomInput::Sent(false));
    assert_eq!(w.action(), OomAction::Close);
    assert_eq!(w.base(), 1);
}

#[test]
fn events_of_a_batch_keep_their_order() {
    let mut w = watcher("oom 1\n");
    let removed = event(PARENT, AddWatchFlags::IN_DELETE, Some("test"));
    // The growth comes before the removal, and is still notified.
    assert_eq!(deliver(&mut w, vec![modified(), removed], "oom 2\n"), vec!["test-key".to_string()]);
    assert_eq!(w.action(), OomAction::Close);
    // A removal that comes first is the end.
    let mut w = watcher("oom 1\n");
    let removed = event(PARENT, AddWatchFlags::IN_DELETE, Some("test"));
    assert!(deliver(&mut w, vec![removed, modified()], "oom 2\n").is_empty());
}

#[test]
fn a_falling_count_is_not_notified() {
    let mut w = watcher("oom 5\n");
    assert!(deliver(&mut w, vec![modified()], "oom 3\n").is_empty());
    assert_eq!(w.base(), 5);
    assert!(deliver(&mut w, vec![modified()], "oom 5\n").is_empty());
    assert_eq!(deliver(&mut w, vec![modified()], "oom 9\n").len(), 1);
    assert_eq!(w.base(), 9);
}

#[test]
fn set_up_watches_what_it_should() {
    let parent = notify_on_oom_v2("k", b"/sys/fs/cgroup/a/b").unwrap().created(Ok(())).unwrap();
    assert_eq!(parent.path(), b"/sys/fs/cgroup/a");
    assert_eq!(parent.mask(), (AddWatchFlags::IN_DELETE | AddWatchFlags::IN_MOVED_FROM).bits());
    let events = parent.watched(Ok(3)).unwrap();
    assert_eq!(events.path(), b"/sys/fs/cgroup/a/b/memory.events");
    assert_eq!(events.mask(), AddWatchFlags::IN_MODIFY.bits());
    let baseline = events.watched(Ok(4)).unwrap();
    assert_eq!(baseline.path(), b"/sys/fs/cgroup/a/b/memory.events");
    assert_eq!(baseline.read(data("oom 2\n")).unwrap().base(), 2);
}

#[test]
fn set_up_without_a_parent_or_a_name() {
    // A single component has the empty path for a parent: the current directory is watched.
    let parent = notify_on_oom_v2("k", b"group").unwrap().created(Ok(())).unwrap();
    assert_eq!(parent.path(), b".");
    assert_eq!(parent.watched(Ok(1)).unwrap().path(), b"group/memory.events");

    for dir in ["/", "..", "a/..", ""] {
        assert_eq!(
            notify_on_oom_v2("k", dir.as_bytes()).unwrap_err(),
            Error::from_string(format!("cannot watch cgroup removal for {}", dir))
        );
    }
    // The name is the last component, whatever follows it.
    let mut w = notify_on_oom_v2("k", b"/a/b//")
        .unwrap()
        .created(Ok(()))
        .unwrap()
        .watched(Ok(PARENT))
        .unwrap()
        .watched(Ok(EVENTS))
        .unwrap()
        .read(data("oom 0"))
        .unwrap();
    w.step(OomInput::Events(vec![event(PARENT, AddWatchFlags::IN_DELETE, Some("b"))]));
    assert_eq!(w.action(), OomAction::Close);
}

#[test]
fn set_up_reports_the_first_failure() {
    let why = || "why".to_string();
    let failed = |path: &str| {
        Error::with_cause(ErrorKind::ReadFailed(path.to_string()), Cause::Io("why".to_string()))
    };
    let plan = || notify_on_oom_v2("k", b"/a/b").unwrap();
    assert_eq!(plan().created(Err(why())).unwrap_err(), failed("/a/b/memory.events"));
    let parent = || plan().created(Ok(())).unwrap();
    assert_eq!(parent().watched(Err(why())).unwrap_err(), failed("/a"));
    let events = || parent().watched(Ok(1)).unwrap();
    assert_eq!(events().watched(Err(why())).unwrap_err(), failed("/a/b/memory.events"));
    let baseline = || events().watched(Ok(2)).unwrap();
    assert_eq!(baseline().read(Err(why())).unwrap_err(), failed("/a/b/memory.events"));
    assert_eq!(
        baseline().read(data("low 0\n")).unwrap_err(),
        Error::from_string("oom not found".to_string())
    );
    assert_eq!(
        baseline().read(data("oom -1\n")).unwrap_err(),
        Error::with_cause(ErrorKind::ParseError, Cause::Number(NumberError::InvalidDigit))
    );
    assert_eq!(
        baseline().read(data("oom 18446744073709551616\n")).unwrap_err(),
        Error::with_cause(ErrorKind::ParseError, Cause::Number(NumberError::Overflow))
    );
}

#[test]
fn keys_without_a_value_are_passed_over() {
    assert_eq!(read_oom_count(b"p", data("oom\noom 2 3\noom 9\n")).unwrap(), 2);
    assert_eq!(read_oom_count(b"p", data("  oom\t4\r\n")).unwrap(), 4);
    assert!(read_oom_count(b"p", data("ooms 4\n")).is_err());
}

fn listener(key: &str) -> EventListener {
    notify_on_oom_v1(key, b"/cg")
        .opened(Ok(4))
        .unwrap()
        .created(Ok(5))
        .unwrap()
        .written(Ok(()))
        .unwrap()
}

#[test]
fn oom_v1_registration() {
    let registration = notify_on_oom_v1("k", b"/cg");
    assert_eq!(registration.path(), b"/cg/memory.oom_control");
    let control = registration.opened(Ok(12)).unwrap().created(Ok(9)).unwrap();
    assert_eq!(control.path(), b"/cg/cgroup.event_control");
    assert_eq!(control.data(), "9 12");
}

#[test]
fn pressure_registration() {
    for level in ["low", "medium", "critical"] {
        let registration = notify_memory_pressure("k", b"/cg/", level).unwrap();
        assert_eq!(registration.path(), b"/cg/memory.pressure_level");
        let control = registration.opened(Ok(0)).unwrap().created(Ok(2147483647)).unwrap();
        assert_eq!(control.data(), format!("2147483647 0 {}", level));
    }
    for level in ["", "Low", "high", "low "] {
        assert_eq!(
            notify_memory_pressure("k", b"/cg", level).unwrap_err(),
            Error::from_string(format!("invalid pressure level {}", level))
        );
    }
}

#[test]
fn registration_reports_the_first_failure() {
    let why = || "why".to_string();
    let cause = || Cause::Io("why".to_string());
    assert_eq!(
        notify_on_oom_v1("k", b"/cg").opened(Err(why())).unwrap_err(),
        Error::with_cause(ErrorKind::ReadFailed("/cg/memory.oom_control".to_string()), cause())
    );
    assert_eq!(
        notify_on_oom_v1("k", b"/cg").opened(Ok(4)).unwrap().created(Err(why())).unwrap_err(),
        Error::with_cause(ErrorKind::ReadFailed("eventfd".to_string()), cause())
    );
    assert_eq!(
        notify_memory_pressure("k", b"/cg", "low")
            .unwrap()
            .opened(Ok(-4))
            .unwrap()
            .created(Ok(i32::MIN))
            .unwrap()
            .written(Err(why()))
            .unwrap_err(),
        Error::with_cause(
            ErrorKind::WriteFailed(
                "/cg/cgroup.event_control".to_string(),
                "-2147483648 -4 low".to_string()
            ),
            cause()
        )
    );
}

#[test]
fn listener_notifies_while_the_group_lives() {
    let mut l = listener("k");
    assert_eq!(l.key(), "k");
    assert_eq!(l.control_path(), b"/cg/cgroup.event_control");
    for _ in 0..3 {
        assert_eq!(l.phase(), ListenerPhase::Waiting);
        l.step(ListenerInput::Read(true));
        assert_eq!(l.phase(), ListenerPhase::Checking);
        l.step(ListenerInput::ControlExists(true));
        assert_eq!(l.phase(), ListenerPhase::Sending);
        l.step(ListenerInput::Sent);
    }
    l.step(ListenerInput::Read(true));
    l.step(ListenerInput::ControlExists(false));
    assert_eq!(l.phase(), ListenerPhase::Closed);

    let mut l = listener("k");
    l.step(ListenerInput::Read(false));
    assert_eq!(l.phase(), ListenerPhase::Closed);
}

#[test]
fn paths_need_not_be_text() {
    let parent = notify_on_oom_v2("k", b"/a\xff/b\xfe").unwrap().created(Ok(())).unwrap();
    assert_eq!(parent.path(), b"/a\xff");
    assert_eq!(
        parent.watched(Err("why".to_string())).unwrap_err().kind(),
        &ErrorKind::ReadFailed("/a\u{fffd}".to_string())
    );
    let mut w = notify_on_oom_v2("k", b"/a/\xfe")
        .unwrap()
        .created(Ok(()))
        .unwrap()
        .watched(Ok(PARENT))
        .unwrap()
        .watched(Ok(EVENTS))
        .unwrap()
        .read(data("oom 0"))
        .unwrap();
    let gone = |name: &[u8]| {
        OomInput::Events(vec![WatchEvent {
            wd: PARENT,
            mask: AddWatchFlags::IN_DELETE.bits(),
            name: Some(name.to_vec()),
        }])
    };
    w.step(gone("\u{fffd}".as_bytes()));
    assert_eq!(w.action(), OomAction::ReadEvents);
    w.step(gone(b"\xfe"));
    assert_eq!(w.action(), OomAction::Close);
}
