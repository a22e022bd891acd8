//! Errors of the systemd backend.

use cgroups_rs::systemd::dbus::error::{Error, Timeout};

#[test]
fn messages() {
    assert_eq!(Error::InvalidProperties.message(), "invalid properties");
    assert_eq!(
        Error::JobFailed("timeout".to_string()).message(),
        "systemd job failed with result: timeout"
    );
    assert_eq!(
        Error::JobRemovedSignalStreamClosed.message(),
        "systemd JobRemoved signal stream closed"
    );
    assert_eq!(
        Error::JobWaitTimedOut {
            unit: "a.scope".to_string(),
            job: "/org/freedesktop/systemd1/job/7".to_string(),
            timeout: Timeout {
                secs: 1,
                nanos: 500_000_000,
            },
        }
        .message(),
        "timed out after 1.5s waiting for systemd job /org/freedesktop/systemd1/job/7 for unit a.scope"
    );
    assert_eq!(
        Error::Dbus(zbus::Error::NameTaken).message(),
        "dbus error: name already taken on the bus"
    );
}

#[test]
fn descriptions() {
    let e = Error::JobWaitTimedOut {
        unit: "u".to_string(),
        job: "j".to_string(),
        timeout: Timeout { secs: 0, nanos: 0 },
    };
    assert_eq!(
        e.describe("30s", "unused"),
        "timed out after 30s waiting for systemd job j for unit u"
    );
    assert_eq!(Error::Dbus(zbus::Error::InvalidReply).describe("unused", "text"), "dbus error: text");
}

#[test]
fn dbus_errors_are_wrapped() {
    let e = Error::from(zbus::Error::Failure("no bus".to_string()));
    assert_eq!(e.source(), Some(&zbus::Error::Failure("no bus".to_string())));
    assert_eq!(e.message(), "dbus error: no bus");
    assert_eq!(Error::InvalidProperties.source(), None);
}
