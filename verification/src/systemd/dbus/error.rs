//! What can go wrong when systemd is asked to manage a control group.

use std::time::Duration;

use vstd::prelude::*;
use vstd::string::*;

use zbus::Error as BusError;

verus! {

/// Errors of the D-Bus library. They are carried, not looked at.
#[verifier::external_type_specification]
#[verifier::external_body]
pub struct ExBusError(BusError);

/// A span of time: seconds and nanoseconds.
#[derive(Debug, Clone, Copy, PartialEq, Eq, Structural)]
pub struct Timeout {
    pub secs: u64,
    pub nanos: u32,
}

impl Timeout {
    /// The nanoseconds do not amount to a second.
    pub open spec fn wf(self) -> bool {
        self.nanos < 1_000_000_000
    }
}

/// What can go wrong.
#[derive(Debug)]
pub enum Error {
    /// The properties of a unit make no sense.
    InvalidProperties,
    /// A job of systemd ended with the given result.
    JobFailed(String),
    /// systemd no longer reports the jobs that end.
    JobRemovedSignalStreamClosed,
    /// A job of systemd did not end in time.
    JobWaitTimedOut { unit: String, job: String, timeout: Timeout },
    /// The D-Bus library reports an error.
    Dbus(BusError),
}

/// A span of time as `Debug` of `std`'s `Duration` writes it, such as `1.5s`.
pub uninterp spec fn duration_text(secs: u64, nanos: u32) -> Seq<char>;

/// `Debug` of `std`'s `Duration`. The text depends on the span alone; nothing more is claimed of
/// it.
#[verifier::external_body]
fn format_duration(secs: u64, nanos: u32) -> (r: String)
    requires
        nanos < 1_000_000_000,
    ensures
        r@ == duration_text(secs, nanos),
{
    format!("{:?}", Duration::new(secs, nanos))
}

/// `Display` of `zbus::Error`. Nothing is claimed of the text: an error may hold one of the
/// operating system, whose description depends on the machine, or one of another crate, which
/// describes itself.
#[verifier::external_body]
fn format_dbus_error(e: &BusError) -> (r: String) {
    e.to_string()
}

impl vstd::std_specs::convert::FromSpecImpl<BusError> for Error {
    open spec fn obeys_from_spec() -> bool {
        true
    }

    open spec fn from_spec(e: BusError) -> Error {
        Error::Dbus(e)
    }
}

impl From<BusError> for Error {
    fn from(e: BusError) -> Error {
        Error::Dbus(e)
    }
}

impl Error {
    /// The span of time in the error is one.
    pub open spec fn wf(self) -> bool {
        match self {
            Error::JobWaitTimedOut { timeout, .. } => timeout.wf(),
            _ => true,
        }
    }

    /// The span of time in the error as text.
    pub open spec fn timeout_text(self) -> Seq<char> {
        match self {
            Error::JobWaitTimedOut { timeout, .. } => duration_text(timeout.secs, timeout.nanos),
            _ => Seq::empty(),
        }
    }

    /// The description of the error, given those of the span of time and of the D-Bus library's
    /// error.
    pub open spec fn text(self, timeout: Seq<char>, dbus: Seq<char>) -> Seq<char> {
        match self {
            Error::InvalidProperties => "invalid properties"@,
            Error::JobFailed(result) => "systemd job failed with result: "@ + result@,
            Error::JobRemovedSignalStreamClosed => "systemd JobRemoved signal stream closed"@,
            Error::JobWaitTimedOut { unit, job, .. } => "timed out after "@ + timeout
                + " waiting for systemd job "@ + job@ + " for unit "@ + unit@,
            Error::Dbus(_) => "dbus error: "@ + dbus,
        }
    }

    /// Describes the error, given the descriptions of the span of time and of the D-Bus
    /// library's error.
    pub fn describe(&self, timeout: &str, dbus: &str) -> (r: String)
        ensures
            r@ == self.text(timeout@, dbus@),
    {
        match self {
            Error::InvalidProperties => "invalid properties".to_owned(),
            Error::JobFailed(result) => "systemd job failed with result: ".to_owned().concat(
                result.as_str(),
            ),
            Error::JobRemovedSignalStreamClosed => {
                "systemd JobRemoved signal stream closed".to_owned()
            },
            Error::JobWaitTimedOut { unit, job, .. } => "timed out after ".to_owned().concat(
                timeout,
            ).concat(" waiting for systemd job ").concat(job.as_str()).concat(" for unit ").concat(
                unit.as_str(),
            ),
            Error::Dbus(_) => "dbus error: ".to_owned().concat(dbus),
        }
    }

    /// Describes the error. What stands after `dbus error: ` is the D-Bus library's own
    /// description.
    pub fn message(&self) -> (r: String)
        requires
            self.wf(),
        ensures
            !(self is Dbus) ==> r@ == self.text(self.timeout_text(), Seq::empty()),
            self is Dbus ==> exists|dbus: Seq<char>|
                r@ == #[trigger] self.text(self.timeout_text(), dbus),
    {
        match self {
            Error::JobWaitTimedOut { timeout, .. } => {
                let t: String = format_duration(timeout.secs, timeout.nanos);
                self.describe(t.as_str(), "")
            },
            Error::Dbus(e) => {
                let d: String = format_dbus_error(e);
                let r: String = self.describe("", d.as_str());
                assert(r@ == self.text(self.timeout_text(), d@));
                r
            },
            _ => self.describe("", ""),
        }
    }

    /// The error behind this one, which only one of the D-Bus library has.
    pub fn source(&self) -> (r: Option<&BusError>)
        ensures
            match r {
                Some(e) => *self == Error::Dbus(*e),
                None => !(self is Dbus),
            },
    {
        match self {
            Error::Dbus(e) => Some(e),
            _ => None,
        }
    }
}

// ---------------------------------------------------------------------------------------------
// Laws
// ---------------------------------------------------------------------------------------------

/// Each error is described with all that it holds.
pub proof fn law_descriptions(
    result: String,
    unit: String,
    job: String,
    span: Timeout,
    e: BusError,
    timeout: Seq<char>,
    dbus: Seq<char>,
)
    ensures
        Error::InvalidProperties.text(timeout, dbus) == "invalid properties"@,
        Error::JobFailed(result).text(timeout, dbus) == "systemd job failed with result: "@
            + result@,
        Error::JobRemovedSignalStreamClosed.text(timeout, dbus)
            == "systemd JobRemoved signal stream closed"@,
        (Error::JobWaitTimedOut { unit, job, timeout: span }).text(timeout, dbus)
            == "timed out after "@ + timeout + " waiting for systemd job "@ + job@ + " for unit "@
            + unit@,
        Error::Dbus(e).text(timeout, dbus) == "dbus error: "@ + dbus,
        (Error::JobWaitTimedOut { unit, job, timeout: span }).timeout_text() == duration_text(
            span.secs,
            span.nanos,
        ),
{
}

/// A span of time is one exactly if its nanoseconds do not amount to a second, and only in an
/// error that holds one does that matter.
pub proof fn law_spans(unit: String, job: String, timeout: Timeout, result: String, e: BusError)
    ensures
        timeout.wf() <==> timeout.nanos < 1_000_000_000,
        (Error::JobWaitTimedOut { unit, job, timeout }).wf() <==> timeout.nanos < 1_000_000_000,
        Error::InvalidProperties.wf(),
        Error::JobFailed(result).wf(),
        Error::JobRemovedSignalStreamClosed.wf(),
        Error::Dbus(e).wf(),
{
}

/// An error of the D-Bus library is kept as it is.
pub proof fn law_dbus_error_is_kept(e: BusError)
    ensures
        <Error as vstd::std_specs::convert::FromSpec<BusError>>::from_spec(e) == Error::Dbus(e),
        <Error as vstd::std_specs::convert::FromSpec<BusError>>::obeys_from_spec(),
{
}

} // verus!
