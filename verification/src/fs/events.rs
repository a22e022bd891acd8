//! Notifications about the memory of a control group.

use vstd::prelude::*;
use vstd::string::*;
use vstd::utf8::encode_utf8;

use crate::fs::error::{Error, ErrorKindView, ErrorView};
use crate::fs::memory_event::{self, register_memory_event, EventRegistration};
use crate::fs::oom_setup::{self, OomPlan, OomPlanView};
use crate::fs::text::same_text;

verus! {

/// Begins to watch the control group of version 2 in a directory for processes that were killed
/// for want of memory. Of each growth of the count the receiver is sent `key`; the channel is
/// closed when the control group is gone.
pub fn notify_on_oom_v2(key: &str, dir: &[u8]) -> (r: Result<OomPlan, Error>)
    ensures
        match r {
            Ok(p) => oom_setup::plan_of(key@, dir@) == Ok::<_, ErrorView>(p@),
            Err(e) => oom_setup::plan_of(key@, dir@) == Err::<OomPlanView, _>(e@),
        },
        r matches Ok(p) ==> p@.key == key@ && p@.dir == dir@,
{
    OomPlan::new(key, dir)
}

/// Begins to listen for processes of the control group of version 1 in a directory that are
/// killed for want of memory. Of each such event the receiver is sent `key`; the channel is
/// closed when the control group is gone.
pub fn notify_on_oom_v1(key: &str, dir: &[u8]) -> (r: EventRegistration)
    ensures
        r@ == memory_event::registration_of(key@, dir@, "memory.oom_control"@, ""@),
        r@.key == key@,
        r@.arg.len() == 0,
{
    proof {
        reveal_strlit("");
    }
    register_memory_event(key, dir, "memory.oom_control", "")
}

/// The levels of memory pressure that the kernel knows.
pub open spec fn is_pressure_level(level: Seq<char>) -> bool {
    level == "low"@ || level == "medium"@ || level == "critical"@
}

/// Begins to listen for memory pressure in the control group of version 1 in a directory. The
/// level is one of `low`, `medium` and `critical`.
pub fn notify_memory_pressure(key: &str, dir: &[u8], level: &str) -> (r: Result<
    EventRegistration,
    Error,
>)
    ensures
        if is_pressure_level(level@) {
            r matches Ok(e) && e@ == memory_event::registration_of(
                key@,
                dir@,
                "memory.pressure_level"@,
                level@,
            )
        } else {
            r matches Err(e) && e@ == ErrorView::new(
                ErrorKindView::Common("invalid pressure level "@ + level@),
            )
        },
        r is Ok <==> level@ == "low"@ || level@ == "medium"@ || level@ == "critical"@,
        r matches Ok(e) ==> e@.key == key@ && e@.arg == level@,
{
    if !same_text(level, "low") && !same_text(level, "medium") && !same_text(level, "critical") {
        let mut message: String = "invalid pressure level ".to_owned();
        message.append(level);
        return Err(Error::from_string(message));
    }
    Ok(register_memory_event(key, dir, "memory.pressure_level", level))
}

/// The levels of memory pressure are these three.
pub proof fn law_pressure_levels(level: Seq<char>)
    ensures
        is_pressure_level(level) <==> level == "low"@ || level == "medium"@ || level
            == "critical"@,
{
}

/// Out-of-memory events and memory pressure are registered through the files that report them,
/// both with the `cgroup.event_control` of the same directory, and with the caller's own key.
pub proof fn law_events_are_registered_in_the_directory(
    key: Seq<char>,
    dir: Seq<u8>,
    level: Seq<char>,
)
    requires
        dir.len() > 0,
        dir.last() != 47,
    ensures
        ({
            let oom = memory_event::registration_of(key, dir, "memory.oom_control"@, ""@);
            let pressure = memory_event::registration_of(
                key,
                dir,
                "memory.pressure_level"@,
                level,
            );
            let control = dir + seq![47u8] + encode_utf8("cgroup.event_control"@);
            &&& oom.key == key
            &&& oom.path == dir + seq![47u8] + encode_utf8("memory.oom_control"@)
            &&& oom.control_path == control
            &&& oom.arg.len() == 0
            &&& pressure.key == key
            &&& pressure.path == dir + seq![47u8] + encode_utf8("memory.pressure_level"@)
            &&& pressure.control_path == control
            &&& pressure.arg == level
        }),
{
    reveal_strlit("");
    reveal_strlit("memory.oom_control");
    reveal_strlit("memory.pressure_level");
    memory_event::law_registration_is_for_what_was_asked(key, dir, "memory.oom_control"@, ""@);
    memory_event::law_registration_is_for_what_was_asked(
        key,
        dir,
        "memory.pressure_level"@,
        level,
    );
}

} // verus!
