//! What holds of every run of an out-of-memory watcher.

use vstd::prelude::*;
use vstd::string::*;
use vstd::utf8::{encode_utf8, valid_utf8};

use crate::fs::error::{CauseView, ErrorKindView, ErrorView};
use crate::fs::file_laws;
use crate::fs::files::{FileData, FileDataView};
use crate::fs::inotify::{self, WatchEvent, WatchEventView};
use crate::fs::number;
use crate::fs::oom::{
    self, OomAction, OomInput, OomInputView, OomPhaseView, OomTarget, OomTargetView,
    OomWatcherView, Reaction,
};
use crate::fs::paths;
use crate::fs::text;

verus! {

/// The watcher after a sequence of inputs.
pub open spec fn run(w: OomWatcherView, inputs: Seq<OomInputView>) -> OomWatcherView
    decreases inputs.len(),
{
    if inputs.len() == 0 {
        w
    } else {
        run(w, inputs.drop_last()).step(inputs.last())
    }
}

/// Each input answers the action that was asked for.
pub open spec fn fits(w: OomWatcherView, inputs: Seq<OomInputView>) -> bool
    decreases inputs.len(),
{
    inputs.len() > 0 ==> {
        &&& fits(w, inputs.drop_last())
        &&& run(w, inputs.drop_last()).phase.awaits(inputs.last())
    }
}

/// How many notifications reached the receiver.
pub open spec fn notified(inputs: Seq<OomInputView>) -> nat
    decreases inputs.len(),
{
    if inputs.len() == 0 {
        0
    } else if inputs.last() == OomInputView::Sent(true) {
        notified(inputs.drop_last()) + 1
    } else {
        notified(inputs.drop_last())
    }
}

/// The largest count that was read, or the one known at the start where that is larger.
pub open spec fn highest(w: OomWatcherView, inputs: Seq<OomInputView>) -> u64
    decreases inputs.len(),
{
    if inputs.len() == 0 {
        w.base
    } else {
        let before = highest(w, inputs.drop_last());
        match inputs.last() {
            OomInputView::Contents(f) => match oom::oom_count(w.path, f) {
                Ok(count) => if count > before {
                    count
                } else {
                    before
                },
                Err(_) => before,
            },
            _ => before,
        }
    }
}

/// A notification is about to be sent only of a count that the receiver does not know yet.
pub open spec fn sound(w: OomWatcherView) -> bool {
    match w.phase {
        OomPhaseView::Sending { count, .. } => count > w.base,
        _ => true,
    }
}

/// The notifications that a phase has still to look at.
pub open spec fn rest_of(p: OomPhaseView) -> Seq<WatchEventView> {
    match p {
        OomPhaseView::Checking { rest } => rest,
        OomPhaseView::Reading { rest } => rest,
        OomPhaseView::Sending { rest, .. } => rest,
        _ => Seq::empty(),
    }
}

/// The watcher has closed, or a notification that closes it is still to be looked at.
pub open spec fn closing(w: OomWatcherView) -> bool {
    ||| w.phase is Closed
    ||| exists|k: int|
        0 <= k < rest_of(w.phase).len() && w.target.reaction(#[trigger] rest_of(w.phase)[k])
            == Reaction::Close
}

/// How much a watcher has at most to do before it waits again or closes.
pub open spec fn work_left(p: OomPhaseView) -> nat {
    match p {
        OomPhaseView::Waiting => 0,
        OomPhaseView::Checking { rest } => 3 * rest.len() + 3,
        OomPhaseView::Reading { rest } => 3 * rest.len() + 2,
        OomPhaseView::Sending { rest, .. } => 3 * rest.len() + 1,
        OomPhaseView::Closed => 0,
    }
}

proof fn lemma_settle_shape(t: OomTargetView, es: Seq<WatchEventView>)
    ensures
        !(t.settle(es) is Sending),
        work_left(t.settle(es)) <= 3 * es.len(),
    decreases es.len(),
{
    if es.len() > 0 && t.reaction(es.first()) == Reaction::Ignore {
        lemma_settle_shape(t, es.drop_first());
    }
}

/// Notifications that call for nothing are passed over.
proof fn lemma_settle_skips(t: OomTargetView, es: Seq<WatchEventView>, k: int)
    requires
        0 <= k <= es.len(),
        forall|i: int| 0 <= i < k ==> t.reaction(#[trigger] es[i]) == Reaction::Ignore,
    ensures
        t.settle(es) == t.settle(es.skip(k)),
    decreases k,
{
    if k == 0 {
        assert(es.skip(0) == es);
    } else {
        let tail = es.drop_first();
        assert(t.reaction(es[0]) == Reaction::Ignore);
        assert forall|i: int| 0 <= i < k - 1 implies t.reaction(#[trigger] tail[i])
            == Reaction::Ignore by {
            assert(tail[i] == es[i + 1]);
        }
        lemma_settle_skips(t, tail, k - 1);
        assert(tail.skip(k - 1) == es.skip(k));
    }
}

proof fn lemma_settle_keeps_close(w: OomWatcherView, es: Seq<WatchEventView>, k: int)
    requires
        0 <= k < es.len(),
        w.target.reaction(es[k]) == Reaction::Close,
    ensures
        closing(w.at(w.target.settle(es))),
    decreases es.len(),
{
    let t = w.target;
    let tail = es.drop_first();
    if k > 0 {
        assert(tail[k - 1] == es[k]);
        if t.reaction(es.first()) == Reaction::Ignore {
            lemma_settle_keeps_close(w, tail, k - 1);
        } else {
            let after = w.at(t.settle(es));
            if !(after.phase is Closed) {
                assert(rest_of(after.phase) == tail);
                assert(t.reaction(rest_of(after.phase)[k - 1]) == Reaction::Close);
            }
        }
    }
}

/// A watcher stays with what it was set up for: no input changes the key, the paths or the
/// watches.
pub proof fn law_identity_is_kept(w: OomWatcherView, i: OomInputView)
    ensures
        w.step(i).key == w.key,
        w.step(i).dir == w.dir,
        w.step(i).path == w.path,
        w.step(i).target == w.target,
{
}

/// A watcher that is about to notify has a count that is larger than the one its receiver knows,
/// and stays so whatever comes.
pub proof fn law_sound_is_kept(w: OomWatcherView, i: OomInputView)
    requires
        sound(w),
    ensures
        sound(w.step(i)),
{
    match (w.phase, i) {
        (OomPhaseView::Waiting, OomInputView::Events(es)) => {
            lemma_settle_shape(w.target, es);
        },
        (OomPhaseView::Reading { rest }, OomInputView::Contents(_)) => {
            lemma_settle_shape(w.target, rest);
        },
        (OomPhaseView::Sending { rest, .. }, OomInputView::Sent(_)) => {
            lemma_settle_shape(w.target, rest);
        },
        _ => {},
    }
}

/// The count that the receiver knows never falls.
pub proof fn law_base_never_falls(w: OomWatcherView, i: OomInputView)
    requires
        sound(w),
    ensures
        w.step(i).base >= w.base,
{
}

/// A grown count is notified, and nothing else is: when the count is read, the watcher goes on
/// to notify exactly if it is larger than the one the receiver knows.
pub proof fn law_notifies_exactly_growth(w: OomWatcherView, i: OomInputView)
    requires
        w.phase is Reading,
        w.phase.awaits(i),
    ensures
        w.step(i).phase.action() == OomAction::Notify <==> (i matches OomInputView::Contents(f)
            && oom::oom_count(w.path, f) matches Ok(count) && count > w.base),
{
    lemma_settle_shape(w.target, rest_of(w.phase));
}

/// No flood: once a count has been notified, reading it again, or a smaller one, at any later
/// time notifies nothing.
pub proof fn law_a_count_is_notified_once(
    w: OomWatcherView,
    count: u64,
    rest: Seq<WatchEventView>,
    later: Seq<OomInputView>,
    again: OomInputView,
)
    requires
        sound(w),
        w.phase == (OomPhaseView::Sending { count, rest }),
        fits(w.step(OomInputView::Sent(true)), later),
        run(w.step(OomInputView::Sent(true)), later).phase is Reading,
        again matches OomInputView::Contents(f) && (oom::oom_count(w.path, f) matches Ok(c) && c
            <= count),
    ensures
        !(run(w.step(OomInputView::Sent(true)), later).step(again).phase is Sending),
{
    let start = w.step(OomInputView::Sent(true));
    law_sound_is_kept(w, OomInputView::Sent(true));
    law_run(start, later);
    let at = run(start, later);
    lemma_settle_shape(at.target, rest_of(at.phase));
}

/// Over a whole run: what the watcher was set up for is kept, it stays sound, the known count
/// does not fall, and at most as many notifications are sent as the count grew by.
pub proof fn law_run(w: OomWatcherView, inputs: Seq<OomInputView>)
    requires
        sound(w),
        fits(w, inputs),
    ensures
        sound(run(w, inputs)),
        run(w, inputs).key == w.key,
        run(w, inputs).dir == w.dir,
        run(w, inputs).path == w.path,
        run(w, inputs).target == w.target,
        run(w, inputs).base >= w.base,
        notified(inputs) <= run(w, inputs).base - w.base,
    decreases inputs.len(),
{
    if inputs.len() > 0 {
        law_run(w, inputs.drop_last());
        law_sound_is_kept(run(w, inputs.drop_last()), inputs.last());
    }
}

/// The receiver is up to date: as long as the watcher is open, the largest count that it has
/// read is the one that the receiver knows, or the one that it is about to notify.
pub proof fn law_receiver_is_up_to_date(w: OomWatcherView, inputs: Seq<OomInputView>)
    requires
        !(w.phase is Sending),
        fits(w, inputs),
    ensures
        match run(w, inputs).phase {
            OomPhaseView::Closed => true,
            OomPhaseView::Sending { count, .. } => count == highest(w, inputs),
            _ => run(w, inputs).base == highest(w, inputs),
        },
    decreases inputs.len(),
{
    if inputs.len() > 0 {
        let before = run(w, inputs.drop_last());
        law_receiver_is_up_to_date(w, inputs.drop_last());
        law_run(w, inputs.drop_last());
        match (before.phase, inputs.last()) {
            (OomPhaseView::Waiting, OomInputView::Events(es)) => {
                lemma_settle_shape(before.target, es);
            },
            (OomPhaseView::Reading { rest }, OomInputView::Contents(_)) => {
                lemma_settle_shape(before.target, rest);
            },
            (OomPhaseView::Sending { rest, .. }, OomInputView::Sent(_)) => {
                lemma_settle_shape(before.target, rest);
            },
            _ => {},
        }
    }
}

/// A watcher that has closed asks for nothing and answers nothing.
pub proof fn law_closed_is_final(w: OomWatcherView, i: OomInputView)
    requires
        w.phase is Closed,
    ensures
        !w.phase.awaits(i),
        w.step(i) == w,
        w.phase.action() == OomAction::Close,
{
}

/// The end of the control group closes the channel: where nothing before it in the batch calls
/// for anything, a notification that the control group left its directory, or that a watch was
/// lost, closes the watcher, and nothing is sent before.
pub proof fn law_removal_closes(w: OomWatcherView, es: Seq<WatchEventView>, k: int)
    requires
        w.phase is Waiting,
        0 <= k < es.len(),
        forall|i: int| 0 <= i < k ==> w.target.reaction(#[trigger] es[i]) == Reaction::Ignore,
        w.target.reaction(es[k]) == Reaction::Close,
    ensures
        w.step(OomInputView::Events(es)) == w.at(OomPhaseView::Closed),
{
    lemma_settle_skips(w.target, es, k);
    assert(es.skip(k).first() == es[k]);
}

/// A closing notification is not lost: wherever it stands in a batch, the watcher from then on
/// is closed or still has it ahead.
pub proof fn law_closing_notification_arrives(w: OomWatcherView, es: Seq<WatchEventView>, k: int)
    requires
        w.phase is Waiting,
        0 <= k < es.len(),
        w.target.reaction(es[k]) == Reaction::Close,
    ensures
        closing(w.step(OomInputView::Events(es))),
{
    lemma_settle_keeps_close(w, es, k);
}

/// A closing notification is not passed over: a watcher that has one ahead keeps it ahead until
/// it closes, and so never waits for notifications again.
pub proof fn law_closing_is_kept(w: OomWatcherView, i: OomInputView)
    requires
        closing(w),
    ensures
        closing(w.step(i)),
        w.phase.action() != OomAction::ReadEvents,
{
    if !(w.phase is Closed) {
        let rest = rest_of(w.phase);
        let k = choose|k: int|
            0 <= k < rest.len() && w.target.reaction(#[trigger] rest[k]) == Reaction::Close;
        match (w.phase, i) {
            (OomPhaseView::Checking { .. }, OomInputView::DirExists(true)) => {
                assert(rest_of(w.step(i).phase) == rest);
                assert(w.target.reaction(rest_of(w.step(i).phase)[k]) == Reaction::Close);
            },
            (OomPhaseView::Reading { .. }, OomInputView::Contents(f)) => {
                lemma_settle_keeps_close(w, rest, k);
                lemma_settle_shape(w.target, rest);
                if w.step(i).phase is Sending {
                    assert(rest_of(w.step(i).phase) == rest);
                    assert(w.target.reaction(rest_of(w.step(i).phase)[k]) == Reaction::Close);
                }
            },
            (OomPhaseView::Sending { .. }, OomInputView::Sent(true)) => {
                lemma_settle_keeps_close(w.step(i), rest, k);
                assert(w.step(i).at(w.target.settle(rest)) == w.step(i));
            },
            _ => {},
        }
    }
}

/// After lost notifications the watcher starts over from what it finds, whichever watch the
/// overflow is reported for: it closes if the control group is gone and reads the count if not.
pub proof fn law_overflow_resynchronises(
    w: OomWatcherView,
    e: WatchEventView,
    rest: Seq<WatchEventView>,
)
    requires
        w.phase is Waiting,
        inotify::meets(e.mask, inotify::QUEUE_OVERFLOW),
    ensures
        ({
            let after = w.step(OomInputView::Events(seq![e] + rest));
            &&& after.phase.action() == OomAction::CheckDir
            &&& after.step(OomInputView::DirExists(false)).phase is Closed
            &&& after.step(OomInputView::DirExists(true)).phase.action() == OomAction::ReadCount
        }),
{
    assert((seq![e] + rest).first() == e);
}

/// Neighbours do not matter: a notification for another entry of the directory that holds the
/// control group calls for nothing, unless it reports an overflow or a lost watch.
pub proof fn law_neighbours_are_ignored(t: OomTargetView, e: WatchEventView)
    requires
        e.wd == t.parent_watch,
        t.parent_watch != t.events_watch,
        e.name != Some(t.cgroup_name),
        !inotify::meets(e.mask, inotify::QUEUE_OVERFLOW),
        !inotify::meets(e.mask, inotify::lost_mask()),
    ensures
        t.reaction(e) == Reaction::Ignore,
{
}

/// A batch comes to an end: with every answer there is less to do before the watcher waits for
/// notifications again or closes.
pub proof fn law_a_batch_ends(w: OomWatcherView, i: OomInputView)
    requires
        !(w.phase is Waiting),
        w.phase.awaits(i),
    ensures
        work_left(w.step(i).phase) < work_left(w.phase),
{
    lemma_settle_shape(w.target, rest_of(w.phase));
}

// ---------------------------------------------------------------------------------------------
// The count
// ---------------------------------------------------------------------------------------------

/// There is no white space in the key of the count.
proof fn lemma_oom_is_a_word()
    ensures
        "oom"@.len() == 3,
        forall|i: int| 0 <= i < "oom"@.len() ==> !text::is_space(#[trigger] "oom"@[i]),
{
    reveal_strlit("oom");
}

/// The count is the second word of the first line whose first word is `oom`, whatever the lines
/// before it and all that follows it hold. What is no number is refused as such.
pub proof fn law_count_stands_under_oom(
    path: Seq<u8>,
    before: Seq<Seq<char>>,
    line: Seq<char>,
    after: Seq<u8>,
    failure: Option<Seq<char>>,
)
    requires
        file_laws::passed_over(before, "oom"@),
        forall|i: int| 0 <= i < line.len() ==> #[trigger] line[i] != '\n',
        text::words(line).len() >= 2,
        text::words(line)[0] == "oom"@,
        if after.len() > 0 {
            after.first() == 10
        } else {
            failure is None
        },
    ensures
        oom::oom_count(
            path,
            Ok(
                FileDataView {
                    bytes: encode_utf8(before.flatten()) + encode_utf8(line) + after,
                    failure,
                },
            ),
        ) == (match number::number_of(text::words(line)[1]) {
            Ok(n) => Ok(n),
            Err(e) => Err(
                ErrorView {
                    kind: ErrorKindView::ParseError,
                    cause: Some(CauseView::Number(e)),
                },
            ),
        }),
{
    file_laws::law_number_under_a_key(before, "oom"@, line, after, failure, paths::shown(path));
}

/// Where the kernel wrote `oom` and a number, the count is that number, whatever the other lines
/// hold.
pub proof fn law_count_is_the_number_under_oom(
    path: Seq<u8>,
    before: Seq<Seq<char>>,
    n: u64,
    after: Seq<u8>,
    failure: Option<Seq<char>>,
)
    requires
        file_laws::passed_over(before, "oom"@),
        if after.len() > 0 {
            after.first() == 10
        } else {
            failure is None
        },
    ensures
        oom::oom_count(
            path,
            Ok(
                FileDataView {
                    bytes: encode_utf8(before.flatten()) + encode_utf8(
                        "oom"@ + seq![' '] + number::decimal(n as nat),
                    ) + after,
                    failure,
                },
            ),
        ) == Ok::<u64, ErrorView>(n),
{
    lemma_oom_is_a_word();
    file_laws::law_decimal_under_a_key(before, "oom"@, n, after, failure, paths::shown(path));
}

/// Lines with other keys, such as `oom_kill`, do not count: two files that have the same line
/// under `oom` have the same count, however else they differ.
pub proof fn law_other_lines_do_not_count(
    path: Seq<u8>,
    a: Seq<Seq<char>>,
    b: Seq<Seq<char>>,
    line: Seq<char>,
    after_a: Seq<u8>,
    after_b: Seq<u8>,
)
    requires
        file_laws::passed_over(a, "oom"@),
        file_laws::passed_over(b, "oom"@),
        forall|i: int| 0 <= i < line.len() ==> #[trigger] line[i] != '\n',
        text::words(line).len() >= 2,
        text::words(line)[0] == "oom"@,
        after_a.len() > 0 ==> after_a.first() == 10,
        after_b.len() > 0 ==> after_b.first() == 10,
    ensures
        oom::oom_count(
            path,
            Ok(
                FileDataView {
                    bytes: encode_utf8(a.flatten()) + encode_utf8(line) + after_a,
                    failure: None,
                },
            ),
        ) == oom::oom_count(
            path,
            Ok(
                FileDataView {
                    bytes: encode_utf8(b.flatten()) + encode_utf8(line) + after_b,
                    failure: None,
                },
            ),
        ),
{
    law_count_stands_under_oom(path, a, line, after_a, None);
    law_count_stands_under_oom(path, b, line, after_b, None);
}

/// Without a count it is said why: the file could not be opened; no line has the key; or reading
/// broke off before one with the key was ended.
pub proof fn law_missing_count_is_explained(
    path: Seq<u8>,
    before: Seq<Seq<char>>,
    last: Seq<char>,
    part: Seq<u8>,
    m: Seq<char>,
)
    requires
        file_laws::passed_over(before, "oom"@),
        forall|i: int| 0 <= i < last.len() ==> #[trigger] last[i] != '\n',
        text::words(last).len() < 2 || text::words(last)[0] != "oom"@,
        forall|i: int| 0 <= i < part.len() ==> #[trigger] part[i] != 10,
    ensures
        oom::oom_count(path, Err(m)) == Err::<u64, _>(
            ErrorView {
                kind: ErrorKindView::ReadFailed(paths::shown(path)),
                cause: Some(CauseView::Io(m)),
            },
        ),
        oom::oom_count(
            path,
            Ok(
                FileDataView {
                    bytes: encode_utf8(before.flatten()) + encode_utf8(last),
                    failure: None,
                },
            ),
        ) == Err::<u64, _>(
            ErrorView { kind: ErrorKindView::Common("oom not found"@), cause: None },
        ),
        oom::oom_count(
            path,
            Ok(
                FileDataView {
                    bytes: encode_utf8(before.flatten()) + part,
                    failure: Some(m),
                },
            ),
        ) == Err::<u64, _>(
            ErrorView {
                kind: ErrorKindView::ReadFailed(paths::shown(path)),
                cause: Some(CauseView::Io(m)),
            },
        ),
{
    file_laws::law_missing_key(before, "oom"@, last, part, m, paths::shown(path));
}

/// A line that is not UTF-8 is a failure to read the count, if the count was not found before it.
pub proof fn law_undecodable_line_hides_the_count(
    path: Seq<u8>,
    before: Seq<Seq<char>>,
    bad: Seq<u8>,
    after: Seq<u8>,
    failure: Option<Seq<char>>,
)
    requires
        file_laws::passed_over(before, "oom"@),
        forall|i: int| 0 <= i < bad.len() ==> #[trigger] bad[i] != 10,
        !valid_utf8(bad),
        if after.len() > 0 {
            after.first() == 10
        } else {
            failure is None
        },
    ensures
        oom::oom_count(
            path,
            Ok(
                FileDataView {
                    bytes: encode_utf8(before.flatten()) + bad + after,
                    failure,
                },
            ),
        ) == Err::<u64, _>(
            ErrorView {
                kind: ErrorKindView::ReadFailed(paths::shown(path)),
                cause: Some(CauseView::InvalidUtf8),
            },
        ),
{
    file_laws::law_undecodable_line(before, "oom"@, bad, after, failure, paths::shown(path));
}

/// Said of the file: when the watcher finds `oom` and a number in it, it goes on to notify exactly
/// if the number is larger than the one that the receiver knows. Whatever else has changed in the
/// file, such as the number of processes that were killed, is no reason to.
pub proof fn law_only_a_new_oom_notifies(
    w: OomWatcherView,
    rest: Seq<WatchEventView>,
    before: Seq<Seq<char>>,
    n: u64,
    after: Seq<u8>,
)
    requires
        w.phase == (OomPhaseView::Reading { rest }),
        file_laws::passed_over(before, "oom"@),
        after.len() > 0 ==> after.first() == 10,
    ensures
        ({
            let next = w.step(
                OomInputView::Contents(
                    Ok(
                        FileDataView {
                            bytes: encode_utf8(before.flatten()) + encode_utf8(
                                "oom"@ + seq![' '] + number::decimal(n as nat),
                            ) + after,
                            failure: None,
                        },
                    ),
                ),
            );
            &&& next.base == w.base
            &&& next.key == w.key
            &&& if n > w.base {
                next.phase == (OomPhaseView::Sending { count: n, rest })
            } else {
                !(next.phase is Sending) && next == (OomWatcherView {
                    phase: OomPhaseView::Waiting,
                    ..w
                }).step(OomInputView::Events(rest))
            }
        }),
{
    law_count_is_the_number_under_oom(w.path, before, n, after, None);
    lemma_settle_shape(w.target, rest);
}

// ---------------------------------------------------------------------------------------------
// One step
// ---------------------------------------------------------------------------------------------

/// What a notification calls for. One that reports an overflow calls for a new start, whatever
/// else it says. Of the others, one that reports that the control group was deleted or moved, or
/// that a watch is gone, closes the watcher; one that reports a change of the watched file calls
/// for the count; and no other one calls for anything.
pub proof fn law_reactions(t: OomTargetView, e: WatchEventView)
    ensures
        ({
            let overflow = e.mask & 0x4000 != 0;
            let left = e.wd == t.parent_watch && e.name == Some(t.cgroup_name) && (e.mask & 0x200
                != 0 || e.mask & 0x40 != 0);
            let lost = e.mask & 0x8000 != 0 || e.mask & 0x2000 != 0;
            let changed = e.wd == t.events_watch && e.mask & 0x2 != 0;
            &&& t.reaction(e) == Reaction::Resync <==> overflow
            &&& t.reaction(e) == Reaction::Close <==> !overflow && (left || lost)
            &&& t.reaction(e) == Reaction::Count <==> !overflow && !left && !lost && changed
            &&& t.reaction(e) == Reaction::Ignore <==> !overflow && !left && !lost && !changed
        }),
{
    inotify::law_masks(e.mask);
}

/// Notifications are taken in their order: those that call for nothing are passed over, the first
/// that calls for something decides what is done, and those after it wait. Where none calls for
/// anything, the watcher waits as before.
pub proof fn law_notifications_are_taken_in_order(
    w: OomWatcherView,
    es: Seq<WatchEventView>,
    k: int,
)
    requires
        w.phase is Waiting,
        0 <= k <= es.len(),
        forall|i: int| 0 <= i < k ==> w.target.reaction(#[trigger] es[i]) == Reaction::Ignore,
        k < es.len() ==> w.target.reaction(es[k]) != Reaction::Ignore,
    ensures
        w.step(OomInputView::Events(es)) == (if k == es.len() {
            w
        } else {
            OomWatcherView {
                phase: match w.target.reaction(es[k]) {
                    Reaction::Resync => OomPhaseView::Checking { rest: es.skip(k + 1) },
                    Reaction::Count => OomPhaseView::Reading { rest: es.skip(k + 1) },
                    _ => OomPhaseView::Closed,
                },
                ..w
            }
        }),
{
    lemma_settle_skips(w.target, es, k);
    if k < es.len() {
        assert(es.skip(k).first() == es[k]);
        assert(es.skip(k).drop_first() == es.skip(k + 1));
    }
}

/// A call that a signal interrupted is made again; any other failure to read notifications closes
/// the watcher.
pub proof fn law_only_an_interrupted_read_is_repeated(w: OomWatcherView, errno: i32)
    requires
        w.phase is Waiting,
    ensures
        w.step(OomInputView::ReadFailed(errno)) == (if errno == 4 {
            w
        } else {
            OomWatcherView { phase: OomPhaseView::Closed, ..w }
        }),
{
}

/// After lost notifications, a control group that is gone closes the watcher, and one that is
/// there has its count read.
pub proof fn law_missing_group_closes(
    w: OomWatcherView,
    rest: Seq<WatchEventView>,
    there: bool,
)
    requires
        w.phase == (OomPhaseView::Checking { rest }),
    ensures
        w.step(OomInputView::DirExists(there)) == (OomWatcherView {
            phase: if there {
                OomPhaseView::Reading { rest }
            } else {
                OomPhaseView::Closed
            },
            ..w
        }),
{
}

/// A count that has grown is about to be notified, with the notifications that wait kept; one
/// that has not is passed over, as if the notifications that wait had just arrived; and one that
/// cannot be read closes the watcher.
pub proof fn law_count_decides(
    w: OomWatcherView,
    rest: Seq<WatchEventView>,
    file: Result<FileDataView, Seq<char>>,
)
    requires
        w.phase == (OomPhaseView::Reading { rest }),
    ensures
        w.step(OomInputView::Contents(file)) == (match oom::oom_count(w.path, file) {
            Ok(count) => if count > w.base {
                OomWatcherView { phase: OomPhaseView::Sending { count, rest }, ..w }
            } else {
                (OomWatcherView { phase: OomPhaseView::Waiting, ..w }).step(
                    OomInputView::Events(rest),
                )
            },
            Err(_) => OomWatcherView { phase: OomPhaseView::Closed, ..w },
        }),
{
}

/// Once the receiver was told of a count it knows of it, and the watcher goes on as if the
/// notifications that wait had just arrived. Without a receiver the watcher closes.
pub proof fn law_told_count_is_known(
    w: OomWatcherView,
    count: u64,
    rest: Seq<WatchEventView>,
)
    requires
        w.phase == (OomPhaseView::Sending { count, rest }),
    ensures
        w.step(OomInputView::Sent(true)) == (OomWatcherView {
            phase: OomPhaseView::Waiting,
            base: count,
            ..w
        }).step(OomInputView::Events(rest)),
        w.step(OomInputView::Sent(false)) == (OomWatcherView {
            phase: OomPhaseView::Closed,
            ..w
        }),
{
}

/// What a watcher asks for in each of its phases, and which inputs answer it.
pub proof fn law_what_is_asked_is_answered(
    count: u64,
    rest: Seq<WatchEventView>,
    i: OomInputView,
)
    ensures
        OomPhaseView::Waiting.action() == OomAction::ReadEvents,
        (OomPhaseView::Checking { rest }).action() == OomAction::CheckDir,
        (OomPhaseView::Reading { rest }).action() == OomAction::ReadCount,
        (OomPhaseView::Sending { count, rest }).action() == OomAction::Notify,
        OomPhaseView::Closed.action() == OomAction::Close,
        OomPhaseView::Waiting.awaits(i) <==> i is Events || i is ReadFailed,
        (OomPhaseView::Checking { rest }).awaits(i) <==> i is DirExists,
        (OomPhaseView::Reading { rest }).awaits(i) <==> i is Contents,
        (OomPhaseView::Sending { count, rest }).awaits(i) <==> i is Sent,
        !OomPhaseView::Closed.awaits(i),
{
}

/// A view shows all of an input, and all of what is watched: every notification, in its order,
/// and all of what was read.
pub proof fn law_inputs_are_shown_whole(
    es: Vec<WatchEvent>,
    d: FileData,
    m: String,
    n: i32,
    b: bool,
    t: OomTarget,
)
    ensures
        OomInput::Events(es)@ matches OomInputView::Events(vs) && vs.len() == es@.len() && forall|
            i: int,
        |
            0 <= i < vs.len() ==> #[trigger] vs[i] == es@[i]@,
        OomInput::ReadFailed(n)@ == OomInputView::ReadFailed(n),
        OomInput::DirExists(b)@ == OomInputView::DirExists(b),
        OomInput::Contents(Ok(d))@ == OomInputView::Contents(Ok(d@)),
        OomInput::Contents(Err(m))@ == OomInputView::Contents(Err(m@)),
        OomInput::Sent(b)@ == OomInputView::Sent(b),
        oom::opened(Ok(d)) == Ok::<_, Seq<char>>(d@),
        oom::opened(Err(m)) == Err::<FileDataView, _>(m@),
        t@ == (OomTargetView {
            parent_watch: t.parent_watch,
            events_watch: t.events_watch,
            cgroup_name: t.cgroup_name@,
        }),
{
}

} // verus!
