//! Watching a control group of version 2 for processes that were killed for want of memory.
//!
//! The kernel counts such events under the key `oom` of `memory.events`. A watcher learns of
//! changes through inotify and sends a notification whenever the count has grown. It performs
//! no operation itself: [`OomWatcher::action`] says what is to be done next, and
//! [`OomWatcher::step`] takes what came of it.

use std::collections::VecDeque;

use vstd::prelude::*;
use vstd::string::*;

use crate::fs::error::{self, Error, ErrorKindView, ErrorView};
use crate::fs::files::{self, read_keyed_u64, FileData, FileDataView};
use crate::fs::inotify::{
    self, interrupted, intersects, watch_flags, WatchEvent, WatchEventView, WatchFlags,
};
use crate::fs::paths::{self, show};

verus! {

// ---------------------------------------------------------------------------------------------
// The count
// ---------------------------------------------------------------------------------------------

/// What came of opening a file and reading it, taken by views.
pub open spec fn opened(r: Result<FileData, String>) -> Result<FileDataView, Seq<char>> {
    match r {
        Ok(d) => Ok(d@),
        Err(m) => Err(m@),
    }
}

/// The number of out-of-memory events that a `memory.events` file at a path reports.
pub open spec fn oom_count(path: Seq<u8>, file: Result<FileDataView, Seq<char>>) -> Result<
    u64,
    ErrorView,
> {
    match file {
        Err(m) => Err(error::read_failure(paths::shown(path), m)),
        Ok(d) => match files::number_under(d, "oom"@, paths::shown(path)) {
            Ok(Some(n)) => Ok(n),
            Ok(None) => Err(ErrorView::new(ErrorKindView::Common("oom not found"@))),
            Err(e) => Err(e),
        },
    }
}

/// Reads the number of out-of-memory events from what came of opening the file at a path.
pub fn read_oom_count(path: &[u8], file: Result<FileData, String>) -> (r: Result<u64, Error>)
    ensures
        error::outcome(r) == oom_count(path@, opened(file)),
{
    match file {
        Err(m) => Err(Error::read_failed(path, m)),
        Ok(d) => match read_keyed_u64(&d, "oom", show(path).as_str()) {
            Ok(Some(n)) => Ok(n),
            Ok(None) => Err(Error::from_string("oom not found".to_owned())),
            Err(e) => Err(e),
        },
    }
}

// ---------------------------------------------------------------------------------------------
// What a notification means
// ---------------------------------------------------------------------------------------------

/// What a watcher watches: the directory that holds the control group, under one watch, for the
/// entry with the control group's name, and the `memory.events` file under another.
#[derive(Debug, PartialEq, Eq)]
pub struct OomTarget {
    pub parent_watch: i32,
    pub events_watch: i32,
    pub cgroup_name: Vec<u8>,
}

/// An [`OomTarget`] with its name as a sequence of bytes.
pub struct OomTargetView {
    pub parent_watch: i32,
    pub events_watch: i32,
    pub cgroup_name: Seq<u8>,
}

impl View for OomTarget {
    type V = OomTargetView;

    open spec fn view(&self) -> OomTargetView {
        OomTargetView {
            parent_watch: self.parent_watch,
            events_watch: self.events_watch,
            cgroup_name: self.cgroup_name@,
        }
    }
}

/// What a watcher does about a notification.
#[derive(Debug, Clone, Copy, PartialEq, Eq, Structural)]
pub enum Reaction {
    /// Notifications were lost: look whether the control group is still there, then at the
    /// count.
    Resync,
    /// The control group is gone, or can no longer be watched.
    Close,
    /// The count may have changed.
    Count,
    /// Nothing.
    Ignore,
}

impl OomTargetView {
    /// The notification says that the control group left its directory.
    pub open spec fn is_removal(self, e: WatchEventView) -> bool {
        &&& e.wd == self.parent_watch
        &&& e.name == Some(self.cgroup_name)
        &&& inotify::meets(e.mask, inotify::removal_mask())
    }

    /// What is to be done about a notification.
    pub open spec fn reaction(self, e: WatchEventView) -> Reaction {
        if inotify::meets(e.mask, inotify::QUEUE_OVERFLOW) {
            Reaction::Resync
        } else if self.is_removal(e) || inotify::meets(e.mask, inotify::lost_mask()) {
            Reaction::Close
        } else if e.wd == self.events_watch && inotify::meets(e.mask, inotify::MODIFY) {
            Reaction::Count
        } else {
            Reaction::Ignore
        }
    }
}

/// Tells whether two byte strings are the same.
fn same_bytes(a: &Vec<u8>, b: &Vec<u8>) -> (r: bool)
    ensures
        r == (a@ == b@),
{
    if a.len() != b.len() {
        return false;
    }
    let mut i: usize = 0;
    while i < a.len()
        invariant
            i <= a.len() == b.len(),
            forall|k: int| 0 <= k < i ==> a@[k] == b@[k],
        decreases a.len() - i,
    {
        if a[i] != b[i] {
            return false;
        }
        i = i + 1;
    }
    assert(a@ == b@);
    true
}

impl OomTarget {
    /// What is to be done about a notification.
    pub fn reaction(&self, e: &WatchEvent) -> (r: Reaction)
        ensures
            r == self@.reaction(e@),
    {
        let flags: WatchFlags = watch_flags();
        if intersects(e.mask, flags.queue_overflow) {
            return Reaction::Resync;
        }
        let named: bool = match &e.name {
            Some(n) => same_bytes(n, &self.cgroup_name),
            None => false,
        };
        if e.wd == self.parent_watch && named && intersects(
            e.mask,
            flags.delete | flags.moved_from,
        ) {
            return Reaction::Close;
        }
        if intersects(e.mask, flags.ignored | flags.unmount) {
            return Reaction::Close;
        }
        if e.wd == self.events_watch && intersects(e.mask, flags.modify) {
            return Reaction::Count;
        }
        Reaction::Ignore
    }
}

// ---------------------------------------------------------------------------------------------
// The watcher
// ---------------------------------------------------------------------------------------------

/// What a watcher is about to do, with the notifications that it has not looked at yet.
pub enum OomPhaseView {
    /// Wait for notifications.
    Waiting,
    /// Look whether the control group is still there.
    Checking { rest: Seq<WatchEventView> },
    /// Look at the count.
    Reading { rest: Seq<WatchEventView> },
    /// Notify that the count has grown to `count`.
    Sending { count: u64, rest: Seq<WatchEventView> },
    /// Nothing more.
    Closed,
}

/// A watcher: whom it notifies, what it watches, the count that is known to the receiver, and
/// what it is about to do.
pub struct OomWatcherView {
    pub key: Seq<char>,
    pub dir: Seq<u8>,
    pub path: Seq<u8>,
    pub target: OomTargetView,
    pub base: u64,
    pub phase: OomPhaseView,
}

/// What is to be done next on behalf of a watcher.
#[derive(Debug, Clone, Copy, PartialEq, Eq, Structural)]
pub enum OomAction {
    /// Read notifications; answer with [`OomInput::Events`] or [`OomInput::ReadFailed`].
    ReadEvents,
    /// Find out whether the control group's directory exists; answer with
    /// [`OomInput::DirExists`].
    CheckDir,
    /// Open and read the control group's `memory.events`; answer with [`OomInput::Contents`].
    ReadCount,
    /// Send the key to the receiver; answer with [`OomInput::Sent`].
    Notify,
    /// Close the channel.
    Close,
}

/// What came of an action.
#[derive(Debug, PartialEq, Eq)]
pub enum OomInput {
    /// Notifications arrived.
    Events(Vec<WatchEvent>),
    /// Notifications could not be read; the error number says why.
    ReadFailed(i32),
    /// Whether the control group's directory exists.
    DirExists(bool),
    /// What `memory.events` holds, or why it could not be opened.
    Contents(Result<FileData, String>),
    /// Whether there still was a receiver.
    Sent(bool),
}

/// An [`OomInput`] with its parts taken by their views.
pub enum OomInputView {
    Events(Seq<WatchEventView>),
    ReadFailed(i32),
    DirExists(bool),
    Contents(Result<FileDataView, Seq<char>>),
    Sent(bool),
}

/// Notifications taken by their views.
pub open spec fn event_views(es: Seq<WatchEvent>) -> Seq<WatchEventView> {
    es.map_values(|e: WatchEvent| e@)
}

impl View for OomInput {
    type V = OomInputView;

    open spec fn view(&self) -> OomInputView {
        match *self {
            OomInput::Events(es) => OomInputView::Events(event_views(es@)),
            OomInput::ReadFailed(n) => OomInputView::ReadFailed(n),
            OomInput::DirExists(b) => OomInputView::DirExists(b),
            OomInput::Contents(f) => OomInputView::Contents(opened(f)),
            OomInput::Sent(b) => OomInputView::Sent(b),
        }
    }
}

impl OomPhaseView {
    /// The action that a phase asks for.
    pub open spec fn action(self) -> OomAction {
        match self {
            OomPhaseView::Waiting => OomAction::ReadEvents,
            OomPhaseView::Checking { .. } => OomAction::CheckDir,
            OomPhaseView::Reading { .. } => OomAction::ReadCount,
            OomPhaseView::Sending { .. } => OomAction::Notify,
            OomPhaseView::Closed => OomAction::Close,
        }
    }

    /// The input answers the action that the phase asks for.
    pub open spec fn awaits(self, i: OomInputView) -> bool {
        match self {
            OomPhaseView::Waiting => i is Events || i is ReadFailed,
            OomPhaseView::Checking { .. } => i is DirExists,
            OomPhaseView::Reading { .. } => i is Contents,
            OomPhaseView::Sending { .. } => i is Sent,
            OomPhaseView::Closed => false,
        }
    }
}

impl OomTargetView {
    /// The phase that notifications lead to: the first one that calls for something decides,
    /// and those after it wait.
    pub open spec fn settle(self, es: Seq<WatchEventView>) -> OomPhaseView
        decreases es.len(),
    {
        if es.len() == 0 {
            OomPhaseView::Waiting
        } else {
            match self.reaction(es.first()) {
                Reaction::Resync => OomPhaseView::Checking { rest: es.drop_first() },
                Reaction::Close => OomPhaseView::Closed,
                Reaction::Count => OomPhaseView::Reading { rest: es.drop_first() },
                Reaction::Ignore => self.settle(es.drop_first()),
            }
        }
    }
}

impl OomWatcherView {
    /// The watcher in another phase.
    pub open spec fn at(self, phase: OomPhaseView) -> OomWatcherView {
        OomWatcherView { phase, ..self }
    }

    /// The watcher after an input that answers its action.
    pub open spec fn step(self, i: OomInputView) -> OomWatcherView {
        match (self.phase, i) {
            (OomPhaseView::Waiting, OomInputView::Events(es)) => self.at(self.target.settle(es)),
            (OomPhaseView::Waiting, OomInputView::ReadFailed(n)) => if inotify::is_interrupt(n) {
                self
            } else {
                self.at(OomPhaseView::Closed)
            },
            (OomPhaseView::Checking { rest }, OomInputView::DirExists(b)) => if b {
                self.at(OomPhaseView::Reading { rest })
            } else {
                self.at(OomPhaseView::Closed)
            },
            (OomPhaseView::Reading { rest }, OomInputView::Contents(f)) => match oom_count(
                self.path,
                f,
            ) {
                Ok(count) => if count > self.base {
                    self.at(OomPhaseView::Sending { count, rest })
                } else {
                    self.at(self.target.settle(rest))
                },
                Err(_) => self.at(OomPhaseView::Closed),
            },
            (OomPhaseView::Sending { count, rest }, OomInputView::Sent(b)) => if b {
                OomWatcherView { base: count, phase: self.target.settle(rest), ..self }
            } else {
                self.at(OomPhaseView::Closed)
            },
            _ => self,
        }
    }
}

#[derive(Debug, Clone, Copy, PartialEq, Eq, Structural)]
enum OomPhase {
    Waiting,
    Checking,
    Reading,
    Sending(u64),
    Closed,
}

/// Watches one control group and notifies one receiver.
#[derive(Debug)]
pub struct OomWatcher {
    key: String,
    dir: Vec<u8>,
    path: Vec<u8>,
    target: OomTarget,
    base: u64,
    phase: OomPhase,
    pending: VecDeque<WatchEvent>,
}

impl View for OomWatcher {
    type V = OomWatcherView;

    closed spec fn view(&self) -> OomWatcherView {
        let rest = event_views(self.pending@);
        OomWatcherView {
            key: self.key@,
            dir: self.dir@,
            path: self.path@,
            target: self.target@,
            base: self.base,
            phase: match self.phase {
                OomPhase::Waiting => OomPhaseView::Waiting,
                OomPhase::Checking => OomPhaseView::Checking { rest },
                OomPhase::Reading => OomPhaseView::Reading { rest },
                OomPhase::Sending(count) => OomPhaseView::Sending { count, rest },
                OomPhase::Closed => OomPhaseView::Closed,
            },
        }
    }
}

impl OomWatcher {
    /// A watcher that waits for its first notification. The receiver knows of `base` events.
    pub(crate) fn new(
        key: String,
        dir: Vec<u8>,
        path: Vec<u8>,
        target: OomTarget,
        base: u64,
    ) -> (r: OomWatcher)
        ensures
            r@ == (OomWatcherView {
                key: key@,
                dir: dir@,
                path: path@,
                target: target@,
                base,
                phase: OomPhaseView::Waiting,
            }),
    {
        OomWatcher {
            key,
            dir,
            path,
            target,
            base,
            phase: OomPhase::Waiting,
            pending: VecDeque::new(),
        }
    }

    /// What the receiver is sent.
    pub fn key(&self) -> (r: &str)
        ensures
            r@ == self@.key,
    {
        self.key.as_str()
    }

    /// The control group's directory.
    pub fn dir(&self) -> (r: &[u8])
        ensures
            r@ == self@.dir,
    {
        self.dir.as_slice()
    }

    /// The control group's `memory.events`.
    pub fn path(&self) -> (r: &[u8])
        ensures
            r@ == self@.path,
    {
        self.path.as_slice()
    }

    /// The number of events that the receiver knows of.
    pub fn base(&self) -> (r: u64)
        ensures
            r == self@.base,
    {
        self.base
    }

    /// What is to be done next.
    pub fn action(&self) -> (r: OomAction)
        ensures
            r == self@.phase.action(),
    {
        match self.phase {
            OomPhase::Waiting => OomAction::ReadEvents,
            OomPhase::Checking => OomAction::CheckDir,
            OomPhase::Reading => OomAction::ReadCount,
            OomPhase::Sending(_) => OomAction::Notify,
            OomPhase::Closed => OomAction::Close,
        }
    }

    /// Goes on to the first pending notification that calls for something.
    fn settle(&mut self)
        ensures
            final(self)@ == old(self)@.at(
                old(self)@.target.settle(event_views(old(self).pending@)),
            ),
    {
        let ghost start = old(self)@.target.settle(event_views(old(self).pending@));
        loop
            invariant
                self.key == old(self).key,
                self.dir == old(self).dir,
                self.path == old(self).path,
                self.target == old(self).target,
                self.base == old(self).base,
                start == old(self)@.target.settle(event_views(old(self).pending@)),
                start == self.target@.settle(event_views(self.pending@)),
            decreases self.pending@.len(),
        {
            let ghost es = event_views(self.pending@);
            match self.pending.pop_front() {
                None => {
                    self.phase = OomPhase::Waiting;
                    return;
                },
                Some(e) => {
                    assert(es.first() == e@);
                    assert(event_views(self.pending@) == es.drop_first());
                    match self.target.reaction(&e) {
                        Reaction::Resync => {
                            self.phase = OomPhase::Checking;
                            return;
                        },
                        Reaction::Close => {
                            self.phase = OomPhase::Closed;
                            return;
                        },
                        Reaction::Count => {
                            self.phase = OomPhase::Reading;
                            return;
                        },
                        Reaction::Ignore => {},
                    }
                },
            }
        }
    }

    /// Takes what came of the action.
    pub fn step(&mut self, input: OomInput)
        requires
            old(self)@.phase.awaits(input@),
        ensures
            final(self)@ == old(self)@.step(input@),
    {
        match (self.phase, input) {
            (OomPhase::Waiting, OomInput::Events(es)) => {
                self.pending = in_order(es);
                self.settle();
            },
            (OomPhase::Waiting, OomInput::ReadFailed(n)) => {
                if !interrupted(n) {
                    self.phase = OomPhase::Closed;
                }
            },
            (OomPhase::Checking, OomInput::DirExists(b)) => {
                if b {
                    self.phase = OomPhase::Reading;
                } else {
                    self.phase = OomPhase::Closed;
                }
            },
            (OomPhase::Reading, OomInput::Contents(f)) => {
                match read_oom_count(self.path.as_slice(), f) {
                    Ok(count) => {
                        if count > self.base {
                            self.phase = OomPhase::Sending(count);
                        } else {
                            self.settle();
                        }
                    },
                    Err(_) => {
                        self.phase = OomPhase::Closed;
                    },
                }
            },
            (OomPhase::Sending(count), OomInput::Sent(b)) => {
                if b {
                    self.base = count;
                    self.settle();
                } else {
                    self.phase = OomPhase::Closed;
                }
            },
            _ => {},
        }
    }
}

/// Notifications as a queue, the first one in front.
fn in_order(es: Vec<WatchEvent>) -> (r: VecDeque<WatchEvent>)
    ensures
        r@ == es@,
{
    let mut rest: Vec<WatchEvent> = es;
    let mut queue: VecDeque<WatchEvent> = VecDeque::new();
    while rest.len() > 0
        invariant
            rest@ + queue@ == es@,
        decreases rest.len(),
    {
        let ghost before = rest@;
        match rest.pop() {
            Some(e) => {
                let ghost after = queue@;
                queue.push_front(e);
                assert(rest@ + queue@ == before + after);
            },
            None => {},
        }
    }
    assert(queue@ == es@);
    queue
}

} // verus!
