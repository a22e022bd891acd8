//! Setting up an out-of-memory watcher, one operation at a time.
//!
//! Both watches stand before the count is first read. A change after that reading, or a removal
//! while the watcher is being set up, is thus among the notifications that it will get. Each
//! stage can only be had from the one before it.

use vstd::prelude::*;
use vstd::slice::slice_to_vec;
use vstd::string::*;
use vstd::utf8::encode_utf8;

use crate::fs::error::{self, Error, ErrorKindView, ErrorView};
use crate::fs::files::{FileData, FileDataView};
use crate::fs::inotify::{self, watch_flags, WatchFlags};
use crate::fs::oom::{
    self, read_oom_count, OomInputView, OomPhaseView, OomTarget, OomTargetView, OomWatcher,
    OomWatcherView,
};
use crate::fs::oom_laws;
use crate::fs::paths::{self, file_name, join, parent, show, DOT};

verus! {

/// What is to be watched: an inotify instance has to be created for it.
#[derive(Debug, PartialEq, Eq)]
pub struct OomPlan {
    key: String,
    dir: Vec<u8>,
    path: Vec<u8>,
    parent: Vec<u8>,
    cgroup_name: Vec<u8>,
}

/// An [`OomPlan`] with its parts as sequences.
pub struct OomPlanView {
    pub key: Seq<char>,
    pub dir: Seq<u8>,
    pub path: Seq<u8>,
    pub parent: Seq<u8>,
    pub cgroup_name: Seq<u8>,
}

/// An inotify instance stands: the directory that holds the control group has to be watched.
#[derive(Debug, PartialEq, Eq)]
pub struct ParentWatch {
    plan: OomPlan,
}

/// That directory is watched: the control group's `memory.events` has to be watched.
#[derive(Debug, PartialEq, Eq)]
pub struct EventsWatch {
    plan: OomPlan,
    parent_watch: i32,
}

/// An [`EventsWatch`] with its plan taken by its view.
pub struct EventsWatchView {
    pub plan: OomPlanView,
    pub parent_watch: i32,
}

/// Both are watched: `memory.events` has to be read for the count to start from.
#[derive(Debug, PartialEq, Eq)]
pub struct BaselineRead {
    plan: OomPlan,
    parent_watch: i32,
    events_watch: i32,
}

/// A [`BaselineRead`] with its plan taken by its view.
pub struct BaselineReadView {
    pub plan: OomPlanView,
    pub parent_watch: i32,
    pub events_watch: i32,
}

impl View for OomPlan {
    type V = OomPlanView;

    closed spec fn view(&self) -> OomPlanView {
        OomPlanView {
            key: self.key@,
            dir: self.dir@,
            path: self.path@,
            parent: self.parent@,
            cgroup_name: self.cgroup_name@,
        }
    }
}

impl View for ParentWatch {
    type V = OomPlanView;

    closed spec fn view(&self) -> OomPlanView {
        self.plan@
    }
}

impl View for EventsWatch {
    type V = EventsWatchView;

    closed spec fn view(&self) -> EventsWatchView {
        EventsWatchView { plan: self.plan@, parent_watch: self.parent_watch }
    }
}

impl View for BaselineRead {
    type V = BaselineReadView;

    closed spec fn view(&self) -> BaselineReadView {
        BaselineReadView {
            plan: self.plan@,
            parent_watch: self.parent_watch,
            events_watch: self.events_watch,
        }
    }
}

/// The directory to watch for the removal of an entry: the parent of its path, or the current
/// directory where the path has none.
pub open spec fn directory_to_watch(parent: Option<Seq<u8>>) -> Seq<u8> {
    match parent {
        Some(p) => if p.len() > 0 {
            p
        } else {
            seq![paths::DOT]
        },
        None => seq![paths::DOT],
    }
}

/// The plan for the control group in a directory. Without a name there is no entry whose removal
/// could be watched.
pub open spec fn plan_of(key: Seq<char>, dir: Seq<u8>) -> Result<OomPlanView, ErrorView> {
    match paths::file_name_of(dir) {
        Some(name) => Ok(
            OomPlanView {
                key,
                dir,
                path: paths::file_in(dir, "memory.events"@),
                parent: directory_to_watch(paths::parent_of(dir)),
                cgroup_name: name,
            },
        ),
        None => Err(
            ErrorView::new(
                ErrorKindView::Common("cannot watch cgroup removal for "@ + paths::shown(dir)),
            ),
        ),
    }
}

impl OomPlanView {
    /// What follows the attempt to create an inotify instance.
    pub open spec fn after_inotify(self, r: Result<(), Seq<char>>) -> Result<
        OomPlanView,
        ErrorView,
    > {
        match r {
            Ok(_) => Ok(self),
            Err(m) => Err(error::read_failure(paths::shown(self.path), m)),
        }
    }

    /// What follows the attempt to watch the directory that holds the control group.
    pub open spec fn after_parent_watch(self, r: Result<i32, Seq<char>>) -> Result<
        EventsWatchView,
        ErrorView,
    > {
        match r {
            Ok(wd) => Ok(EventsWatchView { plan: self, parent_watch: wd }),
            Err(m) => Err(error::read_failure(paths::shown(self.parent), m)),
        }
    }
}

impl EventsWatchView {
    /// What follows the attempt to watch `memory.events`.
    pub open spec fn after_events_watch(self, r: Result<i32, Seq<char>>) -> Result<
        BaselineReadView,
        ErrorView,
    > {
        match r {
            Ok(wd) => Ok(
                BaselineReadView {
                    plan: self.plan,
                    parent_watch: self.parent_watch,
                    events_watch: wd,
                },
            ),
            Err(m) => Err(error::read_failure(paths::shown(self.plan.path), m)),
        }
    }
}

impl BaselineReadView {
    /// The watcher that starts from a count.
    pub open spec fn watcher(self, base: u64) -> OomWatcherView {
        OomWatcherView {
            key: self.plan.key,
            dir: self.plan.dir,
            path: self.plan.path,
            target: OomTargetView {
                parent_watch: self.parent_watch,
                events_watch: self.events_watch,
                cgroup_name: self.plan.cgroup_name,
            },
            base,
            phase: OomPhaseView::Waiting,
        }
    }

    /// What follows the attempt to read the count.
    pub open spec fn after_baseline(self, file: Result<FileDataView, Seq<char>>) -> Result<
        OomWatcherView,
        ErrorView,
    > {
        match oom::oom_count(self.plan.path, file) {
            Ok(count) => Ok(self.watcher(count)),
            Err(e) => Err(e),
        }
    }
}

impl OomPlan {
    /// The plan for the control group in a directory.
    pub fn new(key: &str, dir: &[u8]) -> (r: Result<OomPlan, Error>)
        ensures
            match r {
                Ok(p) => plan_of(key@, dir@) == Ok::<_, ErrorView>(p@),
                Err(e) => plan_of(key@, dir@) == Err::<OomPlanView, _>(e@),
            },
    {
        let cgroup_name: Vec<u8> = match file_name(dir) {
            Some(n) => n,
            None => {
                let mut message: String = "cannot watch cgroup removal for ".to_owned();
                message.append(show(dir).as_str());
                return Err(Error::from_string(message));
            },
        };
        let here: Vec<u8> = vec![DOT];
        assert(here@ == seq![DOT]);
        let parent: Vec<u8> = match parent(dir) {
            Some(p) => if p.len() > 0 {
                p
            } else {
                here
            },
            None => here,
        };
        Ok(
            OomPlan {
                key: key.to_owned(),
                dir: slice_to_vec(dir),
                path: join(dir, "memory.events"),
                parent,
                cgroup_name,
            },
        )
    }

    /// Takes what came of creating an inotify instance.
    pub fn created(self, r: Result<(), String>) -> (next: Result<ParentWatch, Error>)
        ensures
            match next {
                Ok(n) => self@.after_inotify(error::described(r)) == Ok::<_, ErrorView>(n@),
                Err(e) => self@.after_inotify(error::described(r)) == Err::<OomPlanView, _>(e@),
            },
    {
        match r {
            Ok(_) => Ok(ParentWatch { plan: self }),
            Err(m) => Err(Error::read_failed(self.path.as_slice(), m)),
        }
    }
}

impl ParentWatch {
    /// The path to watch.
    pub fn path(&self) -> (r: &[u8])
        ensures
            r@ == self@.parent,
    {
        self.plan.parent.as_slice()
    }

    /// What to watch it for.
    pub fn mask(&self) -> (r: u32)
        ensures
            r == inotify::removal_mask(),
    {
        let flags: WatchFlags = watch_flags();
        flags.delete | flags.moved_from
    }

    /// Takes what came of adding the watch.
    pub fn watched(self, r: Result<i32, String>) -> (next: Result<EventsWatch, Error>)
        ensures
            match next {
                Ok(n) => self@.after_parent_watch(error::described(r)) == Ok::<_, ErrorView>(n@),
                Err(e) => self@.after_parent_watch(error::described(r)) == Err::<
                    EventsWatchView,
                    _,
                >(e@),
            },
    {
        match r {
            Ok(wd) => Ok(EventsWatch { plan: self.plan, parent_watch: wd }),
            Err(m) => Err(Error::read_failed(self.plan.parent.as_slice(), m)),
        }
    }
}

impl EventsWatch {
    /// The path to watch.
    pub fn path(&self) -> (r: &[u8])
        ensures
            r@ == self@.plan.path,
    {
        self.plan.path.as_slice()
    }

    /// What to watch it for.
    pub fn mask(&self) -> (r: u32)
        ensures
            r == inotify::MODIFY,
    {
        watch_flags().modify
    }

    /// Takes what came of adding the watch.
    pub fn watched(self, r: Result<i32, String>) -> (next: Result<BaselineRead, Error>)
        ensures
            match next {
                Ok(n) => self@.after_events_watch(error::described(r)) == Ok::<_, ErrorView>(n@),
                Err(e) => self@.after_events_watch(error::described(r)) == Err::<
                    BaselineReadView,
                    _,
                >(e@),
            },
    {
        match r {
            Ok(wd) => Ok(
                BaselineRead {
                    plan: self.plan,
                    parent_watch: self.parent_watch,
                    events_watch: wd,
                },
            ),
            Err(m) => Err(Error::read_failed(self.plan.path.as_slice(), m)),
        }
    }
}

impl BaselineRead {
    /// The path to read.
    pub fn path(&self) -> (r: &[u8])
        ensures
            r@ == self@.plan.path,
    {
        self.plan.path.as_slice()
    }

    /// Takes what came of opening and reading the file. The events that it counts are the ones
    /// of which the receiver is not told.
    pub fn read(self, file: Result<FileData, String>) -> (next: Result<OomWatcher, Error>)
        ensures
            match next {
                Ok(w) => self@.after_baseline(oom::opened(file)) == Ok::<_, ErrorView>(w@),
                Err(e) => self@.after_baseline(oom::opened(file)) == Err::<OomWatcherView, _>(e@),
            },
    {
        match read_oom_count(self.plan.path.as_slice(), file) {
            Ok(base) => {
                let target: OomTarget = OomTarget {
                    parent_watch: self.parent_watch,
                    events_watch: self.events_watch,
                    cgroup_name: self.plan.cgroup_name,
                };
                Ok(OomWatcher::new(self.plan.key, self.plan.dir, self.plan.path, target, base))
            },
            Err(e) => Err(e),
        }
    }
}

/// The whole of setting up a watcher, from what comes of each operation in turn.
pub open spec fn set_up(
    plan: OomPlanView,
    inotify: Result<(), Seq<char>>,
    parent: Result<i32, Seq<char>>,
    events: Result<i32, Seq<char>>,
    file: Result<FileDataView, Seq<char>>,
) -> Result<OomWatcherView, ErrorView> {
    match plan.after_inotify(inotify) {
        Err(e) => Err(e),
        Ok(ready) => match ready.after_parent_watch(parent) {
            Err(e) => Err(e),
            Ok(one) => match one.after_events_watch(events) {
                Err(e) => Err(e),
                Ok(both) => both.after_baseline(file),
            },
        },
    }
}

/// A watcher is set up exactly when every operation succeeds and the count can be read. It then
/// waits, and has told its receiver nothing: the events so far are what it starts from.
pub proof fn law_set_up_starts_from_the_count(
    plan: OomPlanView,
    inotify: Result<(), Seq<char>>,
    parent: Result<i32, Seq<char>>,
    events: Result<i32, Seq<char>>,
    file: Result<FileDataView, Seq<char>>,
)
    ensures
        set_up(plan, inotify, parent, events, file) is Ok <==> inotify is Ok && parent is Ok
            && events is Ok && oom::oom_count(plan.path, file) is Ok,
        set_up(plan, inotify, parent, events, file) matches Ok(w) ==> {
            &&& w.phase is Waiting
            &&& oom::oom_count(plan.path, file) == Ok::<u64, ErrorView>(w.base)
            &&& w.key == plan.key
            &&& w.dir == plan.dir
            &&& w.path == plan.path
            &&& parent == Ok::<i32, Seq<char>>(w.target.parent_watch)
            &&& events == Ok::<i32, Seq<char>>(w.target.events_watch)
            &&& w.target.cgroup_name == plan.cgroup_name
        },
{
}

/// The first operation that fails is the one that is reported, with the path that it was about.
pub proof fn law_set_up_reports_the_first_failure(
    plan: OomPlanView,
    inotify: Result<(), Seq<char>>,
    parent: Result<i32, Seq<char>>,
    events: Result<i32, Seq<char>>,
    file: Result<FileDataView, Seq<char>>,
)
    ensures
        set_up(plan, inotify, parent, events, file) matches Err(e) ==> e == (match (
            inotify,
            parent,
            events,
        ) {
            (Err(m), _, _) => error::read_failure(paths::shown(plan.path), m),
            (Ok(_), Err(m), _) => error::read_failure(paths::shown(plan.parent), m),
            (Ok(_), Ok(_), Err(m)) => error::read_failure(paths::shown(plan.path), m),
            _ => oom::oom_count(plan.path, file)->Err_0,
        }),
{
}

/// The plan is made of what was asked for: the key itself, the directory itself, the file
/// `memory.events` in it, and the entry that the directory is in the one that holds it, or in the
/// current directory where the path says no other. A path without a name has no plan.
pub proof fn law_plan_is_for_what_was_asked(key: Seq<char>, dir: Seq<u8>)
    ensures
        plan_of(key, dir) is Ok <==> paths::file_name_of(dir) is Some,
        plan_of(key, dir) matches Ok(p) ==> {
            &&& p.key == key
            &&& p.dir == dir
            &&& p.path == (if dir.last() == 47 {
                dir + encode_utf8("memory.events"@)
            } else {
                dir + seq![47u8] + encode_utf8("memory.events"@)
            })
            &&& paths::file_name_of(dir) == Some(p.cgroup_name)
            &&& paths::parent_of(dir) matches Some(q) && p.parent == (if q.len() == 0 {
                seq![46u8]
            } else {
                q
            })
        },
        plan_of(key, dir) matches Err(e) ==> e == (ErrorView {
            kind: ErrorKindView::Common("cannot watch cgroup removal for "@ + paths::shown(dir)),
            cause: None,
        }),
{
    reveal_strlit("memory.events");
    paths::law_joining_text(dir, "memory.events"@);
    paths::law_named_path_has_a_parent(dir);
    if dir.len() == 0 {
        let other = seq![0u8];
        assert(other[0] != seq![46u8][0]);
        paths::law_name_of_a_path(dir, other);
        assert(dir == Seq::<u8>::empty());
    }
}

/// For a control group below a directory, the directory is the one to watch for the entry with
/// the control group's name.
pub proof fn law_plan_watches_the_directory_above(key: Seq<char>, above: Seq<u8>, name: Seq<u8>)
    requires
        above.len() > 0,
        above.last() != 47,
        !(above.len() > 1 && above.last() == 46 && above[above.len() - 2] == 47),
        name.len() > 0,
        !name.contains(47),
        name != seq![46u8],
        name != seq![46u8, 46u8],
    ensures
        plan_of(key, above + seq![47u8] + name) matches Ok(p) && p.parent == above
            && p.cgroup_name == name && p.path == above + seq![47u8] + name + seq![47u8]
            + encode_utf8("memory.events"@),
{
    let dir = above + seq![47u8] + name;
    law_plan_is_for_what_was_asked(key, dir);
    paths::law_parent_of_an_entry(above, name);
    paths::law_name_of_a_path(above + seq![47u8], name);
    assert(name.contains(name[name.len() - 1]));
    assert(dir.last() == name[name.len() - 1]);
}

/// Each stage goes on with what it was given, and a failure is reported with the path that it was
/// about.
pub proof fn law_stages_keep_the_plan(
    plan: OomPlanView,
    parent: i32,
    events: i32,
    file: Result<FileDataView, Seq<char>>,
)
    ensures
        plan.after_inotify(Ok(())) == Ok::<_, ErrorView>(plan),
        plan.after_parent_watch(Ok(parent)) == Ok::<_, ErrorView>(
            EventsWatchView { plan, parent_watch: parent },
        ),
        (EventsWatchView { plan, parent_watch: parent }).after_events_watch(Ok(events)) == Ok::<
            _,
            ErrorView,
        >(BaselineReadView { plan, parent_watch: parent, events_watch: events }),
        (BaselineReadView { plan, parent_watch: parent, events_watch: events }).after_baseline(file)
            == (match oom::oom_count(plan.path, file) {
            Ok(base) => Ok(
                OomWatcherView {
                    key: plan.key,
                    dir: plan.dir,
                    path: plan.path,
                    target: OomTargetView {
                        parent_watch: parent,
                        events_watch: events,
                        cgroup_name: plan.cgroup_name,
                    },
                    base,
                    phase: OomPhaseView::Waiting,
                },
            ),
            Err(e) => Err(e),
        }),
{
}

/// The receiver is sent the key that was passed in: through a successful set-up and every input
/// that follows, the watcher has that key and no other.
pub proof fn law_receiver_is_sent_the_key(
    key: Seq<char>,
    dir: Seq<u8>,
    inotify: Result<(), Seq<char>>,
    parent: Result<i32, Seq<char>>,
    events: Result<i32, Seq<char>>,
    file: Result<FileDataView, Seq<char>>,
    inputs: Seq<OomInputView>,
)
    ensures
        plan_of(key, dir) matches Ok(plan) ==> (set_up(plan, inotify, parent, events, file) matches
            Ok(w) ==> oom_laws::run(w, inputs).key == key),
    decreases inputs.len(),
{
    if inputs.len() > 0 {
        law_receiver_is_sent_the_key(
            key,
            dir,
            inotify,
            parent,
            events,
            file,
            inputs.drop_last(),
        );
    }
}

} // verus!
