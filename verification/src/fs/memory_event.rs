//! Memory events of a control group of version 1, which the kernel reports through an eventfd.
//!
//! A listener performs no operation itself: each stage says what is to be done next and takes
//! what came of it.

use vstd::prelude::*;
use vstd::string::*;
use vstd::utf8::{encode_utf8, is_ascii_chars};

use crate::fs::error::{self, Cause, CauseView, Error, ErrorKind, ErrorKindView, ErrorView};
use crate::fs::number::{self, push_signed_decimal};
use crate::fs::paths::{self, join, show};
use crate::fs::text;

verus! {

// ---------------------------------------------------------------------------------------------
// Registration
// ---------------------------------------------------------------------------------------------

/// A registration that begins: the file that reports the event has to be opened.
#[derive(Debug, PartialEq, Eq)]
pub struct EventRegistration {
    key: String,
    path: Vec<u8>,
    control_path: Vec<u8>,
    arg: String,
}

/// An [`EventRegistration`] with its parts as sequences.
pub struct EventRegistrationView {
    pub key: Seq<char>,
    pub path: Seq<u8>,
    pub control_path: Seq<u8>,
    pub arg: Seq<char>,
}

/// The event file is open, under a file descriptor: an eventfd has to be created.
#[derive(Debug, PartialEq, Eq)]
pub struct EventFdRequest {
    registration: EventRegistration,
    event_file: i32,
}

/// An [`EventFdRequest`] with its registration taken by its view.
pub struct EventFdRequestView {
    pub registration: EventRegistrationView,
    pub event_file: i32,
}

/// The eventfd stands: a line has to be written to the control group's `cgroup.event_control`.
#[derive(Debug, PartialEq, Eq)]
pub struct ControlWrite {
    key: String,
    path: Vec<u8>,
    data: String,
}

/// A [`ControlWrite`] with its parts as sequences.
pub struct ControlWriteView {
    pub key: Seq<char>,
    pub path: Seq<u8>,
    pub data: Seq<char>,
}

impl View for EventRegistration {
    type V = EventRegistrationView;

    closed spec fn view(&self) -> EventRegistrationView {
        EventRegistrationView {
            key: self.key@,
            path: self.path@,
            control_path: self.control_path@,
            arg: self.arg@,
        }
    }
}

impl View for EventFdRequest {
    type V = EventFdRequestView;

    closed spec fn view(&self) -> EventFdRequestView {
        EventFdRequestView { registration: self.registration@, event_file: self.event_file }
    }
}

impl View for ControlWrite {
    type V = ControlWriteView;

    closed spec fn view(&self) -> ControlWriteView {
        ControlWriteView { key: self.key@, path: self.path@, data: self.data@ }
    }
}

/// The registration for an event of the control group in a directory.
pub open spec fn registration_of(
    key: Seq<char>,
    dir: Seq<u8>,
    event_name: Seq<char>,
    arg: Seq<char>,
) -> EventRegistrationView {
    EventRegistrationView {
        key,
        path: paths::file_in(dir, event_name),
        control_path: paths::file_in(dir, "cgroup.event_control"@),
        arg,
    }
}

/// The line that registers an event: the eventfd, the event file and, where there is one, the
/// argument, with a space between them.
pub open spec fn registration_line(eventfd: i32, event_file: i32, arg: Seq<char>) -> Seq<char> {
    let fds = number::signed_decimal(eventfd as int).push(' ') + number::signed_decimal(
        event_file as int,
    );
    if arg.len() == 0 {
        fds
    } else {
        fds.push(' ') + arg
    }
}

impl EventRegistrationView {
    /// What follows the attempt to open the event file.
    pub open spec fn after_open(self, r: Result<i32, Seq<char>>) -> Result<
        EventFdRequestView,
        ErrorView,
    > {
        match r {
            Ok(fd) => Ok(EventFdRequestView { registration: self, event_file: fd }),
            Err(m) => Err(error::read_failure(paths::shown(self.path), m)),
        }
    }
}

impl EventFdRequestView {
    /// What follows the attempt to create an eventfd.
    pub open spec fn after_eventfd(self, r: Result<i32, Seq<char>>) -> Result<
        ControlWriteView,
        ErrorView,
    > {
        match r {
            Ok(fd) => Ok(
                ControlWriteView {
                    key: self.registration.key,
                    path: self.registration.control_path,
                    data: registration_line(fd, self.event_file, self.registration.arg),
                },
            ),
            Err(m) => Err(error::read_failure("eventfd"@, m)),
        }
    }
}

impl ControlWriteView {
    /// What follows the attempt to write `cgroup.event_control`.
    pub open spec fn after_write(self, r: Result<(), Seq<char>>) -> Result<
        EventListenerView,
        ErrorView,
    > {
        match r {
            Ok(_) => Ok(
                EventListenerView {
                    key: self.key,
                    control_path: self.path,
                    phase: ListenerPhase::Waiting,
                },
            ),
            Err(m) => Err(error::write_failure(paths::shown(self.path), self.data, m)),
        }
    }
}

/// Begins the registration for an event of the control group in a directory.
pub fn register_memory_event(key: &str, cg_dir: &[u8], event_name: &str, arg: &str) -> (r:
    EventRegistration)
    ensures
        r@ == registration_of(key@, cg_dir@, event_name@, arg@),
{
    EventRegistration {
        key: key.to_owned(),
        path: join(cg_dir, event_name),
        control_path: join(cg_dir, "cgroup.event_control"),
        arg: arg.to_owned(),
    }
}

impl EventRegistration {
    /// The file to open.
    pub fn path(&self) -> (r: &[u8])
        ensures
            r@ == self@.path,
    {
        self.path.as_slice()
    }

    /// Takes what came of opening the file: its file descriptor.
    pub fn opened(self, r: Result<i32, String>) -> (next: Result<EventFdRequest, Error>)
        ensures
            match next {
                Ok(n) => self@.after_open(error::described(r)) == Ok::<_, ErrorView>(n@),
                Err(e) => self@.after_open(error::described(r)) == Err::<EventFdRequestView, _>(
                    e@,
                ),
            },
    {
        match r {
            Ok(fd) => Ok(EventFdRequest { registration: self, event_file: fd }),
            Err(m) => Err(Error::read_failed(self.path.as_slice(), m)),
        }
    }
}

impl EventFdRequest {
    /// Takes what came of creating the eventfd: its file descriptor.
    pub fn created(self, r: Result<i32, String>) -> (next: Result<ControlWrite, Error>)
        ensures
            match next {
                Ok(n) => self@.after_eventfd(error::described(r)) == Ok::<_, ErrorView>(n@),
                Err(e) => self@.after_eventfd(error::described(r)) == Err::<ControlWriteView, _>(
                    e@,
                ),
            },
    {
        match r {
            Ok(fd) => {
                let mut data: String = String::new();
                push_signed_decimal(&mut data, fd);
                data.push(' ');
                push_signed_decimal(&mut data, self.event_file);
                if !self.registration.arg.as_str().is_empty() {
                    data.push(' ');
                    data.append(self.registration.arg.as_str());
                }
                assert(data@ == registration_line(fd, self.event_file, self.registration.arg@));
                Ok(
                    ControlWrite {
                        key: self.registration.key,
                        path: self.registration.control_path,
                        data,
                    },
                )
            },
            Err(m) => Err(
                Error::with_cause(ErrorKind::ReadFailed("eventfd".to_owned()), Cause::Io(m)),
            ),
        }
    }
}

impl ControlWrite {
    /// The file to write.
    pub fn path(&self) -> (r: &[u8])
        ensures
            r@ == self@.path,
    {
        self.path.as_slice()
    }

    /// What to write to it.
    pub fn data(&self) -> (r: &str)
        ensures
            r@ == self@.data,
    {
        self.data.as_str()
    }

    /// Takes what came of writing the file.
    pub fn written(self, r: Result<(), String>) -> (next: Result<EventListener, Error>)
        ensures
            match next {
                Ok(n) => self@.after_write(error::described(r)) == Ok::<_, ErrorView>(n@),
                Err(e) => self@.after_write(error::described(r)) == Err::<EventListenerView, _>(
                    e@,
                ),
            },
    {
        match r {
            Ok(_) => Ok(
                EventListener {
                    key: self.key,
                    control_path: self.path,
                    phase: ListenerPhase::Waiting,
                },
            ),
            Err(m) => Err(
                Error::with_cause(
                    ErrorKind::WriteFailed(show(self.path.as_slice()), self.data),
                    Cause::Io(m),
                ),
            ),
        }
    }
}

// ---------------------------------------------------------------------------------------------
// Listening
// ---------------------------------------------------------------------------------------------

/// What a listener is about to do.
#[derive(Debug, Clone, Copy, PartialEq, Eq, Structural)]
pub enum ListenerPhase {
    /// Wait for the eventfd; answer with [`ListenerInput::Read`].
    Waiting,
    /// Find out whether `cgroup.event_control` exists; answer with
    /// [`ListenerInput::ControlExists`].
    Checking,
    /// Send the key to the receiver; answer with [`ListenerInput::Sent`].
    Sending,
    /// Close the channel.
    Closed,
}

/// What came of an action.
#[derive(Debug, Clone, Copy, PartialEq, Eq, Structural)]
pub enum ListenerInput {
    /// Whether the eventfd could be read.
    Read(bool),
    /// Whether `cgroup.event_control` exists.
    ControlExists(bool),
    /// The receiver has the key.
    Sent,
}

/// Listens for one event of one control group and notifies one receiver.
#[derive(Debug, PartialEq, Eq)]
pub struct EventListener {
    key: String,
    control_path: Vec<u8>,
    phase: ListenerPhase,
}

/// An [`EventListener`] with its parts as sequences.
pub struct EventListenerView {
    pub key: Seq<char>,
    pub control_path: Seq<u8>,
    pub phase: ListenerPhase,
}

impl View for EventListener {
    type V = EventListenerView;

    closed spec fn view(&self) -> EventListenerView {
        EventListenerView {
            key: self.key@,
            control_path: self.control_path@,
            phase: self.phase,
        }
    }
}

impl ListenerPhase {
    /// The input answers the action that the phase asks for.
    pub open spec fn awaits(self, i: ListenerInput) -> bool {
        match self {
            ListenerPhase::Waiting => i is Read,
            ListenerPhase::Checking => i is ControlExists,
            ListenerPhase::Sending => i is Sent,
            ListenerPhase::Closed => false,
        }
    }

    /// The phase after an input. A control group that is destroyed signals the eventfd as well,
    /// so that nothing is sent unless `cgroup.event_control` is still there.
    pub open spec fn next(self, i: ListenerInput) -> ListenerPhase {
        match i {
            ListenerInput::Read(true) => ListenerPhase::Checking,
            ListenerInput::ControlExists(true) => ListenerPhase::Sending,
            ListenerInput::Sent => ListenerPhase::Waiting,
            _ => ListenerPhase::Closed,
        }
    }
}

impl EventListener {
    /// What the receiver is sent.
    pub fn key(&self) -> (r: &str)
        ensures
            r@ == self@.key,
    {
        self.key.as_str()
    }

    /// The control group's `cgroup.event_control`.
    pub fn control_path(&self) -> (r: &[u8])
        ensures
            r@ == self@.control_path,
    {
        self.control_path.as_slice()
    }

    /// What is to be done next.
    pub fn phase(&self) -> (r: ListenerPhase)
        ensures
            r == self@.phase,
    {
        self.phase
    }

    /// Takes what came of the action.
    pub fn step(&mut self, input: ListenerInput)
        requires
            old(self)@.phase.awaits(input),
        ensures
            final(self)@ == (EventListenerView {
                phase: old(self)@.phase.next(input),
                ..old(self)@
            }),
    {
        self.phase = match input {
            ListenerInput::Read(true) => ListenerPhase::Checking,
            ListenerInput::ControlExists(true) => ListenerPhase::Sending,
            ListenerInput::Sent => ListenerPhase::Waiting,
            _ => ListenerPhase::Closed,
        };
    }
}

// ---------------------------------------------------------------------------------------------
// Laws
// ---------------------------------------------------------------------------------------------

/// The whole of a registration, from what comes of each operation in turn.
pub open spec fn register(
    registration: EventRegistrationView,
    open: Result<i32, Seq<char>>,
    eventfd: Result<i32, Seq<char>>,
    write: Result<(), Seq<char>>,
) -> Result<EventListenerView, ErrorView> {
    match registration.after_open(open) {
        Err(e) => Err(e),
        Ok(request) => match request.after_eventfd(eventfd) {
            Err(e) => Err(e),
            Ok(control) => control.after_write(write),
        },
    }
}

/// A registration succeeds exactly when every operation does, and its listener then waits; if
/// not, the first operation that fails is the one that is reported.
pub proof fn law_registration_reports_the_first_failure(
    registration: EventRegistrationView,
    open: Result<i32, Seq<char>>,
    eventfd: Result<i32, Seq<char>>,
    write: Result<(), Seq<char>>,
)
    ensures
        register(registration, open, eventfd, write) == (match (open, eventfd, write) {
            (Err(m), _, _) => Err(error::read_failure(paths::shown(registration.path), m)),
            (Ok(_), Err(m), _) => Err(error::read_failure("eventfd"@, m)),
            (Ok(file), Ok(fd), Err(m)) => Err(
                error::write_failure(
                    paths::shown(registration.control_path),
                    registration_line(fd, file, registration.arg),
                    m,
                ),
            ),
            (Ok(_), Ok(_), Ok(_)) => Ok(
                EventListenerView {
                    key: registration.key,
                    control_path: registration.control_path,
                    phase: ListenerPhase::Waiting,
                },
            ),
        }),
{
}

/// The line that registers an event says what was meant: its words are the two file descriptors
/// and the words of the argument.
pub proof fn law_registration_line_reads_back(eventfd: i32, event_file: i32, arg: Seq<char>)
    ensures
        text::words(registration_line(eventfd, event_file, arg)) == seq![
            number::signed_decimal(eventfd as int),
            number::signed_decimal(event_file as int),
        ] + text::words(arg),
{
    let e = number::signed_decimal(eventfd as int);
    let f = number::signed_decimal(event_file as int);
    let line = registration_line(eventfd, event_file, arg);
    number::lemma_decimal_is_a_word(eventfd as int);
    number::lemma_decimal_is_a_word(event_file as int);
    if arg.len() == 0 {
        text::lemma_word_before(e, f);
        text::lemma_one_word(f);
        assert(text::words(line) == seq![e, f] + text::words(arg));
    } else {
        let tail = f.push(' ') + arg;
        text::lemma_word_before(f, arg);
        text::lemma_word_before(e, tail);
        assert(line == e.push(' ') + tail);
        assert(text::words(line) == seq![e, f] + text::words(arg));
    }
}

/// The receiver is sent the key only for an event of a control group that still exists: the end
/// of the control group closes the channel instead, and so does an eventfd that cannot be read.
pub proof fn law_only_a_living_group_notifies(phase: ListenerPhase, i: ListenerInput)
    requires
        phase.awaits(i),
    ensures
        phase.next(i) == ListenerPhase::Sending <==> phase == ListenerPhase::Checking && i
            == ListenerInput::ControlExists(true),
        phase.next(i) == ListenerPhase::Closed <==> i == ListenerInput::ControlExists(false) || i
            == ListenerInput::Read(false),
{
}

/// A listener that has closed takes no answer.
pub proof fn law_closed_listener_is_final(i: ListenerInput)
    ensures
        !ListenerPhase::Closed.awaits(i),
{
}

/// A registration is for what was asked: the key itself, the file of the event and
/// `cgroup.event_control` in the directory, and the argument itself.
pub proof fn law_registration_is_for_what_was_asked(
    key: Seq<char>,
    dir: Seq<u8>,
    event_name: Seq<char>,
    arg: Seq<char>,
)
    requires
        event_name.len() > 0,
        is_ascii_chars(event_name),
        event_name.first() != '/',
    ensures
        ({
            let r = registration_of(key, dir, event_name, arg);
            let below = if dir.len() == 0 || dir.last() == 47 {
                dir
            } else {
                dir + seq![47u8]
            };
            &&& r.key == key
            &&& r.arg == arg
            &&& r.path == below + encode_utf8(event_name)
            &&& r.control_path == below + encode_utf8("cgroup.event_control"@)
        }),
{
    reveal_strlit("cgroup.event_control");
    paths::law_joining_text(dir, event_name);
    paths::law_joining_text(dir, "cgroup.event_control"@);
}

/// For any name of an event, the file is the one that the name stands for below the directory.
pub proof fn law_registration_is_in_the_directory(
    key: Seq<char>,
    dir: Seq<u8>,
    event_name: Seq<char>,
    arg: Seq<char>,
)
    ensures
        registration_of(key, dir, event_name, arg) == (EventRegistrationView {
            key,
            path: paths::joined(dir, encode_utf8(event_name)),
            control_path: paths::joined(dir, encode_utf8("cgroup.event_control"@)),
            arg,
        }),
{
}

/// The line that registers an event is made of the eventfd, a space and the event file, and, where
/// there is an argument, another space and the argument.
pub proof fn law_registration_line(eventfd: i32, event_file: i32, arg: Seq<char>)
    ensures
        registration_line(eventfd, event_file, arg) == number::signed_decimal(eventfd as int)
            + seq![' '] + number::signed_decimal(event_file as int) + (if arg.len() == 0 {
            arg
        } else {
            seq![' '] + arg
        }),
{
    assert(registration_line(eventfd, event_file, arg) == number::signed_decimal(eventfd as int)
        + seq![' '] + number::signed_decimal(event_file as int) + (if arg.len() == 0 {
        arg
    } else {
        seq![' '] + arg
    }));
}

/// Each stage of a registration goes on with what it was given: what is written to
/// `cgroup.event_control` is the line for the two file descriptors and the argument, and the
/// listener has the key of the registration.
pub proof fn law_registration_stages(
    registration: EventRegistrationView,
    file: i32,
    fd: i32,
    m: Seq<char>,
)
    ensures
        registration.after_open(Ok(file)) == Ok::<_, ErrorView>(
            EventFdRequestView { registration, event_file: file },
        ),
        registration.after_open(Err(m)) == Err::<EventFdRequestView, _>(
            ErrorView {
                kind: ErrorKindView::ReadFailed(paths::shown(registration.path)),
                cause: Some(CauseView::Io(m)),
            },
        ),
        ({
            let request = EventFdRequestView { registration, event_file: file };
            let control = ControlWriteView {
                key: registration.key,
                path: registration.control_path,
                data: registration_line(fd, file, registration.arg),
            };
            &&& request.after_eventfd(Ok(fd)) == Ok::<_, ErrorView>(control)
            &&& request.after_eventfd(Err(m)) == Err::<ControlWriteView, _>(
                ErrorView {
                    kind: ErrorKindView::ReadFailed("eventfd"@),
                    cause: Some(CauseView::Io(m)),
                },
            )
            &&& control.after_write(Ok(())) == Ok::<_, ErrorView>(
                EventListenerView {
                    key: registration.key,
                    control_path: registration.control_path,
                    phase: ListenerPhase::Waiting,
                },
            )
            &&& control.after_write(Err(m)) == Err::<EventListenerView, _>(
                ErrorView {
                    kind: ErrorKindView::WriteFailed(
                        paths::shown(registration.control_path),
                        control.data,
                    ),
                    cause: Some(CauseView::Io(m)),
                },
            )
        }),
{
}

/// The way of an event: a listener that waits looks, once the eventfd could be read, whether the
/// control group is still there, sends the key if it is, and waits again once the key was sent.
/// In each phase one kind of input answers, and no other.
pub proof fn law_way_of_an_event(phase: ListenerPhase, i: ListenerInput)
    ensures
        phase.awaits(i) <==> match phase {
            ListenerPhase::Waiting => i is Read,
            ListenerPhase::Checking => i is ControlExists,
            ListenerPhase::Sending => i is Sent,
            ListenerPhase::Closed => false,
        },
        ListenerPhase::Waiting.next(ListenerInput::Read(true)) == ListenerPhase::Checking,
        ListenerPhase::Waiting.next(ListenerInput::Read(false)) == ListenerPhase::Closed,
        ListenerPhase::Checking.next(ListenerInput::ControlExists(true)) == ListenerPhase::Sending,
        ListenerPhase::Checking.next(ListenerInput::ControlExists(false)) == ListenerPhase::Closed,
        ListenerPhase::Sending.next(ListenerInput::Sent) == ListenerPhase::Waiting,
{
}

/// The listener after a sequence of inputs.
pub open spec fn listen(l: EventListenerView, inputs: Seq<ListenerInput>) -> EventListenerView
    decreases inputs.len(),
{
    if inputs.len() == 0 {
        l
    } else {
        let before = listen(l, inputs.drop_last());
        EventListenerView { phase: before.phase.next(inputs.last()), ..before }
    }
}

/// Each input answers what was asked for.
pub open spec fn answers(l: EventListenerView, inputs: Seq<ListenerInput>) -> bool
    decreases inputs.len(),
{
    inputs.len() > 0 ==> {
        &&& answers(l, inputs.drop_last())
        &&& listen(l, inputs.drop_last()).phase.awaits(inputs.last())
    }
}

/// How often an input occurs.
pub open spec fn times(inputs: Seq<ListenerInput>, i: ListenerInput) -> nat
    decreases inputs.len(),
{
    if inputs.len() == 0 {
        0
    } else if inputs.last() == i {
        times(inputs.drop_last(), i) + 1
    } else {
        times(inputs.drop_last(), i)
    }
}

/// Each event of a living control group is sent once: the events that were read are those whose
/// key was sent, the one that is just being handled, and the one that came of the end of the
/// control group.
pub proof fn law_each_event_is_sent_once(l: EventListenerView, inputs: Seq<ListenerInput>)
    requires
        l.phase == ListenerPhase::Waiting,
        answers(l, inputs),
    ensures
        times(inputs, ListenerInput::Read(true)) == times(inputs, ListenerInput::Sent) + times(
            inputs,
            ListenerInput::ControlExists(false),
        ) + (if listen(l, inputs).phase is Checking || listen(l, inputs).phase is Sending {
            1nat
        } else {
            0nat
        }),
        listen(l, inputs).key == l.key,
        listen(l, inputs).control_path == l.control_path,
    decreases inputs.len(),
{
    if inputs.len() > 0 {
        law_each_event_is_sent_once(l, inputs.drop_last());
    }
}

/// The receiver is sent the key that was passed in: through a successful registration and every
/// input that follows, the listener has that key and no other.
pub proof fn law_receiver_is_sent_the_key(
    key: Seq<char>,
    dir: Seq<u8>,
    event_name: Seq<char>,
    arg: Seq<char>,
    open: Result<i32, Seq<char>>,
    eventfd: Result<i32, Seq<char>>,
    write: Result<(), Seq<char>>,
    inputs: Seq<ListenerInput>,
)
    ensures
        register(registration_of(key, dir, event_name, arg), open, eventfd, write) matches Ok(l)
            ==> listen(l, inputs).key == key,
        open is Ok && eventfd is Ok && write is Ok ==> register(
            registration_of(key, dir, event_name, arg),
            open,
            eventfd,
            write,
        ) is Ok,
    decreases inputs.len(),
{
    if inputs.len() > 0 {
        law_receiver_is_sent_the_key(
            key,
            dir,
            event_name,
            arg,
            open,
            eventfd,
            write,
            inputs.drop_last(),
        );
    }
}

} // verus!
