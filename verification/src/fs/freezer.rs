//! The `freezer` subsystem, which freezes and thaws the processes of a control group.

use std::path::PathBuf;

use vstd::prelude::*;
use vstd::string::*;
use vstd::utf8::{encode_utf8, valid_utf8};

use crate::fs::error::{self, CauseView, Error, ErrorKind, ErrorKindView, ErrorView};
use crate::fs::file_laws;
use crate::fs::files::{
    self, read_keyed_u64, read_string_from, read_u64_from, FileDataView, ReadReply, ReadReplyView,
    WriteReplyView, WriteRequest,
};
use crate::fs::number;
use crate::fs::resources::{Controllers, Resources, Subsystem};
use crate::fs::text::{self, same_text};
use crate::FreezerState;

verus! {

/// Freezes and thaws the processes of a control group. To them, and to their parents and
/// children, a freeze cannot be observed.
///
/// While a control group is frozen or on its way to being frozen, no process can be added to it.
#[derive(Debug)]
pub struct FreezerController {
    base: PathBuf,
    path: PathBuf,
    v2: bool,
}

// ---------------------------------------------------------------------------------------------
// Freezing and thawing
// ---------------------------------------------------------------------------------------------

/// The file through which processes are frozen and thawed.
pub open spec fn control_file(v2: bool) -> Seq<char> {
    if v2 {
        "cgroup.freeze"@
    } else {
        "freezer.state"@
    }
}

/// What is written to that file to freeze the processes.
pub open spec fn freeze_content(v2: bool) -> Seq<char> {
    if v2 {
        "1"@
    } else {
        "FROZEN"@
    }
}

/// What is written to that file to thaw the processes.
pub open spec fn thaw_content(v2: bool) -> Seq<char> {
    if v2 {
        "0"@
    } else {
        "THAWED"@
    }
}

// ---------------------------------------------------------------------------------------------
// The state
// ---------------------------------------------------------------------------------------------

/// The state that a word in `freezer.state` stands for.
pub open spec fn named_state(word: Seq<char>) -> Option<FreezerState> {
    if word == "FROZEN"@ || word == "1"@ {
        Some(FreezerState::Frozen)
    } else if word == "THAWED"@ || word == "0"@ {
        Some(FreezerState::Thawed)
    } else if word == "FREEZING"@ {
        Some(FreezerState::Freezing)
    } else {
        None
    }
}

/// The state that a file of version 1 reports.
pub open spec fn v1_state(name: Seq<char>, reply: ReadReplyView) -> Result<
    FreezerState,
    ErrorView,
> {
    match reply {
        ReadReplyView::Unopened(e) => Err(e),
        ReadReplyView::Data(d) => match files::string_in(name, d) {
            Ok(word) => match named_state(word) {
                Some(s) => Ok(s),
                None => Err(ErrorView::new(ErrorKindView::ParseError)),
            },
            Err(e) => Err(e),
        },
    }
}

/// What a file of version 2 reports under `frozen`: 1 once a freeze is complete, 0 if not.
pub open spec fn frozen_counter(name: Seq<char>, reply: ReadReplyView) -> Result<u64, ErrorView> {
    match reply {
        ReadReplyView::Unopened(e) => Err(e),
        ReadReplyView::Data(d) => match files::number_under(d, "frozen"@, name) {
            Ok(Some(n)) => Ok(n),
            Ok(None) => Err(ErrorView::new(ErrorKindView::ParseError)),
            Err(e) => Err(e),
        },
    }
}

/// The number that was last written to `cgroup.freeze`.
pub open spec fn requested_number(reply: ReadReplyView) -> Result<u64, ErrorView> {
    match reply {
        ReadReplyView::Unopened(e) => Err(e),
        ReadReplyView::Data(d) => files::number_in("cgroup.freeze"@, d),
    }
}

/// The state in version 2, from what was requested and what has been completed.
pub open spec fn combined_state(requested: u64, completed: u64) -> Result<FreezerState, ErrorView> {
    if requested <= 1 && completed == 1 {
        Ok(FreezerState::Frozen)
    } else if requested == 1 && completed == 0 {
        Ok(FreezerState::Freezing)
    } else if requested == 0 && completed == 0 {
        Ok(FreezerState::Thawed)
    } else {
        Err(ErrorView::new(ErrorKindView::ParseError))
    }
}

/// A query for the state, and how far it has come.
#[derive(Debug, Clone, Copy, PartialEq, Eq, Structural)]
pub enum StateQuery {
    /// Version 1: `freezer.state` is to be read.
    Named,
    /// Version 2: `cgroup.freeze` is to be read.
    Requested,
    /// Version 2: `cgroup.freeze` holds this number, and `cgroup.events` is to be read.
    Completed(u64),
}

/// What a query comes to with a reply.
#[derive(Debug, PartialEq, Eq)]
pub enum StateStep {
    /// It goes on.
    Ask(StateQuery),
    /// It has its result.
    Done(Result<FreezerState, Error>),
}

/// A [`StateStep`] with its error taken by its view.
pub enum StateStepView {
    Ask(StateQuery),
    Done(Result<FreezerState, ErrorView>),
}

impl View for StateStep {
    type V = StateStepView;

    open spec fn view(&self) -> StateStepView {
        match *self {
            StateStep::Ask(q) => StateStepView::Ask(q),
            StateStep::Done(r) => StateStepView::Done(error::outcome(r)),
        }
    }
}

impl StateQuery {
    /// The file that is to be read.
    pub open spec fn file(self) -> Seq<char> {
        match self {
            StateQuery::Named => "freezer.state"@,
            StateQuery::Requested => "cgroup.freeze"@,
            StateQuery::Completed(_) => "cgroup.events"@,
        }
    }

    /// What the query comes to with a reply.
    pub open spec fn after(self, reply: ReadReplyView) -> StateStepView {
        match self {
            StateQuery::Named => StateStepView::Done(v1_state("freezer.state"@, reply)),
            StateQuery::Requested => match requested_number(reply) {
                Ok(n) => StateStepView::Ask(StateQuery::Completed(n)),
                Err(e) => StateStepView::Done(Err(e)),
            },
            StateQuery::Completed(requested) => match frozen_counter("cgroup.events"@, reply) {
                Ok(completed) => StateStepView::Done(combined_state(requested, completed)),
                Err(e) => StateStepView::Done(Err(e)),
            },
        }
    }

    /// The name of the file that is to be read.
    pub fn file_name(&self) -> (r: String)
        ensures
            r@ == self.file(),
    {
        match self {
            StateQuery::Named => "freezer.state".to_owned(),
            StateQuery::Requested => "cgroup.freeze".to_owned(),
            StateQuery::Completed(_) => "cgroup.events".to_owned(),
        }
    }

    /// Takes what came of reading the file.
    pub fn step(self, reply: ReadReply) -> (r: StateStep)
        ensures
            r@ == self.after(reply@),
    {
        match self {
            StateQuery::Named => StateStep::Done(
                FreezerController::read_v1_state("freezer.state", reply),
            ),
            StateQuery::Requested => match reply {
                ReadReply::Unopened(e) => StateStep::Done(Err(e)),
                ReadReply::Data(d) => match read_u64_from("cgroup.freeze", &d) {
                    Ok(n) => StateStep::Ask(StateQuery::Completed(n)),
                    Err(e) => StateStep::Done(Err(e)),
                },
            },
            StateQuery::Completed(requested) => match FreezerController::read_frozen_counter(
                "cgroup.events",
                reply,
            ) {
                Ok(completed) => StateStep::Done(combine(requested, completed)),
                Err(e) => StateStep::Done(Err(e)),
            },
        }
    }
}

/// The state in version 2, from what was requested and what has been completed.
fn combine(requested: u64, completed: u64) -> (r: Result<FreezerState, Error>)
    ensures
        error::outcome(r) == combined_state(requested, completed),
{
    match (requested, completed) {
        (1, 1) | (0, 1) => Ok(FreezerState::Frozen),
        (1, 0) => Ok(FreezerState::Freezing),
        (0, 0) => Ok(FreezerState::Thawed),
        _ => Err(Error::new(ErrorKind::ParseError)),
    }
}

// ---------------------------------------------------------------------------------------------
// The controller
// ---------------------------------------------------------------------------------------------

impl Clone for FreezerController {
    fn clone(&self) -> (r: FreezerController)
        ensures
            r == *self,
    {
        FreezerController { base: self.base.clone(), path: self.path.clone(), v2: self.v2 }
    }
}

impl FreezerController {
    /// The root of the hierarchy.
    pub closed spec fn base_path(self) -> PathBuf {
        self.base
    }

    /// The directory of the control group.
    pub closed spec fn own_path(self) -> PathBuf {
        self.path
    }

    /// Whether the hierarchy is one of version 2.
    pub closed spec fn version2(self) -> bool {
        self.v2
    }

    /// A controller for the control group in the directory `point`, below `root`.
    pub fn new(point: PathBuf, root: PathBuf, v2: bool) -> (r: FreezerController)
        ensures
            r.own_path() == point,
            r.base_path() == root,
            r.version2() == v2,
    {
        FreezerController { base: root, path: point, v2 }
    }

    /// The subsystem that this is a controller of.
    pub fn controller_type() -> (r: Controllers)
        ensures
            r == Controllers::Freezer,
    {
        Controllers::Freezer
    }

    /// The subsystem that this is a controller of.
    pub fn control_type(&self) -> (r: Controllers)
        ensures
            r == Controllers::Freezer,
    {
        Controllers::Freezer
    }

    /// The directory of the control group.
    pub fn get_path(&self) -> (r: &PathBuf)
        ensures
            *r == self.own_path(),
    {
        &self.path
    }

    /// The directory of the control group, to be changed.
    pub fn get_path_mut(&mut self) -> (r: &mut PathBuf)
        ensures
            *r == old(self).own_path(),
            final(self).own_path() == *final(r),
            final(self).base_path() == old(self).base_path(),
            final(self).version2() == old(self).version2(),
    {
        &mut self.path
    }

    /// The root of the hierarchy.
    pub fn get_base(&self) -> (r: &PathBuf)
        ensures
            *r == self.base_path(),
    {
        &self.base
    }

    /// Whether the hierarchy is one of version 2.
    pub fn is_v2(&self) -> (r: bool)
        ensures
            r == self.version2(),
    {
        self.v2
    }

    /// Applies the limits that concern this subsystem. There are none.
    pub fn apply(&self, _res: &Resources) -> (r: Result<(), Error>)
        ensures
            r is Ok,
    {
        Ok(())
    }

    /// The controller in a subsystem that is a freezer.
    pub fn from(sub: &Subsystem) -> (r: &FreezerController)
        requires
            sub is Freezer,
        ensures
            *sub == Subsystem::Freezer(*r),
    {
        match sub {
            Subsystem::Freezer(c) => c,
            Subsystem::Misc(_) => vstd::pervasive::unreached(),
        }
    }

    /// Freezes the processes of the control group.
    pub fn freeze(&self) -> (r: WriteRequest)
        ensures
            r.file_name@ == control_file(self.version2()),
            r.content@ == freeze_content(self.version2()),
            self.version2() ==> r.file_name@ == "cgroup.freeze"@ && r.content@ == "1"@,
            !self.version2() ==> r.file_name@ == "freezer.state"@ && r.content@ == "FROZEN"@,
    {
        if self.v2 {
            WriteRequest::new("cgroup.freeze", "1")
        } else {
            WriteRequest::new("freezer.state", "FROZEN")
        }
    }

    /// Thaws the processes of the control group.
    pub fn thaw(&self) -> (r: WriteRequest)
        ensures
            r.file_name@ == control_file(self.version2()),
            r.content@ == thaw_content(self.version2()),
            self.version2() ==> r.file_name@ == "cgroup.freeze"@ && r.content@ == "0"@,
            !self.version2() ==> r.file_name@ == "freezer.state"@ && r.content@ == "THAWED"@,
    {
        if self.v2 {
            WriteRequest::new("cgroup.freeze", "0")
        } else {
            WriteRequest::new("freezer.state", "THAWED")
        }
    }

    /// Reads the state from a file of version 1.
    pub fn read_v1_state(file_name: &str, reply: ReadReply) -> (r: Result<FreezerState, Error>)
        ensures
            error::outcome(r) == v1_state(file_name@, reply@),
    {
        let word: String = match reply {
            ReadReply::Unopened(e) => {
                return Err(e);
            },
            ReadReply::Data(d) => match read_string_from(file_name, &d) {
                Ok(s) => s,
                Err(e) => {
                    return Err(e);
                },
            },
        };
        let word: &str = word.as_str();
        if same_text(word, "FROZEN") || same_text(word, "1") {
            Ok(FreezerState::Frozen)
        } else if same_text(word, "THAWED") || same_text(word, "0") {
            Ok(FreezerState::Thawed)
        } else if same_text(word, "FREEZING") {
            Ok(FreezerState::Freezing)
        } else {
            Err(Error::new(ErrorKind::ParseError))
        }
    }

    /// Reads the number under `frozen` from a file of version 2.
    pub fn read_frozen_counter(file_name: &str, reply: ReadReply) -> (r: Result<u64, Error>)
        ensures
            error::outcome(r) == frozen_counter(file_name@, reply@),
    {
        match reply {
            ReadReply::Unopened(e) => Err(e),
            ReadReply::Data(d) => match read_keyed_u64(&d, "frozen", file_name) {
                Ok(Some(n)) => Ok(n),
                Ok(None) => Err(Error::new(ErrorKind::ParseError)),
                Err(e) => Err(e),
            },
        }
    }

    /// Asks for the state of the processes.
    ///
    /// In version 2 the state is what the kernel has made of the last request: it may be
    /// [`FreezerState::Freezing`] for a while after [`freeze`](Self::freeze), and
    /// [`FreezerState::Frozen`] for a while after [`thaw`](Self::thaw). Ask again to see the
    /// state in which it ends.
    pub fn state(&self) -> (r: StateQuery)
        ensures
            r == (if self.version2() {
                StateQuery::Requested
            } else {
                StateQuery::Named
            }),
    {
        if self.v2 {
            StateQuery::Requested
        } else {
            StateQuery::Named
        }
    }
}

// ---------------------------------------------------------------------------------------------
// Laws
// ---------------------------------------------------------------------------------------------

/// A file that holds a text, as whoever wrote it left it or with white space after it.
pub open spec fn holding(content: Seq<char>, space: Seq<char>) -> ReadReplyView {
    ReadReplyView::Data(files::whole_file(encode_utf8(content + space)))
}

/// The whole of a query: what the first file and, where it is read at all, the second one make of
/// it.
pub open spec fn state_result(v2: bool, first: ReadReplyView, second: ReadReplyView) -> Result<
    FreezerState,
    ErrorView,
> {
    if v2 {
        match requested_number(first) {
            Ok(requested) => match frozen_counter("cgroup.events"@, second) {
                Ok(completed) => combined_state(requested, completed),
                Err(e) => Err(e),
            },
            Err(e) => Err(e),
        }
    } else {
        v1_state("freezer.state"@, first)
    }
}

/// A query has its result after at most two files, `cgroup.freeze` before `cgroup.events`.
pub proof fn law_query_ends(v2: bool, first: ReadReplyView, second: ReadReplyView)
    ensures
        ({
            let start = if v2 {
                StateQuery::Requested
            } else {
                StateQuery::Named
            };
            match start.after(first) {
                StateStepView::Done(r) => r == state_result(v2, first, second),
                StateStepView::Ask(next) => {
                    &&& v2
                    &&& next.file() == "cgroup.events"@
                    &&& next.after(second) == StateStepView::Done(state_result(v2, first, second))
                },
            }
        }),
{
}

proof fn lemma_reads_back(content: Seq<char>, space: Seq<char>, name: Seq<char>)
    requires
        text::no_space(content),
        forall|i: int| 0 <= i < space.len() ==> text::is_space(#[trigger] space[i]),
    ensures
        holding(content, space) matches ReadReplyView::Data(d) && files::string_in(name, d) == Ok::<
            Seq<char>,
            ErrorView,
        >(content),
{
    let none = Seq::<char>::empty();
    files::law_written_text_reads_back(name, none, content, space);
    assert(none + content + space == content + space);
    text::lemma_trimmed_word(content);
}

/// Version 1: what `freeze` writes reads back as frozen, and what `thaw` writes as thawed.
pub proof fn law_v1_state_follows_the_request(space: Seq<char>, other: ReadReplyView)
    requires
        forall|i: int| 0 <= i < space.len() ==> text::is_space(#[trigger] space[i]),
    ensures
        state_result(false, holding(freeze_content(false), space), other) == Ok::<_, ErrorView>(
            FreezerState::Frozen,
        ),
        state_result(false, holding(thaw_content(false), space), other) == Ok::<_, ErrorView>(
            FreezerState::Thawed,
        ),
{
    reveal_strlit("FROZEN");
    reveal_strlit("THAWED");
    reveal_strlit("1");
    reveal_strlit("0");
    assert("FROZEN"@[0] != "THAWED"@[0]);
    assert("THAWED"@.len() != "1"@.len());
    lemma_reads_back("FROZEN"@, space, "freezer.state"@);
    lemma_reads_back("THAWED"@, space, "freezer.state"@);
}

/// Version 2: after `freeze` the state is freezing until the kernel has completed the request,
/// and frozen then; after `thaw` it is frozen until then, and thawed from then on. Nothing else
/// that the kernel could report as completed is taken for a state.
pub proof fn law_v2_state_follows_the_request(space: Seq<char>, events: ReadReplyView)
    requires
        forall|i: int| 0 <= i < space.len() ==> text::is_space(#[trigger] space[i]),
    ensures
        state_result(true, holding(freeze_content(true), space), events) == (match frozen_counter(
            "cgroup.events"@,
            events,
        ) {
            Ok(0) => Ok(FreezerState::Freezing),
            Ok(1) => Ok(FreezerState::Frozen),
            Ok(_) => Err(ErrorView::new(ErrorKindView::ParseError)),
            Err(e) => Err(e),
        }),
        state_result(true, holding(thaw_content(true), space), events) == (match frozen_counter(
            "cgroup.events"@,
            events,
        ) {
            Ok(0) => Ok(FreezerState::Thawed),
            Ok(1) => Ok(FreezerState::Frozen),
            Ok(_) => Err(ErrorView::new(ErrorKindView::ParseError)),
            Err(e) => Err(e),
        }),
{
    reveal_strlit("1");
    reveal_strlit("0");
    assert("1"@ == number::decimal(1));
    assert("0"@ == number::decimal(0));
    number::law_decimal_reads_back(1);
    number::law_decimal_reads_back(0);
    lemma_reads_back("1"@, space, "cgroup.freeze"@);
    lemma_reads_back("0"@, space, "cgroup.freeze"@);
}

/// Version 2: requests other than the two that exist are not taken for a state.
pub proof fn law_v2_unknown_numbers_are_refused(requested: u64, completed: u64)
    ensures
        combined_state(requested, completed) is Ok <==> requested <= 1 && completed <= 1,
        combined_state(requested, completed) matches Err(e) ==> e == ErrorView::new(
            ErrorKindView::ParseError,
        ),
{
}

/// Freezing and thawing go through one file, with contents that tell them apart.
pub proof fn law_freeze_and_thaw_differ(v2: bool)
    ensures
        control_file(v2) == (if v2 {
            "cgroup.freeze"@
        } else {
            "freezer.state"@
        }),
        freeze_content(v2) == (if v2 {
            "1"@
        } else {
            "FROZEN"@
        }),
        thaw_content(v2) == (if v2 {
            "0"@
        } else {
            "THAWED"@
        }),
        freeze_content(v2) != thaw_content(v2),
{
    reveal_strlit("1");
    reveal_strlit("0");
    reveal_strlit("FROZEN");
    reveal_strlit("THAWED");
    assert("1"@[0] != "0"@[0]);
    assert("FROZEN"@[0] != "THAWED"@[0]);
}

/// Freezing and thawing are reported as what came of them, in both versions: they succeed exactly
/// when the content was written, and if not, it is said whether the file could not be opened or
/// the content was refused, and why.
pub proof fn law_freeze_and_thaw_report_what_happened(v2: bool, freeze: bool, reply: WriteReplyView)
    ensures
        ({
            let content = if freeze {
                freeze_content(v2)
            } else {
                thaw_content(v2)
            };
            let r = files::write_result(control_file(v2), content, reply);
            &&& r is Ok <==> reply is Written
            &&& reply matches WriteReplyView::Unopened(e) ==> r == Err::<(), _>(e)
            &&& reply matches WriteReplyView::Failed(m) ==> r == Err::<(), _>(
                ErrorView {
                    kind: ErrorKindView::WriteFailed(control_file(v2), content),
                    cause: Some(CauseView::Io(m)),
                },
            )
        }),
{
    let content = if freeze {
        freeze_content(v2)
    } else {
        thaw_content(v2)
    };
    file_laws::law_write_request_reports_what_happened(control_file(v2), content, reply);
}

/// The files that a query reads.
pub proof fn law_query_reads_these_files(requested: u64)
    ensures
        StateQuery::Named.file() == "freezer.state"@,
        StateQuery::Requested.file() == "cgroup.freeze"@,
        StateQuery::Completed(requested).file() == "cgroup.events"@,
{
}

/// Version 1, said of the file: the word in it names the state, and no other word does.
pub proof fn law_v1_state_is_the_word(
    name: Seq<char>,
    before: Seq<char>,
    word: Seq<char>,
    after: Seq<char>,
)
    requires
        forall|i: int| 0 <= i < before.len() ==> text::is_space(#[trigger] before[i]),
        forall|i: int| 0 <= i < after.len() ==> text::is_space(#[trigger] after[i]),
        word.len() > 0 ==> !text::is_space(word.first()) && !text::is_space(word.last()),
    ensures
        ({
            let file = ReadReplyView::Data(
                FileDataView { bytes: encode_utf8(before + word + after), failure: None },
            );
            let r = v1_state(name, file);
            &&& r == Ok::<_, ErrorView>(FreezerState::Frozen) <==> word == "FROZEN"@ || word
                == "1"@
            &&& r == Ok::<_, ErrorView>(FreezerState::Thawed) <==> word == "THAWED"@ || word
                == "0"@
            &&& r == Ok::<_, ErrorView>(FreezerState::Freezing) <==> word == "FREEZING"@
            &&& r matches Err(e) ==> e == (ErrorView {
                kind: ErrorKindView::ParseError,
                cause: None,
            })
            &&& StateQuery::Named.after(file) == StateStepView::Done(
                v1_state("freezer.state"@, file),
            )
        }),
{
    file_laws::law_string_read_gives_the_text(name, before, word, after);
    reveal_strlit("FROZEN");
    reveal_strlit("THAWED");
    reveal_strlit("FREEZING");
    reveal_strlit("1");
    reveal_strlit("0");
    assert("FROZEN"@[0] != "THAWED"@[0]);
    assert("1"@[0] != "0"@[0]);
}

/// A file that cannot be opened, or be read to its end as UTF-8, gives no state: the failure is
/// the result, in both versions and whichever of the files it is.
pub proof fn law_state_reports_what_failed(
    name: Seq<char>,
    bytes: Seq<u8>,
    m: Seq<char>,
    e: ErrorView,
    requested: u64,
)
    ensures
        v1_state(name, ReadReplyView::Unopened(e)) == Err::<FreezerState, _>(e),
        frozen_counter(name, ReadReplyView::Unopened(e)) == Err::<u64, _>(e),
        StateQuery::Named.after(ReadReplyView::Unopened(e)) == StateStepView::Done(Err(e)),
        StateQuery::Requested.after(ReadReplyView::Unopened(e)) == StateStepView::Done(Err(e)),
        StateQuery::Completed(requested).after(ReadReplyView::Unopened(e)) == StateStepView::Done(
            Err(e),
        ),
        ({
            let broken = ReadReplyView::Data(FileDataView { bytes, failure: Some(m) });
            &&& v1_state(name, broken) == Err::<FreezerState, _>(
                ErrorView {
                    kind: ErrorKindView::ReadFailed(name),
                    cause: Some(CauseView::Io(m)),
                },
            )
            &&& StateQuery::Requested.after(broken) == StateStepView::Done(
                Err(
                    ErrorView {
                        kind: ErrorKindView::ReadFailed("cgroup.freeze"@),
                        cause: Some(CauseView::Io(m)),
                    },
                ),
            )
        }),
        !valid_utf8(bytes) ==> {
            let bad = ReadReplyView::Data(FileDataView { bytes, failure: None });
            &&& v1_state(name, bad) == Err::<FreezerState, _>(
                ErrorView {
                    kind: ErrorKindView::ReadFailed(name),
                    cause: Some(CauseView::InvalidUtf8),
                },
            )
            &&& StateQuery::Requested.after(bad) == StateStepView::Done(
                Err(
                    ErrorView {
                        kind: ErrorKindView::ReadFailed("cgroup.freeze"@),
                        cause: Some(CauseView::InvalidUtf8),
                    },
                ),
            )
        },
{
}

/// Version 2: the text in `cgroup.freeze` is the number that was requested, and the query goes on
/// with it; what is no number ends the query.
pub proof fn law_requested_number_is_read(before: Seq<char>, t: Seq<char>, after: Seq<char>)
    requires
        forall|i: int| 0 <= i < before.len() ==> text::is_space(#[trigger] before[i]),
        forall|i: int| 0 <= i < after.len() ==> text::is_space(#[trigger] after[i]),
        t.len() > 0 ==> !text::is_space(t.first()) && !text::is_space(t.last()),
    ensures
        StateQuery::Requested.after(
            ReadReplyView::Data(
                FileDataView { bytes: encode_utf8(before + t + after), failure: None },
            ),
        ) == (match number::number_of(t) {
            Ok(n) => StateStepView::Ask(StateQuery::Completed(n)),
            Err(e) => StateStepView::Done(
                Err(
                    ErrorView {
                        kind: ErrorKindView::ParseError,
                        cause: Some(CauseView::Number(e)),
                    },
                ),
            ),
        }),
{
    file_laws::law_number_in_a_file("cgroup.freeze"@, before, t, after);
}

/// There is no white space in the key of the completed number.
proof fn lemma_frozen_is_a_word()
    ensures
        "frozen"@.len() == 6,
        forall|i: int| 0 <= i < "frozen"@.len() ==> !text::is_space(#[trigger] "frozen"@[i]),
{
    reveal_strlit("frozen");
}

/// The completed number is the second word of the first line whose first word is `frozen`,
/// whatever the lines before it and all that follows it hold. What is no number is refused as
/// such.
pub proof fn law_completed_number_stands_under_frozen(
    name: Seq<char>,
    before: Seq<Seq<char>>,
    line: Seq<char>,
    after: Seq<u8>,
    failure: Option<Seq<char>>,
)
    requires
        file_laws::passed_over(before, "frozen"@),
        forall|i: int| 0 <= i < line.len() ==> #[trigger] line[i] != '\n',
        text::words(line).len() >= 2,
        text::words(line)[0] == "frozen"@,
        if after.len() > 0 {
            after.first() == 10
        } else {
            failure is None
        },
    ensures
        frozen_counter(
            name,
            ReadReplyView::Data(
                FileDataView {
                    bytes: encode_utf8(before.flatten()) + encode_utf8(line) + after,
                    failure,
                },
            ),
        ) == (match number::number_of(text::words(line)[1]) {
            Ok(n) => Ok(n),
            Err(e) => Err(
                ErrorView {
                    kind: ErrorKindView::ParseError,
                    cause: Some(CauseView::Number(e)),
                },
            ),
        }),
{
    file_laws::law_number_under_a_key(before, "frozen"@, line, after, failure, name);
}

/// Where the kernel wrote `frozen` and a number, the completed number is that one, whatever the
/// other lines, such as `populated`, hold.
pub proof fn law_completed_number_is_the_one_under_frozen(
    name: Seq<char>,
    before: Seq<Seq<char>>,
    n: u64,
    after: Seq<u8>,
    failure: Option<Seq<char>>,
)
    requires
        file_laws::passed_over(before, "frozen"@),
        if after.len() > 0 {
            after.first() == 10
        } else {
            failure is None
        },
    ensures
        frozen_counter(
            name,
            ReadReplyView::Data(
                FileDataView {
                    bytes: encode_utf8(before.flatten()) + encode_utf8(
                        "frozen"@ + seq![' '] + number::decimal(n as nat),
                    ) + after,
                    failure,
                },
            ),
        ) == Ok::<u64, ErrorView>(n),
{
    lemma_frozen_is_a_word();
    file_laws::law_decimal_under_a_key(before, "frozen"@, n, after, failure, name);
}

/// Lines with other keys, such as `populated`, do not matter to the state: two files that have the
/// same line under `frozen` complete a query in the same way, however else they differ.
pub proof fn law_other_lines_do_not_matter_to_the_state(
    requested: u64,
    a: Seq<Seq<char>>,
    b: Seq<Seq<char>>,
    line: Seq<char>,
    after_a: Seq<u8>,
    after_b: Seq<u8>,
)
    requires
        file_laws::passed_over(a, "frozen"@),
        file_laws::passed_over(b, "frozen"@),
        forall|i: int| 0 <= i < line.len() ==> #[trigger] line[i] != '\n',
        text::words(line).len() >= 2,
        text::words(line)[0] == "frozen"@,
        after_a.len() > 0 ==> after_a.first() == 10,
        after_b.len() > 0 ==> after_b.first() == 10,
    ensures
        StateQuery::Completed(requested).after(
            ReadReplyView::Data(
                FileDataView {
                    bytes: encode_utf8(a.flatten()) + encode_utf8(line) + after_a,
                    failure: None,
                },
            ),
        ) == StateQuery::Completed(requested).after(
            ReadReplyView::Data(
                FileDataView {
                    bytes: encode_utf8(b.flatten()) + encode_utf8(line) + after_b,
                    failure: None,
                },
            ),
        ),
{
    law_completed_number_stands_under_frozen("cgroup.events"@, a, line, after_a, None);
    law_completed_number_stands_under_frozen("cgroup.events"@, b, line, after_b, None);
}

/// Without a completed number it is said why: no line has the key, reading broke off before one
/// with the key was ended, or a line before it is not UTF-8.
pub proof fn law_missing_completed_number_is_explained(
    name: Seq<char>,
    before: Seq<Seq<char>>,
    last: Seq<char>,
    part: Seq<u8>,
    bad: Seq<u8>,
    m: Seq<char>,
)
    requires
        file_laws::passed_over(before, "frozen"@),
        forall|i: int| 0 <= i < last.len() ==> #[trigger] last[i] != '\n',
        text::words(last).len() < 2 || text::words(last)[0] != "frozen"@,
        forall|i: int| 0 <= i < part.len() ==> #[trigger] part[i] != 10,
        forall|i: int| 0 <= i < bad.len() ==> #[trigger] bad[i] != 10,
        !valid_utf8(bad),
    ensures
        frozen_counter(
            name,
            ReadReplyView::Data(
                FileDataView {
                    bytes: encode_utf8(before.flatten()) + encode_utf8(last),
                    failure: None,
                },
            ),
        ) == Err::<u64, _>(ErrorView { kind: ErrorKindView::ParseError, cause: None }),
        frozen_counter(
            name,
            ReadReplyView::Data(
                FileDataView {
                    bytes: encode_utf8(before.flatten()) + part,
                    failure: Some(m),
                },
            ),
        ) == Err::<u64, _>(
            ErrorView { kind: ErrorKindView::ReadFailed(name), cause: Some(CauseView::Io(m)) },
        ),
        forall|after: Seq<u8>, failure: Option<Seq<char>>|
            (if after.len() > 0 {
                after.first() == 10
            } else {
                failure is None
            }) ==> #[trigger] frozen_counter(
                name,
                ReadReplyView::Data(
                    FileDataView {
                        bytes: encode_utf8(before.flatten()) + bad + after,
                        failure,
                    },
                ),
            ) == Err::<u64, _>(
                ErrorView {
                    kind: ErrorKindView::ReadFailed(name),
                    cause: Some(CauseView::InvalidUtf8),
                },
            ),
{
    file_laws::law_missing_key(before, "frozen"@, last, part, m, name);
    assert forall|after: Seq<u8>, failure: Option<Seq<char>>|
        (if after.len() > 0 {
            after.first() == 10
        } else {
            failure is None
        }) implies #[trigger] frozen_counter(
        name,
        ReadReplyView::Data(
            FileDataView { bytes: encode_utf8(before.flatten()) + bad + after, failure },
        ),
    ) == Err::<u64, _>(
        ErrorView {
            kind: ErrorKindView::ReadFailed(name),
            cause: Some(CauseView::InvalidUtf8),
        },
    ) by {
        file_laws::law_undecodable_line(before, "frozen"@, bad, after, failure, name);
    }
}

/// Version 2, said of both files: with a number in `cgroup.freeze` and one under `frozen` in
/// `cgroup.events`, the state is frozen once that is completed, freezing while it is requested and
/// not completed, and thawed when it is neither. Other numbers are refused.
pub proof fn law_v2_state_is_in_the_files(
    before: Seq<char>,
    requested: u64,
    after: Seq<char>,
    lines: Seq<Seq<char>>,
    completed: u64,
    rest: Seq<u8>,
)
    requires
        forall|i: int| 0 <= i < before.len() ==> text::is_space(#[trigger] before[i]),
        forall|i: int| 0 <= i < after.len() ==> text::is_space(#[trigger] after[i]),
        file_laws::passed_over(lines, "frozen"@),
        rest.len() > 0 ==> rest.first() == 10,
    ensures
        ({
            let freeze = ReadReplyView::Data(
                FileDataView {
                    bytes: encode_utf8(before + number::decimal(requested as nat) + after),
                    failure: None,
                },
            );
            let events = ReadReplyView::Data(
                FileDataView {
                    bytes: encode_utf8(lines.flatten()) + encode_utf8(
                        "frozen"@ + seq![' '] + number::decimal(completed as nat),
                    ) + rest,
                    failure: None,
                },
            );
            let result = if completed == 1 && requested <= 1 {
                Ok(FreezerState::Frozen)
            } else if completed == 0 && requested == 1 {
                Ok(FreezerState::Freezing)
            } else if completed == 0 && requested == 0 {
                Ok(FreezerState::Thawed)
            } else {
                Err(ErrorView { kind: ErrorKindView::ParseError, cause: None })
            };
            &&& StateQuery::Requested.after(freeze) == StateStepView::Ask(
                StateQuery::Completed(requested),
            )
            &&& StateQuery::Completed(requested).after(events) == StateStepView::Done(result)
            &&& state_result(true, freeze, events) == result
        }),
{
    file_laws::law_decimal_in_a_file("cgroup.freeze"@, before, requested, after);
    law_completed_number_is_the_one_under_frozen(
        "cgroup.events"@,
        lines,
        completed,
        rest,
        None,
    );
}

/// The file of version 1 alone decides in version 1. In version 2 the number that was completed
/// decides together with the one that was requested, and where there is none, the reason for that
/// is the result, whatever was requested.
pub proof fn law_last_file_decides(requested: u64, reply: ReadReplyView)
    ensures
        StateQuery::Named.after(reply) == StateStepView::Done(v1_state("freezer.state"@, reply)),
        StateQuery::Completed(requested).after(reply) == StateStepView::Done(
            match (requested, frozen_counter("cgroup.events"@, reply)) {
                (1, Ok(1)) => Ok(FreezerState::Frozen),
                (0, Ok(1)) => Ok(FreezerState::Frozen),
                (1, Ok(0)) => Ok(FreezerState::Freezing),
                (0, Ok(0)) => Ok(FreezerState::Thawed),
                (_, Ok(_)) => Err(ErrorView { kind: ErrorKindView::ParseError, cause: None }),
                (_, Err(e)) => Err(e),
            },
        ),
{
}

/// A view shows all of a step.
pub proof fn law_steps_are_shown_whole(q: StateQuery, s: FreezerState, e: Error)
    ensures
        StateStep::Ask(q)@ == StateStepView::Ask(q),
        StateStep::Done(Ok(s))@ == StateStepView::Done(Ok(s)),
        StateStep::Done(Err(e))@ == StateStepView::Done(Err(e@)),
{
}

} // verus!
