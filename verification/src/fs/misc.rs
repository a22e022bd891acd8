//! The `misc` subsystem, which limits and tracks scalar resources of a host, such as `sev`,
//! `sev_es` and `tdx`, that no other subsystem covers.

use std::collections::VecDeque;
use std::path::PathBuf;

use vstd::prelude::*;
use vstd::string::*;

use crate::fs::error::{self, CauseView, Error, ErrorKindView, ErrorView};
use crate::fs::file_laws;
use crate::fs::files::{self, StringRead, WriteReply, WriteReplyView, WriteRequest};
use crate::fs::number;
use crate::fs::resources::{self, Controllers, MiscMaxValue, Resources, Subsystem};
use crate::fs::text;

verus! {

/// Limits and tracks miscellaneous resources of a control group. The interface files are the
/// same in both versions of the hierarchy.
#[derive(Debug)]
pub struct MiscController {
    base: PathBuf,
    path: PathBuf,
    // Kept for information: no behaviour depends on it.
    v2: bool,
}

impl Clone for MiscController {
    fn clone(&self) -> (r: MiscController)
        ensures
            r == *self,
    {
        MiscController { base: self.base.clone(), path: self.path.clone(), v2: self.v2 }
    }
}

/// The line that sets a limit: the name of the resource and the limit, with a space between them.
pub open spec fn limit_line(name: Seq<char>, value: MiscMaxValue) -> Seq<char> {
    name.push(' ') + value.text()
}

/// The lines that set a list of limits.
pub open spec fn limit_lines(list: Seq<(Seq<char>, MiscMaxValue)>) -> Seq<Seq<char>> {
    list.map_values(|e: (Seq<char>, MiscMaxValue)| limit_line(e.0, e.1))
}

/// Lines on their way to `misc.max`, one write each.
#[derive(Debug)]
pub struct MiscApply {
    lines: VecDeque<String>,
}

impl View for MiscApply {
    type V = Seq<Seq<char>>;

    closed spec fn view(&self) -> Seq<Seq<char>> {
        text::texts(self.lines@)
    }
}

impl MiscApply {
    /// The next write, or `None` when there is nothing more to write.
    pub fn request(&self) -> (r: Option<WriteRequest>)
        ensures
            match r {
                Some(w) => self@.len() > 0 && w.file_name@ == "misc.max"@ && w.content@
                    == self@.first(),
                None => self@.len() == 0,
            },
    {
        if self.lines.len() == 0 {
            None
        } else {
            assert(self@.first() == self.lines@[0]@);
            Some(WriteRequest::new("misc.max", self.lines[0].as_str()))
        }
    }

    /// Takes what came of the write. The first failure is the result, and ends the writing.
    pub fn step(&mut self, reply: WriteReply) -> (r: Result<(), Error>)
        requires
            old(self)@.len() > 0,
        ensures
            error::outcome(r) == files::write_result("misc.max"@, old(self)@.first(), reply@),
            r is Ok <==> reply is Written,
            final(self)@ == (if r is Ok {
                old(self)@.drop_first()
            } else {
                Seq::empty()
            }),
    {
        let ghost before = self@;
        let r: Result<(), Error> = match self.lines.pop_front() {
            Some(line) => {
                assert(before.first() == line@);
                assert(self@ == before.drop_first());
                WriteRequest::new("misc.max", line.as_str()).finish(reply)
            },
            None => Ok(()),
        };
        if r.is_err() {
            self.lines.clear();
            assert(self@ == Seq::<Seq<char>>::empty());
        }
        r
    }
}

impl MiscController {
    /// The root of the hierarchy.
    pub closed spec fn base_path(self) -> PathBuf {
        self.base
    }

    /// The directory of the control group.
    pub closed spec fn own_path(self) -> PathBuf {
        self.path
    }

    /// Whether the hierarchy is one of version 2.
    pub closed spec fn version2(self) -> bool {
        self.v2
    }

    /// A controller for the control group in the directory `point`, below `root`.
    pub fn new(point: PathBuf, root: PathBuf, v2: bool) -> (r: MiscController)
        ensures
            r.own_path() == point,
            r.base_path() == root,
            r.version2() == v2,
    {
        MiscController { base: root, path: point, v2 }
    }

    /// The subsystem that this is a controller of.
    pub fn controller_type() -> (r: Controllers)
        ensures
            r == Controllers::Misc,
    {
        Controllers::Misc
    }

    /// The subsystem that this is a controller of.
    pub fn control_type(&self) -> (r: Controllers)
        ensures
            r == Controllers::Misc,
    {
        Controllers::Misc
    }

    /// The directory of the control group.
    pub fn get_path(&self) -> (r: &PathBuf)
        ensures
            *r == self.own_path(),
    {
        &self.path
    }

    /// The directory of the control group, to be changed.
    pub fn get_path_mut(&mut self) -> (r: &mut PathBuf)
        ensures
            *r == old(self).own_path(),
            final(self).own_path() == *final(r),
            final(self).base_path() == old(self).base_path(),
            final(self).version2() == old(self).version2(),
    {
        &mut self.path
    }

    /// The root of the hierarchy.
    pub fn get_base(&self) -> (r: &PathBuf)
        ensures
            *r == self.base_path(),
    {
        &self.base
    }

    /// Whether the hierarchy is one of version 2.
    pub fn is_v2(&self) -> (r: bool)
        ensures
            r == self.version2(),
    {
        self.v2
    }

    /// The controller in a subsystem that is a misc one.
    pub fn from(sub: &Subsystem) -> (r: &MiscController)
        requires
            sub is Misc,
        ensures
            *sub == Subsystem::Misc(*r),
    {
        match sub {
            Subsystem::Misc(c) => c,
            Subsystem::Freezer(_) => vstd::pervasive::unreached(),
        }
    }

    /// Applies the limits on miscellaneous resources, one line each. Without limits nothing is
    /// written.
    pub fn apply(&self, res: &Resources) -> (r: MiscApply)
        ensures
            r@ == limit_lines(res.misc.maximum.list()),
    {
        let mut lines: VecDeque<String> = VecDeque::new();
        let mut i: usize = 0;
        let ghost list = res.misc.maximum.list();
        assert(text::texts(lines@) == limit_lines(list.take(0)));
        while i < res.misc.maximum.len()
            invariant
                list == res.misc.maximum.list(),
                i <= list.len(),
                text::texts(lines@) == limit_lines(list.take(i as int)),
            decreases list.len() - i,
        {
            let (name, value): (&str, MiscMaxValue) = res.misc.maximum.entry(i);
            let mut line: String = name.to_owned();
            line.push(' ');
            line.append(value.to_text().as_str());
            let ghost before = text::texts(lines@);
            lines.push_back(line);
            assert(text::texts(lines@) == before.push(line@));
            assert(list.take(i + 1) == list.take(i as int).push(list[i as int]));
            assert(limit_lines(list.take(i + 1)) == before.push(line@));
            i = i + 1;
        }
        assert(list.take(i as int) == list);
        MiscApply { lines }
    }

    /// Asks for the quantity of each miscellaneous resource that the host has.
    ///
    /// The kernel shows `misc.capacity` in the root control group only.
    pub fn capacity(&self) -> (r: StringRead)
        ensures
            r.file_name@ == "misc.capacity"@,
    {
        StringRead::new("misc.capacity")
    }

    /// Asks for the usage of each miscellaneous resource in the control group and below it.
    pub fn current(&self) -> (r: StringRead)
        ensures
            r.file_name@ == "misc.current"@,
    {
        StringRead::new("misc.current")
    }

    /// Asks for the highest usage so far of each miscellaneous resource in the control group and
    /// below it.
    ///
    /// Linux has `misc.peak` from 6.11 on.
    pub fn peak(&self) -> (r: StringRead)
        ensures
            r.file_name@ == "misc.peak"@,
    {
        StringRead::new("misc.peak")
    }

    /// Asks for the limit on each miscellaneous resource in the control group and below it.
    ///
    /// The kernel shows `misc.max` outside the root control group only.
    pub fn max(&self) -> (r: StringRead)
        ensures
            r.file_name@ == "misc.max"@,
    {
        StringRead::new("misc.max")
    }

    /// Sets the limit on a miscellaneous resource.
    ///
    /// The line names the resource and then the limit, a number or `max`, as in `sev 5`. The
    /// limit may be higher than the host's capacity.
    pub fn set_max(&self, line: &str) -> (r: WriteRequest)
        ensures
            r.file_name@ == "misc.max"@,
            r.content@ == line@,
    {
        WriteRequest::new("misc.max", line)
    }

    /// Asks how often each resource was about to go over its limit, in the control group and
    /// below it: one `<resource>.max <count>` line each.
    ///
    /// Linux has `misc.events` from 5.16 on, outside the root control group.
    pub fn events(&self) -> (r: StringRead)
        ensures
            r.file_name@ == "misc.events"@,
    {
        StringRead::new("misc.events")
    }

    /// Asks the same as [`MiscController::events`], of the control group alone.
    ///
    /// Linux has `misc.events.local` from 6.11 on, outside the root control group.
    pub fn events_local(&self) -> (r: StringRead)
        ensures
            r.file_name@ == "misc.events.local"@,
    {
        StringRead::new("misc.events.local")
    }
}

/// The line that sets a limit says what was meant: its words are the resource and the limit, and
/// a limit that is a number reads back as that number.
pub proof fn law_limit_line_reads_back(name: Seq<char>, value: MiscMaxValue)
    requires
        name.len() > 0,
        text::no_space(name),
    ensures
        text::words(limit_line(name, value)) == seq![name, value.text()],
        value matches MiscMaxValue::Value(n) ==> number::number_of(value.text()) == Ok::<
            u64,
            number::NumberError,
        >(n),
{
    text::lemma_word_before(name, value.text());
    match value {
        MiscMaxValue::Max => {
            reveal_strlit("max");
            assert(text::no_space(value.text()));
        },
        MiscMaxValue::Value(n) => {
            number::lemma_decimal_is_a_word(n as int);
            number::law_decimal_reads_back(n);
        },
    }
    text::lemma_one_word(value.text());
    assert(seq![name] + seq![value.text()] == seq![name, value.text()]);
}

/// Every limit is applied once: there is one line for each name, in some order, and no others.
pub proof fn law_each_limit_is_applied_once(list: Seq<(Seq<char>, MiscMaxValue)>)
    requires
        resources::names_differ(list),
    ensures
        limit_lines(list).len() == list.len(),
        forall|i: int|
            0 <= i < list.len() ==> {
                &&& resources::map_of(list).contains_key((#[trigger] list[i]).0)
                &&& limit_lines(list)[i] == limit_line(
                    list[i].0,
                    resources::map_of(list)[list[i].0],
                )
            },
        forall|n: Seq<char>| #[trigger]
            resources::map_of(list).contains_key(n) ==> exists|i: int|
                0 <= i < list.len() && (#[trigger] list[i]).0 == n,
        resources::map_of(list).dom().len() == list.len(),
{
    assert forall|i: int| 0 <= i < list.len() implies {
        &&& resources::map_of(list).contains_key((#[trigger] list[i]).0)
        &&& limit_lines(list)[i] == limit_line(list[i].0, resources::map_of(list)[list[i].0])
    } by {
        resources::lemma_map_entry(list, i);
    }
    assert forall|n: Seq<char>| #[trigger] resources::map_of(list).contains_key(n) implies exists|
        i: int,
    | 0 <= i < list.len() && (#[trigger] list[i]).0 == n by {
        resources::lemma_map_domain(list, n);
    }
    resources::lemma_map_size(list);
}

/// What applying some lines comes to when the writes end as the replies say: the first failure,
/// or success when there is none.
pub open spec fn apply_result(
    lines: Seq<Seq<char>>,
    replies: Seq<WriteReplyView>,
) -> Result<(), ErrorView>
    decreases lines.len(),
{
    if lines.len() == 0 {
        Ok(())
    } else {
        match files::write_result("misc.max"@, lines.first(), replies.first()) {
            Ok(_) => apply_result(lines.drop_first(), replies.drop_first()),
            Err(e) => Err(e),
        }
    }
}

/// Applying succeeds exactly when every line was written.
pub proof fn law_apply_succeeds_when_all_is_written(
    lines: Seq<Seq<char>>,
    replies: Seq<WriteReplyView>,
)
    requires
        replies.len() == lines.len(),
    ensures
        apply_result(lines, replies) is Ok <==> forall|i: int|
            0 <= i < replies.len() ==> #[trigger] replies[i] is Written,
    decreases lines.len(),
{
    if lines.len() > 0 {
        let rest = replies.drop_first();
        law_apply_succeeds_when_all_is_written(lines.drop_first(), rest);
        if forall|i: int| 0 <= i < replies.len() ==> #[trigger] replies[i] is Written {
            assert forall|i: int| 0 <= i < rest.len() implies #[trigger] rest[i] is Written by {
                assert(rest[i] == replies[i + 1]);
            }
        }
        if replies.first() is Written && forall|i: int|
            0 <= i < rest.len() ==> #[trigger] rest[i] is Written {
            assert forall|i: int| 0 <= i < replies.len() implies (
            #[trigger] replies[i]) is Written by {
                if i > 0 {
                    assert(rest[i - 1] == replies[i]);
                }
            }
        }
    }
}

/// The line that sets a limit is the name of the resource, a space, and the number in decimal or
/// `max`.
pub proof fn law_limit_line(name: Seq<char>, n: u64)
    ensures
        limit_line(name, MiscMaxValue::Value(n)) == name + seq![' '] + number::decimal(n as nat),
        limit_line(name, MiscMaxValue::Max) == name + seq![' '] + "max"@,
{
    assert(limit_line(name, MiscMaxValue::Value(n)) == name + seq![' '] + number::decimal(
        n as nat,
    ));
    assert(limit_line(name, MiscMaxValue::Max) == name + seq![' '] + "max"@);
}

/// The lines are those of the limits, one for each and in their order.
pub proof fn law_limit_lines(list: Seq<(Seq<char>, MiscMaxValue)>)
    ensures
        limit_lines(list).len() == list.len(),
        forall|i: int|
            0 <= i < list.len() ==> #[trigger] limit_lines(list)[i] == list[i].0 + seq![' '] + (
            match list[i].1 {
                MiscMaxValue::Max => "max"@,
                MiscMaxValue::Value(n) => number::decimal(n as nat),
            }),
{
    assert forall|i: int| 0 <= i < list.len() implies #[trigger] limit_lines(list)[i] == list[i].0
        + seq![' '] + (match list[i].1 {
        MiscMaxValue::Max => "max"@,
        MiscMaxValue::Value(n) => number::decimal(n as nat),
    }) by {
        let n = match list[i].1 {
            MiscMaxValue::Value(n) => n,
            MiscMaxValue::Max => 0,
        };
        law_limit_line(list[i].0, n);
    }
}

/// Applying fails with the first write that fails: the error is the one that says why `misc.max`
/// could not be opened, or the failure to write that line.
pub proof fn law_apply_reports_the_first_failure(
    lines: Seq<Seq<char>>,
    replies: Seq<WriteReplyView>,
    k: int,
)
    requires
        replies.len() == lines.len(),
        0 <= k < replies.len(),
        forall|i: int| 0 <= i < k ==> #[trigger] replies[i] is Written,
    ensures
        replies[k] matches WriteReplyView::Unopened(e) ==> apply_result(lines, replies) == Err::<
            (),
            _,
        >(e),
        replies[k] matches WriteReplyView::Failed(m) ==> apply_result(lines, replies) == Err::<
            (),
            _,
        >(
            ErrorView {
                kind: ErrorKindView::WriteFailed("misc.max"@, lines[k]),
                cause: Some(CauseView::Io(m)),
            },
        ),
    decreases k,
{
    file_laws::law_write_request_reports_what_happened(
        "misc.max"@,
        lines.first(),
        replies.first(),
    );
    if k > 0 {
        let rest = replies.drop_first();
        assert(replies[0] is Written);
        assert forall|i: int| 0 <= i < k - 1 implies #[trigger] rest[i] is Written by {
            assert(rest[i] == replies[i + 1]);
        }
        law_apply_reports_the_first_failure(lines.drop_first(), rest, k - 1);
        assert(rest[k - 1] == replies[k]);
        assert(lines.drop_first()[k - 1] == lines[k]);
    }
}

} // verus!
