//! Limits for the subsystems of a control group, and the subsystems themselves.

use std::path::PathBuf;

use vstd::prelude::*;
use vstd::string::*;

use crate::fs::freezer::FreezerController;
use crate::fs::misc::MiscController;
use crate::fs::number::{self, push_decimal};
use crate::fs::text::same_text;

verus! {

/// Paths of the file system. They are carried, not looked at.
#[verifier::external_type_specification]
#[verifier::external_body]
pub struct ExPathBuf(PathBuf);

/// `PathBuf::clone` of `std`: the clone of a path is the same path.
pub assume_specification[ <PathBuf as Clone>::clone ](p: &PathBuf) -> (r: PathBuf)
    ensures
        r == *p,
;

/// The subsystems.
#[derive(Debug, Clone, Copy, PartialEq, Eq, Structural)]
pub enum Controllers {
    Freezer,
    Misc,
}

/// A subsystem, with its controller.
#[derive(Debug)]
pub enum Subsystem {
    Freezer(FreezerController),
    Misc(MiscController),
}

/// A limit on a miscellaneous resource.
#[derive(Debug, Clone, Copy, PartialEq, Eq, Structural)]
pub enum MiscMaxValue {
    /// No limit.
    Max,
    /// At most so much.
    Value(u64),
}

/// Limits on miscellaneous resources by their names.
#[derive(Debug, PartialEq, Eq)]
pub struct MiscLimits {
    entries: Vec<(String, MiscMaxValue)>,
}

/// Limits on miscellaneous resources.
#[derive(Debug, PartialEq, Eq)]
pub struct MiscResources {
    pub maximum: MiscLimits,
}

/// Limits for the subsystems of a control group.
#[derive(Debug, PartialEq, Eq)]
pub struct Resources {
    pub misc: MiscResources,
}

// ---------------------------------------------------------------------------------------------
// A limit as text
// ---------------------------------------------------------------------------------------------

impl MiscMaxValue {
    /// The limit as an interface file has it.
    pub open spec fn text(self) -> Seq<char> {
        match self {
            MiscMaxValue::Max => "max"@,
            MiscMaxValue::Value(n) => number::decimal(n as nat),
        }
    }

    /// The limit as an interface file has it.
    pub fn to_text(&self) -> (r: String)
        ensures
            r@ == self.text(),
    {
        match self {
            MiscMaxValue::Max => "max".to_owned(),
            MiscMaxValue::Value(n) => {
                let mut r: String = String::new();
                push_decimal(&mut r, *n);
                assert(r@ == number::decimal(*n as nat));
                r
            },
        }
    }
}

// ---------------------------------------------------------------------------------------------
// Limits by name
// ---------------------------------------------------------------------------------------------

/// The map that a list of names and limits stands for.
pub open spec fn map_of(s: Seq<(Seq<char>, MiscMaxValue)>) -> Map<Seq<char>, MiscMaxValue>
    decreases s.len(),
{
    if s.len() == 0 {
        Map::empty()
    } else {
        map_of(s.drop_last()).insert(s.last().0, s.last().1)
    }
}

/// No name occurs twice.
pub open spec fn names_differ(s: Seq<(Seq<char>, MiscMaxValue)>) -> bool {
    forall|i: int, j: int| 0 <= i < j < s.len() ==> (#[trigger] s[i]).0 != (#[trigger] s[j]).0
}

/// A name is in the map exactly if it is in the list.
pub proof fn lemma_map_domain(s: Seq<(Seq<char>, MiscMaxValue)>, n: Seq<char>)
    ensures
        map_of(s).contains_key(n) <==> exists|i: int| 0 <= i < s.len() && (#[trigger] s[i]).0 == n,
    decreases s.len(),
{
    if s.len() > 0 {
        let t = s.drop_last();
        lemma_map_domain(t, n);
        if exists|i: int| 0 <= i < s.len() && (#[trigger] s[i]).0 == n {
            let i = choose|i: int| 0 <= i < s.len() && (#[trigger] s[i]).0 == n;
            if i < t.len() {
                assert(t[i].0 == n);
            }
        }
        if map_of(t).contains_key(n) {
            let i = choose|i: int| 0 <= i < t.len() && (#[trigger] t[i]).0 == n;
            assert(s[i].0 == n);
        }
        if s.last().0 == n {
            assert(s[s.len() - 1].0 == n);
        }
    }
}

/// Every entry of a list in which the names differ is in the map.
pub proof fn lemma_map_entry(s: Seq<(Seq<char>, MiscMaxValue)>, i: int)
    requires
        names_differ(s),
        0 <= i < s.len(),
    ensures
        map_of(s).contains_key(s[i].0),
        map_of(s)[s[i].0] == s[i].1,
    decreases s.len(),
{
    if i < s.len() - 1 {
        let t = s.drop_last();
        assert forall|a: int, b: int| 0 <= a < b < t.len() implies (#[trigger] t[a]).0 != (
        #[trigger] t[b]).0 by {
            assert(s[a].0 != s[b].0);
        }
        lemma_map_entry(t, i);
        assert(t[i] == s[i]);
        assert(s[i].0 != s[s.len() - 1].0);
    }
}

/// The map of a list in which the names differ has as many entries as the list.
pub proof fn lemma_map_size(s: Seq<(Seq<char>, MiscMaxValue)>)
    requires
        names_differ(s),
    ensures
        map_of(s).dom().finite(),
        map_of(s).dom().len() == s.len(),
    decreases s.len(),
{
    if s.len() > 0 {
        let t = s.drop_last();
        assert forall|a: int, b: int| 0 <= a < b < t.len() implies (#[trigger] t[a]).0 != (
        #[trigger] t[b]).0 by {
            assert(s[a].0 != s[b].0);
        }
        lemma_map_size(t);
        lemma_map_domain(t, s.last().0);
        if map_of(t).contains_key(s.last().0) {
            let i = choose|i: int| 0 <= i < t.len() && (#[trigger] t[i]).0 == s.last().0;
            assert(s[i].0 != s[s.len() - 1].0);
        }
        assert(map_of(s).dom() == map_of(t).dom().insert(s.last().0));
    }
}

/// Replacing the limit of an entry replaces it in the map.
proof fn lemma_map_update(s: Seq<(Seq<char>, MiscMaxValue)>, i: int, v: MiscMaxValue)
    requires
        names_differ(s),
        0 <= i < s.len(),
    ensures
        map_of(s.update(i, (s[i].0, v))) == map_of(s).insert(s[i].0, v),
    decreases s.len(),
{
    let n = s[i].0;
    let u = s.update(i, (n, v));
    let t = s.drop_last();
    if i == s.len() - 1 {
        assert(u.drop_last() == t);
        assert(map_of(u) == map_of(s).insert(n, v));
    } else {
        assert forall|a: int, b: int| 0 <= a < b < t.len() implies (#[trigger] t[a]).0 != (
        #[trigger] t[b]).0 by {
            assert(s[a].0 != s[b].0);
        }
        assert(t[i] == s[i]);
        lemma_map_update(t, i, v);
        assert(u.drop_last() == t.update(i, (n, v)));
        assert(s[i].0 != s[s.len() - 1].0);
        assert(map_of(u) == map_of(s).insert(n, v));
    }
}

impl MiscLimits {
    /// The names and limits, in the order in which the names came.
    pub closed spec fn list(self) -> Seq<(Seq<char>, MiscMaxValue)> {
        self.entries@.map_values(|e: (String, MiscMaxValue)| (e.0@, e.1))
    }

    /// Each name has one limit.
    pub open spec fn wf(self) -> bool {
        names_differ(self.list())
    }

    /// The limits by name.
    pub open spec fn view(self) -> Map<Seq<char>, MiscMaxValue> {
        map_of(self.list())
    }

    /// No limits.
    pub fn new() -> (r: MiscLimits)
        ensures
            r.wf(),
            r.list() == Seq::<(Seq<char>, MiscMaxValue)>::empty(),
            r@ == Map::<Seq<char>, MiscMaxValue>::empty(),
    {
        let r: MiscLimits = MiscLimits { entries: Vec::new() };
        assert(r.list() == Seq::<(Seq<char>, MiscMaxValue)>::empty());
        r
    }

    /// The number of limits.
    pub fn len(&self) -> (r: usize)
        ensures
            r == self.list().len(),
    {
        self.entries.len()
    }

    /// The name and the limit at a place in the list.
    pub fn entry(&self, i: usize) -> (r: (&str, MiscMaxValue))
        requires
            i < self.list().len(),
        ensures
            (r.0@, r.1) == self.list()[i as int],
    {
        (self.entries[i].0.as_str(), self.entries[i].1)
    }

    /// Sets the limit of a resource, and gives the one that it replaces.
    pub fn insert(&mut self, name: String, value: MiscMaxValue) -> (r: Option<MiscMaxValue>)
        requires
            old(self).wf(),
        ensures
            final(self).wf(),
            final(self)@ == old(self)@.insert(name@, value),
            r == (if old(self)@.contains_key(name@) {
                Some(old(self)@[name@])
            } else {
                None
            }),
    {
        let ghost before = self.list();
        let mut i: usize = 0;
        while i < self.entries.len()
            invariant
                self == old(self),
                before == old(self).list(),
                before.len() == self.entries@.len(),
                names_differ(before),
                i <= self.entries.len(),
                forall|k: int| 0 <= k < i ==> (#[trigger] before[k]).0 != name@,
            decreases self.entries.len() - i,
        {
            assert(before[i as int].0 == self.entries@[i as int].0@);
            assert(before[i as int].1 == self.entries@[i as int].1);
            if same_text(self.entries[i].0.as_str(), name.as_str()) {
                let previous: MiscMaxValue = self.entries[i].1;
                self.entries.set(i, (name, value));
                proof {
                    lemma_map_entry(before, i as int);
                    lemma_map_update(before, i as int, value);
                    assert(self.list() == before.update(i as int, (name@, value)));
                    let after = self.list();
                    assert forall|a: int, b: int| 0 <= a < b < after.len() implies (
                    #[trigger] after[a]).0 != (#[trigger] after[b]).0 by {
                        assert(before[a].0 != before[b].0);
                    }
                }
                return Some(previous);
            }
            i = i + 1;
        }
        self.entries.push((name, value));
        proof {
            lemma_map_domain(before, name@);
            let after = self.list();
            assert(after == before.push((name@, value)));
            assert(after.drop_last() == before);
        }
        None
    }
}

impl Default for MiscLimits {
    fn default() -> (r: MiscLimits)
        ensures
            r.wf(),
            r.list().len() == 0,
    {
        MiscLimits::new()
    }
}

impl Default for MiscResources {
    fn default() -> (r: MiscResources)
        ensures
            r.maximum.wf(),
            r.maximum.list().len() == 0,
    {
        MiscResources { maximum: MiscLimits::new() }
    }
}

impl Default for Resources {
    fn default() -> (r: Resources)
        ensures
            r.misc.maximum.wf(),
            r.misc.maximum.list().len() == 0,
    {
        Resources { misc: MiscResources { maximum: MiscLimits::new() } }
    }
}

// ---------------------------------------------------------------------------------------------
// Laws
// ---------------------------------------------------------------------------------------------

/// A limit is written as its number in decimal, or as `max` where there is none.
pub proof fn law_limit_text(n: u64)
    ensures
        MiscMaxValue::Value(n).text() == number::decimal(n as nat),
        MiscMaxValue::Max.text() == "max"@,
{
}

/// Limits in which each name occurs once are those of the list: the map has every name in the
/// list, with its limit, and no other.
pub proof fn law_limits_are_those_of_the_list(s: Seq<(Seq<char>, MiscMaxValue)>, n: Seq<char>)
    requires
        forall|i: int, j: int| 0 <= i < j < s.len() ==> (#[trigger] s[i]).0 != (#[trigger] s[j]).0,
    ensures
        names_differ(s),
        map_of(s).contains_key(n) <==> exists|i: int| 0 <= i < s.len() && (#[trigger] s[i]).0 == n,
        forall|i: int|
            0 <= i < s.len() && (#[trigger] s[i]).0 == n ==> map_of(s)[n] == s[i].1,
{
    lemma_map_domain(s, n);
    assert forall|i: int| 0 <= i < s.len() && (#[trigger] s[i]).0 == n implies map_of(s)[n]
        == s[i].1 by {
        lemma_map_entry(s, i);
    }
}

} // verus!
