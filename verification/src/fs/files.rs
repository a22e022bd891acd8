//! Interface files: which of them a controller asks to read or write, and what it makes of the
//! answer.
//!
//! Nothing here touches the file system. A request names a file; whoever carries it out hands
//! back what came of it, and the request turns that into a result.

use vstd::prelude::*;
use vstd::slice::slice_subrange;
use vstd::string::*;
use vstd::utf8::*;

use crate::fs::error::{self, Cause, CauseView, Error, ErrorKind, ErrorKindView, ErrorView};
use crate::fs::number::{self, parse_u64};
use crate::fs::text::{self, same_text, split_words, trim};

verus! {

// ---------------------------------------------------------------------------------------------
// What was read
// ---------------------------------------------------------------------------------------------

/// What came of reading an open file to its end: the bytes that it delivered and, where reading
/// broke off before the end, the operating system's description of why.
#[derive(Debug, PartialEq, Eq)]
pub struct FileData {
    pub bytes: Vec<u8>,
    pub failure: Option<String>,
}

/// A [`FileData`] with its parts as sequences.
pub struct FileDataView {
    pub bytes: Seq<u8>,
    pub failure: Option<Seq<char>>,
}

impl View for FileData {
    type V = FileDataView;

    open spec fn view(&self) -> FileDataView {
        FileDataView {
            bytes: self.bytes@,
            failure: match self.failure {
                Some(m) => Some(m@),
                None => None,
            },
        }
    }
}

/// A file that was read to its end without a failure.
pub open spec fn whole_file(bytes: Seq<u8>) -> FileDataView {
    FileDataView { bytes, failure: None }
}

/// The text of a file that is read as a whole: it has one only if reading reached the end and
/// the bytes are valid UTF-8.
pub open spec fn file_text(d: FileDataView) -> Result<Seq<char>, CauseView> {
    match d.failure {
        Some(m) => Err(CauseView::Io(m)),
        None => if valid_utf8(d.bytes) {
            Ok(decode_utf8(d.bytes))
        } else {
            Err(CauseView::InvalidUtf8)
        },
    }
}

/// Decodes UTF-8 with `std::str::from_utf8`: it succeeds exactly on valid UTF-8, and the text
/// is then the one that the bytes encode.
#[verifier::external_body]
pub(crate) fn decode(bytes: &[u8]) -> (r: Option<String>)
    ensures
        match r {
            Some(s) => valid_utf8(bytes@) && s@ == decode_utf8(bytes@),
            None => !valid_utf8(bytes@),
        },
{
    match std::str::from_utf8(bytes) {
        Ok(s) => Some(s.to_owned()),
        Err(_) => None,
    }
}

/// Takes the text of a file that is read as a whole.
fn whole_text(data: &FileData) -> (r: Result<String, Cause>)
    ensures
        match r {
            Ok(s) => file_text(data@) == Ok::<Seq<char>, CauseView>(s@),
            Err(c) => file_text(data@) == Err::<Seq<char>, CauseView>(c@),
        },
{
    match &data.failure {
        Some(m) => Err(Cause::Io(m.clone())),
        None => match decode(data.bytes.as_slice()) {
            Some(s) => Ok(s),
            None => Err(Cause::InvalidUtf8),
        },
    }
}

/// The trimmed text of a file, as [`read_string_from`] gives it.
pub open spec fn string_in(name: Seq<char>, d: FileDataView) -> Result<Seq<char>, ErrorView> {
    match file_text(d) {
        Ok(s) => Ok(text::trimmed(s)),
        Err(c) => Err(ErrorView::with_cause(ErrorKindView::ReadFailed(name), c)),
    }
}

/// The one number that a file holds, as [`read_u64_from`] gives it.
pub open spec fn number_in(name: Seq<char>, d: FileDataView) -> Result<u64, ErrorView> {
    match string_in(name, d) {
        Ok(s) => match number::number_of(s) {
            Ok(n) => Ok(n),
            Err(e) => Err(ErrorView::with_cause(ErrorKindView::ParseError, CauseView::Number(e))),
        },
        Err(e) => Err(e),
    }
}

/// The text of the named file without the white space around it.
pub fn read_string_from(name: &str, data: &FileData) -> (r: Result<String, Error>)
    ensures
        error::text_outcome(r) == string_in(name@, data@),
{
    match whole_text(data) {
        Ok(s) => Ok(trim(s.as_str())),
        Err(c) => Err(Error::with_cause(ErrorKind::ReadFailed(name.to_owned()), c)),
    }
}

/// The number that the named file holds.
pub fn read_u64_from(name: &str, data: &FileData) -> (r: Result<u64, Error>)
    ensures
        error::outcome(r) == number_in(name@, data@),
{
    match read_string_from(name, data) {
        Ok(s) => match parse_u64(s.as_str()) {
            Ok(n) => Ok(n),
            Err(e) => Err(Error::with_cause(ErrorKind::ParseError, Cause::Number(e))),
        },
        Err(e) => Err(e),
    }
}

// ---------------------------------------------------------------------------------------------
// Flat keyed files: one `key value` pair to a line
// ---------------------------------------------------------------------------------------------

/// Where the first line of some bytes ends: at the line feed, or at the end where none follows.
pub open spec fn line_end(b: Seq<u8>) -> nat
    decreases b.len(),
{
    if b.len() == 0 || b.first() == 10 {
        0
    } else {
        1 + line_end(b.drop_first())
    }
}

/// The lines of a file. The last one need not end in a line feed.
pub open spec fn lines(b: Seq<u8>) -> Seq<Seq<u8>>
    decreases b.len(),
{
    if b.len() == 0 {
        Seq::empty()
    } else if line_end(b) >= b.len() {
        seq![b]
    } else {
        seq![b.take(line_end(b) as int)] + lines(b.skip(line_end(b) as int + 1))
    }
}

/// The lines of a file that end in a line feed.
pub open spec fn ended_lines(b: Seq<u8>) -> Seq<Seq<u8>>
    decreases b.len(),
{
    if line_end(b) >= b.len() {
        Seq::empty()
    } else {
        seq![b.take(line_end(b) as int)] + ended_lines(b.skip(line_end(b) as int + 1))
    }
}

/// The lines that a file delivers: all of them, or, where reading broke off, those that had
/// ended before.
pub open spec fn delivered(d: FileDataView) -> Seq<Seq<u8>> {
    if d.failure is Some {
        ended_lines(d.bytes)
    } else {
        lines(d.bytes)
    }
}

/// A line carries a key if the key is its first word and a value follows it.
pub open spec fn carries(line: Seq<u8>, key: Seq<char>) -> bool {
    let w = text::words(decode_utf8(line));
    valid_utf8(line) && w.len() >= 2 && w[0] == key
}

/// The value on a line that carries a key: its second word.
pub open spec fn value_on(line: Seq<u8>) -> Seq<char> {
    text::words(decode_utf8(line))[1]
}

/// What a search for a key comes to.
pub enum Lookup {
    /// The key was found, with this value.
    Found(Seq<char>),
    /// A line that is not valid UTF-8 came first.
    Undecodable,
    /// The lines ended.
    Missing,
}

/// The search for a key, line by line.
pub open spec fn lookup(ls: Seq<Seq<u8>>, key: Seq<char>) -> Lookup
    decreases ls.len(),
{
    if ls.len() == 0 {
        Lookup::Missing
    } else if !valid_utf8(ls.first()) {
        Lookup::Undecodable
    } else if carries(ls.first(), key) {
        Lookup::Found(value_on(ls.first()))
    } else {
        lookup(ls.drop_first(), key)
    }
}

/// The value of a key in a file, if the search gets that far.
pub open spec fn value_of(d: FileDataView, key: Seq<char>) -> Result<Option<Seq<char>>, CauseView> {
    match lookup(delivered(d), key) {
        Lookup::Found(v) => Ok(Some(v)),
        Lookup::Undecodable => Err(CauseView::InvalidUtf8),
        Lookup::Missing => match d.failure {
            Some(m) => Err(CauseView::Io(m)),
            None => Ok(None),
        },
    }
}

/// The number under a key, as [`read_keyed_u64`] gives it.
pub open spec fn number_under(d: FileDataView, key: Seq<char>, name: Seq<char>) -> Result<
    Option<u64>,
    ErrorView,
> {
    match value_of(d, key) {
        Ok(Some(v)) => match number::number_of(v) {
            Ok(n) => Ok(Some(n)),
            Err(e) => Err(ErrorView::with_cause(ErrorKindView::ParseError, CauseView::Number(e))),
        },
        Ok(None) => Ok(None),
        Err(c) => Err(ErrorView::with_cause(ErrorKindView::ReadFailed(name), c)),
    }
}

/// The first line ends at the first line feed, or with the bytes where there is none.
pub proof fn lemma_line_end(b: Seq<u8>, n: nat)
    requires
        n <= b.len(),
        forall|i: int| 0 <= i < n ==> #[trigger] b[i] != 10,
        n < b.len() ==> b[n as int] == 10,
    ensures
        line_end(b) == n,
    decreases b.len(),
{
    if n > 0 {
        assert(b[0] != 10);
        let t = b.drop_first();
        assert forall|i: int| 0 <= i < n - 1 implies #[trigger] t[i] != 10 by {
            assert(t[i] == b[i + 1]);
        }
        lemma_line_end(t, (n - 1) as nat);
    }
}

/// Looks at one line for a key.
fn look_at_line(line: &[u8], key: &str) -> (r: Result<Option<String>, Cause>)
    ensures
        match r {
            Ok(Some(v)) => carries(line@, key@) && v@ == value_on(line@),
            Ok(None) => valid_utf8(line@) && !carries(line@, key@),
            Err(c) => !valid_utf8(line@) && c == Cause::InvalidUtf8,
        },
{
    match decode(line) {
        Some(s) => {
            let w: Vec<String> = split_words(s.as_str());
            let ghost all = text::words(s@);
            assert(text::texts(w@) == all);
            if w.len() >= 2 {
                assert(all[0] == w@[0]@ && all[1] == w@[1]@);
                if same_text(w[0].as_str(), key) {
                    return Ok(Some(w[1].clone()));
                }
            }
            Ok(None)
        },
        None => Err(Cause::InvalidUtf8),
    }
}

/// Searches a file for a key.
fn find_value(data: &FileData, key: &str) -> (r: Result<Option<String>, Cause>)
    ensures
        match r {
            Ok(Some(v)) => value_of(data@, key@) == Ok::<_, CauseView>(Some(v@)),
            Ok(None) => value_of(data@, key@) == Ok::<_, CauseView>(None::<Seq<char>>),
            Err(c) => value_of(data@, key@) == Err::<Option<Seq<char>>, _>(c@),
        },
{
    let bytes: &[u8] = data.bytes.as_slice();
    let len: usize = bytes.len();
    let mut from: usize = 0;
    let mut to: usize = 0;
    assert(bytes@.skip(0) == bytes@);
    while to < len
        invariant
            bytes@ == data.bytes@,
            len == bytes@.len(),
            from <= to <= len,
            forall|i: int| from <= i < to ==> #[trigger] bytes@[i] != 10,
            lookup(lines(bytes@), key@) == lookup(lines(bytes@.skip(from as int)), key@),
            lookup(ended_lines(bytes@), key@) == lookup(
                ended_lines(bytes@.skip(from as int)),
                key@,
            ),
        decreases len - to,
    {
        if bytes[to] == 10 {
            let line: &[u8] = slice_subrange(bytes, from, to);
            let ghost rest = bytes@.skip(from as int);
            proof {
                lemma_line_end(rest, (to - from) as nat);
                assert(rest.take(to - from) == line@);
                assert(rest.skip(to - from + 1) == bytes@.skip(to + 1));
                assert(lines(rest).first() == line@);
                assert(lines(rest).drop_first() == lines(bytes@.skip(to + 1)));
                assert(ended_lines(rest).first() == line@);
                assert(ended_lines(rest).drop_first() == ended_lines(bytes@.skip(to + 1)));
            }
            match look_at_line(line, key) {
                Ok(Some(v)) => {
                    return Ok(Some(v));
                },
                Ok(None) => {},
                Err(c) => {
                    return Err(c);
                },
            }
            from = to + 1;
        }
        to = to + 1;
    }
    let ghost rest = bytes@.skip(from as int);
    proof {
        lemma_line_end(rest, (to - from) as nat);
    }
    match &data.failure {
        Some(m) => Err(Cause::Io(m.clone())),
        None => {
            if from < len {
                let line: &[u8] = slice_subrange(bytes, from, len);
                assert(line@ == rest);
                assert(lines(rest).first() == line@);
                assert(lines(rest).drop_first() == Seq::<Seq<u8>>::empty());
                look_at_line(line, key)
            } else {
                Ok(None)
            }
        },
    }
}

/// The number under a key of the named file, or `None` where the file has no such key. Lines
/// after the one that carries the key are not looked at.
pub fn read_keyed_u64(data: &FileData, key: &str, name: &str) -> (r: Result<Option<u64>, Error>)
    ensures
        error::outcome(r) == number_under(data@, key@, name@),
{
    match find_value(data, key) {
        Ok(Some(v)) => match parse_u64(v.as_str()) {
            Ok(n) => Ok(Some(n)),
            Err(e) => Err(Error::with_cause(ErrorKind::ParseError, Cause::Number(e))),
        },
        Ok(None) => Ok(None),
        Err(c) => Err(Error::with_cause(ErrorKind::ReadFailed(name.to_owned()), c)),
    }
}

// ---------------------------------------------------------------------------------------------
// Requests and replies
// ---------------------------------------------------------------------------------------------

/// What came of a request to read a file.
#[derive(Debug, PartialEq, Eq)]
pub enum ReadReply {
    /// The file could not be opened, for the reason that the error gives.
    Unopened(Error),
    /// The file was opened and read.
    Data(FileData),
}

/// A [`ReadReply`] with its parts taken by their views.
pub enum ReadReplyView {
    Unopened(ErrorView),
    Data(FileDataView),
}

impl View for ReadReply {
    type V = ReadReplyView;

    open spec fn view(&self) -> ReadReplyView {
        match *self {
            ReadReply::Unopened(e) => ReadReplyView::Unopened(e@),
            ReadReply::Data(d) => ReadReplyView::Data(d@),
        }
    }
}

/// What came of a request to write a file.
#[derive(Debug, PartialEq, Eq)]
pub enum WriteReply {
    /// The file could not be opened, for the reason that the error gives.
    Unopened(Error),
    /// The file was opened, and the operating system then refused the content.
    Failed(String),
    /// The content was written.
    Written,
}

/// A [`WriteReply`] with its parts taken by their views.
pub enum WriteReplyView {
    Unopened(ErrorView),
    Failed(Seq<char>),
    Written,
}

impl View for WriteReply {
    type V = WriteReplyView;

    open spec fn view(&self) -> WriteReplyView {
        match *self {
            WriteReply::Unopened(e) => WriteReplyView::Unopened(e@),
            WriteReply::Failed(m) => WriteReplyView::Failed(m@),
            WriteReply::Written => WriteReplyView::Written,
        }
    }
}

/// A request to read the text of an interface file.
#[derive(Debug, PartialEq, Eq)]
pub struct StringRead {
    pub file_name: String,
}

/// A request to write an interface file: the whole content, in place of what the file holds.
#[derive(Debug, PartialEq, Eq)]
pub struct WriteRequest {
    pub file_name: String,
    pub content: String,
}

/// The result of a [`StringRead`] for each reply.
pub open spec fn string_result(name: Seq<char>, reply: ReadReplyView) -> Result<
    Seq<char>,
    ErrorView,
> {
    match reply {
        ReadReplyView::Unopened(e) => Err(e),
        ReadReplyView::Data(d) => string_in(name, d),
    }
}

/// The result of a [`WriteRequest`] for each reply.
pub open spec fn write_result(
    name: Seq<char>,
    content: Seq<char>,
    reply: WriteReplyView,
) -> Result<(), ErrorView> {
    match reply {
        WriteReplyView::Unopened(e) => Err(e),
        WriteReplyView::Failed(m) => Err(error::write_failure(name, content, m)),
        WriteReplyView::Written => Ok(()),
    }
}

impl StringRead {
    /// A request to read the text of the named file.
    pub fn new(file_name: &str) -> (r: StringRead)
        ensures
            r.file_name@ == file_name@,
    {
        StringRead { file_name: file_name.to_owned() }
    }

    /// The text that the request asked for, without the white space around it.
    pub fn finish(self, reply: ReadReply) -> (r: Result<String, Error>)
        ensures
            error::text_outcome(r) == string_result(self.file_name@, reply@),
            reply matches ReadReply::Unopened(e) ==> r == Err::<String, Error>(e),
    {
        match reply {
            ReadReply::Unopened(e) => Err(e),
            ReadReply::Data(d) => read_string_from(self.file_name.as_str(), &d),
        }
    }
}

impl WriteRequest {
    /// A request to write the named file.
    pub fn new(file_name: &str, content: &str) -> (r: WriteRequest)
        ensures
            r.file_name@ == file_name@,
            r.content@ == content@,
    {
        WriteRequest { file_name: file_name.to_owned(), content: content.to_owned() }
    }

    /// Whether the request was met, and if not, why.
    pub fn finish(self, reply: WriteReply) -> (r: Result<(), Error>)
        ensures
            error::outcome(r) == write_result(self.file_name@, self.content@, reply@),
            r is Ok <==> reply is Written,
            reply matches WriteReply::Unopened(e) ==> r == Err::<(), Error>(e),
            reply matches WriteReply::Failed(m) ==> (r matches Err(e) && e@ == (ErrorView {
                kind: ErrorKindView::WriteFailed(self.file_name@, self.content@),
                cause: Some(CauseView::Io(m@)),
            })),
    {
        match reply {
            WriteReply::Unopened(e) => Err(e),
            WriteReply::Failed(m) => Err(
                Error::with_cause(
                    ErrorKind::WriteFailed(self.file_name, self.content),
                    Cause::Io(m),
                ),
            ),
            WriteReply::Written => Ok(()),
        }
    }
}

// ---------------------------------------------------------------------------------------------
// Laws
// ---------------------------------------------------------------------------------------------

/// All lines are valid UTF-8.
pub open spec fn all_decodable(ls: Seq<Seq<u8>>) -> bool {
    forall|i: int| 0 <= i < ls.len() ==> valid_utf8(#[trigger] ls[i])
}

/// At most one line carries the key.
pub open spec fn key_is_unique(ls: Seq<Seq<u8>>, key: Seq<char>) -> bool {
    forall|i: int, j: int|
        0 <= i < j < ls.len() ==> !(carries(#[trigger] ls[i], key) && carries(
            #[trigger] ls[j],
            key,
        ))
}

/// Lines that do not carry the key are passed over.
proof fn lemma_lookup_skips(ls: Seq<Seq<u8>>, key: Seq<char>, k: int)
    requires
        0 <= k <= ls.len(),
        forall|i: int| 0 <= i < k ==> valid_utf8(#[trigger] ls[i]) && !carries(ls[i], key),
    ensures
        lookup(ls, key) == lookup(ls.skip(k), key),
    decreases k,
{
    if k == 0 {
        assert(ls.skip(0) == ls);
    } else {
        let tail = ls.drop_first();
        assert(valid_utf8(ls[0]) && !carries(ls[0], key));
        assert forall|i: int| 0 <= i < k - 1 implies valid_utf8(#[trigger] tail[i]) && !carries(
            tail[i],
            key,
        ) by {
            assert(tail[i] == ls[i + 1]);
        }
        lemma_lookup_skips(tail, key, k - 1);
        assert(tail.skip(k - 1) == ls.skip(k));
    }
}

/// Where the key stands does not matter: if one line carries it, its value is the one on that
/// line, and if none does, it is missing.
pub proof fn law_place_of_the_key_does_not_matter(ls: Seq<Seq<u8>>, key: Seq<char>)
    requires
        all_decodable(ls),
        key_is_unique(ls, key),
    ensures
        forall|i: int|
            0 <= i < ls.len() && carries(#[trigger] ls[i], key) ==> lookup(ls, key)
                == Lookup::Found(value_on(ls[i])),
        (forall|i: int| 0 <= i < ls.len() ==> !carries(#[trigger] ls[i], key)) ==> lookup(ls, key)
            == Lookup::Missing,
{
    assert forall|i: int| 0 <= i < ls.len() && carries(#[trigger] ls[i], key) implies lookup(
        ls,
        key,
    ) == Lookup::Found(value_on(ls[i])) by {
        assert forall|j: int| 0 <= j < i implies valid_utf8(#[trigger] ls[j]) && !carries(
            ls[j],
            key,
        ) by {
            assert(!(carries(ls[j], key) && carries(ls[i], key)));
        }
        lemma_lookup_skips(ls, key, i);
        assert(ls.skip(i).first() == ls[i]);
    }
    if forall|i: int| 0 <= i < ls.len() ==> !carries(#[trigger] ls[i], key) {
        lemma_lookup_skips(ls, key, ls.len() as int);
    }
}

/// What stands at two places of a list is in it twice.
proof fn lemma_two_places(s: Seq<Seq<u8>>, i: int, j: int)
    requires
        0 <= i < j < s.len(),
        s[i] == s[j],
    ensures
        s.to_multiset().count(s[i]) >= 2,
{
    broadcast use {vstd::multiset::group_multiset_axioms, vstd::seq_lib::group_to_multiset_ensures};

    let r = s.remove(j);
    assert(r[i] == s[i]);
    assert(r.contains(s[i]));
    assert(r.to_multiset().count(s[i]) > 0);
    assert(r.to_multiset() == s.to_multiset().remove(s[j]));
}

/// What is in a list twice stands at two places of it.
proof fn lemma_twice_in(s: Seq<Seq<u8>>, x: Seq<u8>)
    requires
        s.to_multiset().count(x) >= 2,
    ensures
        exists|i: int, j: int| 0 <= i < j < s.len() && #[trigger] s[i] == x && #[trigger] s[j] == x,
{
    broadcast use {vstd::multiset::group_multiset_axioms, vstd::seq_lib::group_to_multiset_ensures};

    assert(s.contains(x));
    let i = choose|i: int| 0 <= i < s.len() && s[i] == x;
    let r = s.remove(i);
    assert(r.to_multiset() == s.to_multiset().remove(x));
    assert(r.to_multiset().count(x) > 0);
    assert(r.contains(x));
    let j = choose|j: int| 0 <= j < r.len() && r[j] == x;
    if j < i {
        assert(s[j] == x && s[i] == x);
    } else {
        assert(s[i] == x && s[j + 1] == x);
    }
}

/// The order of the lines does not matter: two files with the same lines, of which at most one
/// carries the key, have the same number under it.
pub proof fn law_line_order_does_not_matter(
    a: Seq<u8>,
    b: Seq<u8>,
    key: Seq<char>,
    name: Seq<char>,
)
    requires
        all_decodable(lines(a)),
        key_is_unique(lines(a), key),
        lines(a).to_multiset() == lines(b).to_multiset(),
    ensures
        number_under(whole_file(a), key, name) == number_under(whole_file(b), key, name),
{
    broadcast use {vstd::multiset::group_multiset_axioms, vstd::seq_lib::group_to_multiset_ensures};

    let s = lines(a);
    let t = lines(b);
    assert forall|i: int| 0 <= i < t.len() implies s.contains(#[trigger] t[i]) by {
        assert(t.contains(t[i]));
        assert(t.to_multiset().count(t[i]) > 0 && s.to_multiset().count(t[i]) > 0);
    }
    assert forall|i: int| 0 <= i < s.len() implies t.contains(#[trigger] s[i]) by {
        assert(s.contains(s[i]));
        assert(s.to_multiset().count(s[i]) > 0 && t.to_multiset().count(s[i]) > 0);
    }
    assert forall|i: int| 0 <= i < t.len() implies valid_utf8(#[trigger] t[i]) by {
        assert(s.contains(t[i]));
    }
    assert forall|i: int, j: int| 0 <= i < j < t.len() implies !(carries(#[trigger] t[i], key)
        && carries(#[trigger] t[j], key)) by {
        if carries(t[i], key) && carries(t[j], key) {
            if t[i] == t[j] {
                lemma_two_places(t, i, j);
                lemma_twice_in(s, t[i]);
            } else {
                assert(s.contains(t[i]) && s.contains(t[j]));
                let k = choose|k: int| 0 <= k < s.len() && s[k] == t[i];
                let l = choose|l: int| 0 <= l < s.len() && s[l] == t[j];
                if k < l {
                    assert(!(carries(s[k], key) && carries(s[l], key)));
                } else {
                    assert(!(carries(s[l], key) && carries(s[k], key)));
                }
            }
        }
    }
    law_place_of_the_key_does_not_matter(s, key);
    law_place_of_the_key_does_not_matter(t, key);
    if exists|i: int| 0 <= i < s.len() && carries(#[trigger] s[i], key) {
        let i = choose|i: int| 0 <= i < s.len() && carries(#[trigger] s[i], key);
        assert(t.contains(s[i]));
        let j = choose|j: int| 0 <= j < t.len() && t[j] == s[i];
        assert(carries(t[j], key));
    } else {
        assert forall|j: int| 0 <= j < t.len() implies !carries(#[trigger] t[j], key) by {
            assert(s.contains(t[j]));
        }
    }
}

/// Other lines may be missing: without a line that does not carry the key, the search for the
/// key comes to the same.
pub proof fn law_other_lines_may_be_missing(ls: Seq<Seq<u8>>, k: int, key: Seq<char>)
    requires
        0 <= k < ls.len(),
        valid_utf8(ls[k]),
        !carries(ls[k], key),
    ensures
        lookup(ls.remove(k), key) == lookup(ls, key),
    decreases k,
{
    if k == 0 {
        assert(ls.remove(0) == ls.drop_first());
    } else {
        let tail = ls.drop_first();
        assert(tail[k - 1] == ls[k]);
        law_other_lines_may_be_missing(tail, k - 1, key);
        assert(ls.remove(k).drop_first() == tail.remove(k - 1));
        assert(ls.remove(k).first() == ls.first());
    }
}

/// A line with a key and a number carries the key, and the number reads back as the same number.
pub proof fn law_key_line_reads_back(key: Seq<char>, n: u64)
    requires
        key.len() > 0,
        text::no_space(key),
    ensures
        ({
            let line = encode_utf8(key.push(' ') + number::decimal(n as nat));
            &&& carries(line, key)
            &&& number::number_of(value_on(line)) == Ok::<u64, number::NumberError>(n)
        }),
{
    let value = number::decimal(n as nat);
    let t = key.push(' ') + value;
    encode_utf8_decode_utf8(t);
    encode_utf8_valid_utf8(t);
    number::lemma_decimal_is_a_word(n as int);
    text::lemma_word_before(key, value);
    text::lemma_one_word(value);
    number::law_decimal_reads_back(n);
}

/// What was written to a file is what a read of the file gives back, but for the white space
/// around it, whether that was written or is the file's own.
pub proof fn law_written_text_reads_back(
    name: Seq<char>,
    before: Seq<char>,
    written: Seq<char>,
    after: Seq<char>,
)
    requires
        forall|i: int| 0 <= i < before.len() ==> text::is_space(#[trigger] before[i]),
        forall|i: int| 0 <= i < after.len() ==> text::is_space(#[trigger] after[i]),
    ensures
        string_in(name, whole_file(encode_utf8(before + written + after))) == Ok::<
            Seq<char>,
            ErrorView,
        >(text::trimmed(written)),
{
    let t = before + written + after;
    encode_utf8_decode_utf8(t);
    encode_utf8_valid_utf8(t);
    text::law_surrounding_space_is_trimmed(before, written, after);
}

} // verus!
