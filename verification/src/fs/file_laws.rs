//! What holds of every interface file, said of its bytes.

use vstd::prelude::*;
use vstd::utf8::*;

use crate::fs::error::{CauseView, Error, ErrorKindView, ErrorView};
use crate::fs::files::{
    self, FileData, FileDataView, Lookup, ReadReply, ReadReplyView, WriteReply, WriteReplyView,
};
use crate::fs::number;
use crate::fs::text;

verus! {

// ---------------------------------------------------------------------------------------------
// What a view shows
// ---------------------------------------------------------------------------------------------

/// A view shows all of what was read: every byte, and the failure where there is one.
pub proof fn law_data_is_shown_whole(bytes: Vec<u8>, m: String)
    ensures
        (FileData { bytes, failure: None })@ == (FileDataView { bytes: bytes@, failure: None }),
        (FileData { bytes, failure: Some(m) })@ == (FileDataView {
            bytes: bytes@,
            failure: Some(m@),
        }),
{
}

/// A view shows all of a reply.
pub proof fn law_replies_are_shown_whole(e: Error, d: FileData, m: String)
    ensures
        ReadReply::Unopened(e)@ == ReadReplyView::Unopened(e@),
        ReadReply::Data(d)@ == ReadReplyView::Data(d@),
        WriteReply::Unopened(e)@ == WriteReplyView::Unopened(e@),
        WriteReply::Failed(m)@ == WriteReplyView::Failed(m@),
        WriteReply::Written@ == WriteReplyView::Written,
{
}

// ---------------------------------------------------------------------------------------------
// Text and bytes
// ---------------------------------------------------------------------------------------------

/// Texts that follow each other are encoded one after the other.
proof fn lemma_encode_concat(a: Seq<char>, b: Seq<char>)
    ensures
        encode_utf8(a + b) == encode_utf8(a) + encode_utf8(b),
    decreases a.len(),
{
    let all = a + b;
    if a.len() == 0 {
        assert(all == b);
        assert(encode_utf8(all) == encode_utf8(a) + encode_utf8(b));
    } else {
        assert(all[0] == a[0]);
        assert(all.drop_first() == a.drop_first() + b);
        lemma_encode_concat(a.drop_first(), b);
        assert(encode_utf8(all) == encode_utf8(a) + encode_utf8(b));
    }
}

/// Only a line feed is encoded with the byte of a line feed.
proof fn lemma_scalar_has_no_line_feed(c: u32)
    requires
        is_scalar(c),
        c != 10,
    ensures
        forall|i: int| 0 <= i < encode_scalar(c).len() ==> #[trigger] encode_scalar(c)[i] != 10,
{
    if has_width_1_encoding(c) {
        assert(leading_byte_width_1(c) != 10) by (bit_vector)
            requires
                has_width_1_encoding(c),
                c != 10,
        ;
    } else {
        assert(last_continuation_byte(c) != 10) by (bit_vector);
        assert(second_last_continuation_byte(c) != 10) by (bit_vector);
        assert(third_last_continuation_byte(c) != 10) by (bit_vector);
        assert(leading_byte_width_2(c) != 10) by (bit_vector);
        assert(leading_byte_width_3(c) != 10) by (bit_vector);
        assert(leading_byte_width_4(c) != 10) by (bit_vector);
    }
}

/// The bytes of a text without line feeds are none either.
proof fn lemma_text_has_no_line_feed(s: Seq<char>)
    requires
        forall|i: int| 0 <= i < s.len() ==> #[trigger] s[i] != '\n',
    ensures
        forall|i: int| 0 <= i < encode_utf8(s).len() ==> #[trigger] encode_utf8(s)[i] != 10,
    decreases s.len(),
{
    if s.len() > 0 {
        let t = s.drop_first();
        let head = encode_scalar(s[0] as u32);
        assert(s[0] != '\n');
        char_is_scalar(s[0]);
        char_u32_cast(s[0], s[0] as u32);
        assert(10u32 as char == '\n');
        lemma_scalar_has_no_line_feed(s[0] as u32);
        assert forall|i: int| 0 <= i < t.len() implies #[trigger] t[i] != '\n' by {
            assert(t[i] == s[i + 1]);
        }
        lemma_text_has_no_line_feed(t);
        assert forall|i: int| 0 <= i < encode_utf8(s).len() implies #[trigger] encode_utf8(s)[i]
            != 10 by {
            if i < head.len() {
                assert(encode_utf8(s)[i] == head[i]);
            } else {
                assert(encode_utf8(s)[i] == encode_utf8(t)[i - head.len()]);
            }
        }
    }
}

/// A line feed is encoded as one byte.
proof fn lemma_line_feed_is_a_byte()
    ensures
        encode_utf8(seq!['\n']) == seq![10u8],
{
    let s = seq!['\n'];
    assert(is_ascii_chars(s));
    is_ascii_chars_encode_utf8(s);
    assert(s[0] == '\n');
    assert(encode_utf8(s) == seq![10u8]);
}

// ---------------------------------------------------------------------------------------------
// Text that is read as a whole
// ---------------------------------------------------------------------------------------------

/// A request to read a file gives all of the text in it, but for the white space around it.
pub proof fn law_string_read_gives_the_text(
    name: Seq<char>,
    before: Seq<char>,
    t: Seq<char>,
    after: Seq<char>,
)
    requires
        forall|i: int| 0 <= i < before.len() ==> text::is_space(#[trigger] before[i]),
        forall|i: int| 0 <= i < after.len() ==> text::is_space(#[trigger] after[i]),
        t.len() > 0 ==> !text::is_space(t.first()) && !text::is_space(t.last()),
    ensures
        ({
            let d = FileDataView { bytes: encode_utf8(before + t + after), failure: None };
            &&& files::string_result(name, ReadReplyView::Data(d)) == Ok::<_, ErrorView>(t)
            &&& files::string_in(name, d) == Ok::<_, ErrorView>(t)
        }),
{
    files::law_written_text_reads_back(name, before, t, after);
    text::law_trim_leaves_the_text(before, t, after);
    text::law_surrounding_space_is_trimmed(before, t, after);
}

/// A request to read a file says why there is no text: the file could not be opened, for the
/// reason that was given; reading broke off, whatever had been read; or the bytes are not UTF-8.
pub proof fn law_string_read_reports_what_failed(
    name: Seq<char>,
    bytes: Seq<u8>,
    m: Seq<char>,
    e: ErrorView,
)
    ensures
        files::string_result(name, ReadReplyView::Unopened(e)) == Err::<Seq<char>, _>(e),
        ({
            let d = FileDataView { bytes, failure: Some(m) };
            let r = Err::<Seq<char>, _>(
                ErrorView {
                    kind: ErrorKindView::ReadFailed(name),
                    cause: Some(CauseView::Io(m)),
                },
            );
            &&& files::string_result(name, ReadReplyView::Data(d)) == r
            &&& files::string_in(name, d) == r
        }),
        !valid_utf8(bytes) ==> {
            let d = FileDataView { bytes, failure: None };
            let r = Err::<Seq<char>, _>(
                ErrorView {
                    kind: ErrorKindView::ReadFailed(name),
                    cause: Some(CauseView::InvalidUtf8),
                },
            );
            &&& files::string_result(name, ReadReplyView::Data(d)) == r
            &&& files::string_in(name, d) == r
        },
        valid_utf8(bytes) ==> {
            let d = FileDataView { bytes, failure: None };
            &&& files::string_result(name, ReadReplyView::Data(d)) is Ok
            &&& files::string_in(name, d) is Ok
        },
{
}

/// The number in a file is the one that its text stands for, without the white space around it,
/// and what is no number is refused as such.
pub proof fn law_number_in_a_file(
    name: Seq<char>,
    before: Seq<char>,
    t: Seq<char>,
    after: Seq<char>,
)
    requires
        forall|i: int| 0 <= i < before.len() ==> text::is_space(#[trigger] before[i]),
        forall|i: int| 0 <= i < after.len() ==> text::is_space(#[trigger] after[i]),
        t.len() > 0 ==> !text::is_space(t.first()) && !text::is_space(t.last()),
    ensures
        files::number_in(
            name,
            FileDataView { bytes: encode_utf8(before + t + after), failure: None },
        ) == (match number::number_of(t) {
            Ok(n) => Ok(n),
            Err(e) => Err(
                ErrorView {
                    kind: ErrorKindView::ParseError,
                    cause: Some(CauseView::Number(e)),
                },
            ),
        }),
{
    law_string_read_gives_the_text(name, before, t, after);
}

/// A number that a file holds in decimal is the one that is read.
pub proof fn law_decimal_in_a_file(name: Seq<char>, before: Seq<char>, n: u64, after: Seq<char>)
    requires
        forall|i: int| 0 <= i < before.len() ==> text::is_space(#[trigger] before[i]),
        forall|i: int| 0 <= i < after.len() ==> text::is_space(#[trigger] after[i]),
    ensures
        files::number_in(
            name,
            FileDataView {
                bytes: encode_utf8(before + number::decimal(n as nat) + after),
                failure: None,
            },
        ) == Ok::<u64, ErrorView>(n),
{
    let t = number::decimal(n as nat);
    number::lemma_decimal_is_a_word(n as int);
    number::law_decimal_reads_back(n);
    assert(!text::is_space(t[0]) && !text::is_space(t[t.len() - 1]));
    law_number_in_a_file(name, before, t, after);
}

/// A file that cannot be read to its end as UTF-8 has no number, and the failure says why.
pub proof fn law_number_read_reports_what_failed(name: Seq<char>, bytes: Seq<u8>, m: Seq<char>)
    ensures
        files::number_in(name, FileDataView { bytes, failure: Some(m) }) == Err::<u64, _>(
            ErrorView { kind: ErrorKindView::ReadFailed(name), cause: Some(CauseView::Io(m)) },
        ),
        !valid_utf8(bytes) ==> files::number_in(name, FileDataView { bytes, failure: None })
            == Err::<u64, _>(
            ErrorView {
                kind: ErrorKindView::ReadFailed(name),
                cause: Some(CauseView::InvalidUtf8),
            },
        ),
{
}

// ---------------------------------------------------------------------------------------------
// Writing
// ---------------------------------------------------------------------------------------------

/// A write request is met exactly when its content was written. If the file could not be opened,
/// the result is the error that says why; if the content was refused, it is a failure to write
/// that very content to that very file.
pub proof fn law_write_request_reports_what_happened(
    name: Seq<char>,
    content: Seq<char>,
    reply: WriteReplyView,
)
    ensures
        files::write_result(name, content, reply) is Ok <==> reply is Written,
        reply matches WriteReplyView::Unopened(e) ==> files::write_result(name, content, reply)
            == Err::<(), _>(e),
        reply matches WriteReplyView::Failed(m) ==> files::write_result(name, content, reply)
            == Err::<(), _>(
            ErrorView {
                kind: ErrorKindView::WriteFailed(name, content),
                cause: Some(CauseView::Io(m)),
            },
        ),
{
}

// ---------------------------------------------------------------------------------------------
// Flat keyed files
// ---------------------------------------------------------------------------------------------

/// Lines that a search for a key passes over: each one ends in its only line feed, and does not
/// have the key as the first of two words or more.
pub open spec fn passed_over(lines: Seq<Seq<char>>, key: Seq<char>) -> bool {
    forall|i: int|
        0 <= i < lines.len() ==> {
            &&& (#[trigger] lines[i]).len() > 0
            &&& lines[i].last() == '\n'
            &&& forall|j: int| 0 <= j < lines[i].len() - 1 ==> #[trigger] lines[i][j] != '\n'
            &&& text::words(lines[i]).len() < 2 || text::words(lines[i])[0] != key
        }
}

/// A line of a file and what follows its line feed.
proof fn lemma_first_line(line: Seq<u8>, rest: Seq<u8>)
    requires
        forall|i: int| 0 <= i < line.len() ==> #[trigger] line[i] != 10,
    ensures
        files::lines(line.push(10) + rest) == seq![line] + files::lines(rest),
        files::ended_lines(line.push(10) + rest) == seq![line] + files::ended_lines(rest),
{
    let b = line.push(10) + rest;
    assert forall|i: int| 0 <= i < line.len() implies #[trigger] b[i] != 10 by {
        assert(b[i] == line[i]);
    }
    files::lemma_line_end(b, line.len());
    assert(b.take(line.len() as int) == line);
    assert(b.skip(line.len() as int + 1) == rest);
}

/// A line that is not ended is the last one, if there is any of it.
proof fn lemma_last_line(line: Seq<u8>)
    requires
        forall|i: int| 0 <= i < line.len() ==> #[trigger] line[i] != 10,
    ensures
        line.len() > 0 ==> files::lines(line) == seq![line],
        files::ended_lines(line) == Seq::<Seq<u8>>::empty(),
{
    files::lemma_line_end(line, line.len());
}

/// A search passes over the lines that do not have the key, whatever follows them.
proof fn lemma_search_goes_on(lines: Seq<Seq<char>>, key: Seq<char>, rest: Seq<u8>)
    requires
        passed_over(lines, key),
    ensures
        ({
            let b = encode_utf8(lines.flatten()) + rest;
            &&& files::lookup(files::lines(b), key) == files::lookup(files::lines(rest), key)
            &&& files::lookup(files::ended_lines(b), key) == files::lookup(
                files::ended_lines(rest),
                key,
            )
        }),
    decreases lines.len(),
{
    let b = encode_utf8(lines.flatten()) + rest;
    if lines.len() == 0 {
        assert(b == rest);
    } else {
        let first = lines[0];
        let body = first.drop_last();
        let tail = lines.drop_first();
        let line = encode_utf8(body);
        let after = encode_utf8(tail.flatten()) + rest;
        assert forall|i: int| 0 <= i < tail.len() implies {
            &&& (#[trigger] tail[i]).len() > 0
            &&& tail[i].last() == '\n'
            &&& forall|j: int| 0 <= j < tail[i].len() - 1 ==> #[trigger] tail[i][j] != '\n'
            &&& text::words(tail[i]).len() < 2 || text::words(tail[i])[0] != key
        } by {
            assert(tail[i] == lines[i + 1]);
        }
        lemma_search_goes_on(tail, key, rest);
        assert(first == body + seq!['\n']);
        lemma_encode_concat(body, seq!['\n']);
        lemma_line_feed_is_a_byte();
        lemma_encode_concat(first, tail.flatten());
        assert(lines.flatten() == first + tail.flatten());
        assert(b == line.push(10) + after);
        assert forall|i: int| 0 <= i < body.len() implies #[trigger] body[i] != '\n' by {
            assert(body[i] == first[i]);
        }
        lemma_text_has_no_line_feed(body);
        lemma_first_line(line, after);
        encode_utf8_valid_utf8(body);
        encode_utf8_decode_utf8(body);
        assert(text::words(first) == text::words(body)) by {
            assert(text::is_space('\n'));
        }
        assert(!files::carries(line, key));
        let ls = seq![line] + files::lines(after);
        assert(ls.first() == line && ls.drop_first() == files::lines(after));
        let es = seq![line] + files::ended_lines(after);
        assert(es.first() == line && es.drop_first() == files::ended_lines(after));
    }
}

/// The line that a search comes to after the lines that it passes over: one that is ended, or the
/// last one of a file that was read to its end.
proof fn lemma_search_arrives(
    before: Seq<Seq<char>>,
    key: Seq<char>,
    line: Seq<u8>,
    after: Seq<u8>,
    failure: Option<Seq<char>>,
)
    requires
        passed_over(before, key),
        forall|i: int| 0 <= i < line.len() ==> #[trigger] line[i] != 10,
        if after.len() > 0 {
            after.first() == 10
        } else {
            failure is None && line.len() > 0
        },
    ensures
        ({
            let d = FileDataView {
                bytes: encode_utf8(before.flatten()) + line + after,
                failure,
            };
            let r = files::lookup(files::delivered(d), key);
            &&& !valid_utf8(line) ==> r == Lookup::Undecodable
            &&& files::carries(line, key) ==> r == Lookup::Found(files::value_on(line))
        }),
{
    let b = encode_utf8(before.flatten()) + line + after;
    let rest = line + after;
    assert(b == encode_utf8(before.flatten()) + rest);
    lemma_search_goes_on(before, key, rest);
    if after.len() > 0 {
        let more = after.drop_first();
        assert(rest == line.push(10) + more);
        lemma_first_line(line, more);
        assert((seq![line] + files::lines(more)).first() == line);
        assert((seq![line] + files::ended_lines(more)).first() == line);
    } else {
        assert(rest == line);
        lemma_last_line(line);
        assert(files::lines(rest).first() == line);
    }
}

/// The number under a key is the second word of the first line that has the key as its first
/// word, whatever the lines before it and all that follows it hold. What is no number is refused
/// as such.
pub proof fn law_number_under_a_key(
    before: Seq<Seq<char>>,
    key: Seq<char>,
    line: Seq<char>,
    after: Seq<u8>,
    failure: Option<Seq<char>>,
    name: Seq<char>,
)
    requires
        passed_over(before, key),
        forall|i: int| 0 <= i < line.len() ==> #[trigger] line[i] != '\n',
        text::words(line).len() >= 2,
        text::words(line)[0] == key,
        if after.len() > 0 {
            after.first() == 10
        } else {
            failure is None
        },
    ensures
        files::number_under(
            FileDataView {
                bytes: encode_utf8(before.flatten()) + encode_utf8(line) + after,
                failure,
            },
            key,
            name,
        ) == (match number::number_of(text::words(line)[1]) {
            Ok(n) => Ok(Some(n)),
            Err(e) => Err(
                ErrorView {
                    kind: ErrorKindView::ParseError,
                    cause: Some(CauseView::Number(e)),
                },
            ),
        }),
{
    lemma_text_has_no_line_feed(line);
    encode_utf8_valid_utf8(line);
    encode_utf8_decode_utf8(line);
    assert(encode_utf8(line).len() > 0) by {
        assert(line.len() > 0);
    }
    lemma_search_arrives(before, key, encode_utf8(line), after, failure);
}

/// A line as the kernel writes it, the key and a number in decimal, gives that number.
pub proof fn law_decimal_under_a_key(
    before: Seq<Seq<char>>,
    key: Seq<char>,
    n: u64,
    after: Seq<u8>,
    failure: Option<Seq<char>>,
    name: Seq<char>,
)
    requires
        key.len() > 0,
        forall|i: int| 0 <= i < key.len() ==> !text::is_space(#[trigger] key[i]),
        passed_over(before, key),
        if after.len() > 0 {
            after.first() == 10
        } else {
            failure is None
        },
    ensures
        files::number_under(
            FileDataView {
                bytes: encode_utf8(before.flatten()) + encode_utf8(
                    key + seq![' '] + number::decimal(n as nat),
                ) + after,
                failure,
            },
            key,
            name,
        ) == Ok::<Option<u64>, ErrorView>(Some(n)),
{
    lemma_kernel_line(key, n);
    number::law_decimal_reads_back(n);
    let line = key + seq![' '] + number::decimal(n as nat);
    law_number_under_a_key(before, key, line, after, failure, name);
}

/// A key and a number in decimal, with a space between them, are a line of two words.
proof fn lemma_kernel_line(key: Seq<char>, n: u64)
    requires
        key.len() > 0,
        forall|i: int| 0 <= i < key.len() ==> !text::is_space(#[trigger] key[i]),
    ensures
        ({
            let line = key + seq![' '] + number::decimal(n as nat);
            &&& text::words(line) == seq![key, number::decimal(n as nat)]
            &&& forall|i: int| 0 <= i < line.len() ==> #[trigger] line[i] != '\n'
        }),
{
    let value = number::decimal(n as nat);
    let line = key + seq![' '] + value;
    number::lemma_decimal_is_a_word(n as int);
    text::law_key_and_value_are_words(key, value, Seq::empty());
    assert(line == key.push(' ') + value + Seq::<char>::empty());
    assert(text::is_space('\n'));
    assert forall|i: int| 0 <= i < line.len() implies #[trigger] line[i] != '\n' by {
        if i < key.len() {
            assert(line[i] == key[i]);
        } else if i > key.len() {
            assert(line[i] == value[i - key.len() - 1]);
        }
    }
}

/// Other lines do not matter: two files with the same line under a key have the same number under
/// it, however the lines before that one and all that follows it differ.
pub proof fn law_other_lines_do_not_matter(
    a: Seq<Seq<char>>,
    b: Seq<Seq<char>>,
    key: Seq<char>,
    line: Seq<char>,
    after_a: Seq<u8>,
    after_b: Seq<u8>,
    name: Seq<char>,
)
    requires
        passed_over(a, key),
        passed_over(b, key),
        forall|i: int| 0 <= i < line.len() ==> #[trigger] line[i] != '\n',
        text::words(line).len() >= 2,
        text::words(line)[0] == key,
        after_a.len() > 0 ==> after_a.first() == 10,
        after_b.len() > 0 ==> after_b.first() == 10,
    ensures
        files::number_under(
            FileDataView {
                bytes: encode_utf8(a.flatten()) + encode_utf8(line) + after_a,
                failure: None,
            },
            key,
            name,
        ) == files::number_under(
            FileDataView {
                bytes: encode_utf8(b.flatten()) + encode_utf8(line) + after_b,
                failure: None,
            },
            key,
            name,
        ),
{
    law_number_under_a_key(a, key, line, after_a, None, name);
    law_number_under_a_key(b, key, line, after_b, None, name);
}

/// A key that no line has is missing, if the file was read to its end; if reading broke off
/// before the key was found, that is the failure, and the line at which it did does not count.
pub proof fn law_missing_key(
    before: Seq<Seq<char>>,
    key: Seq<char>,
    last: Seq<char>,
    part: Seq<u8>,
    m: Seq<char>,
    name: Seq<char>,
)
    requires
        passed_over(before, key),
        forall|i: int| 0 <= i < last.len() ==> #[trigger] last[i] != '\n',
        text::words(last).len() < 2 || text::words(last)[0] != key,
        forall|i: int| 0 <= i < part.len() ==> #[trigger] part[i] != 10,
    ensures
        files::number_under(
            FileDataView {
                bytes: encode_utf8(before.flatten()) + encode_utf8(last),
                failure: None,
            },
            key,
            name,
        ) == Ok::<Option<u64>, ErrorView>(None),
        files::number_under(
            FileDataView { bytes: encode_utf8(before.flatten()) + part, failure: Some(m) },
            key,
            name,
        ) == Err::<Option<u64>, _>(
            ErrorView { kind: ErrorKindView::ReadFailed(name), cause: Some(CauseView::Io(m)) },
        ),
{
    let line = encode_utf8(last);
    lemma_text_has_no_line_feed(last);
    encode_utf8_valid_utf8(last);
    encode_utf8_decode_utf8(last);
    lemma_search_goes_on(before, key, line);
    lemma_last_line(line);
    if line.len() > 0 {
        let ls = seq![line];
        assert(ls.first() == line && ls.drop_first() == Seq::<Seq<u8>>::empty());
        assert(!files::carries(line, key));
    }
    assert(files::lookup(files::lines(line), key) == Lookup::Missing);
    lemma_search_goes_on(before, key, part);
    lemma_last_line(part);
}

/// A line that is not UTF-8 ends the search, if the key was not found before it.
pub proof fn law_undecodable_line(
    before: Seq<Seq<char>>,
    key: Seq<char>,
    bad: Seq<u8>,
    after: Seq<u8>,
    failure: Option<Seq<char>>,
    name: Seq<char>,
)
    requires
        passed_over(before, key),
        forall|i: int| 0 <= i < bad.len() ==> #[trigger] bad[i] != 10,
        !valid_utf8(bad),
        if after.len() > 0 {
            after.first() == 10
        } else {
            failure is None
        },
    ensures
        files::number_under(
            FileDataView { bytes: encode_utf8(before.flatten()) + bad + after, failure },
            key,
            name,
        ) == Err::<Option<u64>, _>(
            ErrorView {
                kind: ErrorKindView::ReadFailed(name),
                cause: Some(CauseView::InvalidUtf8),
            },
        ),
{
    lemma_search_arrives(before, key, bad, after, failure);
}

} // verus!
