//! Paths of control groups and of the files in them: bytes, with a slash between components.

use vstd::prelude::*;
use vstd::slice::{slice_subrange, slice_to_vec};
use vstd::string::*;
use vstd::utf8::{
    decode_utf8, encode_utf8, is_ascii_chars, is_ascii_chars_encode_utf8, valid_utf8,
};

verus! {

/// The separator of components.
pub const SLASH: u8 = 47;

/// The component for the current directory is one of these, the one for the parent is two.
pub const DOT: u8 = 46;

// ---------------------------------------------------------------------------------------------
// Joining
// ---------------------------------------------------------------------------------------------

/// A relative path below a directory, or the path alone where it is absolute.
pub open spec fn joined(dir: Seq<u8>, name: Seq<u8>) -> Seq<u8> {
    if is_absolute(name) {
        name
    } else if dir.len() == 0 || dir.last() == SLASH {
        dir + name
    } else {
        dir.push(SLASH) + name
    }
}

/// The path of the file with a name in a directory.
pub open spec fn file_in(dir: Seq<u8>, name: Seq<char>) -> Seq<u8> {
    joined(dir, encode_utf8(name))
}

/// The path of the file with a name in a directory.
pub fn join(dir: &[u8], name: &str) -> (r: Vec<u8>)
    ensures
        r@ == file_in(dir@, name@),
{
    let mut name: Vec<u8> = name.as_bytes_vec();
    if name.len() > 0 && name[0] == SLASH {
        return name;
    }
    let mut path: Vec<u8> = slice_to_vec(dir);
    if path.len() > 0 && path[path.len() - 1] != SLASH {
        path.push(SLASH);
    }
    path.append(&mut name);
    path
}

// ---------------------------------------------------------------------------------------------
// Taking apart
// ---------------------------------------------------------------------------------------------

/// An absolute path starts with a slash.
pub open spec fn is_absolute(path: Seq<u8>) -> bool {
    path.len() > 0 && path.first() == SLASH
}

/// What follows the slash that an absolute path starts with, or the whole of a relative path.
pub open spec fn body(path: Seq<u8>) -> Seq<u8> {
    if is_absolute(path) {
        path.drop_first()
    } else {
        path
    }
}

/// The body of a path without what adds no component at its end: slashes, and a dot after a
/// slash. A dot at the start of a relative path is a component.
pub open spec fn stripped(b: Seq<u8>, absolute: bool) -> Seq<u8>
    decreases b.len(),
{
    if b.len() > 0 && b.last() == SLASH {
        stripped(b.drop_last(), absolute)
    } else if b.len() > 0 && b.last() == DOT && (if b.len() > 1 {
        b[b.len() - 2] == SLASH
    } else {
        absolute
    }) {
        stripped(b.drop_last(), absolute)
    } else {
        b
    }
}

/// What follows the last slash.
pub open spec fn last_piece(b: Seq<u8>) -> Seq<u8>
    decreases b.len(),
{
    if b.len() == 0 || b.last() == SLASH {
        Seq::empty()
    } else {
        last_piece(b.drop_last()).push(b.last())
    }
}

/// The last component of a path; empty where the path is empty or the root.
pub open spec fn last_component(path: Seq<u8>) -> Seq<u8> {
    last_piece(stripped(body(path), is_absolute(path)))
}

/// The last component of a path where that is a name: the root, the current directory and a
/// parent directory are none.
pub open spec fn file_name_of(path: Seq<u8>) -> Option<Seq<u8>> {
    let last = last_component(path);
    if last.len() == 0 || last == seq![DOT] || last == seq![DOT, DOT] {
        None
    } else {
        Some(last)
    }
}

/// A path without its last component, if it has one besides the root.
pub open spec fn parent_of(path: Seq<u8>) -> Option<Seq<u8>> {
    let absolute = is_absolute(path);
    let b = stripped(body(path), absolute);
    let rest = stripped(b.take(b.len() - last_piece(b).len()), absolute);
    if b.len() == 0 {
        None
    } else if absolute {
        Some(seq![SLASH] + rest)
    } else {
        Some(rest)
    }
}

/// Where the stripped part of `path[from..to]` ends.
fn strip(path: &[u8], from: usize, to: usize, absolute: bool) -> (r: usize)
    requires
        from <= to <= path@.len(),
    ensures
        from <= r <= to,
        path@.subrange(from as int, r as int) == stripped(
            path@.subrange(from as int, to as int),
            absolute,
        ),
{
    let mut end: usize = to;
    let ghost whole = path@.subrange(from as int, to as int);
    while end > from && (path[end - 1] == SLASH || (path[end - 1] == DOT && ((end - from > 1
        && path[end - 2] == SLASH) || (end - from == 1 && absolute))))
        invariant
            from <= end <= to <= path@.len(),
            stripped(whole, absolute) == stripped(
                path@.subrange(from as int, end as int),
                absolute,
            ),
        decreases end,
    {
        let ghost b = path@.subrange(from as int, end as int);
        assert(b.last() == path@[end - 1]);
        assert(b.drop_last() == path@.subrange(from as int, end - 1));
        if end - from > 1 {
            assert(b[b.len() - 2] == path@[end - 2]);
        }
        end = end - 1;
    }
    let ghost b = path@.subrange(from as int, end as int);
    if end > from {
        assert(b.last() == path@[end - 1]);
        if end - from > 1 {
            assert(b[b.len() - 2] == path@[end - 2]);
        }
    }
    end
}

/// Where the last piece of `path[from..to]` starts.
fn piece_start(path: &[u8], from: usize, to: usize) -> (r: usize)
    requires
        from <= to <= path@.len(),
    ensures
        from <= r <= to,
        path@.subrange(r as int, to as int) == last_piece(path@.subrange(from as int, to as int)),
{
    let mut start: usize = to;
    let ghost whole = path@.subrange(from as int, to as int);
    assert(path@.subrange(to as int, to as int) == Seq::<u8>::empty());
    while start > from && path[start - 1] != SLASH
        invariant
            from <= start <= to <= path@.len(),
            whole == path@.subrange(from as int, to as int),
            last_piece(whole) == last_piece(path@.subrange(from as int, start as int))
                + path@.subrange(start as int, to as int),
        decreases start,
    {
        let ghost b = path@.subrange(from as int, start as int);
        assert(b.last() == path@[start - 1]);
        assert(b.drop_last() == path@.subrange(from as int, start - 1));
        assert(last_piece(b) + path@.subrange(start as int, to as int) == last_piece(b.drop_last())
            + path@.subrange(start - 1, to as int));
        start = start - 1;
    }
    let ghost b = path@.subrange(from as int, start as int);
    if start > from {
        assert(b.last() == path@[start - 1]);
    }
    assert(last_piece(b) == Seq::<u8>::empty());
    start
}

/// The last component of a path where that is a name.
pub fn file_name(path: &[u8]) -> (r: Option<Vec<u8>>)
    ensures
        match r {
            Some(n) => file_name_of(path@) == Some(n@),
            None => file_name_of(path@) is None,
        },
{
    let absolute: bool = path.len() > 0 && path[0] == SLASH;
    let from: usize = if absolute {
        1
    } else {
        0
    };
    assert(path@.subrange(from as int, path@.len() as int) == body(path@));
    let to: usize = strip(path, from, path.len(), absolute);
    let start: usize = piece_start(path, from, to);
    let name: &[u8] = slice_subrange(path, start, to);
    if name.len() == 0 {
        return None;
    }
    if name.len() == 1 && name[0] == DOT {
        assert(name@ == seq![DOT]);
        return None;
    }
    if name.len() == 2 && name[0] == DOT && name[1] == DOT {
        assert(name@ == seq![DOT, DOT]);
        return None;
    }
    Some(slice_to_vec(name))
}

/// A path without its last component.
pub fn parent(path: &[u8]) -> (r: Option<Vec<u8>>)
    ensures
        match r {
            Some(p) => parent_of(path@) == Some(p@),
            None => parent_of(path@) is None,
        },
{
    let absolute: bool = path.len() > 0 && path[0] == SLASH;
    let from: usize = if absolute {
        1
    } else {
        0
    };
    assert(path@.subrange(from as int, path@.len() as int) == body(path@));
    let to: usize = strip(path, from, path.len(), absolute);
    let start: usize = piece_start(path, from, to);
    let ghost b = path@.subrange(from as int, to as int);
    if to == from {
        return None;
    }
    assert(b.take(b.len() - last_piece(b).len()) == path@.subrange(from as int, start as int));
    let end: usize = strip(path, from, start, absolute);
    let r: Vec<u8> = slice_to_vec(slice_subrange(path, 0, end));
    if absolute {
        assert(r@ == seq![SLASH] + path@.subrange(1, end as int));
    }
    Some(r)
}

// ---------------------------------------------------------------------------------------------
// Showing
// ---------------------------------------------------------------------------------------------

/// A path as it is shown in messages: `String::from_utf8_lossy` of `std` on its bytes.
pub uninterp spec fn shown(path: Seq<u8>) -> Seq<char>;

/// `String::from_utf8_lossy` of `std`: the text that the bytes encode where they are valid UTF-8.
/// What stands for bytes that are not depends on the bytes alone; nothing more is claimed of it.
#[verifier::external_body]
pub(crate) fn show(path: &[u8]) -> (r: String)
    ensures
        r@ == shown(path@),
        valid_utf8(path@) ==> r@ == decode_utf8(path@),
{
    String::from_utf8_lossy(path).into_owned()
}

// ---------------------------------------------------------------------------------------------
// Laws
// ---------------------------------------------------------------------------------------------

/// A path that has a name has a parent.
pub proof fn law_named_path_has_a_parent(path: Seq<u8>)
    ensures
        file_name_of(path) is Some ==> parent_of(path) is Some,
{
}

/// A file in a directory has its own name and no other.
pub proof fn law_joined_path_has_its_name(dir: Seq<u8>, name: Seq<u8>)
    requires
        name.len() > 0,
        name != seq![DOT],
        name != seq![DOT, DOT],
        !name.contains(SLASH),
    ensures
        file_name_of(joined(dir, name)) == Some(name),
{
    let path = joined(dir, name);
    assert(name.contains(name[0]));
    assert(name.contains(name.last()));
    let head = path.take(path.len() - name.len());
    assert(path == head + name);
    assert(head.len() == 0 || head.last() == SLASH);
    let b = body(path);
    let front = body(head);
    assert(b == front + name) by {
        if head.len() > 0 {
            assert(path.first() == head.first());
            assert(b == front + name);
        } else {
            assert(path.first() == name.first());
        }
    }
    assert(front.len() == 0 || front.last() == SLASH) by {
        if front.len() > 0 {
            assert(front.last() == head.last());
        }
    }
    lemma_ends_in_piece(front, name);
    assert(stripped(b, is_absolute(path)) == b) by {
        assert(b.last() == name.last());
        if b.last() == DOT {
            if name.len() == 1 {
                assert(name == seq![DOT]);
            } else {
                assert(b[b.len() - 2] == name[name.len() - 2]);
                assert(name.contains(name[name.len() - 2]));
            }
        }
    }
}

/// A piece after a slash, or at the start, is the last one.
proof fn lemma_ends_in_piece(front: Seq<u8>, name: Seq<u8>)
    requires
        front.len() == 0 || front.last() == SLASH,
        !name.contains(SLASH),
    ensures
        last_piece(front + name) == name,
    decreases name.len(),
{
    let b = front + name;
    if name.len() == 0 {
        assert(b == front);
        assert(last_piece(b) == name);
    } else {
        let t = name.drop_last();
        assert(name.contains(name[name.len() - 1]));
        assert(!t.contains(SLASH)) by {
            if t.contains(SLASH) {
                let i = choose|i: int| 0 <= i < t.len() && t[i] == SLASH;
                assert(name[i] == SLASH);
            }
        }
        lemma_ends_in_piece(front, t);
        assert(b.drop_last() == front + t);
        assert(b.last() == name.last());
        assert(last_piece(b) == name);
    }
}

/// A file in a directory has the directory's path, one slash and its name; the slash is not
/// doubled, and below the empty path there is none. What is absolute already stays as it is.
pub proof fn law_joining(dir: Seq<u8>, name: Seq<u8>)
    ensures
        name.len() > 0 && name.first() == 47 ==> joined(dir, name) == name,
        !(name.len() > 0 && name.first() == 47) ==> joined(dir, name) == (if dir.len() == 0
            || dir.last() == 47 {
            dir + name
        } else {
            dir + seq![47u8] + name
        }),
{
    assert(dir.push(47) + name == dir + seq![47u8] + name);
}

/// A name that is given as text stands for the bytes of the text.
pub proof fn law_text_names_its_bytes(dir: Seq<u8>, name: Seq<char>)
    ensures
        file_in(dir, name) == joined(dir, encode_utf8(name)),
{
}

/// For a name that is given as text, and does not start with a slash, that comes to the path of
/// the directory, a slash where it has none, and the bytes of the text.
pub proof fn law_joining_text(dir: Seq<u8>, name: Seq<char>)
    requires
        name.len() > 0,
        is_ascii_chars(name),
        name.first() != '/',
    ensures
        file_in(dir, name) == (if dir.len() == 0 || dir.last() == 47 {
            dir + encode_utf8(name)
        } else {
            dir + seq![47u8] + encode_utf8(name)
        }),
{
    is_ascii_chars_encode_utf8(name);
    assert(name[0] as u8 == encode_utf8(name)[0]);
    assert('\0' <= name[0] <= '\u{7f}');
    law_joining(dir, encode_utf8(name));
}

/// A slash at the end of a path adds nothing, and neither does a slash and a dot.
pub proof fn law_end_of_a_path(path: Seq<u8>)
    ensures
        file_name_of(path + seq![47u8]) == file_name_of(path),
        file_name_of(path + seq![47u8, 46u8]) == file_name_of(path),
        parent_of(path + seq![47u8]) == parent_of(path),
        parent_of(path + seq![47u8, 46u8]) == parent_of(path),
{
    let one = path + seq![47u8];
    let two = path + seq![47u8, 46u8];
    let b = body(path);
    assert(two.drop_last() == one);
    assert(one.drop_last() == path);
    if path.len() == 0 {
        assert(body(one) == b);
        assert(body(two) == seq![46u8]);
        assert(body(two).drop_last() == b);
        assert(stripped(b, true) == b && stripped(b, false) == b);
    } else {
        assert(one.first() == path.first() && two.first() == path.first());
        assert(body(one) == b + seq![47u8]);
        assert(body(two) == b + seq![47u8, 46u8]);
        assert(body(two).drop_last() == body(one));
        assert(body(one).drop_last() == b);
        assert(body(two)[body(two).len() - 2] == 47);
    }
}

/// What follows the last slash of a path is its name, and so is the whole of a path without
/// slashes; two dots are none, and neither is a dot alone or an empty path.
pub proof fn law_name_of_a_path(head: Seq<u8>, name: Seq<u8>)
    requires
        head.len() > 0 ==> head.last() == 47,
        name.len() > 0,
        !name.contains(47),
        name != seq![46u8],
    ensures
        file_name_of(head + name) == (if name == seq![46u8, 46u8] {
            None
        } else {
            Some(name)
        }),
        file_name_of(seq![46u8]) is None,
        file_name_of(Seq::empty()) is None,
{
    assert(name.contains(name[0]));
    if name == seq![46u8, 46u8] {
        lemma_entry(head, name);
    } else {
        law_joined_path_has_its_name(head, name);
    }
    let dot = seq![46u8];
    assert(body(dot) == dot);
    assert(stripped(dot, false) == dot);
    lemma_ends_in_piece(Seq::empty(), dot);
    assert(Seq::<u8>::empty() + dot == dot);
}

/// The directory of an entry is the path before the entry's name and the slash; the root for an
/// entry of the root, and the empty path where there is no slash. Slashes before the name, and
/// dots between them, count as one slash.
pub proof fn law_parent_of_an_entry(dir: Seq<u8>, name: Seq<u8>)
    requires
        name.len() > 0,
        !name.contains(47),
        name != seq![46u8],
    ensures
        dir.len() > 0 && dir.last() != 47 && !(dir.len() > 1 && dir.last() == 46 && dir[dir.len()
            - 2] == 47) ==> parent_of(dir + seq![47u8] + name) == Some(dir),
        parent_of(seq![47u8] + name) == Some(seq![47u8]),
        parent_of(name) == Some(Seq::<u8>::empty()),
        parent_of(seq![46u8]) == Some(Seq::<u8>::empty()),
        parent_of(Seq::empty()) is None,
        parent_of(dir + seq![47u8, 47u8] + name) == parent_of(dir + seq![47u8] + name),
        parent_of(dir + seq![47u8, 46u8, 47u8] + name) == parent_of(dir + seq![47u8] + name),
{
    let none = Seq::<u8>::empty();
    let h = dir + seq![47u8];
    let hh = dir + seq![47u8, 47u8];
    let hd = dir + seq![47u8, 46u8, 47u8];
    let b = body(h);
    lemma_entry(h, name);
    lemma_entry(hh, name);
    lemma_entry(hd, name);
    lemma_entry(seq![47u8], name);
    lemma_entry(none, name);
    assert(none + name == name);
    assert(body(seq![47u8]) == none);
    assert(seq![47u8] + none == seq![47u8]);
    assert(hh.first() == h.first() && hd.first() == h.first());
    assert(body(hh) == b + seq![47u8]);
    assert(body(hh).drop_last() == b);
    assert(body(hd) == b + seq![46u8, 47u8]);
    let dotted = b + seq![46u8];
    assert(body(hd).drop_last() == dotted);
    assert(dotted.drop_last() == b);
    if b.len() > 0 {
        assert(dotted[dotted.len() - 2] == b.last());
        assert(b.last() == h.last());
    } else {
        assert(is_absolute(h));
    }
    assert(stripped(body(hd), is_absolute(h)) == stripped(dotted, is_absolute(h)));
    assert(stripped(dotted, is_absolute(h)) == stripped(b, is_absolute(h)));
    if dir.len() > 0 && dir.last() != 47 && !(dir.len() > 1 && dir.last() == 46 && dir[dir.len()
        - 2] == 47) {
        let c = body(dir);
        assert(h.first() == dir.first());
        assert(b == c + seq![47u8]);
        assert(b.drop_last() == c);
        assert(c.len() > 0 && c.last() == dir.last());
        if c.len() > 1 {
            assert(c[c.len() - 2] == dir[dir.len() - 2]);
        }
        assert(stripped(c, is_absolute(dir)) == c);
        if is_absolute(dir) {
            assert(seq![47u8] + c == dir);
        }
    }
    let dot = seq![46u8];
    assert(body(dot) == dot);
    assert(stripped(dot, false) == dot);
    lemma_ends_in_piece(none, dot);
    assert(none + dot == dot);
    assert(dot.take(0) == none);
}

/// An entry after a slash, or alone, is taken apart into what stands before it and itself.
proof fn lemma_entry(head: Seq<u8>, name: Seq<u8>)
    requires
        head.len() > 0 ==> head.last() == SLASH,
        name.len() > 0,
        !name.contains(SLASH),
        name != seq![DOT],
    ensures
        last_component(head + name) == name,
        parent_of(head + name) == Some(
            if is_absolute(head) {
                seq![SLASH] + stripped(body(head), true)
            } else {
                stripped(body(head), false)
            },
        ),
{
    let path = head + name;
    let b = body(path);
    let front = body(head);
    assert(name.contains(name[0]));
    assert(name.contains(name.last()));
    if head.len() > 0 {
        assert(path.first() == head.first());
    } else {
        assert(path.first() == name.first());
    }
    assert(b == front + name);
    if front.len() > 0 {
        assert(front.last() == head.last());
    }
    lemma_ends_in_piece(front, name);
    assert(b.last() == name.last());
    if b.last() == DOT {
        if name.len() == 1 {
            assert(name == seq![DOT]);
        } else {
            assert(b[b.len() - 2] == name[name.len() - 2]);
            assert(name.contains(name[name.len() - 2]));
        }
    }
    assert(stripped(b, is_absolute(path)) == b);
    assert(b.take(b.len() - name.len()) == front);
}

} // verus!
