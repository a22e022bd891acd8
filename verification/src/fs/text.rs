//! Text as the interface files of a control group hold it: white space, words, lines and
//! decimal numbers.

use vstd::prelude::*;
use vstd::string::*;

verus! {

// ---------------------------------------------------------------------------------------------
// White space
// ---------------------------------------------------------------------------------------------

/// The characters with Unicode's `White_Space` property.
pub open spec fn is_space(c: char) -> bool {
    let u = c as u32;
    ||| 0x09 <= u <= 0x0d
    ||| u == 0x20
    ||| u == 0x85
    ||| u == 0xa0
    ||| u == 0x1680
    ||| 0x2000 <= u <= 0x200a
    ||| u == 0x2028
    ||| u == 0x2029
    ||| u == 0x202f
    ||| u == 0x205f
    ||| u == 0x3000
}

/// Tells whether a character is white space.
pub fn space(c: char) -> (r: bool)
    ensures
        r == is_space(c),
{
    let u: u32 = c as u32;
    (0x09 <= u && u <= 0x0d) || u == 0x20 || u == 0x85 || u == 0xa0 || u == 0x1680 || (0x2000 <= u
        && u <= 0x200a) || u == 0x2028 || u == 0x2029 || u == 0x202f || u == 0x205f || u == 0x3000
}

/// The text without the white space at both of its ends.
pub open spec fn trimmed(s: Seq<char>) -> Seq<char>
    decreases s.len(),
{
    if s.len() > 0 && is_space(s.first()) {
        trimmed(s.drop_first())
    } else if s.len() > 0 && is_space(s.last()) {
        trimmed(s.drop_last())
    } else {
        s
    }
}

/// The words of a text: the longest runs of characters without white space, in order.
pub open spec fn words(s: Seq<char>) -> Seq<Seq<char>>
    decreases s.len(),
{
    if s.len() == 0 {
        Seq::empty()
    } else {
        let before = words(s.drop_last());
        if is_space(s.last()) {
            before
        } else if s.len() == 1 || is_space(s[s.len() - 2]) {
            before.push(seq![s.last()])
        } else {
            before.drop_last().push(before.last().push(s.last()))
        }
    }
}

/// The texts of a list of strings.
pub open spec fn texts(v: Seq<String>) -> Seq<Seq<char>> {
    v.map_values(|w: String| w@)
}

/// The characters of a text.
fn characters(s: &str) -> (r: Vec<char>)
    ensures
        r@ == s@,
{
    let mut r: Vec<char> = Vec::new();
    for c in it: s.chars()
        invariant
            r@ == it.seq().take(it.index()),
            it.seq() == s@,
    {
        r.push(c);
    }
    assert(s@.take(s@.len() as int) == s@);
    r
}

/// Removes the white space at both ends of a text.
pub fn trim(s: &str) -> (r: String)
    ensures
        r@ == trimmed(s@),
{
    let chars: Vec<char> = characters(s);
    let mut from: usize = 0;
    let mut to: usize = chars.len();
    assert(s@.subrange(0, s@.len() as int) == s@);
    while from < to && space(chars[from])
        invariant
            chars@ == s@,
            from <= to == chars.len(),
            trimmed(s@) == trimmed(s@.subrange(from as int, to as int)),
        decreases to - from,
    {
        assert(s@.subrange(from as int, to as int).drop_first() == s@.subrange(
            from + 1,
            to as int,
        ));
        from = from + 1;
    }
    while from < to && space(chars[to - 1])
        invariant
            chars@ == s@,
            from <= to <= chars.len(),
            from < to ==> !is_space(s@[from as int]),
            trimmed(s@) == trimmed(s@.subrange(from as int, to as int)),
        decreases to - from,
    {
        assert(s@.subrange(from as int, to as int).drop_last() == s@.subrange(
            from as int,
            to - 1,
        ));
        to = to - 1;
    }
    s.substring_char(from, to).to_owned()
}

/// Splits a text into its words.
pub fn split_words(s: &str) -> (r: Vec<String>)
    ensures
        texts(r@) == words(s@),
        r@.len() == words(s@).len(),
        forall|i: int| 0 <= i < r@.len() ==> (#[trigger] r@[i])@ == words(s@)[i],
{
    let chars: Vec<char> = characters(s);
    let mut out: Vec<String> = Vec::new();
    let mut start: usize = 0;
    let mut i: usize = 0;
    assert(texts(out@) == words(s@.take(0)));
    while i < chars.len()
        invariant
            chars@ == s@,
            start <= i <= chars.len(),
            start < i ==> !is_space(s@[i - 1]) && words(s@.take(i as int)) == texts(out@).push(
                s@.subrange(start as int, i as int),
            ),
            start == i ==> words(s@.take(i as int)) == texts(out@) && (i > 0 ==> is_space(
                s@[i - 1],
            )),
        decreases chars.len() - i,
    {
        let ghost before = s@.take(i as int);
        let ghost after = s@.take(i + 1);
        assert(after.drop_last() == before);
        assert(after.last() == s@[i as int]);
        if space(chars[i]) {
            if start < i {
                let ghost done = texts(out@);
                let word: String = s.substring_char(start, i).to_owned();
                out.push(word);
                assert(texts(out@) == done.push(word@));
            }
            start = i + 1;
        } else {
            if start < i {
                let ghost run = s@.subrange(start as int, i as int);
                assert(texts(out@).push(run).drop_last() == texts(out@));
                assert(run.push(s@[i as int]) == s@.subrange(start as int, i + 1));
            } else {
                assert(seq![s@[i as int]] == s@.subrange(start as int, i + 1));
            }
        }
        i = i + 1;
    }
    assert(s@.take(i as int) == s@);
    if start < i {
        let ghost done = texts(out@);
        let word: String = s.substring_char(start, i).to_owned();
        out.push(word);
        assert(texts(out@) == done.push(word@));
    }
    assert forall|i: int| 0 <= i < out@.len() implies (#[trigger] out@[i])@ == words(s@)[i] by {
        assert(texts(out@)[i] == out@[i]@);
    }
    out
}

/// Tells whether two texts are the same.
pub fn same_text(a: &str, b: &str) -> (r: bool)
    ensures
        r == (a@ == b@),
{
    a.to_owned() == b.to_owned()
}

// ---------------------------------------------------------------------------------------------
// Words that are put together
// ---------------------------------------------------------------------------------------------

/// There is no white space in a text.
pub open spec fn no_space(s: Seq<char>) -> bool {
    forall|i: int| 0 <= i < s.len() ==> !is_space(#[trigger] s[i])
}

/// A text that does not end in white space has a word.
proof fn lemma_words_not_empty(s: Seq<char>)
    requires
        s.len() > 0,
        !is_space(s.last()),
    ensures
        words(s).len() > 0,
{
}

/// A text without white space is one word.
pub proof fn lemma_one_word(s: Seq<char>)
    requires
        s.len() > 0,
        no_space(s),
    ensures
        words(s) == seq![s],
    decreases s.len(),
{
    let t = s.drop_last();
    assert(!is_space(s[s.len() - 1]));
    if s.len() == 1 {
        assert(words(t) == Seq::<Seq<char>>::empty());
        assert(s == seq![s.last()]);
        assert(words(s) == seq![s]);
    } else {
        assert forall|i: int| 0 <= i < t.len() implies !is_space(#[trigger] t[i]) by {
            assert(t[i] == s[i]);
        }
        lemma_one_word(t);
        assert(!is_space(s[s.len() - 2]));
        assert(t.push(s.last()) == s);
        assert(words(s) == seq![s]);
    }
}

/// A word, a space and a text have the word and then the words of the text.
pub proof fn lemma_word_before(word: Seq<char>, s: Seq<char>)
    requires
        word.len() > 0,
        no_space(word),
    ensures
        words(word.push(' ') + s) == seq![word] + words(s),
    decreases s.len(),
{
    let all = word.push(' ') + s;
    if s.len() == 0 {
        lemma_one_word(word);
        assert(all.drop_last() == word);
        assert(is_space(' '));
        assert(words(all) == seq![word] + words(s));
    } else {
        let t = s.drop_last();
        lemma_word_before(word, t);
        assert(all.drop_last() == word.push(' ') + t);
        assert(all.last() == s.last());
        if s.len() > 1 {
            assert(all[all.len() - 2] == s[s.len() - 2]);
            if !is_space(s[s.len() - 2]) {
                assert(t.last() == s[s.len() - 2]);
                lemma_words_not_empty(t);
                assert((seq![word] + words(t)).last() == words(t).last());
                assert((seq![word] + words(t)).drop_last() == seq![word] + words(t).drop_last());
            }
        } else {
            assert(all[all.len() - 2] == ' ');
            assert(is_space(' '));
        }
        assert(words(all) == seq![word] + words(s));
    }
}

/// A text without white space is left as it is.
pub proof fn lemma_trimmed_word(s: Seq<char>)
    requires
        no_space(s),
    ensures
        trimmed(s) == s,
{
    if s.len() > 0 {
        assert(!is_space(s[0]));
        assert(!is_space(s[s.len() - 1]));
    }
}

/// White space around a text does not matter to what is left of it when it is trimmed.
pub proof fn law_surrounding_space_is_trimmed(before: Seq<char>, s: Seq<char>, after: Seq<char>)
    requires
        forall|i: int| 0 <= i < before.len() ==> is_space(#[trigger] before[i]),
        forall|i: int| 0 <= i < after.len() ==> is_space(#[trigger] after[i]),
    ensures
        trimmed(before + s + after) == trimmed(s),
    decreases before.len() + s.len() + after.len(),
{
    let all = before + s + after;
    if before.len() > 0 {
        let b = before.drop_first();
        assert forall|i: int| 0 <= i < b.len() implies is_space(#[trigger] b[i]) by {
            assert(b[i] == before[i + 1]);
        }
        assert(is_space(before[0]));
        assert(all.drop_first() == b + s + after);
        law_surrounding_space_is_trimmed(b, s, after);
    } else if s.len() > 0 && is_space(s.first()) {
        assert(all.drop_first() == before + s.drop_first() + after);
        law_surrounding_space_is_trimmed(before, s.drop_first(), after);
    } else if after.len() > 0 {
        let a = after.drop_last();
        assert forall|i: int| 0 <= i < a.len() implies is_space(#[trigger] a[i]) by {
            assert(a[i] == after[i]);
        }
        assert(is_space(after[after.len() - 1]));
        if s.len() > 0 {
            assert(all.drop_last() == before + s + a);
            law_surrounding_space_is_trimmed(before, s, a);
        } else {
            let c = after.drop_first();
            assert forall|i: int| 0 <= i < c.len() implies is_space(#[trigger] c[i]) by {
                assert(c[i] == after[i + 1]);
            }
            assert(is_space(after[0]));
            assert(all.drop_first() == before + s + c);
            law_surrounding_space_is_trimmed(before, s, c);
        }
    } else {
        assert(all == s);
    }
}

// ---------------------------------------------------------------------------------------------
// Laws
// ---------------------------------------------------------------------------------------------

/// Exactly these characters are white space: tab, line feed, vertical tab, form feed, carriage
/// return, space, next line, and the spaces and separators of Unicode that are no joiners.
pub proof fn law_white_space(c: char)
    ensures
        is_space(c) <==> {
            ||| c == '\t'
            ||| c == '\n'
            ||| c == '\u{b}'
            ||| c == '\u{c}'
            ||| c == '\r'
            ||| c == ' '
            ||| c == '\u{85}'
            ||| c == '\u{a0}'
            ||| c == '\u{1680}'
            ||| '\u{2000}' <= c <= '\u{200a}'
            ||| c == '\u{2028}'
            ||| c == '\u{2029}'
            ||| c == '\u{202f}'
            ||| c == '\u{205f}'
            ||| c == '\u{3000}'
        },
{
}

/// Trimming takes the white space at both ends and nothing else: all of a text that neither
/// starts nor ends in white space is left, whatever white space stands before and after it.
pub proof fn law_trim_leaves_the_text(before: Seq<char>, s: Seq<char>, after: Seq<char>)
    requires
        forall|i: int| 0 <= i < before.len() ==> is_space(#[trigger] before[i]),
        forall|i: int| 0 <= i < after.len() ==> is_space(#[trigger] after[i]),
        s.len() > 0 ==> !is_space(s.first()) && !is_space(s.last()),
    ensures
        trimmed(before + s + after) == s,
{
    law_surrounding_space_is_trimmed(before, s, after);
}

/// White space separates words: around a character of white space, a text has the words of what
/// stands before it and then those of what stands after it.
pub proof fn law_space_separates_words(a: Seq<char>, c: char, b: Seq<char>)
    requires
        is_space(c),
    ensures
        words(a.push(c) + b) == words(a) + words(b),
    decreases b.len(),
{
    let all = a.push(c) + b;
    if b.len() == 0 {
        assert(all.drop_last() == a);
        assert(all.last() == c);
        assert(words(all) == words(a) + words(b));
    } else {
        let t = b.drop_last();
        law_space_separates_words(a, c, t);
        assert(all.drop_last() == a.push(c) + t);
        assert(all.last() == b.last());
        if b.len() > 1 {
            assert(all[all.len() - 2] == b[b.len() - 2]);
            if !is_space(b[b.len() - 2]) {
                assert(t.last() == b[b.len() - 2]);
                lemma_words_not_empty(t);
                assert((words(a) + words(t)).last() == words(t).last());
                assert((words(a) + words(t)).drop_last() == words(a) + words(t).drop_last());
            }
        } else {
            assert(all[all.len() - 2] == c);
        }
        assert(words(all) == words(a) + words(b));
    }
}

/// Nothing else separates words: a text without white space is one word, all of it, unless it is
/// empty and has none.
pub proof fn law_text_without_space_is_one_word(s: Seq<char>)
    requires
        forall|i: int| 0 <= i < s.len() ==> !is_space(#[trigger] s[i]),
    ensures
        words(s) == (if s.len() == 0 {
            Seq::<Seq<char>>::empty()
        } else {
            seq![s]
        }),
{
    if s.len() > 0 {
        lemma_one_word(s);
    }
}

/// A key, a space and a value are two words, whatever white space follows.
pub proof fn law_key_and_value_are_words(key: Seq<char>, value: Seq<char>, after: Seq<char>)
    requires
        key.len() > 0,
        value.len() > 0,
        forall|i: int| 0 <= i < key.len() ==> !is_space(#[trigger] key[i]),
        forall|i: int| 0 <= i < value.len() ==> !is_space(#[trigger] value[i]),
        forall|i: int| 0 <= i < after.len() ==> is_space(#[trigger] after[i]),
    ensures
        words(key.push(' ') + value + after) == seq![key, value],
    decreases after.len(),
{
    let all = key.push(' ') + value + after;
    if after.len() == 0 {
        lemma_word_before(key, value);
        lemma_one_word(value);
        assert(all == key.push(' ') + value);
        assert(seq![key] + seq![value] == seq![key, value]);
    } else {
        let t = after.drop_last();
        assert forall|i: int| 0 <= i < t.len() implies is_space(#[trigger] t[i]) by {
            assert(t[i] == after[i]);
        }
        law_key_and_value_are_words(key, value, t);
        assert(all.drop_last() == key.push(' ') + value + t);
        assert(is_space(after[after.len() - 1]));
        assert(all.last() == after[after.len() - 1]);
    }
}

} // verus!
