//! Lines of a text: how it is cut into them, what stands behind a heading, how much room
//! they take.

use crate::text::{chars_of, text_between, texts};
use vstd::prelude::*;
use vstd::utf8::encode_utf8;

verus! {

/// `line` without a carriage return at its end.
pub open spec fn without_return(line: Seq<char>) -> Seq<char> {
    if line.len() > 0 && line.last() == '\r' {
        line.drop_last()
    } else {
        line
    }
}

/// The lines of `text`. A line ends with a line feed, or with a carriage return and a line
/// feed, or where the text ends. What ends it is no part of it, and a line feed at the very
/// end of the text starts no further line.
pub open spec fn lines(text: Seq<char>) -> Seq<Seq<char>>
    decreases text.len(),
{
    if text.len() == 0 {
        seq![]
    } else {
        match text.index_of_first('\n') {
            Some(end) => {
                proof {
                    text.index_of_first_ensures('\n');
                }
                seq![without_return(text.take(end))] + lines(text.skip(end + 1))
            },
            None => seq![text],
        }
    }
}

/// Cuts `text` into its lines.
pub fn lines_of(text: &str) -> (list: Vec<String>)
    ensures
        texts(list@) == lines(text@),
{
    let chars = chars_of(text);
    let mut list: Vec<String> = Vec::new();
    let mut start: usize = 0;
    let mut at: usize = 0;
    assert(chars@.skip(0) =~= text@);
    assert(texts(list@) + lines(text@) =~= lines(text@));
    while at < chars.len()
        invariant
            start <= at <= chars.len(),
            chars@ == text@,
            !chars@.subrange(start as int, at as int).contains('\n'),
            texts(list@) + lines(chars@.skip(start as int)) == lines(text@),
        decreases chars.len() - at,
    {
        let ghost rest = chars@.skip(start as int);
        if chars[at] == '\n' {
            let end: usize = if at > start && chars[at - 1] == '\r' {
                at - 1
            } else {
                at
            };
            let line = text_between(&chars, start, end);
            proof {
                let size = at - start;
                assert(rest[size] == '\n');
                rest.index_of_first_ensures('\n');
                let first = rest.index_of_first('\n')->0;
                if first < size {
                    assert(chars@.subrange(start as int, at as int)[first] == '\n');
                }
                assert(first == size);
                assert(line@ =~= without_return(rest.take(size)));
                assert(rest.skip(size + 1) =~= chars@.skip(at + 1));
                assert(texts(list@.push(line)) =~= texts(list@).push(line@));
                assert(texts(list@) + (seq![line@] + lines(chars@.skip(at + 1)))
                    =~= texts(list@).push(line@) + lines(chars@.skip(at + 1)));
            }
            list.push(line);
            start = at + 1;
            assert(chars@.subrange(start as int, start as int) =~= Seq::<char>::empty());
        } else {
            assert forall|i: int| 0 <= i < at + 1 - start implies #[trigger] chars@.subrange(
                start as int,
                at + 1,
            )[i] != '\n' by {
                if i < at - start {
                    assert(chars@.subrange(start as int, at as int)[i] == chars@[start + i]);
                    assert(chars@.subrange(start as int, at as int).contains(chars@[start + i]));
                }
            }
        }
        at = at + 1;
    }
    let ghost rest = chars@.skip(start as int);
    assert(rest =~= chars@.subrange(start as int, at as int));
    proof {
        rest.index_of_first_ensures('\n');
    }
    if start < chars.len() {
        let line = text_between(&chars, start, chars.len());
        assert(line@ =~= rest);
        assert(texts(list@.push(line)) =~= texts(list@) + seq![rest]);
        list.push(line);
    } else {
        assert(texts(list@) + lines(rest) =~= texts(list@));
    }
    list
}

/// What follows `heading` in the first of `list` that starts with it.
pub open spec fn behind(list: Seq<Seq<char>>, heading: Seq<char>) -> Option<Seq<char>>
    decreases list.len(),
{
    if list.len() == 0 {
        None
    } else if heading.is_prefix_of(list[0]) {
        Some(list[0].skip(heading.len() as int))
    } else {
        behind(list.drop_first(), heading)
    }
}

/// What follows `prefix` in `text`, where `text` starts with it.
fn after_prefix(text: &str, prefix: &str) -> (rest: Option<String>)
    ensures
        rest matches Some(rest) ==> prefix@.is_prefix_of(text@) && rest@ == text@.skip(
            prefix@.len() as int,
        ),
        rest is None ==> !prefix@.is_prefix_of(text@),
{
    let chars = chars_of(text);
    let head = chars_of(prefix);
    if head.len() > chars.len() {
        return None;
    }
    let mut at: usize = 0;
    while at < head.len()
        invariant
            at <= head.len() <= chars.len(),
            chars@ == text@,
            head@ == prefix@,
            forall|i: int| 0 <= i < at ==> chars@[i] == head@[i],
        decreases head.len() - at,
    {
        if chars[at] != head[at] {
            assert(text@.take(head@.len() as int)[at as int] != prefix@[at as int]);
            return None;
        }
        at = at + 1;
    }
    assert(text@.subrange(0, prefix@.len() as int) =~= prefix@);
    let rest = text_between(&chars, head.len(), chars.len());
    assert(rest@ =~= text@.skip(prefix@.len() as int));
    Some(rest)
}

/// Finds what follows `heading` in the first of `list` that starts with it.
pub fn find_behind(list: &Vec<String>, heading: &str) -> (found: Option<String>)
    ensures
        found matches Some(found) ==> behind(texts(list@), heading@) == Some(found@),
        found is None ==> behind(texts(list@), heading@) is None,
{
    let mut at: usize = 0;
    assert(texts(list@).skip(0) =~= texts(list@));
    while at < list.len()
        invariant
            at <= list.len(),
            behind(texts(list@), heading@) == behind(texts(list@).skip(at as int), heading@),
        decreases list.len() - at,
    {
        let found = after_prefix(list[at].as_str(), heading);
        assert(texts(list@).skip(at as int).drop_first() =~= texts(list@).skip(at + 1));
        assert(texts(list@).skip(at as int)[0] == list@[at as int]@);
        if found.is_some() {
            return found;
        }
        at = at + 1;
    }
    None
}

/// Whether `c` has the Unicode property White_Space.
pub open spec fn is_space(c: char) -> bool {
    let code = c as int;
    ||| 0x9 <= code <= 0xd
    ||| code == 0x20
    ||| code == 0x85
    ||| code == 0xa0
    ||| code == 0x1680
    ||| 0x2000 <= code <= 0x200a
    ||| code == 0x2028
    ||| code == 0x2029
    ||| code == 0x202f
    ||| code == 0x205f
    ||| code == 0x3000
}

fn is_space_char(c: char) -> (space: bool)
    ensures
        space == is_space(c),
{
    let code: u32 = c as u32;
    (0x9 <= code && code <= 0xd) || code == 0x20 || code == 0x85 || code == 0xa0 || code == 0x1680
        || (0x2000 <= code && code <= 0x200a) || code == 0x2028 || code == 0x2029 || code == 0x202f
        || code == 0x205f || code == 0x3000
}

/// `text` without the white space at its start and at its end.
pub open spec fn trimmed(text: Seq<char>) -> Seq<char>
    decreases text.len(),
{
    if text.len() == 0 {
        text
    } else if is_space(text[0]) {
        trimmed(text.drop_first())
    } else if is_space(text.last()) {
        trimmed(text.drop_last())
    } else {
        text
    }
}

/// Cuts off the white space at both ends of `text`.
pub fn trim(text: &str) -> (inner: String)
    ensures
        inner@ == trimmed(text@),
{
    let chars = chars_of(text);
    let mut from: usize = 0;
    let mut to: usize = chars.len();
    assert(chars@.subrange(0, chars@.len() as int) =~= text@);
    while from < to && is_space_char(chars[from])
        invariant
            from <= to == chars.len(),
            trimmed(chars@.subrange(from as int, to as int)) == trimmed(text@),
        decreases to - from,
    {
        assert(chars@.subrange(from as int, to as int).drop_first() =~= chars@.subrange(
            from + 1,
            to as int,
        ));
        from = from + 1;
    }
    while from < to && is_space_char(chars[to - 1])
        invariant
            from <= to <= chars.len(),
            from < to ==> !is_space(chars@[from as int]),
            trimmed(chars@.subrange(from as int, to as int)) == trimmed(text@),
        decreases to - from,
    {
        assert(chars@.subrange(from as int, to as int).drop_last() =~= chars@.subrange(
            from as int,
            to - 1,
        ));
        to = to - 1;
    }
    text_between(&chars, from, to)
}

/// The number of bytes of the longest of `list`.
pub open spec fn longest(list: Seq<Seq<char>>) -> nat
    decreases list.len(),
{
    if list.len() == 0 {
        0
    } else {
        let before = longest(list.drop_last());
        let size = encode_utf8(list.last()).len();
        if size > before {
            size
        } else {
            before
        }
    }
}

/// Measures the longest of `list` in bytes.
pub fn longest_of(list: &Vec<String>) -> (most: usize)
    ensures
        most == longest(texts(list@)),
{
    let mut most: usize = 0;
    let mut at: usize = 0;
    while at < list.len()
        invariant
            at <= list.len(),
            most == longest(texts(list@).take(at as int)),
        decreases list.len() - at,
    {
        let size: usize = list[at].as_str().as_bytes().len();
        assert(texts(list@).take(at + 1).drop_last() =~= texts(list@).take(at as int));
        assert(texts(list@).take(at + 1).last() == list@[at as int]@);
        if size > most {
            most = size;
        }
        at = at + 1;
    }
    assert(texts(list@).take(at as int) =~= texts(list@));
    most
}

/// No line holds a line feed.
pub proof fn lines_hold_no_feed(text: Seq<char>, at: int)
    requires
        0 <= at < lines(text).len(),
    ensures
        !lines(text)[at].contains('\n'),
    decreases text.len(),
{
    if text.len() > 0 {
        text.index_of_first_ensures('\n');
        match text.index_of_first('\n') {
            Some(end) => {
                if at == 0 {
                    assert forall|i: int| 0 <= i < lines(text)[0].len() implies #[trigger] lines(
                        text,
                    )[0][i] != '\n' by {
                        assert(lines(text)[0][i] == text[i]);
                    }
                } else {
                    lines_hold_no_feed(text.skip(end + 1), at - 1);
                    assert(lines(text)[at] == lines(text.skip(end + 1))[at - 1]);
                }
            },
            None => {},
        }
    }
}

} // verus!
