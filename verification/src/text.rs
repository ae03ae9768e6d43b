//! Text as sequences of characters: searching, comparing and cutting.

use vstd::prelude::*;
use vstd::std_specs::iter::IteratorSpec;
use vstd::utf8::*;

verus! {

/// `needle` stands in `text` at position `at`.
pub open spec fn occurs_at(needle: Seq<char>, text: Seq<char>, at: int) -> bool {
    &&& 0 <= at
    &&& at + needle.len() <= text.len()
    &&& text.subrange(at, at + needle.len()) =~= needle
}

/// `needle` stands somewhere in `text` as a run of consecutive characters.
pub open spec fn occurs_in(needle: Seq<char>, text: Seq<char>) -> bool {
    exists|at: int| occurs_at(needle, text, at)
}

/// The position of the first `mark` in `text`, or the length of `text` where
/// it holds none.
pub open spec fn first_mark(text: Seq<char>, mark: char) -> int
    decreases text.len(),
{
    if text.len() == 0 || text[0] == mark {
        0
    } else {
        1 + first_mark(text.drop_first(), mark)
    }
}

/// The part of `text` in front of its first `mark`; all of it where it holds
/// none.
pub open spec fn before_mark(text: Seq<char>, mark: char) -> Seq<char> {
    text.take(first_mark(text, mark))
}

/// The part of `text` behind its first `mark`; nothing where it holds none.
pub open spec fn after_mark(text: Seq<char>, mark: char) -> Seq<char> {
    if first_mark(text, mark) < text.len() {
        text.skip(first_mark(text, mark) + 1)
    } else {
        Seq::empty()
    }
}

/// `first_mark` is the one position in front of which no `mark` stands and
/// which either holds a `mark` or is the end of the text.
pub proof fn lemma_first_mark(text: Seq<char>, mark: char, at: int)
    requires
        0 <= at <= text.len(),
        forall|i: int| 0 <= i < at ==> text[i] != mark,
        at < text.len() ==> text[at] == mark,
    ensures
        first_mark(text, mark) == at,
    decreases text.len(),
{
    if at > 0 {
        let rest = text.drop_first();
        assert forall|i: int| 0 <= i < at - 1 implies rest[i] != mark by {
            assert(rest[i] == text[i + 1]);
        }
        lemma_first_mark(rest, mark, at - 1);
    }
}

/// The characters of `text`, in order.
pub fn text_chars(text: &str) -> (chars: Vec<char>)
    ensures
        chars@ == text@,
{
    let mut chars: Vec<char> = Vec::new();
    let mut rest = text.chars();
    loop
        invariant
            chars@ + rest.remaining() == text@,
            rest.decrease() is Some,
        ensures
            chars@ == text@,
        decreases rest.decrease()->0,
    {
        match rest.next() {
            Some(c) => {
                chars.push(c);
            },
            None => {
                assert(chars@ + rest.remaining() =~= chars@);
                break ;
            },
        }
    }
    chars
}

/// Whether `needle` stands in `text` at position `at`.
pub fn matches_at(text: &[char], needle: &[char], at: usize) -> (hit: bool)
    requires
        at + needle.len() <= text.len(),
    ensures
        hit == occurs_at(needle@, text@, at as int),
{
    let mut k: usize = 0;
    while k < needle.len()
        invariant
            k <= needle.len(),
            at + needle.len() <= text.len(),
            forall|j: int| 0 <= j < k ==> text@[at + j] == needle@[j],
        decreases needle.len() - k,
    {
        if text[at + k] != needle[k] {
            assert(text@.subrange(at as int, at + needle.len())[k as int] == text@[at + k]);
            return false;
        }
        k += 1;
    }
    true
}

/// Whether `needle` stands somewhere in `text`.
pub fn contains_chars(text: &[char], needle: &[char]) -> (found: bool)
    ensures
        found == occurs_in(needle@, text@),
{
    if needle.len() > text.len() {
        return false;
    }
    let last: usize = text.len() - needle.len();
    let mut at: usize = 0;
    while at <= last
        invariant
            last == text.len() - needle.len(),
            at <= last + 1,
            forall|i: int| 0 <= i < at ==> !occurs_at(needle@, text@, i),
        decreases last + 1 - at,
    {
        if matches_at(text, needle, at) {
            return true;
        }
        at += 1;
    }
    false
}

/// The position of the first `mark` in `text` from `from` up to `until`, or
/// `until` where none stands there.
pub fn find_char(text: &[char], from: usize, until: usize, mark: char) -> (at: usize)
    requires
        from <= until <= text.len(),
    ensures
        at == from + first_mark(text@.subrange(from as int, until as int), mark),
        from <= at <= until,
{
    let mut at: usize = from;
    while at < until && text[at] != mark
        invariant
            from <= at <= until <= text.len(),
            forall|i: int| from <= i < at ==> text@[i] != mark,
        decreases until - at,
    {
        at += 1;
    }
    proof {
        lemma_first_mark(text@.subrange(from as int, until as int), mark, at - from);
    }
    at
}

/// Whether two texts hold the same characters.
pub fn same_text(left: &str, right: &str) -> (same: bool)
    ensures
        same == (left@ == right@),
{
    let a = left.as_bytes();
    let b = right.as_bytes();
    if a.len() != b.len() {
        return false;
    }
    let mut k: usize = 0;
    while k < a.len()
        invariant
            a@.len() == b@.len(),
            k <= a@.len(),
            a@ == encode_utf8(left@),
            b@ == encode_utf8(right@),
            forall|j: int| 0 <= j < k ==> a@[j] == b@[j],
        decreases a.len() - k,
    {
        if a[k] != b[k] {
            return false;
        }
        k += 1;
    }
    proof {
        assert(a@ =~= b@);
        encode_utf8_decode_utf8(left@);
        encode_utf8_decode_utf8(right@);
    }
    true
}

/// Whether the bytes from `start` up to `end` of the encoded `code` are the
/// encoding of some of its characters: the two offsets are in order, lie
/// within the encoding, and both fall between characters.
pub open spec fn is_span(code: Seq<char>, start: int, end: int) -> bool {
    &&& 0 <= start <= end <= encode_utf8(code).len()
    &&& is_char_boundary(encode_utf8(code), start)
    &&& is_char_boundary(encode_utf8(code), end)
}

/// The characters that the bytes from `start` up to `end` of the encoded
/// `code` stand for; nothing where the two offsets are no span of `code`.
pub open spec fn text_at(code: Seq<char>, start: int, end: int) -> Seq<char> {
    if is_span(code, start, end) {
        decode_utf8(encode_utf8(code).subrange(start, end))
    } else {
        Seq::empty()
    }
}

/// The text that a byte span of `code` covers, or the empty text where the
/// offsets are no span of `code`.
pub fn span_text(code: &str, start: usize, end: usize) -> (text: &str)
    ensures
        text@ == text_at(code@, start as int, end as int),
{
    let length = code.as_bytes().len();
    if start <= end && end <= length && code.is_char_boundary(start) && code.is_char_boundary(end) {
        let (head, _) = code.split_at(end);
        proof {
            let bytes = encode_utf8(code@);
            encode_utf8_valid_utf8(code@);
            valid_utf8_split(bytes, end as int);
            assert(encode_utf8(head@) == bytes.subrange(0, end as int));
            if start < end {
                is_char_boundary_iff_not_is_continuation_byte(bytes, start as int);
                is_char_boundary_iff_not_is_continuation_byte(encode_utf8(head@), start as int);
            } else {
                is_char_boundary_start_end_of_seq(encode_utf8(head@));
            }
        }
        let (_, text) = head.split_at(start);
        proof {
            let bytes = encode_utf8(code@);
            assert(encode_utf8(text@) =~= bytes.subrange(start as int, end as int));
            encode_utf8_decode_utf8(text@);
        }
        text
    } else {
        proof {
            reveal_strlit("");
            assert(""@ =~= Seq::<char>::empty());
        }
        ""
    }
}

} // verus!
