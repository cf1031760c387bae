//! Working with text character by character: trimming white space and
//! finding characters and parts.

use vstd::prelude::*;

verus! {

/// The characters that count as white space when a text is trimmed: the
/// Unicode white-space characters.
pub open spec fn is_space(c: char) -> bool {
    let code = c as u32;
    ||| 0x09 <= code <= 0x0d
    ||| code == 0x20
    ||| code == 0x85
    ||| code == 0xa0
    ||| code == 0x1680
    ||| 0x2000 <= code <= 0x200a
    ||| code == 0x2028
    ||| code == 0x2029
    ||| code == 0x202f
    ||| code == 0x205f
    ||| code == 0x3000
}

/// The text without its leading white space.
pub open spec fn trim_start(text: Seq<char>) -> Seq<char>
    decreases text.len(),
{
    if text.len() > 0 && is_space(text[0]) {
        trim_start(text.drop_first())
    } else {
        text
    }
}

/// The text without its trailing white space.
pub open spec fn trim_end(text: Seq<char>) -> Seq<char>
    decreases text.len(),
{
    if text.len() > 0 && is_space(text.last()) {
        trim_end(text.drop_last())
    } else {
        text
    }
}

/// The text without its leading and trailing white space.
pub open spec fn trim(text: Seq<char>) -> Seq<char> {
    trim_end(trim_start(text))
}

/// The length of the part of the text before the first `mark`, or of the
/// whole text where it holds none.
pub open spec fn len_before(text: Seq<char>, mark: char) -> int
    decreases text.len(),
{
    if text.len() == 0 || text[0] == mark {
        0
    } else {
        1 + len_before(text.drop_first(), mark)
    }
}

/// `len_before` stays within the text, stops at a mark, and passes none.
pub proof fn lemma_len_before(text: Seq<char>, mark: char)
    ensures
        0 <= len_before(text, mark) <= text.len(),
        len_before(text, mark) < text.len() ==> text[len_before(text, mark)] == mark,
        forall|k: int| 0 <= k < len_before(text, mark) ==> #[trigger] text[k] != mark,
    decreases text.len(),
{
    if text.len() > 0 && text[0] != mark {
        let rest = text.drop_first();
        lemma_len_before(rest, mark);
        assert forall|k: int| 0 <= k < len_before(text, mark) implies #[trigger] text[k]
            != mark by {
            if k > 0 {
                assert(text[k] == rest[k - 1]);
            }
        }
    }
}

/// A position that holds the first mark of a text, or the end of a text
/// without one, is what `len_before` names.
pub proof fn lemma_len_before_is(text: Seq<char>, mark: char, at: int)
    requires
        0 <= at <= text.len(),
        forall|k: int| 0 <= k < at ==> #[trigger] text[k] != mark,
        at < text.len() ==> text[at] == mark,
    ensures
        len_before(text, mark) == at,
{
    lemma_len_before(text, mark);
    let found = len_before(text, mark);
    if found < at {
        assert(text[found] != mark);
    }
    if at < found {
        assert(text[at] != mark);
    }
}

/// Trimming the start removes exactly the leading run of white space.
pub proof fn lemma_trim_start_is(text: Seq<char>, from: int)
    requires
        0 <= from <= text.len(),
        forall|k: int| 0 <= k < from ==> is_space(#[trigger] text[k]),
        from < text.len() ==> !is_space(text[from]),
    ensures
        trim_start(text) == text.subrange(from, text.len() as int),
    decreases from,
{
    if from == 0 {
        assert(text.subrange(0, text.len() as int) == text);
    } else {
        let rest = text.drop_first();
        assert forall|k: int| 0 <= k < from - 1 implies is_space(#[trigger] rest[k]) by {
            assert(rest[k] == text[k + 1]);
        }
        lemma_trim_start_is(rest, from - 1);
        assert(rest.subrange(from - 1, rest.len() as int) == text.subrange(
            from,
            text.len() as int,
        ));
    }
}

/// Trimming the end removes exactly the trailing run of white space.
pub proof fn lemma_trim_end_is(text: Seq<char>, to: int)
    requires
        0 <= to <= text.len(),
        forall|k: int| to <= k < text.len() ==> is_space(#[trigger] text[k]),
        to > 0 ==> !is_space(text[to - 1]),
    ensures
        trim_end(text) == text.subrange(0, to),
    decreases text.len() - to,
{
    if to == text.len() {
        assert(text.subrange(0, to) == text);
    } else {
        let rest = text.drop_last();
        assert forall|k: int| to <= k < rest.len() implies is_space(#[trigger] rest[k]) by {
            assert(rest[k] == text[k]);
        }
        lemma_trim_end_is(rest, to);
        assert(rest.subrange(0, to) == text.subrange(0, to));
    }
}

/// Whether a character counts as white space.
pub fn is_space_char(c: char) -> (space: bool)
    ensures
        space == is_space(c),
{
    let code: u32 = c as u32;
    (0x09 <= code && code <= 0x0d) || code == 0x20 || code == 0x85 || code == 0xa0 || code
        == 0x1680 || (0x2000 <= code && code <= 0x200a) || code == 0x2028 || code == 0x2029
        || code == 0x202f || code == 0x205f || code == 0x3000
}

/// The characters of a text, one by one.
pub fn chars_of(text: &str) -> (chars: Vec<char>)
    ensures
        chars@ == text@,
{
    let mut chars: Vec<char> = Vec::new();
    for c in it: text.chars()
        invariant
            it.seq() == text@,
            chars@ == it.seq().take(it.index() as int),
    {
        chars.push(c);
        assert(it.seq().take(it.index() + 1) == it.seq().take(it.index() as int).push(c));
    }
    assert(text@.take(text@.len() as int) == text@);
    chars
}

/// Finds the first `mark` in `chars[start..end]`, or `end` where there is
/// none.
pub fn scan_to(chars: &Vec<char>, start: usize, end: usize, mark: char) -> (at: usize)
    requires
        start <= end <= chars@.len(),
    ensures
        start <= at <= end,
        at - start == len_before(chars@.subrange(start as int, end as int), mark),
        at < end ==> chars@[at as int] == mark,
{
    let mut at: usize = start;
    while at < end && chars[at] != mark
        invariant
            start <= at <= end <= chars@.len(),
            forall|k: int| start <= k < at ==> #[trigger] chars@[k] != mark,
        decreases end - at,
    {
        at = at + 1;
    }
    proof {
        let part = chars@.subrange(start as int, end as int);
        assert forall|k: int| 0 <= k < at - start implies #[trigger] part[k] != mark by {
            assert(part[k] == chars@[start + k]);
        }
        lemma_len_before_is(part, mark, at - start);
    }
    at
}

/// Finds the bounds of `chars[start..end]` without the white space around
/// it.
pub fn trim_bounds(chars: &Vec<char>, start: usize, end: usize) -> (bounds: (usize, usize))
    requires
        start <= end <= chars@.len(),
    ensures
        start <= bounds.0 <= bounds.1 <= end,
        trim(chars@.subrange(start as int, end as int)) == chars@.subrange(
            bounds.0 as int,
            bounds.1 as int,
        ),
{
    let mut from: usize = start;
    while from < end && is_space_char(chars[from])
        invariant
            start <= from <= end <= chars@.len(),
            forall|k: int| start <= k < from ==> is_space(#[trigger] chars@[k]),
        decreases end - from,
    {
        from = from + 1;
    }
    let mut to: usize = end;
    while to > from && is_space_char(chars[to - 1])
        invariant
            from <= to <= end <= chars@.len(),
            forall|k: int| to <= k < end ==> is_space(#[trigger] chars@[k]),
        decreases to,
    {
        to = to - 1;
    }
    proof {
        let piece = chars@.subrange(start as int, end as int);
        assert forall|k: int| 0 <= k < from - start implies is_space(#[trigger] piece[k]) by {
            assert(piece[k] == chars@[start + k]);
        }
        lemma_trim_start_is(piece, from - start);
        let lead = piece.subrange(from - start, piece.len() as int);
        assert(lead == chars@.subrange(from as int, end as int));
        assert forall|k: int| to - from <= k < lead.len() implies is_space(#[trigger] lead[k]) by {
            assert(lead[k] == chars@[from + k]);
        }
        lemma_trim_end_is(lead, to - from);
        assert(lead.subrange(0, to - from) == chars@.subrange(from as int, to as int));
    }
    (from, to)
}

/// The texts of a list of pairs of texts.
pub open spec fn pairs_view(pairs: Seq<(String, String)>) -> Seq<(Seq<char>, Seq<char>)> {
    Seq::new(pairs.len(), |i: int| (pairs[i].0@, pairs[i].1@))
}

/// `part` occurs in `text` at position `at`.
pub open spec fn occurs_at(text: Seq<char>, part: Seq<char>, at: int) -> bool {
    &&& 0 <= at
    &&& at + part.len() <= text.len()
    &&& text.subrange(at, at + part.len()) == part
}

/// `part` occurs somewhere in `text`.
pub open spec fn contains_text(text: Seq<char>, part: Seq<char>) -> bool {
    exists|at: int| occurs_at(text, part, at)
}

/// Whether `part` occurs in `text` at position `at`.
pub fn matches_at(text: &Vec<char>, part: &Vec<char>, at: usize) -> (found: bool)
    requires
        at + part@.len() <= text@.len(),
    ensures
        found == occurs_at(text@, part@, at as int),
{
    let len: usize = part.len();
    let whole: usize = text.len();
    let mut i: usize = 0;
    while i < len && text[at + i] == part[i]
        invariant
            len == part@.len(),
            whole == text@.len(),
            at + len <= whole,
            i <= len,
            forall|k: int| 0 <= k < i ==> text@[at + k] == #[trigger] part@[k],
        decreases len - i,
    {
        i = i + 1;
    }
    proof {
        let window = text@.subrange(at as int, at + len);
        if i == len {
            assert(window =~= part@);
        } else {
            assert(window[i as int] != part@[i as int]);
        }
    }
    i == len
}

/// Whether `part` occurs somewhere in `text`.
pub fn contains(text: &Vec<char>, part: &Vec<char>) -> (found: bool)
    ensures
        found == contains_text(text@, part@),
{
    if part.len() > text.len() {
        return false;
    }
    let last: usize = text.len() - part.len();
    let mut at: usize = 0;
    while at < last
        invariant
            last + part@.len() == text@.len(),
            at <= last,
            forall|k: int| 0 <= k < at ==> !occurs_at(text@, part@, k),
        decreases last - at,
    {
        if matches_at(text, part, at) {
            return true;
        }
        at = at + 1;
    }
    matches_at(text, part, last)
}

} // verus!
