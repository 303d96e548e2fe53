//! What the crate needs of text: lines, white space, prefixes and suffixes,
//! proved on top of what vstd specifies of `str`. Equality of string slices
//! is the one thing taken on trust.

use vstd::prelude::*;
use vstd::string::StrSliceExecFns;

verus! {

/// The line that the text before a newline holds: the text, without the
/// carriage return at its end where there is one.
pub open spec fn without_return(piece: Seq<char>) -> Seq<char> {
    if piece.len() > 0 && piece.last() == '\r' {
        piece.drop_last()
    } else {
        piece
    }
}

/// The lines of `text`, read after the beginning `current` of a line.
pub open spec fn lines_from(text: Seq<char>, current: Seq<char>) -> Seq<Seq<char>>
    decreases text.len(),
{
    if text.len() == 0 {
        if current.len() == 0 {
            Seq::empty()
        } else {
            seq![current]
        }
    } else if text[0] == '\n' {
        seq![without_return(current)] + lines_from(text.drop_first(), Seq::empty())
    } else {
        lines_from(text.drop_first(), current.push(text[0]))
    }
}

/// The lines of a text. A line ends with a newline, or with a carriage return
/// and a newline, neither of which belongs to it; the last line may do
/// without.
pub open spec fn text_lines(text: Seq<char>) -> Seq<Seq<char>> {
    lines_from(text, Seq::empty())
}

/// Whether a character is white space: the characters to which Unicode
/// gives the property `White_Space`.
pub open spec fn is_whitespace(c: char) -> bool {
    let n = c as u32;
    ||| 0x09 <= n <= 0x0D
    ||| n == 0x20
    ||| n == 0x85
    ||| n == 0xA0
    ||| n == 0x1680
    ||| 0x2000 <= n <= 0x200A
    ||| n == 0x2028
    ||| n == 0x2029
    ||| n == 0x202F
    ||| n == 0x205F
    ||| n == 0x3000
}

/// The text without the white space at its beginning.
pub open spec fn trim_start(text: Seq<char>) -> Seq<char>
    decreases text.len(),
{
    if text.len() > 0 && is_whitespace(text[0]) {
        trim_start(text.drop_first())
    } else {
        text
    }
}

/// The text without the white space at its end.
pub open spec fn trim_end(text: Seq<char>) -> Seq<char>
    decreases text.len(),
{
    if text.len() > 0 && is_whitespace(text.last()) {
        trim_end(text.drop_last())
    } else {
        text
    }
}

/// The text without the white space at its ends.
pub open spec fn trimmed(text: Seq<char>) -> Seq<char> {
    trim_end(trim_start(text))
}

/// `text` is `head`, the first `c` of the text, and `tail`.
pub open spec fn splits_at(text: Seq<char>, c: char, head: Seq<char>, tail: Seq<char>) -> bool {
    !head.contains(c) && text == head.push(c) + tail
}

/// The text without every `suffix` at its end: the suffix is taken off as
/// long as the text ends with it.
pub open spec fn strip_suffixes(text: Seq<char>, suffix: Seq<char>) -> Seq<char>
    decreases text.len(),
{
    if suffix.len() > 0 && suffix.is_suffix_of(text) {
        strip_suffixes(text.take(text.len() - suffix.len()), suffix)
    } else {
        text
    }
}

/// The views of a list of strings.
pub open spec fn texts_view(texts: Seq<String>) -> Seq<Seq<char>> {
    texts.map_values(|t: String| t@)
}

/// Specifies `==` on string slices: they are equal where the same characters
/// stand in both.
pub assume_specification[ <str as PartialEq>::eq ](a: &str, b: &str) -> (r: bool)
    ensures
        r == (a@ == b@),
;

/// The part of a text before the first `c`; all of it where there is none.
pub open spec fn head_before(text: Seq<char>, c: char) -> Seq<char>
    decreases text.len(),
{
    if text.len() == 0 || text[0] == c {
        Seq::empty()
    } else {
        seq![text[0]] + head_before(text.drop_first(), c)
    }
}

/// The part of a text after the first `c`; nothing where there is none.
pub open spec fn tail_after(text: Seq<char>, c: char) -> Seq<char> {
    text.skip(head_before(text, c).len() as int + 1)
}

/// A text splits at the first `c` in one way only: into the part before it
/// and the part after it.
pub proof fn lemma_splits_at(text: Seq<char>, c: char, head: Seq<char>, tail: Seq<char>)
    requires
        splits_at(text, c, head, tail),
    ensures
        head == head_before(text, c),
        tail == tail_after(text, c),
        text.contains(c),
    decreases head.len(),
{
    if head.len() == 0 {
        assert(text[0] == c);
        assert(head =~= Seq::empty());
        assert(tail =~= text.skip(1));
    } else {
        assert(head.contains(head[0]));
        assert(text[0] == head[0]);
        let rest = head.drop_first();
        assert forall|i: int| 0 <= i < rest.len() implies rest[i] != c by {
            assert(head.contains(head[i + 1]));
        }
        assert(text.drop_first() =~= rest.push(c) + tail);
        lemma_splits_at(text.drop_first(), c, rest, tail);
        assert(head =~= seq![text[0]] + rest);
        assert(tail =~= text.skip(head.len() as int + 1));
    }
    assert(text[head.len() as int] == c);
}

/// Whether a character is white space.
pub fn whitespace(c: char) -> (r: bool)
    ensures
        r == is_whitespace(c),
{
    let n: u32 = c as u32;
    (0x09 <= n && n <= 0x0D) || n == 0x20 || n == 0x85 || n == 0xA0 || n == 0x1680 || (0x2000 <= n
        && n <= 0x200A) || n == 0x2028 || n == 0x2029 || n == 0x202F || n == 0x205F || n == 0x3000
}

/// A text whose first `k` characters are white space, and no more, begins
/// after them once the white space at its beginning is taken off.
proof fn lemma_trim_start(text: Seq<char>, k: int)
    requires
        0 <= k <= text.len(),
        forall|j: int| 0 <= j < k ==> is_whitespace(#[trigger] text[j]),
        k == text.len() || !is_whitespace(text[k]),
    ensures
        trim_start(text) == text.skip(k),
    decreases k,
{
    if k == 0 {
        assert(text.skip(0) =~= text);
    } else {
        assert(is_whitespace(text[0]));
        let rest = text.drop_first();
        assert forall|j: int| 0 <= j < k - 1 implies is_whitespace(#[trigger] rest[j]) by {
            assert(rest[j] == text[j + 1]);
        }
        lemma_trim_start(rest, k - 1);
        assert(rest.skip(k - 1) =~= text.skip(k));
    }
}

/// A text whose characters from the `m`-th on are white space, and no more
/// before them, ends before them once the white space at its end is taken
/// off.
proof fn lemma_trim_end(text: Seq<char>, m: int)
    requires
        0 <= m <= text.len(),
        forall|j: int| m <= j < text.len() ==> is_whitespace(#[trigger] text[j]),
        m == 0 || !is_whitespace(text[m - 1]),
    ensures
        trim_end(text) == text.take(m),
    decreases text.len() - m,
{
    if m == text.len() {
        assert(text.take(m) =~= text);
    } else {
        assert(is_whitespace(text[text.len() - 1]));
        let rest = text.drop_last();
        assert forall|j: int| m <= j < rest.len() implies is_whitespace(#[trigger] rest[j]) by {
            assert(rest[j] == text[j]);
        }
        lemma_trim_end(rest, m);
        assert(rest.take(m) =~= text.take(m));
    }
}

/// The text without the white space at its ends.
pub fn trim(text: &str) -> (r: &str)
    ensures
        r@ == trimmed(text@),
{
    let n = text.unicode_len();
    let mut leading = true;
    let mut start: usize = 0;
    let mut end: usize = 0;
    let mut index: usize = 0;
    for c in it: text.chars()
        invariant
            it.seq() == text@,
            n == text@.len(),
            index == it.index(),
            start <= end <= index,
            forall|k: int| 0 <= k < start ==> is_whitespace(#[trigger] text@[k]),
            forall|k: int| end <= k < index ==> is_whitespace(#[trigger] text@[k]),
            leading ==> start == index,
            !leading ==> start < end && !is_whitespace(text@[start as int]) && !is_whitespace(
                text@[end - 1],
            ),
    {
        if whitespace(c) {
            if leading {
                start = index + 1;
                end = index + 1;
            }
        } else {
            leading = false;
            end = index + 1;
        }
        index += 1;
    }
    proof {
        lemma_trim_start(text@, start as int);
        let rest = text@.skip(start as int);
        assert forall|j: int| end - start <= j < rest.len() implies is_whitespace(
            #[trigger] rest[j],
        ) by {
            assert(rest[j] == text@[start + j]);
        }
        if end > start {
            assert(rest[end - start - 1] == text@[end - 1]);
        }
        lemma_trim_end(rest, end - start);
        assert(rest.take(end - start) =~= text@.subrange(start as int, end as int));
    }
    text.substring_char(start, end)
}

/// The lines of a text, in order.
pub fn lines(text: &str) -> (r: Vec<String>)
    ensures
        texts_view(r@) == text_lines(text@),
{
    let n = text.unicode_len();
    let mut done: Vec<String> = Vec::new();
    let mut start: usize = 0;
    let mut index: usize = 0;
    let mut after_return = false;
    proof {
        assert(text@.skip(0) =~= text@);
        assert(text@.subrange(0, 0) =~= Seq::empty());
        assert(texts_view(done@) + text_lines(text@) =~= text_lines(text@));
    }
    for c in it: text.chars()
        invariant
            it.seq() == text@,
            n == text@.len(),
            index == it.index(),
            start <= index,
            after_return == (index > start && text@[index - 1] == '\r'),
            text_lines(text@) == texts_view(done@) + lines_from(
                text@.skip(index as int),
                text@.subrange(start as int, index as int),
            ),
    {
        let ghost written = texts_view(done@);
        let ghost current = text@.subrange(start as int, index as int);
        let ghost rest = text@.skip(index as int);
        proof {
            assert(rest[0] == c);
            assert(rest.drop_first() =~= text@.skip(index + 1));
        }
        if c == '\n' {
            let end = if after_return {
                index - 1
            } else {
                index
            };
            let piece = text.substring_char(start, end).to_owned();
            proof {
                if after_return {
                    assert(current.last() == '\r');
                    assert(current.drop_last() =~= text@.subrange(start as int, end as int));
                } else if current.len() > 0 {
                    assert(current.last() == text@[index - 1]);
                }
                assert(piece@ == without_return(current));
            }
            done.push(piece);
            proof {
                let more = lines_from(text@.skip(index + 1), Seq::empty());
                assert(texts_view(done@) =~= written.push(without_return(current)));
                assert(written + (seq![without_return(current)] + more) =~= written.push(
                    without_return(current),
                ) + more);
                assert(text@.subrange(index + 1, index + 1) =~= Seq::empty());
            }
            start = index + 1;
            after_return = false;
        } else {
            proof {
                assert(current.push(c) =~= text@.subrange(start as int, index + 1));
            }
            after_return = c == '\r';
        }
        index += 1;
    }
    let ghost written = texts_view(done@);
    let ghost current = text@.subrange(start as int, n as int);
    proof {
        assert(text@.skip(n as int) =~= Seq::empty());
    }
    if start < n {
        done.push(text.substring_char(start, n).to_owned());
        assert(texts_view(done@) =~= written + seq![current]);
    } else {
        assert(current =~= Seq::empty());
        assert(written + Seq::<Seq<char>>::empty() =~= written);
    }
    done
}

/// A line is blank where it holds nothing but white space; the empty line is.
pub open spec fn is_blank(line: Seq<char>) -> bool {
    forall|i: int| 0 <= i < line.len() ==> is_whitespace(#[trigger] line[i])
}

/// Whether a line is blank.
pub fn blank(line: &str) -> (r: bool)
    ensures
        r == is_blank(line@),
{
    let mut all = true;
    for c in it: line.chars()
        invariant
            it.seq() == line@,
            all == (forall|k: int| 0 <= k < it.index() ==> is_whitespace(#[trigger] it.seq()[k])),
    {
        if !whitespace(c) {
            all = false;
        }
    }
    all
}

/// Whether the character stands anywhere in the text.
pub fn contains_char(text: &str, c: char) -> (r: bool)
    ensures
        r == text@.contains(c),
{
    let mut found = false;
    for each in it: text.chars()
        invariant
            it.seq() == text@,
            found == (exists|k: int| 0 <= k < it.index() && it.seq()[k] == c),
    {
        if each == c {
            found = true;
        }
    }
    found
}

/// Whether the text begins with the character.
pub fn starts_with_char(text: &str, c: char) -> (r: bool)
    ensures
        r == (text@.len() > 0 && text@[0] == c),
{
    !text.is_empty() && text.get_char(0) == c
}

/// Whether the text begins with the prefix.
pub fn starts_with_text(text: &str, prefix: &str) -> (r: bool)
    ensures
        r == prefix@.is_prefix_of(text@),
{
    let n = prefix.unicode_len();
    if n > text.unicode_len() {
        return false;
    }
    same_text(text.substring_char(0, n), prefix)
}

/// The text without every `suffix` at its end.
pub fn trim_end_matches_text<'a>(text: &'a str, suffix: &str) -> (r: &'a str)
    ensures
        r@ == strip_suffixes(text@, suffix@),
{
    let k = suffix.unicode_len();
    let mut end = text.unicode_len();
    assert(text@.take(end as int) =~= text@);
    if k == 0 {
        assert(text@.subrange(0, end as int) =~= text@);
        return text.substring_char(0, end);
    }
    while end >= k && same_text(text.substring_char(end - k, end), suffix)
        invariant
            end <= text@.len(),
            k == suffix@.len(),
            k > 0,
            strip_suffixes(text@, suffix@) == strip_suffixes(text@.take(end as int), suffix@),
        decreases end,
    {
        proof {
            let now = text@.take(end as int);
            assert(now.subrange(now.len() - suffix@.len(), now.len() as int) =~= text@.subrange(
                end - k,
                end as int,
            ));
            assert(now.take(now.len() - suffix@.len()) =~= text@.take(end - k));
        }
        end -= k;
    }
    proof {
        let now = text@.take(end as int);
        if end >= k {
            assert(now.subrange(now.len() - suffix@.len(), now.len() as int) =~= text@.subrange(
                end - k,
                end as int,
            ));
        }
        assert(text@.take(end as int) =~= text@.subrange(0, end as int));
    }
    text.substring_char(0, end)
}

/// The text before the first `c` and the text after it; `None` where `c` does
/// not occur.
pub fn split_once_char<'a>(text: &'a str, c: char) -> (r: Option<(&'a str, &'a str)>)
    ensures
        match r {
            Some((head, tail)) => splits_at(text@, c, head@, tail@),
            None => !text@.contains(c),
        },
{
    let n = text.unicode_len();
    let mut found: Option<usize> = None;
    let mut index: usize = 0;
    for each in it: text.chars()
        invariant
            it.seq() == text@,
            n == text@.len(),
            index == it.index(),
            match found {
                Some(at) => at < index && text@[at as int] == c && forall|k: int|
                    0 <= k < at ==> text@[k] != c,
                None => forall|k: int| 0 <= k < index ==> text@[k] != c,
            },
    {
        if found.is_none() && each == c {
            found = Some(index);
        }
        index += 1;
    }
    match found {
        Some(at) => {
            let head = text.substring_char(0, at);
            let tail = text.substring_char(at + 1, n);
            proof {
                assert forall|k: int| 0 <= k < head@.len() implies head@[k] != c by {
                    assert(head@[k] == text@[k]);
                }
                assert(text@ =~= head@.push(c) + tail@);
            }
            Some((head, tail))
        },
        None => None,
    }
}

/// Whether two string slices hold the same characters.
pub(crate) fn same_text(a: &str, b: &str) -> (r: bool)
    ensures
        r == (a@ == b@),
{
    *a == *b
}

} // verus!
