//! Character-level helpers shared by the gatherers and the renderer.
//!
//! Text is handled as sequences of characters: every function states its
//! result over `Seq<char>`, the view of `str`, `String` and `Vec<char>`.

use vstd::prelude::*;

verus! {

/// `String::push` appends exactly one character to the end of the string.
pub assume_specification[ String::push ](s: &mut String, c: char)
    ensures
        final(s)@ == old(s)@.push(c),
;

/// Whether `c` has the Unicode property `White_Space`.
pub open spec fn is_whitespace(c: char) -> bool {
    let n: u32 = c as u32;
    ||| 0x09 <= n <= 0x0D
    ||| n == 0x20
    ||| n == 0x85
    ||| n == 0xA0
    ||| n == 0x1680
    ||| 0x2000 <= n <= 0x200A
    ||| n == 0x2028
    ||| n == 0x2029
    ||| n == 0x202F
    ||| n == 0x205F
    ||| n == 0x3000
}

/// `text` without its trailing whitespace.
pub open spec fn trimmed_end(text: Seq<char>) -> Seq<char>
    decreases text.len(),
{
    if text.len() > 0 && is_whitespace(text.last()) {
        trimmed_end(text.drop_last())
    } else {
        text
    }
}

/// `text` without any trailing occurrence of `c`.
pub open spec fn without_trailing(text: Seq<char>, c: char) -> Seq<char>
    decreases text.len(),
{
    if text.len() > 0 && text.last() == c {
        without_trailing(text.drop_last(), c)
    } else {
        text
    }
}

/// Whether `text` begins with `prefix`.
pub open spec fn starts_with(text: Seq<char>, prefix: Seq<char>) -> bool {
    prefix.len() <= text.len() && text.take(prefix.len() as int) == prefix
}

/// `text` after `prefix` has been taken from its start as often as it
/// stands there. An empty `prefix` takes nothing.
pub open spec fn without_leading(text: Seq<char>, prefix: Seq<char>) -> Seq<char>
    decreases text.len(),
{
    if prefix.len() > 0 && starts_with(text, prefix) {
        without_leading(text.skip(prefix.len() as int), prefix)
    } else {
        text
    }
}

/// `text` with every occurrence of `from` replaced by `to`. Occurrences are
/// found from left to right and do not overlap; what `to` brings in is not
/// searched again. An empty `from` occurs nowhere.
pub open spec fn replaced(text: Seq<char>, from: Seq<char>, to: Seq<char>) -> Seq<char>
    decreases text.len(),
{
    if from.len() == 0 || text.len() < from.len() {
        text
    } else if starts_with(text, from) {
        to + replaced(text.skip(from.len() as int), from, to)
    } else {
        seq![text[0]] + replaced(text.skip(1), from, to)
    }
}

/// `count` copies of `c`.
pub open spec fn repeated(c: char, count: nat) -> Seq<char> {
    Seq::new(count, |i: int| c)
}

/// The view of an optional text.
pub open spec fn optional_text(text: Option<&str>) -> Option<Seq<char>> {
    match text {
        Some(t) => Some(t@),
        None => None,
    }
}

/// The characters of `s`, in order.
pub fn chars_of(s: &str) -> (out: Vec<char>)
    ensures
        out@ == s@,
{
    let mut out: Vec<char> = Vec::new();
    for c in it: s.chars()
        invariant
            out@ == it.seq().take(it.index() as int),
            it.seq() == s@,
    {
        out.push(c);
    }
    out
}

/// The string made of the characters of `chars`, in order.
pub fn text_of(chars: &Vec<char>) -> (out: String)
    ensures
        out@ == chars@,
{
    let mut out = String::new();
    let mut i: usize = 0;
    while i < chars.len()
        invariant
            i <= chars.len(),
            out@ == chars@.take(i as int),
        decreases chars.len() - i,
    {
        out.push(chars[i]);
        i += 1;
    }
    out
}

/// Appends the characters of `more` to `out`.
pub fn push_all(out: &mut Vec<char>, more: &Vec<char>)
    ensures
        final(out)@ == old(out)@ + more@,
{
    let mut i: usize = 0;
    while i < more.len()
        invariant
            i <= more.len(),
            out@ == old(out)@ + more@.take(i as int),
        decreases more.len() - i,
    {
        out.push(more[i]);
        i += 1;
    }
}

/// Appends the characters of `more` to `out`.
pub fn push_str(out: &mut Vec<char>, more: &str)
    ensures
        final(out)@ == old(out)@ + more@,
{
    let chars = chars_of(more);
    push_all(out, &chars);
}

/// Appends `count` copies of `c` to `out`.
pub fn push_repeated(out: &mut Vec<char>, c: char, count: usize)
    ensures
        final(out)@ == old(out)@ + repeated(c, count as nat),
{
    let mut i: usize = 0;
    while i < count
        invariant
            i <= count,
            out@ == old(out)@ + repeated(c, i as nat),
        decreases count - i,
    {
        out.push(c);
        i += 1;
    }
}

/// The first `len` characters of `text`.
fn prefix_of(text: &Vec<char>, len: usize) -> (out: Vec<char>)
    requires
        len <= text.len(),
    ensures
        out@ == text@.take(len as int),
{
    let mut out: Vec<char> = Vec::new();
    let mut i: usize = 0;
    while i < len
        invariant
            i <= len <= text.len(),
            out@ == text@.take(i as int),
        decreases len - i,
    {
        out.push(text[i]);
        i += 1;
    }
    out
}

/// What is left of `text` after its first `start` characters.
fn suffix_of(text: &Vec<char>, start: usize) -> (out: Vec<char>)
    requires
        start <= text.len(),
    ensures
        out@ == text@.skip(start as int),
{
    let mut out: Vec<char> = Vec::new();
    let mut i: usize = start;
    while i < text.len()
        invariant
            start <= i <= text.len(),
            out@ == text@.subrange(start as int, i as int),
        decreases text.len() - i,
    {
        out.push(text[i]);
        i += 1;
    }
    out
}

/// Tells whether `c` is whitespace.
pub fn is_space(c: char) -> (b: bool)
    ensures
        b == is_whitespace(c),
{
    let n: u32 = c as u32;
    (0x09 <= n && n <= 0x0D) || n == 0x20 || n == 0x85 || n == 0xA0 || n == 0x1680 || (0x2000 <= n
        && n <= 0x200A) || n == 0x2028 || n == 0x2029 || n == 0x202F || n == 0x205F || n == 0x3000
}

/// Removes trailing whitespace.
pub fn trim_end(text: &Vec<char>) -> (out: Vec<char>)
    ensures
        out@ == trimmed_end(text@),
{
    let mut end: usize = text.len();
    assert(text@.take(end as int) == text@);
    while end > 0 && is_space(text[end - 1])
        invariant
            end <= text.len(),
            trimmed_end(text@) == trimmed_end(text@.take(end as int)),
        decreases end,
    {
        assert(text@.take(end as int).drop_last() == text@.take(end - 1));
        end -= 1;
    }
    prefix_of(text, end)
}

/// Removes every trailing `c`.
pub fn trim_trailing(text: &Vec<char>, c: char) -> (out: Vec<char>)
    ensures
        out@ == without_trailing(text@, c),
{
    let mut end: usize = text.len();
    assert(text@.take(end as int) == text@);
    while end > 0 && text[end - 1] == c
        invariant
            end <= text.len(),
            without_trailing(text@, c) == without_trailing(text@.take(end as int), c),
        decreases end,
    {
        assert(text@.take(end as int).drop_last() == text@.take(end - 1));
        end -= 1;
    }
    prefix_of(text, end)
}

/// Tells whether `pattern` stands in `text` at position `at`.
fn occurs_at(text: &Vec<char>, at: usize, pattern: &Vec<char>) -> (b: bool)
    requires
        at <= text.len(),
    ensures
        b == starts_with(text@.skip(at as int), pattern@),
{
    if pattern.len() > text.len() - at {
        return false;
    }
    let mut i: usize = 0;
    while i < pattern.len()
        invariant
            at <= text.len(),
            pattern.len() <= text.len() - at,
            i <= pattern.len(),
            text@.skip(at as int).take(i as int) == pattern@.take(i as int),
        decreases pattern.len() - i,
    {
        if text[at + i] != pattern[i] {
            assert(text@.skip(at as int).take(pattern.len() as int)[i as int] != pattern@[i as int]);
            return false;
        }
        assert(text@.skip(at as int).take(i + 1) == text@.skip(at as int).take(i as int).push(
            text@[at + i],
        ));
        assert(pattern@.take(i + 1) == pattern@.take(i as int).push(pattern@[i as int]));
        i += 1;
    }
    assert(pattern@.take(pattern.len() as int) == pattern@);
    true
}

/// Removes `prefix` from the start of `text` as often as it stands there.
pub fn strip_leading(text: &Vec<char>, prefix: &Vec<char>) -> (out: Vec<char>)
    ensures
        out@ == without_leading(text@, prefix@),
{
    if prefix.len() == 0 {
        return suffix_of(text, 0);
    }
    let mut start: usize = 0;
    assert(text@.skip(0) == text@);
    while occurs_at(text, start, prefix)
        invariant
            start <= text.len(),
            prefix.len() > 0,
            without_leading(text@, prefix@) == without_leading(text@.skip(start as int), prefix@),
        decreases text.len() - start,
    {
        assert(text@.skip(start as int).skip(prefix.len() as int) == text@.skip(
            start + prefix.len(),
        ));
        start += prefix.len();
    }
    suffix_of(text, start)
}

/// Replaces every occurrence of `from` in `text` by `to`.
pub fn replace_all(text: &Vec<char>, from: &Vec<char>, to: &Vec<char>) -> (out: Vec<char>)
    ensures
        out@ == replaced(text@, from@, to@),
{
    if from.len() == 0 {
        return suffix_of(text, 0);
    }
    let mut out: Vec<char> = Vec::new();
    let mut i: usize = 0;
    assert(text@.skip(0) == text@);
    assert(Seq::<char>::empty() + replaced(text@, from@, to@) == replaced(text@, from@, to@));
    while i < text.len()
        invariant
            i <= text.len(),
            from.len() > 0,
            out@ + replaced(text@.skip(i as int), from@, to@) == replaced(text@, from@, to@),
        decreases text.len() - i,
    {
        let ghost rest = text@.skip(i as int);
        if occurs_at(text, i, from) {
            assert(rest.skip(from.len() as int) == text@.skip(i + from.len()));
            assert(out@ + (to@ + replaced(rest.skip(from.len() as int), from@, to@)) == (out@
                + to@) + replaced(rest.skip(from.len() as int), from@, to@));
            push_all(&mut out, to);
            i += from.len();
        } else {
            assert(rest.skip(1) == text@.skip(i + 1));
            proof {
                if rest.len() < from@.len() {
                    lemma_replaced_short(rest, from@, to@);
                }
            }
            assert(out@ + (seq![rest[0]] + replaced(rest.skip(1), from@, to@)) == out@.push(
                text@[i as int],
            ) + replaced(rest.skip(1), from@, to@));
            out.push(text[i]);
            i += 1;
        }
    }
    assert(text@.skip(text.len() as int) == Seq::<char>::empty());
    assert(out@ + Seq::<char>::empty() == out@);
    out
}

/// What trimming takes away: `trimmed_end(text)` is the start of `text`,
/// everything behind it is whitespace, and it does not end in whitespace
/// itself.
pub proof fn lemma_trimmed_end(text: Seq<char>)
    ensures
        trimmed_end(text).len() <= text.len(),
        trimmed_end(text) == text.take(trimmed_end(text).len() as int),
        forall|i: int| trimmed_end(text).len() <= i < text.len() ==> is_whitespace(text[i]),
        trimmed_end(text).len() > 0 ==> !is_whitespace(trimmed_end(text).last()),
    decreases text.len(),
{
    if text.len() > 0 && is_whitespace(text.last()) {
        lemma_trimmed_end(text.drop_last());
        let kept = trimmed_end(text);
        assert(text.drop_last().take(kept.len() as int) =~= text.take(kept.len() as int));
    } else {
        assert(text.take(text.len() as int) =~= text);
    }
}

/// What is taken from the end: `without_trailing(text, c)` is the start of
/// `text`, everything behind it is `c`, and it does not end in `c` itself.
pub proof fn lemma_without_trailing(text: Seq<char>, c: char)
    ensures
        without_trailing(text, c).len() <= text.len(),
        without_trailing(text, c) == text.take(without_trailing(text, c).len() as int),
        forall|i: int| without_trailing(text, c).len() <= i < text.len() ==> text[i] == c,
        without_trailing(text, c).len() > 0 ==> without_trailing(text, c).last() != c,
    decreases text.len(),
{
    if text.len() > 0 && text.last() == c {
        lemma_without_trailing(text.drop_last(), c);
        let kept = without_trailing(text, c);
        assert(text.drop_last().take(kept.len() as int) =~= text.take(kept.len() as int));
    } else {
        assert(text.take(text.len() as int) =~= text);
    }
}

/// A text shorter than `from` holds no occurrence of it: replacing leaves it
/// as it is, also when read one character at a time.
proof fn lemma_replaced_short(text: Seq<char>, from: Seq<char>, to: Seq<char>)
    requires
        0 < text.len() < from.len(),
    ensures
        replaced(text, from, to) == seq![text[0]] + replaced(text.skip(1), from, to),
{
    assert(replaced(text.skip(1), from, to) == text.skip(1));
    assert(seq![text[0]] + text.skip(1) == text);
}

} // verus!
