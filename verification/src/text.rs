//! Text as sequences of characters.
//!
//! Strings cross the public interface as `&str` and `String`; the logic
//! works on their characters, `Seq<char>` in contracts and `[char]` in
//! code. This module converts between the two and holds what the other
//! modules need of trimming, searching and splitting.

use vstd::prelude::*;

verus! {

/// `String::push` appends one character to the end of the string.
pub assume_specification[ String::push ](s: &mut String, ch: char)
    ensures
        final(s)@ == old(s)@.push(ch),
;

/// What `str::to_lowercase` makes of a string: its lowercase equivalent
/// under the Unicode case mapping, which looks at the characters alone.
pub uninterp spec fn lowercase(s: Seq<char>) -> Seq<char>;

/// Calls `str::to_lowercase`. The result is named, not described: the
/// Unicode tables behind it are not restated here.
#[verifier::external_body]
pub(crate) fn to_lowercase(s: &str) -> (out: String)
    ensures
        out@ == lowercase(s@),
{
    s.to_lowercase()
}

/// The characters of `s`, in order.
pub fn chars_of(s: &str) -> (out: Vec<char>)
    ensures
        out@ == s@,
{
    broadcast use vstd::string::group_string_axioms;

    let mut out: Vec<char> = Vec::new();
    for c in it: s.chars()
        invariant
            it.seq() == s@,
            out@ == s@.take(it.index()),
    {
        out.push(c);
    }
    assert(s@.take(s@.len() as int) == s@);
    out
}

/// The string whose characters are `chars`, in order.
pub fn string_of(chars: &[char]) -> (out: String)
    ensures
        out@ == chars@,
{
    let mut out = String::new();
    let mut i: usize = 0;
    while i < chars.len()
        invariant
            i <= chars.len(),
            out@ == chars@.take(i as int),
        decreases chars.len() - i,
    {
        out.push(chars[i]);
        i += 1;
    }
    assert(chars@.take(chars@.len() as int) == chars@);
    out
}

/// The lowercase characters of `s`.
pub fn lowercase_chars(s: &str) -> (out: Vec<char>)
    ensures
        out@ == lowercase(s@),
{
    let lowered = to_lowercase(s);
    chars_of(lowered.as_str())
}

/// Whether `c` has the Unicode `White_Space` property.
pub open spec fn is_whitespace(c: char) -> bool {
    let n = c as u32;
    ||| 0x09 <= n <= 0x0D
    ||| n == 0x20
    ||| n == 0x85
    ||| n == 0xA0
    ||| n == 0x1680
    ||| 0x2000 <= n <= 0x200A
    ||| n == 0x2028
    ||| n == 0x2029
    ||| n == 0x202F
    ||| n == 0x205F
    ||| n == 0x3000
}

/// Tests a character for the `White_Space` property.
pub fn char_is_whitespace(c: char) -> (b: bool)
    ensures
        b == is_whitespace(c),
{
    let n: u32 = c as u32;
    (0x09 <= n && n <= 0x0D) || n == 0x20 || n == 0x85 || n == 0xA0 || n == 0x1680 || (0x2000 <= n
        && n <= 0x200A) || n == 0x2028 || n == 0x2029 || n == 0x202F || n == 0x205F || n == 0x3000
}

/// Number of whitespace characters at the front of `s`.
pub open spec fn leading_whitespace(s: Seq<char>) -> nat
    decreases s.len(),
{
    if s.len() > 0 && is_whitespace(s[0]) {
        1 + leading_whitespace(s.drop_first())
    } else {
        0
    }
}

/// Number of whitespace characters at the back of `s`.
pub open spec fn trailing_whitespace(s: Seq<char>) -> nat
    decreases s.len(),
{
    if s.len() > 0 && is_whitespace(s.last()) {
        1 + trailing_whitespace(s.drop_last())
    } else {
        0
    }
}

/// `s` without its leading and trailing whitespace.
pub open spec fn trimmed(s: Seq<char>) -> Seq<char> {
    let rest = s.skip(leading_whitespace(s) as int);
    rest.take(rest.len() - trailing_whitespace(rest))
}

/// The leading whitespace of `s` is a run of whitespace that ends at the
/// first other character, or at the end of `s`.
pub proof fn lemma_leading_whitespace(s: Seq<char>)
    ensures
        leading_whitespace(s) <= s.len(),
        forall|i: int| 0 <= i < leading_whitespace(s) ==> is_whitespace(#[trigger] s[i]),
        leading_whitespace(s) < s.len() ==> !is_whitespace(s[leading_whitespace(s) as int]),
    decreases s.len(),
{
    if s.len() > 0 && is_whitespace(s[0]) {
        let rest = s.drop_first();
        lemma_leading_whitespace(rest);
        assert forall|i: int| 0 <= i < leading_whitespace(s) implies is_whitespace(
            #[trigger] s[i],
        ) by {
            if i > 0 {
                assert(s[i] == rest[i - 1]);
            }
        }
        if leading_whitespace(s) < s.len() {
            assert(s[leading_whitespace(s) as int] == rest[leading_whitespace(rest) as int]);
        }
    }
}

/// The trailing whitespace of `s` is a run of whitespace that begins
/// after the last other character, or at the start of `s`.
pub proof fn lemma_trailing_whitespace(s: Seq<char>)
    ensures
        trailing_whitespace(s) <= s.len(),
        forall|i: int|
            s.len() - trailing_whitespace(s) <= i < s.len() ==> is_whitespace(#[trigger] s[i]),
        trailing_whitespace(s) < s.len() ==> !is_whitespace(
            s[s.len() - trailing_whitespace(s) - 1],
        ),
    decreases s.len(),
{
    if s.len() > 0 && is_whitespace(s.last()) {
        let rest = s.drop_last();
        lemma_trailing_whitespace(rest);
        assert forall|i: int| s.len() - trailing_whitespace(s) <= i < s.len() implies is_whitespace(
            #[trigger] s[i],
        ) by {
            if i < s.len() - 1 {
                assert(s[i] == rest[i]);
            }
        }
        if trailing_whitespace(s) < s.len() {
            assert(s[s.len() - trailing_whitespace(s) - 1] == rest[rest.len() - trailing_whitespace(
                rest,
            ) - 1]);
        }
    }
}

/// A run of whitespace at the front of `s` that stops at another
/// character, or at the end, is the leading whitespace of `s`.
pub proof fn lemma_leading_whitespace_is(s: Seq<char>, n: int)
    requires
        0 <= n <= s.len(),
        forall|i: int| 0 <= i < n ==> is_whitespace(#[trigger] s[i]),
        n < s.len() ==> !is_whitespace(s[n]),
    ensures
        leading_whitespace(s) == n,
{
    lemma_leading_whitespace(s);
    let m = leading_whitespace(s) as int;
    if m < n {
        assert(is_whitespace(s[m]));
    } else if n < m {
        assert(is_whitespace(s[n]));
    }
}

/// A run of whitespace at the back of `s` that begins after another
/// character, or at the start, is the trailing whitespace of `s`.
pub proof fn lemma_trailing_whitespace_is(s: Seq<char>, n: int)
    requires
        0 <= n <= s.len(),
        forall|i: int| s.len() - n <= i < s.len() ==> is_whitespace(#[trigger] s[i]),
        n < s.len() ==> !is_whitespace(s[s.len() - n - 1]),
    ensures
        trailing_whitespace(s) == n,
{
    lemma_trailing_whitespace(s);
    let m = trailing_whitespace(s) as int;
    if m < n {
        assert(is_whitespace(s[s.len() - m - 1]));
    } else if n < m {
        assert(is_whitespace(s[s.len() - n - 1]));
    }
}

/// Trimming a text that begins with `head` and goes on with `tail`,
/// neither of which starts with whitespace, only shortens `tail`.
pub proof fn lemma_trimmed_concat(head: Seq<char>, tail: Seq<char>)
    requires
        head.len() > 0,
        !is_whitespace(head[0]),
        tail.len() > 0,
        !is_whitespace(tail[0]),
    ensures
        trailing_whitespace(tail) < tail.len(),
        trimmed(head + tail) == head + tail.take(tail.len() - trailing_whitespace(tail)),
{
    let whole = head + tail;
    let n = trailing_whitespace(tail) as int;
    lemma_trailing_whitespace(tail);
    if n == tail.len() {
        assert(is_whitespace(tail[0]));
    }
    lemma_leading_whitespace_is(whole, 0);
    assert(whole.skip(0) == whole);
    assert forall|i: int| whole.len() - n <= i < whole.len() implies is_whitespace(
        #[trigger] whole[i],
    ) by {
        assert(whole[i] == tail[i - head.len()]);
    }
    assert(whole[whole.len() - n - 1] == tail[tail.len() - n - 1]);
    lemma_trailing_whitespace_is(whole, n);
    assert(whole.take(whole.len() - n) =~= head + tail.take(tail.len() - n));
}

/// Strips leading and trailing whitespace.
pub fn trim_chars(s: &[char]) -> (out: Vec<char>)
    ensures
        out@ == trimmed(s@),
{
    let mut start: usize = 0;
    while start < s.len() && char_is_whitespace(s[start])
        invariant
            start <= s.len(),
            forall|i: int| 0 <= i < start ==> is_whitespace(#[trigger] s@[i]),
        decreases s.len() - start,
    {
        start += 1;
    }
    proof {
        lemma_leading_whitespace_is(s@, start as int);
    }
    let ghost rest = s@.skip(start as int);
    let mut end: usize = s.len();
    while end > start && char_is_whitespace(s[end - 1])
        invariant
            start <= end <= s.len(),
            forall|i: int| end <= i < s.len() ==> is_whitespace(#[trigger] s@[i]),
        decreases end,
    {
        end -= 1;
    }
    proof {
        assert forall|i: int| rest.len() - (s.len() - end) <= i < rest.len() implies is_whitespace(
            #[trigger] rest[i],
        ) by {
            assert(rest[i] == s@[i + start]);
        }
        if end > start {
            assert(rest[end - start - 1] == s@[end - 1]);
        }
        lemma_trailing_whitespace_is(rest, (s.len() - end) as int);
    }
    let out = copy_range(s, start, end);
    assert(out@ == rest.take(rest.len() - (s.len() - end)));
    out
}

/// The first index at or after `from` at which `hay` holds `ch`.
pub open spec fn first_index_of(hay: Seq<char>, ch: char, from: int) -> Option<int>
    decreases hay.len() - from,
{
    if from < 0 || from >= hay.len() {
        None
    } else if hay[from] == ch {
        Some(from)
    } else {
        first_index_of(hay, ch, from + 1)
    }
}

/// `first_index_of` finds the least index that holds the character.
pub proof fn lemma_first_index_of(hay: Seq<char>, ch: char, from: int)
    requires
        0 <= from,
    ensures
        match first_index_of(hay, ch, from) {
            Some(at) => from <= at < hay.len() && hay[at] == ch && forall|j: int|
                from <= j < at ==> hay[j] != ch,
            None => forall|j: int| from <= j < hay.len() ==> hay[j] != ch,
        },
    decreases hay.len() - from,
{
    if from < hay.len() && hay[from] != ch {
        lemma_first_index_of(hay, ch, from + 1);
    }
}

/// Finds the first index at or after `from` that holds `ch`.
pub fn find_char(hay: &[char], ch: char, from: usize) -> (found: Option<usize>)
    ensures
        match found {
            Some(at) => first_index_of(hay@, ch, from as int) == Some(at as int) && from <= at
                < hay.len(),
            None => first_index_of(hay@, ch, from as int) is None,
        },
{
    if from > hay.len() {
        return None;
    }
    let mut at: usize = from;
    while at < hay.len()
        invariant
            from <= at <= hay.len(),
            first_index_of(hay@, ch, from as int) == first_index_of(hay@, ch, at as int),
        decreases hay.len() - at,
    {
        if hay[at] == ch {
            return Some(at);
        }
        at += 1;
    }
    None
}

/// Whether `text` begins with `prefix`.
pub fn starts_with(text: &[char], prefix: &[char]) -> (b: bool)
    ensures
        b == prefix@.is_prefix_of(text@),
{
    if prefix.len() > text.len() {
        return false;
    }
    let mut i: usize = 0;
    while i < prefix.len()
        invariant
            i <= prefix.len() <= text.len(),
            forall|j: int| 0 <= j < i ==> text@[j] == prefix@[j],
        decreases prefix.len() - i,
    {
        if text[i] != prefix[i] {
            assert(text@.subrange(0, prefix@.len() as int)[i as int] != prefix@[i as int]);
            return false;
        }
        i += 1;
    }
    assert(prefix@ =~= text@.subrange(0, prefix@.len() as int));
    true
}

/// Whether the first `len` characters of `text` end with `suffix`.
fn ends_with_at(text: &[char], len: usize, suffix: &[char]) -> (b: bool)
    requires
        len <= text.len(),
    ensures
        b == suffix@.is_suffix_of(text@.take(len as int)),
{
    let ghost head = text@.take(len as int);
    if suffix.len() > len {
        return false;
    }
    let start: usize = len - suffix.len();
    let mut i: usize = 0;
    while i < suffix.len()
        invariant
            i <= suffix.len(),
            start + suffix.len() == len,
            len <= text.len(),
            head == text@.take(len as int),
            forall|j: int| 0 <= j < i ==> text@[start + j] == suffix@[j],
        decreases suffix.len() - i,
    {
        if text[start + i] != suffix[i] {
            assert(head[start + i] == text@[start + i]);
            assert(head.subrange(head.len() - suffix@.len(), head.len() as int)[i as int]
                == head[start + i]);
            return false;
        }
        i += 1;
    }
    assert forall|j: int| 0 <= j < suffix@.len() implies suffix@[j] == head.subrange(
        head.len() - suffix@.len(),
        head.len() as int,
    )[j] by {
        assert(head[start + j] == text@[start + j]);
    }
    assert(suffix@ =~= head.subrange(head.len() - suffix@.len(), head.len() as int));
    true
}

/// `text` with every copy of `suffix` at its end taken off.
pub open spec fn without_suffixes(text: Seq<char>, suffix: Seq<char>) -> Seq<char>
    decreases text.len(),
{
    if suffix.len() > 0 && suffix.is_suffix_of(text) {
        without_suffixes(text.take(text.len() - suffix.len()), suffix)
    } else {
        text
    }
}

/// `text` without the copies of `c` at its front.
pub open spec fn without_leading(text: Seq<char>, c: char) -> Seq<char>
    decreases text.len(),
{
    if text.len() > 0 && text[0] == c {
        without_leading(text.drop_first(), c)
    } else {
        text
    }
}

/// `text` without the copies of `c` at its end.
pub open spec fn without_trailing(text: Seq<char>, c: char) -> Seq<char>
    decreases text.len(),
{
    if text.len() > 0 && text.last() == c {
        without_trailing(text.drop_last(), c)
    } else {
        text
    }
}

/// The two parts of `text` around its first `separator`.
pub open spec fn split_at_first(text: Seq<char>, separator: char) -> Option<
    (Seq<char>, Seq<char>),
> {
    match first_index_of(text, separator, 0) {
        Some(at) => Some((text.take(at), text.skip(at + 1))),
        None => None,
    }
}

/// Takes every copy of `suffix` off the end of `text`.
pub fn strip_suffixes(text: &[char], suffix: &[char]) -> (out: Vec<char>)
    ensures
        out@ == without_suffixes(text@, suffix@),
{
    let mut len: usize = text.len();
    assert(text@.take(len as int) == text@);
    if suffix.len() > 0 {
        while ends_with_at(text, len, suffix)
            invariant
                len <= text.len(),
                suffix.len() > 0,
                without_suffixes(text@.take(len as int), suffix@) == without_suffixes(
                    text@,
                    suffix@,
                ),
            decreases len,
        {
            assert(text@.take(len as int).take(len - suffix.len()) == text@.take(
                len - suffix.len(),
            ));
            len -= suffix.len();
        }
    }
    assert(text@.subrange(0, len as int) == text@.take(len as int));
    copy_range(text, 0, len)
}

/// Takes the copies of `c` off both ends of `text`.
pub fn strip_both(text: &[char], c: char) -> (out: Vec<char>)
    ensures
        out@ == without_trailing(without_leading(text@, c), c),
{
    let mut start: usize = 0;
    assert(text@.skip(0) == text@);
    while start < text.len() && text[start] == c
        invariant
            start <= text.len(),
            without_leading(text@.skip(start as int), c) == without_leading(text@, c),
        decreases text.len() - start,
    {
        assert(text@.skip(start as int).drop_first() == text@.skip(start + 1));
        start += 1;
    }
    let ghost rest = text@.skip(start as int);
    assert(without_leading(text@, c) == rest);
    let mut end: usize = text.len();
    assert(text@.subrange(start as int, end as int) == rest);
    while end > start && text[end - 1] == c
        invariant
            start <= end <= text.len(),
            without_trailing(text@.subrange(start as int, end as int), c) == without_trailing(
                rest,
                c,
            ),
        decreases end,
    {
        assert(text@.subrange(start as int, end as int).drop_last() == text@.subrange(
            start as int,
            end - 1,
        ));
        end -= 1;
    }
    copy_range(text, start, end)
}

/// Splits `text` around its first `separator`.
pub fn split_once(text: &[char], separator: char) -> (out: Option<(Vec<char>, Vec<char>)>)
    ensures
        match out {
            Some((before, after)) => split_at_first(text@, separator) == Some((before@, after@)),
            None => split_at_first(text@, separator) is None,
        },
{
    match find_char(text, separator, 0) {
        Some(at) => {
            let before = copy_range(text, 0, at);
            let after = copy_range(text, at + 1, text.len());
            assert(text@.subrange(0, at as int) == text@.take(at as int));
            assert(text@.subrange(at + 1, text@.len() as int) == text@.skip(at + 1));
            Some((before, after))
        },
        None => None,
    }
}

/// Appends the characters of `text` to `out`.
pub fn push_str(out: &mut Vec<char>, text: &str)
    ensures
        final(out)@ == old(out)@ + text@,
{
    let chars = chars_of(text);
    push_chars(out, chars.as_slice());
}

/// Appends `items` to `out`.
pub fn push_chars(out: &mut Vec<char>, items: &[char])
    ensures
        final(out)@ == old(out)@ + items@,
{
    let mut i: usize = 0;
    while i < items.len()
        invariant
            i <= items.len(),
            out@ == old(out)@ + items@.take(i as int),
        decreases items.len() - i,
    {
        out.push(items[i]);
        assert(items@.take(i + 1) == items@.take(i as int).push(items@[i as int]));
        i += 1;
    }
    assert(items@.take(items@.len() as int) == items@);
}

/// Trims a string.
pub fn trim(text: &str) -> (out: String)
    ensures
        out@ == trimmed(text@),
{
    let chars = chars_of(text);
    let kept = trim_chars(chars.as_slice());
    string_of(kept.as_slice())
}

/// Whether two strings hold the same characters.
pub fn chars_equal(a: &[char], b: &[char]) -> (same: bool)
    ensures
        same == (a@ == b@),
{
    if a.len() != b.len() {
        return false;
    }
    let mut i: usize = 0;
    while i < a.len()
        invariant
            i <= a.len(),
            a.len() == b.len(),
            forall|j: int| 0 <= j < i ==> a@[j] == b@[j],
        decreases a.len() - i,
    {
        if a[i] != b[i] {
            return false;
        }
        i += 1;
    }
    assert(a@ =~= b@);
    true
}

/// Copies the characters of `text` from index `from` up to `to`.
pub(crate) fn copy_range(text: &[char], from: usize, to: usize) -> (out: Vec<char>)
    requires
        from <= to <= text.len(),
    ensures
        out@ == text@.subrange(from as int, to as int),
{
    let mut out: Vec<char> = Vec::new();
    let mut i: usize = from;
    while i < to
        invariant
            from <= i <= to <= text.len(),
            out@ == text@.subrange(from as int, i as int),
        decreases to - i,
    {
        out.push(text[i]);
        i += 1;
    }
    out
}

/// Whether two strings hold the same text.
pub fn same_text(a: &str, b: &str) -> (same: bool)
    ensures
        same == (a@ == b@),
{
    let x = chars_of(a);
    let y = chars_of(b);
    chars_equal(x.as_slice(), y.as_slice())
}

/// Whether a string is empty or all whitespace.
pub fn is_blank(text: &str) -> (blank: bool)
    ensures
        blank == (trimmed(text@).len() == 0),
{
    let chars = chars_of(text);
    let kept = trim_chars(chars.as_slice());
    kept.len() == 0
}

/// What an optional text holds once surrounding whitespace is set
/// aside; `None` if nothing is left.
pub open spec fn nonblank(value: Option<Seq<char>>) -> Option<Seq<char>> {
    match value {
        Some(text) => if trimmed(text).len() > 0 {
            Some(trimmed(text))
        } else {
            None
        },
        None => None,
    }
}

/// What an optional string holds.
pub open spec fn text_of(path: Option<&str>) -> Option<Seq<char>> {
    match path {
        Some(text) => Some(text@),
        None => None,
    }
}

/// The set of texts that a list of strings holds.
pub open spec fn text_set(list: Seq<String>) -> Set<Seq<char>> {
    Set::new(|text: Seq<char>| exists|i: int| 0 <= i < list.len() && #[trigger] list[i]@ == text)
}

/// The texts of a list of strings, in order.
pub open spec fn texts(list: Seq<String>) -> Seq<Seq<char>> {
    Seq::new(list.len(), |i: int| list[i]@)
}

/// Whether `list` holds `text`.
pub fn holds_text(list: &Vec<String>, text: &String) -> (found: bool)
    ensures
        found == text_set(list@).contains(text@),
{
    let mut i: usize = 0;
    while i < list.len()
        invariant
            i <= list.len(),
            forall|j: int| 0 <= j < i ==> list@[j]@ != text@,
        decreases list.len() - i,
    {
        if list[i] == *text {
            return true;
        }
        i += 1;
    }
    false
}

} // verus!
