//! Paths as text.
//!
//! A path is a string whose components are separated by `/`. It is
//! absolute when it begins with `/`. Nothing here touches the filesystem:
//! these functions only take paths apart and put them together. The
//! names `.` and `..` are names like any other here; what they lead to
//! is for the filesystem to say, when it canonicalizes a path.

use vstd::prelude::*;
use crate::text::{chars_equal, chars_of, copy_range, push_chars, string_of};

verus! {

/// The component separator.
pub open spec fn is_separator(c: char) -> bool {
    c == '/'
}

/// Whether `path` begins at the filesystem root.
pub open spec fn is_absolute(path: Seq<char>) -> bool {
    path.len() > 0 && is_separator(path[0])
}

/// `path` with every backslash replaced by a forward slash.
pub open spec fn normalized(path: Seq<char>) -> Seq<char> {
    Seq::new(
        path.len(),
        |i: int|
            if path[i] == '\\' {
                '/'
            } else {
                path[i]
            },
    )
}

/// `rest` resolved against `base`: an absolute `rest` stands for itself,
/// any other is appended to `base` after exactly one separator.
pub open spec fn joined(base: Seq<char>, rest: Seq<char>) -> Seq<char> {
    if is_absolute(rest) || base.len() == 0 {
        rest
    } else if is_separator(base.last()) {
        base + rest
    } else {
        base + seq!['/'] + rest
    }
}

/// The first index at or after `from` that holds a separator, or the
/// length of `path` if there is none.
pub open spec fn name_end(path: Seq<char>, from: int) -> int
    decreases path.len() - from,
{
    if 0 <= from < path.len() && !is_separator(path[from]) {
        name_end(path, from + 1)
    } else {
        from
    }
}

/// The user that a leading tilde names: the text between the tilde and
/// the first separator, empty for the current user. `None` if `path`
/// does not begin with a tilde.
pub open spec fn tilde_user(path: Seq<char>) -> Option<Seq<char>> {
    if path.len() > 0 && path[0] == '~' {
        Some(path.subrange(1, name_end(path, 1)))
    } else {
        None
    }
}

/// `path` with a leading `~` or `~user` replaced by `home`.
pub open spec fn tilde_expanded(path: Seq<char>, home: Seq<char>) -> Seq<char> {
    if path.len() > 0 && path[0] == '~' {
        home + path.skip(name_end(path, 1))
    } else {
        path
    }
}

/// `name_end` stops at the first separator at or after `from`.
pub proof fn lemma_name_end(path: Seq<char>, from: int)
    requires
        0 <= from <= path.len(),
    ensures
        from <= name_end(path, from) <= path.len(),
        forall|i: int| from <= i < name_end(path, from) ==> !is_separator(#[trigger] path[i]),
        name_end(path, from) < path.len() ==> is_separator(path[name_end(path, from)]),
    decreases path.len() - from,
{
    if from < path.len() && !is_separator(path[from]) {
        lemma_name_end(path, from + 1);
    }
}

/// Tests a path for being absolute.
pub fn path_is_absolute(path: &[char]) -> (b: bool)
    ensures
        b == is_absolute(path@),
{
    path.len() > 0 && path[0] == '/'
}

/// Replaces every backslash in `path` by a forward slash.
pub fn normalize_chars(path: &[char]) -> (out: Vec<char>)
    ensures
        out@ == normalized(path@),
{
    let mut out: Vec<char> = Vec::new();
    let mut i: usize = 0;
    while i < path.len()
        invariant
            i <= path.len(),
            out@ == normalized(path@).take(i as int),
        decreases path.len() - i,
    {
        let c = path[i];
        out.push(
            if c == '\\' {
                '/'
            } else {
                c
            },
        );
        i += 1;
    }
    assert(normalized(path@).take(path@.len() as int) == normalized(path@));
    out
}

/// Renders a path with forward slashes only.
pub fn normalize_path(path: &str) -> (out: String)
    ensures
        out@ == normalized(path@),
{
    let chars = chars_of(path);
    let replaced = normalize_chars(chars.as_slice());
    string_of(replaced.as_slice())
}

/// Resolves `rest` against `base`.
pub fn join_chars(base: &[char], rest: &[char]) -> (out: Vec<char>)
    ensures
        out@ == joined(base@, rest@),
{
    let mut out: Vec<char> = Vec::new();
    if !(path_is_absolute(rest) || base.len() == 0) {
        push_chars(&mut out, base);
        if base[base.len() - 1] != '/' {
            out.push('/');
        }
    }
    push_chars(&mut out, rest);
    out
}

/// Resolves `rest` against `base`.
pub fn join_path(base: &str, rest: &str) -> (out: String)
    ensures
        out@ == joined(base@, rest@),
{
    let b = chars_of(base);
    let r = chars_of(rest);
    let out = join_chars(b.as_slice(), r.as_slice());
    string_of(out.as_slice())
}

/// Finds the end of the name that begins at `from`.
fn find_name_end(path: &[char], from: usize) -> (end: usize)
    requires
        from <= path.len(),
    ensures
        end == name_end(path@, from as int),
        from <= end <= path.len(),
{
    let mut end: usize = from;
    while end < path.len() && path[end] != '/'
        invariant
            from <= end <= path.len(),
            name_end(path@, from as int) == name_end(path@, end as int),
        decreases path.len() - end,
    {
        end += 1;
    }
    end
}

/// The user whose home directory a leading tilde in `path` asks for:
/// `Some("")` for the current user, `None` if there is no leading tilde.
pub fn tilde_user_name(path: &str) -> (user: Option<String>)
    ensures
        match user {
            Some(name) => tilde_user(path@) == Some(name@),
            None => tilde_user(path@) is None,
        },
{
    let chars = chars_of(path);
    if chars.len() > 0 && chars[0] == '~' {
        let end = find_name_end(chars.as_slice(), 1);
        let name = copy_range(chars.as_slice(), 1, end);
        Some(string_of(name.as_slice()))
    } else {
        None
    }
}

/// Replaces a leading `~` or `~user` by `home`.
pub fn expand_tilde_chars(path: &[char], home: &[char]) -> (out: Vec<char>)
    ensures
        out@ == tilde_expanded(path@, home@),
{
    let mut out: Vec<char> = Vec::new();
    if path.len() > 0 && path[0] == '~' {
        let end = find_name_end(path, 1);
        let tail = copy_range(path, end, path.len());
        assert(path@.subrange(end as int, path@.len() as int) == path@.skip(end as int));
        push_chars(&mut out, home);
        push_chars(&mut out, tail.as_slice());
    } else {
        push_chars(&mut out, path);
    }
    out
}

/// Replaces a leading `~` or `~user` in `path` by `home`, which is the
/// home directory of the user that `tilde_user_name` gives for `path`.
pub fn expand_tilde_path(path: &str, home: &str) -> (out: String)
    ensures
        out@ == tilde_expanded(path@, home@),
{
    let p = chars_of(path);
    let h = chars_of(home);
    let out = expand_tilde_chars(p.as_slice(), h.as_slice());
    string_of(out.as_slice())
}

/// The components of `path` from index `from` on: the maximal runs of
/// characters other than the separator, in order.
pub open spec fn components_from(path: Seq<char>, from: int) -> Seq<Seq<char>>
    decreases path.len() - from,
{
    if from < 0 || from >= path.len() {
        Seq::empty()
    } else if is_separator(path[from]) {
        components_from(path, from + 1)
    } else {
        let end = name_end(path, from);
        if from < end <= path.len() {
            seq![path.subrange(from, end)] + components_from(path, end)
        } else {
            Seq::empty()
        }
    }
}

/// The components of `path`.
pub open spec fn components(path: Seq<char>) -> Seq<Seq<char>> {
    components_from(path, 0)
}

/// Whether `path` is `root` or lies below it: both begin at the same
/// place, and the components of `root` are the first components of `path`.
pub open spec fn is_within(path: Seq<char>, root: Seq<char>) -> bool {
    &&& is_absolute(path) == is_absolute(root)
    &&& components(root).is_prefix_of(components(path))
}

/// `parts` written one after another with a separator between them.
pub open spec fn joined_names(parts: Seq<Seq<char>>) -> Seq<char>
    decreases parts.len(),
{
    if parts.len() == 0 {
        Seq::empty()
    } else if parts.len() == 1 {
        parts[0]
    } else {
        joined_names(parts.drop_last()) + seq!['/'] + parts.last()
    }
}

/// The way from `root` to `target`, with forward slashes only: the
/// components of `target` that follow those of `root`. A `target` that
/// does not lie within `root` is given as it is.
pub open spec fn relative_to(root: Seq<char>, target: Seq<char>) -> Seq<char> {
    if is_within(target, root) {
        normalized(joined_names(components(target).skip(components(root).len() as int)))
    } else {
        normalized(target)
    }
}

/// Every path lies within itself.
pub proof fn lemma_within_reflexive(path: Seq<char>)
    ensures
        is_within(path, path),
{
    let parts = components(path);
    assert(parts =~= parts.subrange(0, parts.len() as int));
}

/// What lies within a directory lies within whatever that directory
/// lies within.
pub proof fn lemma_within_transitive(path: Seq<char>, middle: Seq<char>, root: Seq<char>)
    requires
        is_within(path, middle),
        is_within(middle, root),
    ensures
        is_within(path, root),
{
    let a = components(path);
    let b = components(middle);
    let c = components(root);
    assert(c =~= a.subrange(0, c.len() as int)) by {
        assert forall|i: int| 0 <= i < c.len() implies c[i] == a[i] by {
            assert(c[i] == b.subrange(0, c.len() as int)[i]);
            assert(b[i] == a.subrange(0, b.len() as int)[i]);
        }
    }
}

/// Two paths that lie within each other have the same components.
pub proof fn lemma_within_antisymmetric(path: Seq<char>, other: Seq<char>)
    requires
        is_within(path, other),
        is_within(other, path),
    ensures
        components(path) == components(other),
{
    let a = components(path);
    let b = components(other);
    assert(a =~= b.subrange(0, a.len() as int));
    assert(b.subrange(0, b.len() as int) =~= b);
}

/// A name that begins in `head` ends where it ends in `head` alone, if
/// `head` and `tail` meet at a separator or one of them is empty.
proof fn lemma_name_end_in_head(head: Seq<char>, tail: Seq<char>, from: int)
    requires
        0 <= from < head.len(),
        tail.len() == 0 || is_separator(tail[0]) || is_separator(head.last()),
    ensures
        name_end(head + tail, from) == name_end(head, from),
    decreases head.len() - from,
{
    let whole = head + tail;
    assert(whole[from] == head[from]);
    if !is_separator(head[from]) {
        if from + 1 < head.len() {
            lemma_name_end_in_head(head, tail, from + 1);
        } else {
            assert(head.last() == head[from]);
            if tail.len() > 0 {
                assert(whole[from + 1] == tail[0]);
            }
            assert(name_end(head, from + 1) == from + 1);
            assert(name_end(whole, from + 1) == from + 1);
        }
    }
}

/// A name that begins in `tail` ends where it ends in `tail` alone.
proof fn lemma_name_end_in_tail(head: Seq<char>, tail: Seq<char>, from: int)
    requires
        0 <= from <= tail.len(),
    ensures
        name_end(head + tail, head.len() + from) == head.len() + name_end(tail, from),
    decreases tail.len() - from,
{
    let whole = head + tail;
    if from < tail.len() {
        assert(whole[head.len() + from] == tail[from]);
        if !is_separator(tail[from]) {
            lemma_name_end_in_tail(head, tail, from + 1);
        }
    }
}

/// The components that begin in `tail` are those of `tail` alone.
proof fn lemma_components_in_tail(head: Seq<char>, tail: Seq<char>, from: int)
    requires
        0 <= from <= tail.len(),
    ensures
        components_from(head + tail, head.len() + from) == components_from(tail, from),
    decreases tail.len() - from,
{
    let whole = head + tail;
    if from < tail.len() {
        assert(whole[head.len() + from] == tail[from]);
        if is_separator(tail[from]) {
            lemma_components_in_tail(head, tail, from + 1);
        } else {
            lemma_name_end_in_tail(head, tail, from);
            lemma_name_end(tail, from);
            let end = name_end(tail, from);
            assert(end > from) by {
                lemma_name_end(tail, from + 1);
            }
            lemma_components_in_tail(head, tail, end);
            assert(whole.subrange(head.len() + from, head.len() + end) =~= tail.subrange(
                from,
                end,
            ));
        }
    }
}

/// Where two texts meet at a separator, or one of them is empty, the
/// components of the whole are those of the first and then those of the
/// second.
pub proof fn lemma_components_concat(head: Seq<char>, tail: Seq<char>, from: int)
    requires
        0 <= from <= head.len(),
        head.len() == 0 || tail.len() == 0 || is_separator(tail[0]) || is_separator(head.last()),
    ensures
        components_from(head + tail, from) == components_from(head, from) + components_from(
            tail,
            0,
        ),
    decreases head.len() - from,
{
    let whole = head + tail;
    if from == head.len() {
        lemma_components_in_tail(head, tail, 0);
        assert(components_from(head, from) + components_from(tail, 0) =~= components_from(
            tail,
            0,
        ));
    } else {
        assert(whole[from] == head[from]);
        if is_separator(head[from]) {
            lemma_components_concat(head, tail, from + 1);
        } else {
            lemma_name_end_in_head(head, tail, from);
            lemma_name_end(head, from);
            let end = name_end(head, from);
            assert(end > from) by {
                lemma_name_end(head, from + 1);
            }
            lemma_components_concat(head, tail, end);
            assert(whole.subrange(from, end) =~= head.subrange(from, end));
            assert(seq![head.subrange(from, end)] + (components_from(head, end) + components_from(
                tail,
                0,
            )) =~= (seq![head.subrange(from, end)] + components_from(head, end)) + components_from(
                tail,
                0,
            ));
        }
    }
}

/// The components of a path resolved against a directory are those of
/// the directory, followed by its own.
pub proof fn lemma_components_of_joined(base: Seq<char>, rest: Seq<char>)
    requires
        !is_absolute(rest),
    ensures
        components(joined(base, rest)) == components(base) + components(rest),
{
    if base.len() == 0 {
        assert(components(base) + components(rest) =~= components(rest));
    } else if is_separator(base.last()) {
        lemma_components_concat(base, rest, 0);
    } else {
        let slash = seq!['/'];
        lemma_components_concat(base, slash, 0);
        assert(components_from(slash, 0) =~= Seq::<Seq<char>>::empty()) by {
            assert(components_from(slash, 1) =~= Seq::<Seq<char>>::empty());
        }
        assert(components(base + slash) =~= components(base));
        assert((base + slash).last() == '/');
        lemma_components_concat(base + slash, rest, 0);
    }
}

/// A path resolved against a directory lies within that directory,
/// unless it was absolute and so stood for itself.
pub proof fn lemma_joined_is_within(base: Seq<char>, rest: Seq<char>)
    requires
        !is_absolute(rest),
    ensures
        is_within(joined(base, rest), base),
{
    lemma_components_of_joined(base, rest);
    let whole = components(joined(base, rest));
    assert(components(base) =~= whole.subrange(0, components(base).len() as int));
    if base.len() > 0 {
        assert(joined(base, rest)[0] == base[0]);
    }
}

/// A text without separators that is not empty is one component.
pub proof fn lemma_single_component(name: Seq<char>)
    requires
        name.len() > 0,
        forall|i: int| 0 <= i < name.len() ==> !is_separator(#[trigger] name[i]),
    ensures
        components(name) == seq![name],
{
    lemma_name_end_is(name, 0, name.len() as int);
    assert(name.subrange(0, name.len() as int) =~= name);
    assert(components_from(name, name.len() as int) =~= Seq::<Seq<char>>::empty());
    assert(seq![name] + Seq::<Seq<char>>::empty() =~= seq![name]);
}

/// A run without separators that stops at a separator, or at the end,
/// is where `name_end` stops.
pub proof fn lemma_name_end_is(path: Seq<char>, from: int, end: int)
    requires
        0 <= from <= end <= path.len(),
        forall|i: int| from <= i < end ==> !is_separator(#[trigger] path[i]),
        end < path.len() ==> is_separator(path[end]),
    ensures
        name_end(path, from) == end,
    decreases end - from,
{
    if from < end {
        lemma_name_end_is(path, from + 1, end);
    }
}

/// What a vector of names stands for.
pub open spec fn names_of(parts: Seq<Vec<char>>) -> Seq<Seq<char>> {
    Seq::new(parts.len(), |i: int| parts[i]@)
}

/// Splits a path into its components.
pub fn split_components(path: &[char]) -> (parts: Vec<Vec<char>>)
    ensures
        names_of(parts@) == components(path@),
{
    let mut parts: Vec<Vec<char>> = Vec::new();
    let mut i: usize = 0;
    while i < path.len()
        invariant
            i <= path.len(),
            components(path@) == names_of(parts@) + components_from(path@, i as int),
        decreases path.len() - i,
    {
        if path[i] == '/' {
            i += 1;
        } else {
            let end = find_name_end(path, i);
            proof {
                lemma_name_end(path@, i as int);
            }
            let name = copy_range(path, i, end);
            let ghost before = names_of(parts@);
            parts.push(name);
            assert(names_of(parts@) == before + seq![path@.subrange(i as int, end as int)]);
            i = end;
        }
    }
    parts
}

/// Whether the names `head` are the first of the names `all`.
pub fn names_start_with(all: &Vec<Vec<char>>, head: &Vec<Vec<char>>) -> (b: bool)
    ensures
        b == names_of(head@).is_prefix_of(names_of(all@)),
{
    if head.len() > all.len() {
        return false;
    }
    let mut i: usize = 0;
    while i < head.len()
        invariant
            i <= head.len() <= all.len(),
            forall|j: int| 0 <= j < i ==> head@[j]@ == all@[j]@,
        decreases head.len() - i,
    {
        if !chars_equal(head[i].as_slice(), all[i].as_slice()) {
            assert(names_of(head@)[i as int] != names_of(all@).subrange(
                0,
                names_of(head@).len() as int,
            )[i as int]);
            return false;
        }
        i += 1;
    }
    assert(names_of(head@) =~= names_of(all@).subrange(0, names_of(head@).len() as int));
    true
}

/// Decides whether `path` is `root` or lies below it.
pub fn path_is_within(path: &[char], root: &[char]) -> (b: bool)
    ensures
        b == is_within(path@, root@),
{
    if path_is_absolute(path) != path_is_absolute(root) {
        return false;
    }
    let all = split_components(path);
    let head = split_components(root);
    names_start_with(&all, &head)
}

/// Writes the names from index `from` on one after another, with a
/// separator between them.
fn join_names(parts: &Vec<Vec<char>>, from: usize) -> (out: Vec<char>)
    requires
        from <= parts.len(),
    ensures
        out@ == joined_names(names_of(parts@).skip(from as int)),
{
    let mut out: Vec<char> = Vec::new();
    let mut i: usize = from;
    while i < parts.len()
        invariant
            from <= i <= parts.len(),
            out@ == joined_names(names_of(parts@).subrange(from as int, i as int)),
        decreases parts.len() - i,
    {
        let ghost done = names_of(parts@).subrange(from as int, i as int);
        let ghost more = names_of(parts@).subrange(from as int, i + 1);
        assert(more.drop_last() == done);
        assert(more.last() == parts@[i as int]@);
        if i > from {
            out.push('/');
        }
        push_chars(&mut out, parts[i].as_slice());
        i += 1;
    }
    assert(names_of(parts@).subrange(from as int, parts@.len() as int) == names_of(parts@).skip(
        from as int,
    ));
    out
}

/// The way from `root` to `target`.
pub fn relative_chars(root: &[char], target: &[char]) -> (out: Vec<char>)
    ensures
        out@ == relative_to(root@, target@),
{
    if path_is_absolute(target) == path_is_absolute(root) {
        let all = split_components(target);
        let head = split_components(root);
        if names_start_with(&all, &head) {
            let rest = join_names(&all, head.len());
            return normalize_chars(rest.as_slice());
        }
    }
    normalize_chars(target)
}

/// The way from `root` to `target`, with forward slashes only.
pub fn relative_path(root: &str, target: &str) -> (out: String)
    ensures
        out@ == relative_to(root@, target@),
{
    let r = chars_of(root);
    let t = chars_of(target);
    let out = relative_chars(r.as_slice(), t.as_slice());
    string_of(out.as_slice())
}

/// `path` without the separators at its end.
pub open spec fn without_trailing_separators(path: Seq<char>) -> Seq<char>
    decreases path.len(),
{
    if path.len() > 0 && is_separator(path.last()) {
        without_trailing_separators(path.drop_last())
    } else {
        path
    }
}

/// The index at which the last name of `path` begins: the one after its
/// last separator, or 0 if it has none.
pub open spec fn name_start(path: Seq<char>) -> int
    decreases path.len(),
{
    if path.len() > 0 && !is_separator(path.last()) {
        name_start(path.drop_last())
    } else {
        path.len() as int
    }
}

/// The last component of `path`, empty if it has none.
pub open spec fn file_name(path: Seq<char>) -> Seq<char> {
    let trimmed = without_trailing_separators(path);
    trimmed.skip(name_start(trimmed))
}

/// `path` without its last component: the directory that holds it.
/// The root and the empty path have none. Above a single name stands the
/// empty path, or the root if the name began there.
pub open spec fn parent_of(path: Seq<char>) -> Option<Seq<char>> {
    let trimmed = without_trailing_separators(path);
    if trimmed.len() == 0 {
        None
    } else {
        let head = trimmed.take(name_start(trimmed));
        let stem = without_trailing_separators(head);
        if head.len() > 0 && stem.len() == 0 {
            Some(seq!['/'])
        } else {
            Some(stem)
        }
    }
}

/// The index of the last `.` in `name`, or `-1` if it has none.
pub open spec fn last_dot(name: Seq<char>) -> int
    decreases name.len(),
{
    if name.len() == 0 {
        -1
    } else if name.last() == '.' {
        name.len() - 1
    } else {
        last_dot(name.drop_last())
    }
}

/// The extension of a file name: what follows its last `.`, unless that
/// `.` begins the name. The name `..` has none.
pub open spec fn extension_of(name: Seq<char>) -> Option<Seq<char>> {
    let dot = last_dot(name);
    if dot <= 0 || name == seq!['.', '.'] {
        None
    } else {
        Some(name.skip(dot + 1))
    }
}

/// Whether `name` is that of a hidden entry.
pub open spec fn is_hidden(name: Seq<char>) -> bool {
    name.len() > 0 && name[0] == '.'
}

/// Length of `path` without the separators at its end.
fn trimmed_len(path: &[char], len: usize) -> (end: usize)
    requires
        len <= path.len(),
    ensures
        end <= len,
        path@.take(end as int) == without_trailing_separators(path@.take(len as int)),
{
    let mut end: usize = len;
    while end > 0 && path[end - 1] == '/'
        invariant
            end <= len <= path.len(),
            without_trailing_separators(path@.take(end as int)) == without_trailing_separators(
                path@.take(len as int),
            ),
        decreases end,
    {
        assert(path@.take(end as int).drop_last() == path@.take(end - 1));
        end -= 1;
    }
    end
}

/// Where the last name of the first `len` characters of `path` begins.
fn last_name_start(path: &[char], len: usize) -> (start: usize)
    requires
        len <= path.len(),
    ensures
        start <= len,
        start == name_start(path@.take(len as int)),
{
    let mut start: usize = len;
    while start > 0 && path[start - 1] != '/'
        invariant
            start <= len <= path.len(),
            name_start(path@.take(start as int)) == name_start(path@.take(len as int)),
        decreases start,
    {
        assert(path@.take(start as int).drop_last() == path@.take(start - 1));
        start -= 1;
    }
    start
}

/// The last component of `path`.
pub fn file_name_chars(path: &[char]) -> (out: Vec<char>)
    ensures
        out@ == file_name(path@),
{
    assert(path@.take(path@.len() as int) == path@);
    let end = trimmed_len(path, path.len());
    let start = last_name_start(path, end);
    assert(path@.take(end as int).skip(start as int) == path@.subrange(start as int, end as int));
    copy_range(path, start, end)
}

/// The directory that holds `path`.
pub fn parent_chars(path: &[char]) -> (out: Option<Vec<char>>)
    ensures
        match out {
            Some(dir) => parent_of(path@) == Some(dir@),
            None => parent_of(path@) is None,
        },
{
    assert(path@.take(path@.len() as int) == path@);
    let end = trimmed_len(path, path.len());
    if end == 0 {
        return None;
    }
    let start = last_name_start(path, end);
    assert(path@.take(end as int).take(start as int) == path@.take(start as int));
    let stem = trimmed_len(path, start);
    if start > 0 && stem == 0 {
        let mut root: Vec<char> = Vec::new();
        root.push('/');
        assert(root@ == seq!['/']);
        Some(root)
    } else {
        assert(path@.take(stem as int) == path@.subrange(0, stem as int));
        Some(copy_range(path, 0, stem))
    }
}

/// The directory that holds `path`, if it has one.
pub fn parent_path(path: &str) -> (out: Option<String>)
    ensures
        match out {
            Some(dir) => parent_of(path@) == Some(dir@),
            None => parent_of(path@) is None,
        },
{
    let chars = chars_of(path);
    match parent_chars(chars.as_slice()) {
        Some(dir) => Some(string_of(dir.as_slice())),
        None => None,
    }
}

/// The extension of a file name.
pub fn extension_chars(name: &[char]) -> (out: Option<Vec<char>>)
    ensures
        match out {
            Some(ext) => extension_of(name@) == Some(ext@),
            None => extension_of(name@) is None,
        },
{
    assert(name@.take(name@.len() as int) == name@);
    let mut end: usize = name.len();
    while end > 0 && name[end - 1] != '.'
        invariant
            end <= name.len(),
            last_dot(name@.take(end as int)) == last_dot(name@),
        decreases end,
    {
        assert(name@.take(end as int).drop_last() == name@.take(end - 1));
        end -= 1;
    }
    if end <= 1 {
        return None;
    }
    if name.len() == 2 && name[0] == '.' {
        assert(name@ =~= seq!['.', '.']);
        return None;
    }
    assert(name@ != seq!['.', '.']) by {
        if name@.len() == 2 {
            assert(seq!['.', '.'][0] == '.');
        }
    }
    assert(name@.skip(end as int) == name@.subrange(end as int, name@.len() as int));
    Some(copy_range(name, end, name.len()))
}

/// Tests a name for being that of a hidden entry.
pub fn name_is_hidden(name: &[char]) -> (b: bool)
    ensures
        b == is_hidden(name@),
{
    name.len() > 0 && name[0] == '.'
}

} // verus!
