//! Slash-separated paths as text: joining them and cutting them into segments.

use vstd::prelude::*;

verus! {

/// `base` followed by `rel`, with one `/` between them unless `base` is
/// empty or already ends in one.
pub open spec fn joined(base: Seq<char>, rel: Seq<char>) -> Seq<char> {
    if base.len() == 0 || base.last() == '/' {
        base + rel
    } else {
        base + seq!['/'] + rel
    }
}

/// The segments of `path`: the runs of characters between its slashes, from
/// left to right. A path with `n` slashes has `n + 1` segments, and any of
/// them may be empty.
pub open spec fn segments(path: Seq<char>) -> Seq<Seq<char>>
    decreases path.len(),
{
    if path.len() == 0 {
        seq![Seq::<char>::empty()]
    } else if path.last() == '/' {
        segments(path.drop_last()).push(Seq::<char>::empty())
    } else {
        let before = segments(path.drop_last());
        before.drop_last().push(before.last().push(path.last()))
    }
}

/// Whether `text` holds no slash, so that it names a single segment.
pub open spec fn slash_free(text: Seq<char>) -> bool {
    forall|i: int| 0 <= i < text.len() ==> text[i] != '/'
}

/// The views of the strings in `parts`, in order.
pub open spec fn views(parts: Seq<&str>) -> Seq<Seq<char>> {
    Seq::new(parts.len(), |i: int| parts[i]@)
}

/// Every path has at least one segment.
pub proof fn segments_exist(path: Seq<char>)
    ensures
        segments(path).len() >= 1,
    decreases path.len(),
{
    if path.len() > 0 {
        segments_exist(path.drop_last());
    }
}

/// A path without a slash is its own single segment.
pub proof fn segments_of_name(name: Seq<char>)
    requires
        slash_free(name),
    ensures
        segments(name) == seq![name],
    decreases name.len(),
{
    if name.len() == 0 {
        assert(name =~= Seq::<char>::empty());
    } else {
        let init = name.drop_last();
        segments_of_name(init);
        assert(init.push(name.last()) =~= name);
        assert(seq![init].drop_last().push(seq![init].last().push(name.last())) =~= seq![name]);
    }
}

/// The segments of two paths with a slash between them are those of the
/// first followed by those of the second.
pub proof fn segments_of_joint(head: Seq<char>, tail: Seq<char>)
    ensures
        segments(head + seq!['/'] + tail) == segments(head) + segments(tail),
    decreases tail.len(),
{
    let whole = head + seq!['/'] + tail;
    if tail.len() == 0 {
        assert(whole.drop_last() =~= head);
        assert(segments(head).push(Seq::<char>::empty()) =~= segments(head) + segments(tail));
    } else {
        let init = tail.drop_last();
        segments_of_joint(head, init);
        segments_exist(init);
        assert(whole.drop_last() =~= head + seq!['/'] + init);
        assert(whole.last() == tail.last());
        let before = segments(head) + segments(init);
        if tail.last() == '/' {
            assert(before.push(Seq::<char>::empty()) =~= segments(head) + segments(tail));
        } else {
            assert(before.last() == segments(init).last());
            assert(before.drop_last() =~= segments(head) + segments(init).drop_last());
            assert(before.drop_last().push(before.last().push(tail.last())) =~= segments(head)
                + segments(tail));
        }
    }
}

/// Joins two paths, of which the second is relative: it is put after the
/// first, whatever it begins with.
pub fn join(base: &str, rel: &str) -> (path: String)
    ensures
        path@ == joined(base@, rel@),
{
    let len = base.unicode_len();
    let mut path = base.to_owned();
    if len > 0 && base.get_char(len - 1) != '/' {
        proof {
            reveal_strlit("/");
            assert("/"@ =~= seq!['/']);
        }
        path.append("/");
    }
    path.append(rel);
    path
}

/// Cuts a path at its slashes.
pub fn split(path: &str) -> (parts: Vec<&str>)
    ensures
        views(parts@) == segments(path@),
{
    let len = path.unicode_len();
    let mut parts: Vec<&str> = Vec::new();
    let mut start: usize = 0;
    let mut at: usize = 0;
    assert(path@.take(0) =~= Seq::<char>::empty());
    assert(path@.subrange(0, 0) =~= Seq::<char>::empty());
    assert(views(parts@).push(Seq::<char>::empty()) =~= seq![Seq::<char>::empty()]);
    for c in chars: path.chars()
        invariant
            chars.seq() == path@,
            at == chars.index(),
            len == path@.len(),
            start <= at <= len,
            segments(path@.take(at as int)) == views(parts@).push(
                path@.subrange(start as int, at as int),
            ),
    {
        let ghost seen = path@.take(at as int);
        let ghost next = path@.take(at + 1);
        let ghost done = views(parts@);
        let ghost open = path@.subrange(start as int, at as int);
        assert(next.drop_last() =~= seen);
        assert(next.last() == c);
        assert(done.push(open).drop_last() =~= done);
        if c == '/' {
            parts.push(path.substring_char(start, at));
            start = at + 1;
            assert(views(parts@) =~= done.push(open));
            assert(path@.subrange(start as int, at + 1) =~= Seq::<char>::empty());
        } else {
            assert(path@.subrange(start as int, at + 1) =~= open.push(c));
        }
        at = at + 1;
    }
    assert(path@.take(len as int) =~= path@);
    let ghost done = views(parts@);
    parts.push(path.substring_char(start, len));
    assert(views(parts@) =~= done.push(path@.subrange(start as int, len as int)));
    parts
}

} // verus!
