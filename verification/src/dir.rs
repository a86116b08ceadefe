//! The read-only directory that a host program queries by path.

use vstd::prelude::*;
use vstd::std_specs::convert::FromSpecImpl;
use crate::path::{
    segments, segments_exist, segments_of_joint, segments_of_name, slash_free, split, views,
};
use crate::text::same_text;

verus! {

/// What a name in a directory stands for: a nested directory, or a file's
/// bytes.
pub enum Entry {
    Dir(Dir),
    File(&'static [u8]),
}

/// A directory: names, each with its entry. No name occurs twice. It is
/// built once and never changes.
///
/// The entries are kept in a list. A hash map keyed by strings would look
/// names up faster, but nothing can be proved of one: vstd gives `HashMap`
/// a meaning only for keys with a key model, which strings lack, and its
/// own string-keyed map cannot hold a type that holds it.
pub struct Dir(Vec<(&'static str, Entry)>);

/// What to abort with when a lookup finds nothing.
pub const FILE_NOT_FOUND: &'static str = "file not found";

/// The directory that a list of named entries describes. Where a name
/// occurs more than once, its last entry counts.
pub open spec fn listed(entries: Seq<(&'static str, Entry)>) -> Map<Seq<char>, Entry>
    decreases entries.len(),
{
    if entries.len() == 0 {
        Map::empty()
    } else {
        listed(entries.drop_last()).insert(entries.last().0@, entries.last().1)
    }
}

impl View for Dir {
    type V = Map<Seq<char>, Entry>;

    /// The entries of the directory by name.
    closed spec fn view(&self) -> Map<Seq<char>, Entry> {
        listed(self.0@)
    }
}

impl Dir {
    #[verifier::type_invariant]
    spec fn distinct_names(self) -> bool {
        distinct(self.0@)
    }

    /// What a path leads to. Its segments are looked up one after another,
    /// each in the directory that the one before named. The first file met
    /// is the result, whatever segments follow it. There is none where a
    /// segment is missing, or where the segments run out in a directory.
    pub open spec fn resolve(&self, path: Seq<Seq<char>>) -> Option<Seq<u8>>
        decreases path.len(),
    {
        if path.len() == 0 {
            None
        } else if !self@.contains_key(path[0]) {
            None
        } else {
            match self@[path[0]] {
                Entry::File(bytes) => Some(bytes@),
                Entry::Dir(inner) => inner.resolve(path.drop_first()),
            }
        }
    }

    /// Whether every segment of a path names a directory, so that the path
    /// ends in one.
    pub open spec fn leads_to_dir(&self, path: Seq<Seq<char>>) -> bool
        decreases path.len(),
    {
        if path.len() == 0 {
            true
        } else {
            self@.contains_key(path[0]) && match self@[path[0]] {
                Entry::File(_) => false,
                Entry::Dir(inner) => inner.leads_to_dir(path.drop_first()),
            }
        }
    }

    /// The entry under one name.
    fn entry(&self, name: &str) -> (found: Option<&Entry>)
        ensures
            match found {
                Some(entry) => self@.contains_key(name@) && self@[name@] == *entry,
                None => !self@.contains_key(name@),
            },
    {
        proof {
            use_type_invariant(self);
        }
        let mut i: usize = 0;
        while i < self.0.len()
            invariant
                i <= self.0@.len(),
                self.distinct_names(),
                forall|k: int| 0 <= k < i ==> (#[trigger] self.0@[k]).0@ != name@,
            decreases self.0@.len() - i,
        {
            if same_text(self.0[i].0, name) {
                proof {
                    found_at(self.0@, i as int);
                }
                return Some(&self.0[i].1);
            }
            i = i + 1;
        }
        proof {
            not_listed(self.0@, name@);
        }
        None
    }

    /// Looks a file up by its path, whose segments are separated by `/`.
    /// Gives `None` where `file` would have nothing to give; a caller that
    /// cannot go on without the file aborts with `FILE_NOT_FOUND`.
    pub fn find(&self, file: &str) -> (found: Option<&'static [u8]>)
        ensures
            match found {
                Some(bytes) => self.resolve(segments(file@)) == Some(bytes@),
                None => self.resolve(segments(file@)) is None,
            },
    {
        let parts = split(file);
        let ghost path = segments(file@);
        let mut dir: &Dir = self;
        let mut i: usize = 0;
        assert(path.skip(0) =~= path);
        while i < parts.len()
            invariant
                i <= parts.len(),
                path == segments(file@),
                views(parts@) == path,
                self.resolve(path) == dir.resolve(path.skip(i as int)),
            decreases parts.len() - i,
        {
            let ghost rest = path.skip(i as int);
            assert(path.len() == parts@.len());
            assert(path[i as int] == views(parts@)[i as int]);
            assert(rest.len() > 0 && rest[0] == parts@[i as int]@);
            assert(rest.drop_first() =~= path.skip(i + 1));
            match dir.entry(parts[i]) {
                None => {
                    return None;
                },
                Some(Entry::File(bytes)) => {
                    return Some(*bytes);
                },
                Some(Entry::Dir(inner)) => {
                    dir = inner;
                },
            }
            i = i + 1;
        }
        None
    }

    /// The bytes of the file that a path leads to. The path must lead to
    /// one.
    pub fn file(&self, file: &str) -> (bytes: &'static [u8])
        requires
            self.resolve(segments(file@)) is Some,
        ensures
            self.resolve(segments(file@)) == Some(bytes@),
    {
        match self.find(file) {
            Some(bytes) => bytes,
            None => unreached(),
        }
    }
}

impl From<Vec<(&'static str, Entry)>> for Dir {
    /// The directory that a list of named entries describes. Where a name
    /// occurs more than once, its last entry counts.
    fn from(entries: Vec<(&'static str, Entry)>) -> (dir: Dir)
        ensures
            dir@ == listed(entries@),
    {
        let mut rest = entries;
        let mut kept: Vec<(&'static str, Entry)> = Vec::new();
        assert(listed(rest@).union_prefer_right(listed(kept@)) =~= listed(entries@));
        while rest.len() > 0
            invariant
                distinct(kept@),
                listed(entries@) == listed(rest@).union_prefer_right(listed(kept@)),
            decreases rest.len(),
        {
            let ghost before = rest@;
            let ghost had = kept@;
            let item = rest.pop().unwrap();
            assert(before.drop_last() =~= rest@);
            assert(before.last() == item);
            let mut at: usize = 0;
            let mut known = false;
            while at < kept.len() && !known
                invariant
                    at <= kept@.len(),
                    distinct(kept@),
                    known ==> at < kept@.len() && kept@[at as int].0@ == item.0@,
                    forall|k: int| 0 <= k < at && !known ==> (#[trigger] kept@[k]).0@ != item.0@,
                decreases kept@.len() - at + if known { 0int } else { 1int },
            {
                if same_text(kept[at].0, item.0) {
                    known = true;
                } else {
                    at = at + 1;
                }
            }
            if known {
                proof {
                    found_at(kept@, at as int);
                    assert(listed(before).union_prefer_right(listed(kept@)) =~= listed(
                        rest@,
                    ).union_prefer_right(listed(kept@)));
                }
            } else {
                proof {
                    not_listed(kept@, item.0@);
                }
                kept.push(item);
                proof {
                    assert(kept@.drop_last() =~= had);
                    assert(listed(before).union_prefer_right(listed(had)) =~= listed(
                        rest@,
                    ).union_prefer_right(listed(kept@)));
                }
            }
        }
        assert(listed(rest@).union_prefer_right(listed(kept@)) =~= listed(kept@));
        Dir(kept)
    }
}

/// `from` promises what the directory holds, not which of the values that
/// hold it comes back: its contract is its own `ensures`.
impl FromSpecImpl<Vec<(&'static str, Entry)>> for Dir {
    open spec fn obeys_from_spec() -> bool {
        false
    }

    /// Some directory that holds what the entries describe.
    open spec fn from_spec(entries: Vec<(&'static str, Entry)>) -> Dir {
        choose|dir: Dir| dir@ == listed(entries@)
    }
}

/// A path whose first segment the directory does not hold leads to
/// nothing.
pub proof fn unknown_name_is_not_found(dir: Dir, path: Seq<char>)
    requires
        !dir@.contains_key(segments(path)[0]),
    ensures
        dir.resolve(segments(path)) is None,
{
    segments_exist(path);
}

/// Once a path has reached a file, what follows it is ignored: a file's
/// name, and that name followed by a slash and anything at all, both lead to
/// the file's bytes.
pub proof fn trailing_segments_are_ignored(dir: Dir, name: Seq<char>, extra: Seq<char>)
    requires
        slash_free(name),
        dir@.contains_key(name),
        dir@[name] is File,
    ensures
        dir.resolve(segments(name)) == Some(dir@[name]->File_0@),
        dir.resolve(segments(name + seq!['/'] + extra)) == Some(dir@[name]->File_0@),
{
    segments_of_name(name);
    segments_of_joint(name, extra);
    assert((seq![name] + segments(extra))[0] == name);
}

/// A path that ends in a directory leads to nothing: only a file has bytes.
pub proof fn directory_is_not_a_file(dir: Dir, path: Seq<Seq<char>>)
    requires
        dir.leads_to_dir(path),
    ensures
        dir.resolve(path) is None,
    decreases path.len(),
{
    if path.len() > 0 {
        directory_is_not_a_file(dir@[path[0]]->Dir_0, path.drop_first());
    }
}

/// A path through a directory leads where the rest of the path leads from
/// inside it.
pub proof fn resolves_through_directory(dir: Dir, name: Seq<char>, rest: Seq<char>)
    requires
        slash_free(name),
        dir@.contains_key(name),
        dir@[name] is Dir,
    ensures
        dir.resolve(segments(name + seq!['/'] + rest)) == (dir@[name]->Dir_0).resolve(
            segments(rest),
        ),
{
    segments_of_name(name);
    segments_of_joint(name, rest);
    let path = seq![name] + segments(rest);
    assert(path[0] == name);
    assert(path.drop_first() =~= segments(rest));
}

/// Whether no two entries bear the same name.
pub open spec fn distinct(entries: Seq<(&'static str, Entry)>) -> bool {
    forall|i: int, j: int|
        0 <= i < j < entries.len() ==> (#[trigger] entries[i]).0@ != (#[trigger] entries[j]).0@
}

/// Among entries with distinct names, each is the one listed under its
/// name.
pub proof fn found_at(entries: Seq<(&'static str, Entry)>, at: int)
    requires
        0 <= at < entries.len(),
        distinct(entries),
    ensures
        listed(entries).contains_key(entries[at].0@),
        listed(entries)[entries[at].0@] == entries[at].1,
    decreases entries.len(),
{
    if at < entries.len() - 1 {
        let before = entries.drop_last();
        assert(forall|i: int| 0 <= i < before.len() ==> before[i] == entries[i]);
        found_at(before, at);
        assert(entries[at].0@ != entries[entries.len() - 1].0@);
    }
}

/// A name that no entry bears is not listed.
pub proof fn not_listed(entries: Seq<(&'static str, Entry)>, name: Seq<char>)
    requires
        forall|k: int| 0 <= k < entries.len() ==> (#[trigger] entries[k]).0@ != name,
    ensures
        !listed(entries).contains_key(name),
    decreases entries.len(),
{
    if entries.len() > 0 {
        let before = entries.drop_last();
        assert(forall|i: int| 0 <= i < before.len() ==> before[i] == entries[i]);
        not_listed(before, name);
        assert(entries[entries.len() - 1].0@ != name);
    }
}

} // verus!
