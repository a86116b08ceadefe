//! Harvesting what the compiler left behind: every file gets a blob
//! identifier in the order of the listing, is copied into the blob store
//! under it, and is named in the host program by the path of that copy.

use vstd::prelude::*;
use crate::blob::{blob_file, blob_path};
use crate::path::{join, joined};
use crate::plan::{plan, Action, ActionView, Failure, Step, StepView};
use crate::text::{literal, quote};
use crate::tree::{
    directory_holds, files, files_among, holds, leaves, leaves_among, next_child, outline,
    outline_among, shapes, Shape, Tree,
};

verus! {

/// A listing with its files numbered from `first` on, in the order in which
/// they are listed, directories entered as they are met.
pub open spec fn numbered(shape: Shape<()>, first: nat) -> Shape<usize>
    decreases shape,
{
    match shape {
        Shape::File(_) => Shape::File(first as usize),
        Shape::Dir(children) => Shape::Dir(numbered_among(children, first)),
    }
}

/// The children of a directory, numbered from `first` on.
pub open spec fn numbered_among(children: Seq<(Seq<char>, Shape<()>)>, first: nat) -> Seq<
    (Seq<char>, Shape<usize>),
>
    decreases children,
{
    if children.len() == 0 {
        Seq::empty()
    } else {
        let before = children.drop_last();
        numbered_among(before, first).push(
            (children.last().0, numbered(children.last().1, first + files_among(before))),
        )
    }
}

/// The step that copies one harvested file into the blob store.
pub open spec fn copy_step(from: Seq<char>, to: Seq<char>) -> StepView {
    StepView { action: ActionView::Copy { from, to }, failure: Failure::DriveFull }
}

/// The copies that harvest a numbered tree found at the path `at`: one for
/// each file, in the order of the listing, into the blob store beside
/// `out_dir`.
pub open spec fn copies_of(shape: Shape<usize>, at: Seq<char>, out_dir: Seq<char>) -> Seq<StepView>
    decreases shape,
{
    match shape {
        Shape::File(id) => seq![copy_step(at, blob_path(out_dir, id as nat))],
        Shape::Dir(children) => copies_among(children, at, out_dir),
    }
}

/// The copies that harvest the children of the directory at `at`.
pub open spec fn copies_among(
    children: Seq<(Seq<char>, Shape<usize>)>,
    at: Seq<char>,
    out_dir: Seq<char>,
) -> Seq<StepView>
    decreases children,
{
    if children.len() == 0 {
        Seq::empty()
    } else {
        copies_among(children.drop_last(), at, out_dir) + copies_of(
            children.last().1,
            joined(at, children.last().0),
            out_dir,
        )
    }
}

/// A numbered tree made ready to be written as source text: each name is
/// replaced by the string literal that spells it, and each file's number by
/// the string literal that spells the path of its blob.
pub open spec fn placed(shape: Shape<usize>, out_dir: Seq<char>) -> Shape<Seq<char>>
    decreases shape,
{
    match shape {
        Shape::File(id) => Shape::File(literal(blob_path(out_dir, id as nat))),
        Shape::Dir(children) => Shape::Dir(placed_among(children, out_dir)),
    }
}

/// The children of a directory made ready to be written as source text.
pub open spec fn placed_among(children: Seq<(Seq<char>, Shape<usize>)>, out_dir: Seq<char>) -> Seq<
    (Seq<char>, Shape<Seq<char>>),
>
    decreases children,
{
    if children.len() == 0 {
        Seq::empty()
    } else {
        placed_among(children.drop_last(), out_dir).push(
            (literal(children.last().0), placed(children.last().1, out_dir)),
        )
    }
}

/// A tree with each name replaced by the string literal that spells it.
pub open spec fn spelled(shape: Shape<()>) -> Shape<()>
    decreases shape,
{
    match shape {
        Shape::File(_) => Shape::File(()),
        Shape::Dir(children) => Shape::Dir(spelled_among(children)),
    }
}

/// The children of a directory, each name replaced by the string literal
/// that spells it.
pub open spec fn spelled_among(children: Seq<(Seq<char>, Shape<()>)>) -> Seq<(Seq<char>, Shape<()>)>
    decreases children,
{
    if children.len() == 0 {
        Seq::empty()
    } else {
        spelled_among(children.drop_last()).push(
            (literal(children.last().0), spelled(children.last().1)),
        )
    }
}

/// The numbers from `first` on, `count` of them.
pub open spec fn counting(first: nat, count: nat) -> Seq<usize> {
    Seq::new(count, |k: int| (first + k) as usize)
}

/// Numbering changes neither names nor nesting: the numbered tree mirrors
/// the listing.
pub proof fn numbered_keeps_outline(shape: Shape<()>, first: nat)
    ensures
        outline(numbered(shape, first)) == shape,
    decreases shape,
{
    match shape {
        Shape::File(unit) => {
            assert(unit == ());
        },
        Shape::Dir(children) => numbered_among_keeps_outline(children, first),
    }
}

/// Numbering the children of a directory changes neither names nor nesting.
pub proof fn numbered_among_keeps_outline(children: Seq<(Seq<char>, Shape<()>)>, first: nat)
    ensures
        outline_among(numbered_among(children, first)) == children,
    decreases children,
{
    if children.len() == 0 {
        assert(outline_among(numbered_among(children, first)) =~= children);
    } else {
        let before = children.drop_last();
        let last = children.last();
        numbered_among_keeps_outline(before, first);
        numbered_keeps_outline(last.1, first + files_among(before));
        let done = numbered_among(children, first);
        assert(done.drop_last() =~= numbered_among(before, first));
        assert(outline_among(done) =~= children);
    }
}

/// Read in the order of the listing, the numbers in a numbered tree are
/// `first`, `first + 1`, and so on, one for each file.
pub proof fn numbered_counts_up(shape: Shape<()>, first: nat)
    ensures
        leaves(numbered(shape, first)) == counting(first, files(shape)),
        files(numbered(shape, first)) == files(shape),
    decreases shape,
{
    match shape {
        Shape::File(_) => {
            assert(leaves(numbered(shape, first)) =~= counting(first, 1));
        },
        Shape::Dir(children) => numbered_among_counts_up(children, first),
    }
}

/// Read in the order of the listing, the numbers under the numbered
/// children of a directory are `first`, `first + 1`, and so on.
pub proof fn numbered_among_counts_up(children: Seq<(Seq<char>, Shape<()>)>, first: nat)
    ensures
        leaves_among(numbered_among(children, first)) == counting(first, files_among(children)),
        files_among(numbered_among(children, first)) == files_among(children),
    decreases children,
{
    if children.len() == 0 {
        assert(leaves_among(numbered_among(children, first)) =~= counting(first, 0));
    } else {
        let before = children.drop_last();
        let last = children.last();
        let start = first + files_among(before);
        numbered_among_counts_up(before, first);
        numbered_counts_up(last.1, start);
        let done = numbered_among(children, first);
        assert(done.drop_last() =~= numbered_among(before, first));
        assert(done.last().1 == numbered(last.1, start));
        assert(counting(first, files_among(before)) + counting(start, files(last.1))
            =~= counting(first, files_among(children)));
    }
}

/// Placing keeps the nesting, and spells every name as a string literal:
/// the name that the host program reads back is the name that was listed.
pub proof fn placed_spells_names(shape: Shape<usize>, out_dir: Seq<char>)
    ensures
        outline(placed(shape, out_dir)) == spelled(outline(shape)),
    decreases shape,
{
    match shape {
        Shape::File(_) => {},
        Shape::Dir(children) => placed_among_spells_names(children, out_dir),
    }
}

/// Placing the children of a directory keeps the nesting, and spells every
/// name as a string literal.
pub proof fn placed_among_spells_names(children: Seq<(Seq<char>, Shape<usize>)>, out_dir: Seq<char>)
    ensures
        outline_among(placed_among(children, out_dir)) == spelled_among(outline_among(children)),
    decreases children,
{
    if children.len() > 0 {
        let before = children.drop_last();
        placed_among_spells_names(before, out_dir);
        placed_spells_names(children.last().1, out_dir);
        let done = placed_among(children, out_dir);
        assert(done.drop_last() =~= placed_among(before, out_dir));
        let plain = outline_among(children);
        assert(plain.drop_last() =~= outline_among(before));
    }
}

/// Read in the order of the listing, the literals in a placed tree name the
/// blobs that bear the files' numbers.
pub proof fn placed_names_blobs(shape: Shape<usize>, out_dir: Seq<char>)
    ensures
        leaves(placed(shape, out_dir)).len() == leaves(shape).len(),
        forall|k: int|
            0 <= k < leaves(shape).len() ==> #[trigger] leaves(placed(shape, out_dir))[k]
                == literal(blob_path(out_dir, leaves(shape)[k] as nat)),
    decreases shape,
{
    match shape {
        Shape::File(_) => {},
        Shape::Dir(children) => placed_among_names_blobs(children, out_dir),
    }
}

/// Read in the order of the listing, the literals under the placed children
/// of a directory name the blobs that bear the files' numbers.
pub proof fn placed_among_names_blobs(children: Seq<(Seq<char>, Shape<usize>)>, out_dir: Seq<char>)
    ensures
        leaves_among(placed_among(children, out_dir)).len() == leaves_among(children).len(),
        forall|k: int|
            0 <= k < leaves_among(children).len() ==> #[trigger] leaves_among(
                placed_among(children, out_dir),
            )[k] == literal(blob_path(out_dir, leaves_among(children)[k] as nat)),
    decreases children,
{
    if children.len() > 0 {
        let before = children.drop_last();
        let last = children.last();
        placed_among_names_blobs(before, out_dir);
        placed_names_blobs(last.1, out_dir);
        let done = placed_among(children, out_dir);
        assert(done.drop_last() =~= placed_among(before, out_dir));
        assert(done.last().1 == placed(last.1, out_dir));
        let head = leaves_among(placed_among(before, out_dir));
        let tail = leaves(placed(last.1, out_dir));
        assert(leaves_among(done) == head + tail);
        assert forall|k: int| 0 <= k < leaves_among(children).len() implies #[trigger] leaves_among(
            done,
        )[k] == literal(blob_path(out_dir, leaves_among(children)[k] as nat)) by {
            if k < head.len() {
                assert(leaves_among(done)[k] == head[k]);
                assert(leaves_among(children)[k] == leaves_among(before)[k]);
            } else {
                assert(leaves_among(done)[k] == tail[k - head.len()]);
                assert(leaves_among(children)[k] == leaves(last.1)[k - head.len()]);
            }
        }
    }
}

/// There is one copy for each file, in the order of the listing, and each
/// goes to the blob that bears the file's number.
pub proof fn copies_follow_numbers(shape: Shape<usize>, at: Seq<char>, out_dir: Seq<char>)
    ensures
        copies_of(shape, at, out_dir).len() == leaves(shape).len(),
        forall|k: int|
            0 <= k < leaves(shape).len() ==> {
                let step = #[trigger] copies_of(shape, at, out_dir)[k];
                &&& step.failure == Failure::DriveFull
                &&& step.action is Copy
                &&& step.action->to == blob_path(out_dir, leaves(shape)[k] as nat)
            },
    decreases shape,
{
    match shape {
        Shape::File(_) => {},
        Shape::Dir(children) => copies_among_follow_numbers(children, at, out_dir),
    }
}

/// There is one copy for each file under the children of a directory, and
/// each goes to the blob that bears the file's number.
pub proof fn copies_among_follow_numbers(
    children: Seq<(Seq<char>, Shape<usize>)>,
    at: Seq<char>,
    out_dir: Seq<char>,
)
    ensures
        copies_among(children, at, out_dir).len() == leaves_among(children).len(),
        forall|k: int|
            0 <= k < leaves_among(children).len() ==> {
                let step = #[trigger] copies_among(children, at, out_dir)[k];
                &&& step.failure == Failure::DriveFull
                &&& step.action is Copy
                &&& step.action->to == blob_path(out_dir, leaves_among(children)[k] as nat)
            },
    decreases children,
{
    if children.len() > 0 {
        let before = children.drop_last();
        let last = children.last();
        copies_among_follow_numbers(before, at, out_dir);
        copies_follow_numbers(last.1, joined(at, last.0), out_dir);
        let head = copies_among(before, at, out_dir);
        let tail = copies_of(last.1, joined(at, last.0), out_dir);
        assert forall|k: int| 0 <= k < leaves_among(children).len() implies {
            let step = #[trigger] copies_among(children, at, out_dir)[k];
            &&& step.failure == Failure::DriveFull
            &&& step.action is Copy
            &&& step.action->to == blob_path(out_dir, leaves_among(children)[k] as nat)
        } by {
            if k < head.len() {
                assert(copies_among(children, at, out_dir)[k] == head[k]);
            } else {
                assert(copies_among(children, at, out_dir)[k] == tail[k - head.len()]);
            }
        }
    }
}

/// Numbers the files of a listing from `first` on, and says which number
/// comes next.
pub fn number(listing: &Tree<()>, first: usize) -> (out: (Tree<usize>, usize))
    requires
        first + files(listing@) <= usize::MAX,
    ensures
        out.0@ == numbered(listing@, first as nat),
        out.1 == first + files(listing@),
    decreases listing,
{
    match listing {
        Tree::File(_) => (Tree::File(first), first + 1),
        Tree::Dir(children) => {
            let ghost all = shapes(children@);
            proof {
                directory_holds(*listing, *children);
            }
            let mut done: Vec<(String, Tree<usize>)> = Vec::new();
            let mut next: usize = first;
            let mut i: usize = 0;
            while i < children.len()
                invariant
                    i <= children.len(),
                    holds(*listing, *children, all),
                    first + files_among(all) <= usize::MAX,
                    next == first + files_among(all.take(i as int)),
                    shapes(done@) == numbered_among(all.take(i as int), first as nat),
                decreases children.len() - i,
            {
                proof {
                    next_child(*listing, *children, all, i as int);
                }
                let (sub, after) = number(&children[i].1, next);
                let ghost before = done@;
                done.push((children[i].0.clone(), sub));
                assert(done@.drop_last() =~= before);
                next = after;
                i = i + 1;
            }
            assert(all.take(i as int) =~= all);
            (Tree::Dir(done), next)
        },
    }
}

/// Lists the copies that harvest a numbered tree found at the path `at`,
/// adding them to `steps`.
pub fn copies(tree: &Tree<usize>, at: &str, out_dir: &str, steps: &mut Vec<Step>)
    ensures
        plan(final(steps)@) == plan(old(steps)@) + copies_of(tree@, at@, out_dir@),
    decreases tree,
{
    match tree {
        Tree::File(id) => {
            let ghost before = steps@;
            steps.push(
                Step {
                    action: Action::Copy { from: at.to_owned(), to: blob_file(out_dir, *id) },
                    failure: Failure::DriveFull,
                },
            );
            assert(plan(steps@) =~= plan(before) + copies_of(tree@, at@, out_dir@));
        },
        Tree::Dir(children) => {
            let ghost all = shapes(children@);
            let ghost start = plan(steps@);
            proof {
                directory_holds(*tree, *children);
            }
            let mut i: usize = 0;
            assert(start + Seq::<StepView>::empty() =~= start);
            while i < children.len()
                invariant
                    i <= children.len(),
                    holds(*tree, *children, all),
                    plan(steps@) == start + copies_among(all.take(i as int), at@, out_dir@),
                decreases children.len() - i,
            {
                proof {
                    next_child(*tree, *children, all, i as int);
                }
                let ghost before = copies_among(all.take(i as int), at@, out_dir@);
                let child = join(at, children[i].0.as_str());
                copies(&children[i].1, child.as_str(), out_dir, steps);
                proof {
                    let more = copies_of(children@[i as int].1@, child@, out_dir@);
                    assert((start + before) + more =~= start + (before + more));
                }
                i = i + 1;
            }
            assert(all.take(i as int) =~= all);
        },
    }
}

/// Makes a numbered tree ready to be written as source text: spells each
/// name, and the path of each file's blob, as a string literal.
pub fn literals(tree: &Tree<usize>, out_dir: &str) -> (out: Tree<String>)
    ensures
        out@ == placed(tree@, out_dir@),
    decreases tree,
{
    match tree {
        Tree::File(id) => {
            let path = blob_file(out_dir, *id);
            Tree::File(quote(path.as_str()))
        },
        Tree::Dir(children) => {
            let ghost all = shapes(children@);
            proof {
                directory_holds(*tree, *children);
            }
            let mut done: Vec<(String, Tree<String>)> = Vec::new();
            let mut i: usize = 0;
            while i < children.len()
                invariant
                    i <= children.len(),
                    holds(*tree, *children, all),
                    shapes(done@) == placed_among(all.take(i as int), out_dir@),
                decreases children.len() - i,
            {
                proof {
                    next_child(*tree, *children, all, i as int);
                }
                let sub = literals(&children[i].1, out_dir);
                let ghost before = done@;
                done.push((quote(children[i].0.as_str()), sub));
                assert(done@.drop_last() =~= before);
                i = i + 1;
            }
            assert(all.take(i as int) =~= all);
            Tree::Dir(done)
        },
    }
}

} // verus!
