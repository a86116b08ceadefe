//! Trees of named entries, as a build leaves them on disk: the shape of a
//! directory, with one value at each file.

use vstd::prelude::*;

verus! {

/// A file, holding one value, or a directory of named trees in the order in
/// which they were listed.
#[derive(Debug, PartialEq, Eq)]
pub enum Tree<L> {
    File(L),
    Dir(Vec<(String, Tree<L>)>),
}

/// What a `Tree` stands for: the same shape over plain sequences.
pub enum Shape<L> {
    File(L),
    Dir(Seq<(Seq<char>, Shape<L>)>),
}

impl<L: View> View for Tree<L> {
    type V = Shape<L::V>;

    open spec fn view(&self) -> Shape<L::V>
        decreases self,
    {
        match self {
            Tree::File(leaf) => Shape::File(leaf@),
            Tree::Dir(children) => Shape::Dir(shapes(children@)),
        }
    }
}

/// The shapes of a directory's children, each under its name.
pub open spec fn shapes<L: View>(children: Seq<(String, Tree<L>)>) -> Seq<(Seq<char>, Shape<L::V>)>
    decreases children,
{
    if children.len() == 0 {
        Seq::empty()
    } else {
        shapes(children.drop_last()).push((children.last().0@, children.last().1@))
    }
}

/// The number of files in a tree.
pub open spec fn files<L>(shape: Shape<L>) -> nat
    decreases shape,
{
    match shape {
        Shape::File(_) => 1,
        Shape::Dir(children) => files_among(children),
    }
}

/// The number of files under a run of named trees.
pub open spec fn files_among<L>(children: Seq<(Seq<char>, Shape<L>)>) -> nat
    decreases children,
{
    if children.len() == 0 {
        0
    } else {
        files_among(children.drop_last()) + files(children.last().1)
    }
}

/// The values at the files of a tree, in the order of the listing,
/// directories entered as they are met.
pub open spec fn leaves<L>(shape: Shape<L>) -> Seq<L>
    decreases shape,
{
    match shape {
        Shape::File(leaf) => seq![leaf],
        Shape::Dir(children) => leaves_among(children),
    }
}

/// The values at the files under a run of named trees.
pub open spec fn leaves_among<L>(children: Seq<(Seq<char>, Shape<L>)>) -> Seq<L>
    decreases children,
{
    if children.len() == 0 {
        Seq::empty()
    } else {
        leaves_among(children.drop_last()) + leaves(children.last().1)
    }
}

/// The names and the nesting of a tree, with nothing at its files.
pub open spec fn outline<L>(shape: Shape<L>) -> Shape<()>
    decreases shape,
{
    match shape {
        Shape::File(_) => Shape::File(()),
        Shape::Dir(children) => Shape::Dir(outline_among(children)),
    }
}

/// The names and the nesting of a run of named trees.
pub open spec fn outline_among<L>(children: Seq<(Seq<char>, Shape<L>)>) -> Seq<
    (Seq<char>, Shape<()>),
>
    decreases children,
{
    if children.len() == 0 {
        Seq::empty()
    } else {
        outline_among(children.drop_last()).push((children.last().0, outline(children.last().1)))
    }
}

/// Whether `tree` is the directory of `children`, and `all` the shapes of
/// those children, one for one.
pub open spec fn holds<L: View>(
    tree: Tree<L>,
    children: Vec<(String, Tree<L>)>,
    all: Seq<(Seq<char>, Shape<L::V>)>,
) -> bool {
    &&& tree == Tree::Dir(children)
    &&& tree@ == Shape::Dir(all)
    &&& all.len() == children@.len()
    &&& forall|k: int|
        0 <= k < children@.len() ==> #[trigger] all[k] == (children@[k].0@, children@[k].1@)
}

/// A directory holds the shapes of its children.
pub proof fn directory_holds<L: View>(tree: Tree<L>, children: Vec<(String, Tree<L>)>)
    requires
        tree == Tree::Dir(children),
    ensures
        holds(tree, children, shapes(children@)),
        shapes(children@).take(0) == Seq::<(Seq<char>, Shape<L::V>)>::empty(),
{
    shapes_pointwise(children@);
    assert(shapes(children@).take(0) =~= Seq::<(Seq<char>, Shape<L::V>)>::empty());
}

/// What a walk over a directory's children needs at the child `i`: the
/// child is smaller than the directory, and the children up to and with it
/// are those before it and the child itself.
pub proof fn next_child<L: View>(
    tree: Tree<L>,
    children: Vec<(String, Tree<L>)>,
    all: Seq<(Seq<char>, Shape<L::V>)>,
    i: int,
)
    requires
        holds(tree, children, all),
        0 <= i < children@.len(),
    ensures
        decreases_to!(tree => children@[i].1),
        all.take(i + 1).drop_last() == all.take(i),
        all.take(i + 1).last() == (children@[i].0@, children@[i].1@),
        files_among(all.take(i + 1)) == files_among(all.take(i)) + files(children@[i].1@),
        files_among(all.take(i + 1)) <= files_among(all),
        i + 1 == children@.len() ==> all.take(i + 1) == all,
{
    assert(decreases_to!(tree => tree->Dir_0));
    assert(decreases_to!(tree->Dir_0 => tree->Dir_0@));
    assert(decreases_to!(children@ => children@[i]));
    assert(decreases_to!(children@[i] => children@[i].1));
    assert(all.take(i + 1).drop_last() =~= all.take(i));
    assert(all[i] == (children@[i].0@, children@[i].1@));
    files_step(all, i);
    if i + 1 == children@.len() {
        assert(all.take(i + 1) =~= all);
    }
}

/// The shapes of the children are those of the children, one for one.
proof fn shapes_pointwise<L: View>(children: Seq<(String, Tree<L>)>)
    ensures
        shapes(children).len() == children.len(),
        forall|i: int|
            0 <= i < children.len() ==> #[trigger] shapes(children)[i] == (
                children[i].0@,
                children[i].1@,
            ),
    decreases children.len(),
{
    if children.len() > 0 {
        let init = children.drop_last();
        shapes_pointwise(init);
        assert(shapes(children) == shapes(init).push((children.last().0@, children.last().1@)));
        assert forall|i: int| 0 <= i < children.len() implies #[trigger] shapes(children)[i] == (
            children[i].0@,
            children[i].1@,
        ) by {
            if i < init.len() {
                assert(shapes(init)[i] == (init[i].0@, init[i].1@));
                assert(init[i] == children[i]);
            }
        }
    }
}

/// Adding the files under one more child to the count.
proof fn files_step<L>(children: Seq<(Seq<char>, Shape<L>)>, i: int)
    requires
        0 <= i < children.len(),
    ensures
        files_among(children.take(i + 1)) == files_among(children.take(i)) + files(children[i].1),
        files_among(children.take(i + 1)) <= files_among(children),
    decreases children.len() - i,
{
    assert(children.take(i + 1).drop_last() =~= children.take(i));
    if i + 1 < children.len() {
        files_step(children, i + 1);
    } else {
        assert(children.take(i + 1) =~= children);
    }
}

/// Counts the files in a tree. Gives `None` when there are more than a
/// `usize` can hold.
pub fn count<L: View>(tree: &Tree<L>) -> (n: Option<usize>)
    ensures
        match n {
            Some(n) => n == files(tree@),
            None => files(tree@) > usize::MAX,
        },
    decreases tree,
{
    match tree {
        Tree::File(_) => Some(1),
        Tree::Dir(children) => {
            let ghost all = shapes(children@);
            proof {
                directory_holds(*tree, *children);
            }
            let mut total: usize = 0;
            let mut i: usize = 0;
            while i < children.len()
                invariant
                    i <= children.len(),
                    holds(*tree, *children, all),
                    total == files_among(all.take(i as int)),
                decreases children.len() - i,
            {
                proof {
                    next_child(*tree, *children, all, i as int);
                }
                match count(&children[i].1) {
                    None => {
                        return None;
                    },
                    Some(n) => {
                        if n > usize::MAX - total {
                            return None;
                        }
                        total = total + n;
                    },
                }
                i = i + 1;
            }
            assert(all.take(i as int) =~= all);
            Some(total)
        },
    }
}

} // verus!
