//! The source text that rebuilds a harvest inside the host program: one
//! expression that embeds a blob's bytes, or nested expressions that build a
//! `Dir` of them.

use vstd::prelude::*;
use crate::tree::{directory_holds, holds, next_child, shapes, Shape, Tree};

verus! {

/// The expression that embeds the bytes of the file that `literal` names.
pub open spec fn embedded(literal: Seq<char>) -> Seq<char> {
    "include_bytes!("@ + literal + ")"@
}

/// The statement that enters one child into the directory under
/// construction: its name, which is given as a string literal, and the
/// expression that builds it, wrapped as a directory or as a file.
pub open spec fn inserted(name: Seq<char>, child: Shape<Seq<char>>) -> Seq<char>
    decreases child, 1nat,
{
    let wrap = if child is Dir {
        ",::transarch::Entry::Dir("@
    } else {
        ",::transarch::Entry::File("@
    };
    "map.push(("@ + name + wrap + emitted(child) + ")));"@
}

/// The expression that builds a tree. Every name in the tree is a string
/// literal, and every file holds the string literal of its blob's path.
pub open spec fn emitted(shape: Shape<Seq<char>>) -> Seq<char>
    decreases shape, 0nat,
{
    match shape {
        Shape::File(literal) => embedded(literal),
        Shape::Dir(children) => "Into::<::transarch::Dir>::into({let mut map=::std::vec::Vec::new();"@
            + inserts(children) + "map})"@,
    }
}

/// The statements that enter the children of a directory, one after
/// another.
pub open spec fn inserts(children: Seq<(Seq<char>, Shape<Seq<char>>)>) -> Seq<char>
    decreases children, 0nat,
{
    if children.len() == 0 {
        Seq::empty()
    } else {
        inserts(children.drop_last()) + inserted(children.last().0, children.last().1)
    }
}

/// Writes the expression that embeds the bytes of a file, given the file's
/// path as a string literal.
pub fn embed(literal: &str) -> (text: String)
    ensures
        text@ == embedded(literal@),
{
    let mut text = "include_bytes!(".to_owned();
    text.append(literal);
    text.append(")");
    text
}

/// Writes the expression that builds a tree. Every name in the tree must
/// be written as a string literal already, and every file hold the string
/// literal of its blob's path: the text takes both as they are.
pub fn emit(tree: &Tree<String>) -> (text: String)
    ensures
        text@ == emitted(tree@),
    decreases tree,
{
    match tree {
        Tree::File(literal) => embed(literal.as_str()),
        Tree::Dir(children) => {
            let ghost all = shapes(children@);
            proof {
                directory_holds(*tree, *children);
            }
            let ghost head = "Into::<::transarch::Dir>::into({let mut map=::std::vec::Vec::new();"@;
            let mut text = "Into::<::transarch::Dir>::into({let mut map=::std::vec::Vec::new();".to_owned();
            let mut i: usize = 0;
            assert(head + Seq::<char>::empty() =~= head);
            while i < children.len()
                invariant
                    i <= children.len(),
                    holds(*tree, *children, all),
                    text@ == head + inserts(all.take(i as int)),
                decreases children.len() - i,
            {
                proof {
                    next_child(*tree, *children, all, i as int);
                }
                let ghost before = inserts(all.take(i as int));
                let child = &children[i].1;
                let sub = emit(child);
                text.append("map.push((");
                text.append(children[i].0.as_str());
                match child {
                    Tree::Dir(_) => text.append(",::transarch::Entry::Dir("),
                    Tree::File(_) => text.append(",::transarch::Entry::File("),
                }
                text.append(sub.as_str());
                text.append(")));");
                proof {
                    let line = inserted(children@[i as int].0@, child@);
                    assert(text@ =~= head + before + line);
                    assert((head + before) + line =~= head + (before + line));
                }
                i = i + 1;
            }
            assert(all.take(i as int) =~= all);
            text.append("map})");
            text
        },
    }
}

} // verus!
