//! A snapshot of a directory tree, and recursive size computation over it.
//! A symbolic link is a leaf of the snapshot: its target — whatever tree
//! stands behind it — contributes nothing, so size computation can never
//! run into a cycle of links.

use vstd::prelude::*;

verus! {

/// One node of a directory-tree snapshot.
pub enum FsNode {
    /// A regular file and its size in bytes.
    File { size: u64 },
    /// A directory and its immediate children.
    Dir { children: Vec<FsNode> },
    /// A symbolic link. Whatever it points at is never followed.
    Symlink { target: Box<FsNode> },
    /// Anything else (a device, a socket).
    Other,
}

/// The recursive size of a node: the size of a regular file, the sum over a
/// directory's children, and zero for a symbolic link or anything else.
pub open spec fn spec_size(node: FsNode) -> nat
    decreases node,
{
    match node {
        FsNode::File { size } => size as nat,
        FsNode::Dir { children } => spec_size_seq(children@),
        FsNode::Symlink { .. } => 0,
        FsNode::Other => 0,
    }
}

/// The sum of the recursive sizes of a sequence of nodes.
pub open spec fn spec_size_seq(s: Seq<FsNode>) -> nat
    decreases s,
{
    if s.len() == 0 {
        0
    } else {
        spec_size_seq(s.drop_last()) + spec_size(s.last())
    }
}

/// Law: the subtree behind a symbolic link never contributes to a size,
/// whatever it holds — even a tree that models a cycle of links back into
/// its parent.
pub proof fn lemma_symlink_never_followed(target: Box<FsNode>)
    ensures
        spec_size(FsNode::Symlink { target }) == 0,
{
}

/// The size capped at the largest representable value.
pub open spec fn capped(n: nat) -> nat {
    if n <= u64::MAX {
        n
    } else {
        u64::MAX as nat
    }
}

/// Computes the recursive size of a snapshot, saturating at the largest
/// representable value. Symbolic links and their targets contribute nothing.
#[verifier::loop_isolation(false)]
pub fn calculate_path_size(node: &FsNode) -> (r: u64)
    ensures
        r as nat == capped(spec_size(*node)),
    decreases *node,
{
    match node {
        FsNode::File { size } => *size,
        FsNode::Dir { children } => {
            let mut total: u64 = 0;
            let mut i: usize = 0;
            proof {
                assert(children@.subrange(0, 0) =~= Seq::<FsNode>::empty());
            }
            while i < children.len()
                invariant
                    0 <= i <= children@.len(),
                    total as nat == capped(spec_size_seq(children@.subrange(0, i as int))),
                decreases children@.len() - i,
            {
                proof {
                    assert(decreases_to!(*node => children@[i as int]));
                }
                let s = calculate_path_size(&children[i]);
                proof {
                    assert(children@.subrange(0, i as int + 1).drop_last() =~= children@.subrange(
                        0,
                        i as int,
                    ));
                    assert(children@.subrange(0, i as int + 1).last() == children@[i as int]);
                }
                total = total.saturating_add(s);
                i = i + 1;
            }
            proof {
                assert(children@.subrange(0, children@.len() as int) =~= children@);
            }
            total
        },
        FsNode::Symlink { .. } => 0,
        FsNode::Other => 0,
    }
}

} // verus!
