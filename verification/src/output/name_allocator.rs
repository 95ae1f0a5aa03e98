//! Names for new entries of a materialized directory, chosen by the conflict policy.
use vstd::prelude::*;

use crate::model::vfs::{spec_node_name, VfsDirectory, VfsNode};
use crate::policy::{texts, ConflictPolicy, FormattingPolicy, NamingPolicy, PolicySet};
use crate::text::str_eq;

verus! {

/// The names of a directory's children, in order.
pub open spec fn node_names(children: Seq<VfsNode>) -> Seq<Seq<char>> {
    children.map_values(|n: VfsNode| spec_node_name(n))
}

/// The names of a directory's child directories, in order.
pub open spec fn directory_names(children: Seq<VfsNode>) -> Seq<Seq<char>>
    decreases children.len(),
{
    if children.len() == 0 {
        Seq::empty()
    } else {
        let rest = directory_names(children.drop_last());
        match children.last() {
            VfsNode::Directory(d) => rest.push(d.name@),
            VfsNode::File(_) => rest,
        }
    }
}

/// The name a new file gets: the conflict policy's choice next to every child.
pub fn allocate_file_name<N: NamingPolicy, F: FormattingPolicy, C: ConflictPolicy>(
    directory: &VfsDirectory,
    proposed: &str,
    policy: &PolicySet<N, F, C>,
) -> (r: String)
    ensures
        r@ == policy.conflict.resolved(proposed@, node_names(directory.children@)),
{
    let mut existing: Vec<String> = Vec::new();
    let mut i: usize = 0;
    while i < directory.children.len()
        invariant
            i <= directory.children@.len(),
            texts(existing@) == node_names(directory.children@.take(i as int)),
        decreases directory.children@.len() - i,
    {
        let ghost before = existing@;
        let name = directory.children[i].name();
        existing.push(String::from_str(name));
        proof {
            assert(texts(existing@) =~= texts(before).push(name@));
            assert(node_names(directory.children@.take(i + 1)) =~= node_names(directory.children@.take(i as int)).push(
                spec_node_name(directory.children@[i as int]),
            ));
        }
        i = i + 1;
    }
    assert(directory.children@.take(directory.children@.len() as int) =~= directory.children@);
    policy.resolve_name_conflict(proposed, existing.as_slice())
}

/// The name a directory gets: an existing child directory's name is reused, otherwise
/// the conflict policy chooses next to the child directories.
pub fn allocate_directory_name<N: NamingPolicy, F: FormattingPolicy, C: ConflictPolicy>(
    directory: &VfsDirectory,
    proposed: &str,
    policy: &PolicySet<N, F, C>,
) -> (r: String)
    ensures
        directory_names(directory.children@).contains(proposed@) ==> r@ == proposed@,
        !directory_names(directory.children@).contains(proposed@) ==> r@ == policy.conflict.resolved(
            proposed@,
            directory_names(directory.children@),
        ),
{
    let mut existing: Vec<String> = Vec::new();
    let mut found = false;
    let mut i: usize = 0;
    while i < directory.children.len()
        invariant
            i <= directory.children@.len(),
            texts(existing@) == directory_names(directory.children@.take(i as int)),
            found == directory_names(directory.children@.take(i as int)).contains(proposed@),
        decreases directory.children@.len() - i,
    {
        let ghost prefix = directory.children@.take(i as int);
        let ghost next = directory.children@.take(i + 1);
        assert(next.drop_last() =~= prefix);
        match &directory.children[i] {
            VfsNode::Directory(d) => {
                let ghost before = existing@;
                if str_eq(d.name.as_str(), proposed) {
                    found = true;
                }
                existing.push(d.name.clone());
                proof {
                    assert(texts(existing@) =~= texts(before).push(d.name@));
                    let names = directory_names(prefix);
                    assert(directory_names(next) == names.push(d.name@));
                    assert(names.push(d.name@).contains(proposed@) == (names.contains(proposed@) || d.name@ == proposed@)) by {
                        if names.push(d.name@).contains(proposed@) {
                            let k = choose|k: int| 0 <= k < names.len() + 1 && names.push(d.name@)[k] == proposed@;
                            if k < names.len() {
                                assert(names[k] == proposed@);
                            }
                        }
                        if names.contains(proposed@) {
                            let k = choose|k: int| 0 <= k < names.len() && names[k] == proposed@;
                            assert(names.push(d.name@)[k] == proposed@);
                        }
                        if d.name@ == proposed@ {
                            assert(names.push(d.name@)[names.len() as int] == proposed@);
                        }
                    }
                }
            },
            VfsNode::File(_) => {
                assert(directory_names(next) == directory_names(prefix));
            },
        }
        i = i + 1;
    }
    assert(directory.children@.take(directory.children@.len() as int) =~= directory.children@);
    if found {
        String::from_str(proposed)
    } else {
        policy.resolve_name_conflict(proposed, existing.as_slice())
    }
}

} // verus!
