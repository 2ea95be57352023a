//! Depth-bounded tree preview of a directory.
//!
//! Within the depth bound a node carries its sorted non-hidden children;
//! past the bound it carries none, but its size is still the full recursive
//! total, so the reported sizes do not depend on the chosen depth.

use vstd::prelude::*;
use crate::order::{key_lt, key_lt_exec, EntryKey};
use crate::snapshot::{
    directory_size, entry_is_dir, entry_name, entry_size, is_hidden, is_hidden_name, sat64,
    sat_add64, spec_name, visible_size, Entry,
};
use crate::sorting::{insert_by, lemma_insert_by_at, sort_by_key, Keyed};

verus! {

/// One node of the tree preview.
#[derive(Debug)]
pub struct DirectoryNode {
    pub name: String,
    pub is_directory: bool,
    pub size: u64,
    pub children: Option<Vec<DirectoryNode>>,
}

/// A tree node as mathematical values.
pub struct NodeView {
    pub name: Seq<char>,
    pub is_directory: bool,
    pub size: nat,
    pub children: Option<Seq<NodeView>>,
}

impl Keyed for NodeView {
    open spec fn key(&self) -> EntryKey {
        EntryKey { is_directory: self.is_directory, name: self.name }
    }
}

/// The mathematical content of a tree node.
pub open spec fn node_view(n: DirectoryNode) -> NodeView
    decreases n,
{
    NodeView {
        name: n.name@,
        is_directory: n.is_directory,
        size: n.size as nat,
        children: match n.children {
            Option::None => Option::None,
            Option::Some(cs) => Option::Some(nodes_view(cs@)),
        },
    }
}

/// The contents of a vector of tree nodes.
pub open spec fn nodes_view(s: Seq<DirectoryNode>) -> Seq<NodeView>
    decreases s,
{
    if s.len() == 0 {
        Seq::empty()
    } else {
        nodes_view(s.drop_last()).push(node_view(s.last()))
    }
}

pub proof fn lemma_nodes_view_elts(s: Seq<DirectoryNode>)
    ensures
        nodes_view(s).len() == s.len(),
        forall|i: int| 0 <= i < s.len() ==> nodes_view(s)[i] == node_view(s[i]),
    decreases s.len(),
{
    if s.len() != 0 {
        lemma_nodes_view_elts(s.drop_last());
    }
}

/// The node that the tree builder owes for `e` at depth `depth` under the
/// bound `max_depth`.
pub open spec fn node_spec(e: Entry, depth: nat, max_depth: nat) -> NodeView
    decreases e,
{
    NodeView {
        name: spec_name(e),
        is_directory: e is Dir,
        size: sat64(entry_size(e)),
        children: match e {
            Entry::File { .. } => Option::None,
            Entry::Dir { children, .. } => if depth < max_depth {
                Option::Some(
                    sort_by_key(children_specs(children@, (depth + 1) as nat, max_depth)),
                )
            } else {
                Option::None
            },
        },
    }
}

/// Nodes of the non-hidden entries of `s`, in input order.
pub open spec fn children_specs(s: Seq<Entry>, depth: nat, max_depth: nat) -> Seq<NodeView>
    decreases s,
{
    if s.len() == 0 {
        Seq::empty()
    } else {
        let rest = children_specs(s.drop_last(), depth, max_depth);
        if is_hidden_name(spec_name(s.last())) {
            rest
        } else {
            rest.push(node_spec(s.last(), depth, max_depth))
        }
    }
}

/// Place one node into an already sorted vector, after every node it does
/// not strictly precede.
fn insert_node(nodes: &mut Vec<DirectoryNode>, node: DirectoryNode)
    ensures
        nodes_view(final(nodes)@) == insert_by(nodes_view(old(nodes)@), node_view(node)),
{
    let ghost rv = nodes_view(nodes@);
    let ghost x = node_view(node);
    proof {
        lemma_nodes_view_elts(nodes@);
    }
    let mut p: usize = 0;
    while p < nodes.len() && !key_lt_exec(
        node.is_directory,
        &node.name,
        nodes[p].is_directory,
        &nodes[p].name,
    )
        invariant
            *nodes == *old(nodes),
            rv == nodes_view(nodes@),
            x == node_view(node),
            rv.len() == nodes@.len(),
            forall|i: int| 0 <= i < nodes@.len() ==> rv[i] == node_view(nodes@[i]),
            p <= nodes.len(),
            forall|k: int| 0 <= k < p ==> !key_lt(x.key(), rv[k].key()),
        decreases nodes.len() - p,
    {
        p = p + 1;
    }
    proof {
        assert(p < nodes@.len() ==> key_lt(x.key(), rv[p as int].key()));
        lemma_insert_by_at(rv, x, p as int);
    }
    nodes.insert(p, node);
    proof {
        rv.insert_ensures(p as int, x);
        lemma_nodes_view_elts(nodes@);
        assert(nodes_view(nodes@) =~= rv.insert(p as int, x));
    }
}

/// Build the preview node of `e`.
///
/// A file is a leaf with its own size. A directory within the depth bound
/// carries its sorted non-hidden children and the sum of their sizes; at
/// the bound it carries no children but still the recursive total, clamped
/// to `u64` exactly as [`directory_size`] reports it.
pub fn build_tree(e: &Entry, current_depth: usize, max_depth: usize) -> (r: DirectoryNode)
    ensures
        node_view(r) == node_spec(*e, current_depth as nat, max_depth as nat),
    decreases *e,
{
    match e {
        Entry::File { name, size } => DirectoryNode {
            name: name.clone(),
            is_directory: false,
            size: *size,
            children: Option::None,
        },
        Entry::Dir { name, children } => {
            if current_depth < max_depth {
                let ghost d1 = (current_depth + 1) as nat;
                let ghost md = max_depth as nat;
                let mut nodes: Vec<DirectoryNode> = Vec::new();
                let mut total: u64 = 0;
                let mut j: usize = 0;
                proof {
                    assert(children@.subrange(0, 0) =~= Seq::<Entry>::empty());
                    assert(nodes_view(nodes@) =~= Seq::<NodeView>::empty());
                }
                while j < children.len()
                    invariant
                        (*e) is Dir,
                        (*e)->children == *children,
                        current_depth < max_depth,
                        d1 == (current_depth + 1) as nat,
                        md == max_depth as nat,
                        j <= children.len(),
                        total as nat == sat64(visible_size(children@.subrange(0, j as int))),
                        nodes_view(nodes@) == sort_by_key(
                            children_specs(children@.subrange(0, j as int), d1, md),
                        ),
                    decreases children.len() - j,
                {
                    let ghost prefix = children@.subrange(0, j as int);
                    let ghost prefix1 = children@.subrange(0, j as int + 1);
                    proof {
                        assert(prefix1.drop_last() =~= prefix);
                        assert(prefix1.last() == children@[j as int]);
                    }
                    let c = &children[j];
                    if !is_hidden(entry_name(c)) {
                        proof {
                            assert(*c == children@[j as int]);
                            assert(decreases_to!(*e => (*e)->children));
                            assert(decreases_to!((*e)->children => (*e)->children[j as int]));
                            assert(decreases_to!(*e => *c));
                        }
                        let child = build_tree(c, current_depth + 1, max_depth);
                        proof {
                            assert(node_view(child).size == child.size as nat);
                            assert(child.size as nat == sat64(entry_size(*c)));
                            assert(visible_size(prefix1) == visible_size(prefix) + entry_size(*c));
                            assert(children_specs(prefix1, d1, md) == children_specs(
                                prefix,
                                d1,
                                md,
                            ).push(node_spec(*c, d1, md)));
                            assert(children_specs(prefix1, d1, md).drop_last() =~= children_specs(
                                prefix,
                                d1,
                                md,
                            ));
                        }
                        total = sat_add64(total, child.size);
                        insert_node(&mut nodes, child);
                    } else {
                        proof {
                            assert(visible_size(prefix1) == visible_size(prefix));
                            assert(children_specs(prefix1, d1, md) == children_specs(
                                prefix,
                                d1,
                                md,
                            ));
                        }
                    }
                    j = j + 1;
                }
                proof {
                    assert(children@.subrange(0, children@.len() as int) =~= children@);
                }
                DirectoryNode {
                    name: name.clone(),
                    is_directory: true,
                    size: total,
                    children: Option::Some(nodes),
                }
            } else {
                let size = directory_size(e);
                DirectoryNode {
                    name: name.clone(),
                    is_directory: true,
                    size,
                    children: Option::None,
                }
            }
        },
    }
}

/// The depth bound defaults to three levels when the caller passes nothing.
pub open spec fn depth_flag(o: Option<usize>) -> nat {
    match o {
        Option::Some(d) => d as nat,
        Option::None => 3,
    }
}

/// The tree preview of a directory.
///
/// With a missing root the call fails with "Folder does not exist"; with a
/// file as root it fails with "Path is not a directory"; otherwise it
/// returns exactly the node that [`node_spec`] owes for the root at depth
/// zero.
pub fn list_directory_tree(root: &Option<Entry>, max_depth: Option<usize>) -> (r: Result<
    DirectoryNode,
    String,
>)
    ensures
        root is None ==> (r matches Result::Err(m) && m@ == "Folder does not exist"@),
        root matches Some(e) ==> (e is File ==> (r matches Result::Err(m) && m@
            == "Path is not a directory"@)),
        root matches Some(e) ==> (e is Dir ==> (r matches Result::Ok(n) && node_view(n)
            == node_spec(*e, 0, depth_flag(max_depth)))),
{
    match root {
        Option::None => Result::Err("Folder does not exist".to_owned()),
        Option::Some(e) => match e {
            Entry::File { .. } => Result::Err("Path is not a directory".to_owned()),
            Entry::Dir { .. } => {
                let depth_bound = match max_depth {
                    Option::Some(d) => d,
                    Option::None => 3,
                };
                Result::Ok(build_tree(e, 0, depth_bound))
            },
        },
    }
}

} // verus!
