//! Cross-cutting laws of the library, stated and proved over the same
//! spec functions the operations' contracts use.

use vstd::prelude::*;
use crate::listing::{infos_of, listing_spec};
use crate::snapshot::{
    entry_size, is_hidden_name, sat64, spec_name, visible_file_count, visible_folder_count,
    visible_size, Entry,
};
use crate::sorting::{lemma_sort_by_key_contains, lemma_sort_by_key_keys, sort_by_key, Keyed};
use crate::tree::{children_specs, node_spec, NodeView};

verus! {

/// Recursive sum invariant, one level at a time: a further child adds its
/// whole subtree size when it is visible and nothing when it is hidden.
pub proof fn lemma_size_sum_step(s: Seq<Entry>, c: Entry)
    ensures
        visible_size(s.push(c)) == visible_size(s) + if is_hidden_name(spec_name(c)) {
            0
        } else {
            entry_size(c)
        },
{
    assert(s.push(c).drop_last() =~= s);
}

/// The total a tree preview reports at its root does not depend on the
/// depth bound or the starting depth: it is always the clamped recursive
/// size, exactly what the size aggregator reports.
pub proof fn lemma_tree_size_depth_independent(e: Entry, d1: nat, m1: nat, d2: nat, m2: nat)
    ensures
        node_spec(e, d1, m1).size == node_spec(e, d2, m2).size,
        node_spec(e, d1, m1).size == sat64(entry_size(e)),
{
}

/// The rows of a flat listing and the materialized children of a tree
/// preview of the same directory have pointwise equal keys before sorting.
proof fn lemma_infos_nodes_keys(dir: Seq<char>, s: Seq<Entry>, depth: nat, max_depth: nat)
    ensures
        infos_of(dir, s, true).len() == children_specs(s, depth, max_depth).len(),
        forall|i: int|
            0 <= i < infos_of(dir, s, true).len() ==> infos_of(dir, s, true)[i].key()
                == children_specs(s, depth, max_depth)[i].key(),
    decreases s.len(),
{
    if s.len() != 0 {
        lemma_infos_nodes_keys(dir, s.drop_last(), depth, max_depth);
        let ri = infos_of(dir, s.drop_last(), true);
        let rn = children_specs(s.drop_last(), depth, max_depth);
        let ci = infos_of(dir, s, true);
        let cn = children_specs(s, depth, max_depth);
        assert forall|i: int| 0 <= i < ci.len() implies ci[i].key() == cn[i].key() by {
            if is_hidden_name(spec_name(s.last())) {
                assert(ci == ri && cn == rn);
            } else {
                assert(ci == ri.push(infos_of(dir, s, true).last()));
                if i < ri.len() {
                    assert(ci[i] == ri[i] && cn[i] == rn[i]);
                } else {
                    assert(ci[i] == crate::listing::info_of(dir, s.last()));
                    assert(cn[i] == node_spec(s.last(), depth, max_depth));
                }
            }
        }
    }
}

/// A flat listing with folders and the immediate children of a tree
/// preview of the same directory agree item by item on name and kind: the
/// two views present the entries in the same order.
pub proof fn lemma_listing_tree_order_agree(
    dir: Seq<char>,
    s: Seq<Entry>,
    depth: nat,
    max_depth: nat,
)
    ensures
        listing_spec(dir, s, true).len() == sort_by_key(children_specs(s, depth, max_depth)).len(),
        forall|i: int|
            0 <= i < listing_spec(dir, s, true).len() ==> listing_spec(dir, s, true)[i].name
                == sort_by_key(children_specs(s, depth, max_depth))[i].name && listing_spec(
                dir,
                s,
                true,
            )[i].is_directory == sort_by_key(children_specs(s, depth, max_depth))[i].is_directory,
{
    lemma_infos_nodes_keys(dir, s, depth, max_depth);
    lemma_sort_by_key_keys(infos_of(dir, s, true), children_specs(s, depth, max_depth));
    assert forall|i: int| 0 <= i < listing_spec(dir, s, true).len() implies listing_spec(
        dir,
        s,
        true,
    )[i].name == sort_by_key(children_specs(s, depth, max_depth))[i].name && listing_spec(
        dir,
        s,
        true,
    )[i].is_directory == sort_by_key(children_specs(s, depth, max_depth))[i].is_directory by {
        assert(listing_spec(dir, s, true)[i].key() == sort_by_key(
            children_specs(s, depth, max_depth),
        )[i].key());
    }
}

/// No row of a flat listing is hidden, whatever the folder filter.
proof fn lemma_infos_not_hidden(dir: Seq<char>, s: Seq<Entry>, with_folders: bool)
    ensures
        forall|k: int|
            0 <= k < infos_of(dir, s, with_folders).len() ==> !is_hidden_name(
                infos_of(dir, s, with_folders)[k].name,
            ),
    decreases s.len(),
{
    if s.len() != 0 {
        lemma_infos_not_hidden(dir, s.drop_last(), with_folders);
        let rest = infos_of(dir, s.drop_last(), with_folders);
        let cur = infos_of(dir, s, with_folders);
        assert forall|k: int| 0 <= k < cur.len() implies !is_hidden_name(cur[k].name) by {
            if cur != rest {
                assert(cur == rest.push(crate::listing::info_of(dir, s.last())));
                if k < rest.len() {
                    assert(cur[k] == rest[k]);
                } else {
                    assert(cur[k] == crate::listing::info_of(dir, s.last()));
                    assert(!is_hidden_name(spec_name(s.last())));
                }
            }
        }
    }
}

/// Hidden entries never appear in a flat listing.
pub proof fn lemma_hidden_never_listed(dir: Seq<char>, s: Seq<Entry>, with_folders: bool, i: int)
    requires
        0 <= i < listing_spec(dir, s, with_folders).len(),
    ensures
        !is_hidden_name(listing_spec(dir, s, with_folders)[i].name),
{
    let rows = infos_of(dir, s, with_folders);
    let row = listing_spec(dir, s, with_folders)[i];
    assert(sort_by_key(rows).contains(row));
    lemma_sort_by_key_contains(rows, row);
    lemma_infos_not_hidden(dir, s, with_folders);
    let k = choose|k: int| 0 <= k < rows.len() && rows[k] == row;
    assert(!is_hidden_name(rows[k].name));
}

/// No materialized tree child is hidden.
proof fn lemma_children_specs_not_hidden(s: Seq<Entry>, depth: nat, max_depth: nat)
    ensures
        forall|k: int|
            0 <= k < children_specs(s, depth, max_depth).len() ==> !is_hidden_name(
                children_specs(s, depth, max_depth)[k].name,
            ),
    decreases s.len(),
{
    if s.len() != 0 {
        lemma_children_specs_not_hidden(s.drop_last(), depth, max_depth);
        let rest = children_specs(s.drop_last(), depth, max_depth);
        let cur = children_specs(s, depth, max_depth);
        assert forall|k: int| 0 <= k < cur.len() implies !is_hidden_name(cur[k].name) by {
            if cur != rest {
                assert(cur == rest.push(node_spec(s.last(), depth, max_depth)));
                if k < rest.len() {
                    assert(cur[k] == rest[k]);
                } else {
                    assert(cur[k] == node_spec(s.last(), depth, max_depth));
                    assert(!is_hidden_name(spec_name(s.last())));
                }
            }
        }
    }
}

/// Hidden entries never appear among a tree preview's children.
pub proof fn lemma_hidden_never_in_tree(s: Seq<Entry>, depth: nat, max_depth: nat, i: int)
    requires
        0 <= i < sort_by_key(children_specs(s, depth, max_depth)).len(),
    ensures
        !is_hidden_name(sort_by_key(children_specs(s, depth, max_depth))[i].name),
{
    let nodes = children_specs(s, depth, max_depth);
    let node = sort_by_key(nodes)[i];
    assert(sort_by_key(nodes).contains(node));
    lemma_sort_by_key_contains(nodes, node);
    lemma_children_specs_not_hidden(s, depth, max_depth);
    let k = choose|k: int| 0 <= k < nodes.len() && nodes[k] == node;
    assert(!is_hidden_name(nodes[k].name));
}

/// A hidden entry contributes nothing anywhere: adding one to a
/// directory's children changes neither its size, nor its counts, nor its
/// listing, nor its tree children.
pub proof fn lemma_hidden_entry_ignored(
    dir: Seq<char>,
    s: Seq<Entry>,
    h: Entry,
    with_folders: bool,
    depth: nat,
    max_depth: nat,
)
    requires
        is_hidden_name(spec_name(h)),
    ensures
        visible_size(s.push(h)) == visible_size(s),
        visible_file_count(s.push(h)) == visible_file_count(s),
        visible_folder_count(s.push(h)) == visible_folder_count(s),
        infos_of(dir, s.push(h), with_folders) == infos_of(dir, s, with_folders),
        children_specs(s.push(h), depth, max_depth) == children_specs(s, depth, max_depth),
{
    assert(s.push(h).drop_last() =~= s);
}

} // verus!
