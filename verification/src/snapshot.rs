//! In-memory snapshot of a directory subtree.
//!
//! The host reads the live filesystem into an [`Entry`] tree and hands it to
//! the verified operations. Hidden entries (name starting with `.`) are kept
//! in the snapshot but ignored by every aggregation, in line with the
//! listing policy.

use vstd::prelude::*;
use vstd::string::StrSliceExecFns;

verus! {

/// One filesystem entry: a file with its byte size, or a directory with its
/// immediate children in the order the host enumerated them.
#[derive(Debug)]
pub enum Entry {
    File { name: String, size: u64 },
    Dir { name: String, children: Vec<Entry> },
}

/// A name marks a hidden entry when it starts with a dot.
pub open spec fn is_hidden_name(name: Seq<char>) -> bool {
    name.len() > 0 && name[0] == '.'
}

/// The name of an entry.
pub open spec fn spec_name(e: Entry) -> Seq<char> {
    match e {
        Entry::File { name, .. } => name@,
        Entry::Dir { name, .. } => name@,
    }
}

/// Whether an entry is a directory.
pub open spec fn spec_is_dir(e: Entry) -> bool {
    e is Dir
}

/// Clamp a mathematical size to what a `u64` can report.
pub open spec fn sat64(n: nat) -> nat {
    if n > u64::MAX as nat {
        u64::MAX as nat
    } else {
        n
    }
}

/// Clamp a mathematical count to what a `usize` can report.
pub open spec fn sat_usize(n: nat) -> nat {
    if n > usize::MAX as nat {
        usize::MAX as nat
    } else {
        n
    }
}

/// Total size of an entry: a file's own size; for a directory, the sum of
/// the sizes of its non-hidden entries, transitively.
pub open spec fn entry_size(e: Entry) -> nat
    decreases e,
{
    match e {
        Entry::File { size, .. } => size as nat,
        Entry::Dir { children, .. } => visible_size(children@),
    }
}

/// Sum of [`entry_size`] over the non-hidden entries of a sequence.
pub open spec fn visible_size(s: Seq<Entry>) -> nat
    decreases s,
{
    if s.len() == 0 {
        0
    } else {
        visible_size(s.drop_last()) + if is_hidden_name(spec_name(s.last())) {
            0
        } else {
            entry_size(s.last())
        }
    }
}

/// Number of non-hidden files transitively beneath the entries of a
/// sequence (recursing only into non-hidden directories).
pub open spec fn visible_file_count(s: Seq<Entry>) -> nat
    decreases s,
{
    if s.len() == 0 {
        0
    } else {
        visible_file_count(s.drop_last()) + if is_hidden_name(spec_name(s.last())) {
            0
        } else {
            match s.last() {
                Entry::File { .. } => 1,
                Entry::Dir { children, .. } => visible_file_count(children@),
            }
        }
    }
}

/// Number of non-hidden folders transitively beneath the entries of a
/// sequence; a folder counts itself as well as its contents.
pub open spec fn visible_folder_count(s: Seq<Entry>) -> nat
    decreases s,
{
    if s.len() == 0 {
        0
    } else {
        visible_folder_count(s.drop_last()) + if is_hidden_name(spec_name(s.last())) {
            0
        } else {
            match s.last() {
                Entry::File { .. } => 0,
                Entry::Dir { children, .. } => 1 + visible_folder_count(children@),
            }
        }
    }
}

/// The name of an entry, shared with the caller.
pub fn entry_name(e: &Entry) -> (r: &String)
    ensures
        r@ == spec_name(*e),
{
    match e {
        Entry::File { name, .. } => name,
        Entry::Dir { name, .. } => name,
    }
}

/// Whether an entry is a directory.
pub fn entry_is_dir(e: &Entry) -> (r: bool)
    ensures
        r == spec_is_dir(*e),
{
    match e {
        Entry::File { .. } => false,
        Entry::Dir { .. } => true,
    }
}

/// Whether a name marks a hidden entry.
pub fn is_hidden(name: &String) -> (r: bool)
    ensures
        r == is_hidden_name(name@),
{
    let s = name.as_str();
    if s.unicode_len() == 0 {
        false
    } else {
        s.get_char(0) == '.'
    }
}

/// Add two sizes, clamping at the largest reportable value.
pub fn sat_add64(a: u64, b: u64) -> (r: u64)
    ensures
        r as nat == sat64(a as nat + b as nat),
{
    if b > u64::MAX - a {
        u64::MAX
    } else {
        a + b
    }
}

/// Add two counts, clamping at the largest reportable value.
pub fn sat_add_usize(a: usize, b: usize) -> (r: usize)
    ensures
        r as nat == sat_usize(a as nat + b as nat),
{
    if b > usize::MAX - a {
        usize::MAX
    } else {
        a + b
    }
}

/// Clamping twice clamps once: folding clamped partial sums yields the
/// clamp of the full sum.
proof fn lemma_sat64_add(a: nat, b: nat)
    ensures
        sat64(sat64(a) + b) == sat64(a + b),
        sat64(a + sat64(b)) == sat64(a + b),
{
}

proof fn lemma_sat_usize_add(a: nat, b: nat)
    ensures
        sat_usize(sat_usize(a) + b) == sat_usize(a + b),
        sat_usize(a + sat_usize(b)) == sat_usize(a + b),
{
}

/// Recursive total size of an entry, skipping hidden entries. For every
/// input the result is the true sum clamped to `u64`; in particular, when
/// the sum fits, it is exact.
pub fn directory_size(e: &Entry) -> (r: u64)
    ensures
        r as nat == sat64(entry_size(*e)),
    decreases *e,
{
    match e {
        Entry::File { size, .. } => *size,
        Entry::Dir { children, .. } => {
            let mut total: u64 = 0;
            let mut j: usize = 0;
            assert(children@.subrange(0, 0) =~= Seq::<Entry>::empty());
            while j < children.len()
                invariant
                    (*e) is Dir,
                    (*e)->children == *children,
                    j <= children.len(),
                    total as nat == sat64(visible_size(children@.subrange(0, j as int))),
                decreases children.len() - j,
            {
                let ghost prefix = children@.subrange(0, j as int);
                let ghost prefix1 = children@.subrange(0, j as int + 1);
                proof {
                    assert(prefix1.drop_last() =~= prefix);
                    assert(prefix1.last() == children@[j as int]);
                }
                let c = &children[j];
                if !is_hidden(entry_name(c)) {
                    proof {
                        assert(*c == children@[j as int]);
                        assert(decreases_to!(*e => (*e)->children));
                        assert(decreases_to!((*e)->children => (*e)->children[j as int]));
                        assert(decreases_to!(*e => *c));
                    }
                    let s = directory_size(c);
                    proof {
                        lemma_sat64_add(visible_size(prefix), entry_size(*c));
                        lemma_sat64_add(visible_size(prefix) + entry_size(*c), 0);
                        assert(visible_size(prefix1) == visible_size(prefix) + entry_size(*c));
                    }
                    total = sat_add64(total, s);
                    proof {
                        lemma_sat64_add(visible_size(prefix), entry_size(*c));
                    }
                } else {
                    assert(visible_size(prefix1) == visible_size(prefix));
                }
                j = j + 1;
            }
            proof {
                assert(children@.subrange(0, children@.len() as int) =~= children@);
            }
            total
        },
    }
}

/// Count the non-hidden files and folders transitively beneath a directory
/// entry's children. Returns `(file_count, folder_count)`, each the true
/// count clamped to `usize`.
pub fn count_visible(children: &Vec<Entry>) -> (r: (usize, usize))
    ensures
        r.0 as nat == sat_usize(visible_file_count(children@)),
        r.1 as nat == sat_usize(visible_folder_count(children@)),
    decreases children@,
{
    let mut files: usize = 0;
    let mut folders: usize = 0;
    let mut j: usize = 0;
    assert(children@.subrange(0, 0) =~= Seq::<Entry>::empty());
    while j < children.len()
        invariant
            j <= children.len(),
            files as nat == sat_usize(visible_file_count(children@.subrange(0, j as int))),
            folders as nat == sat_usize(visible_folder_count(children@.subrange(0, j as int))),
        decreases children.len() - j,
    {
        let ghost prefix = children@.subrange(0, j as int);
        let ghost prefix1 = children@.subrange(0, j as int + 1);
        proof {
            assert(prefix1.drop_last() =~= prefix);
            assert(prefix1.last() == children@[j as int]);
        }
        let c = &children[j];
        if !is_hidden(entry_name(c)) {
            match c {
                Entry::File { .. } => {
                    proof {
                        lemma_sat_usize_add(visible_file_count(prefix), 1);
                    }
                    files = sat_add_usize(files, 1);
                    assert(visible_folder_count(prefix1) == visible_folder_count(prefix));
                },
                Entry::Dir { children: sub, .. } => {
                    proof {
                        assert(*c == children@[j as int]);
                        assert(decreases_to!(children@ => children@[j as int]));
                        assert(decreases_to!(*c => (*c)->children));
                        assert(decreases_to!((*c)->children => (*c)->children@));
                        assert(decreases_to!(children@ => sub@));
                    }
                    let (f, d) = count_visible(sub);
                    proof {
                        lemma_sat_usize_add(visible_file_count(sub@), visible_file_count(prefix));
                        lemma_sat_usize_add(visible_file_count(prefix), visible_file_count(sub@));
                        lemma_sat_usize_add(visible_folder_count(prefix), 1 + visible_folder_count(sub@));
                        lemma_sat_usize_add(visible_folder_count(sub@), visible_folder_count(prefix) + 1);
                        lemma_sat_usize_add(visible_folder_count(prefix) + 1, visible_folder_count(sub@));
                    }
                    files = sat_add_usize(files, f);
                    folders = sat_add_usize(folders, 1);
                    folders = sat_add_usize(folders, d);
                },
            }
        } else {
            proof {
                assert(visible_file_count(prefix1) == visible_file_count(prefix));
                assert(visible_folder_count(prefix1) == visible_folder_count(prefix));
            }
        }
        j = j + 1;
    }
    proof {
        assert(children@.subrange(0, children@.len() as int) =~= children@);
    }
    (files, folders)
}

/// Count the non-hidden files and folders beneath a directory, for the
/// confirmation prompt before a destructive operation.
///
/// With a missing root the call fails with "Folder does not exist"; with a
/// file as root it fails with "Path is not a directory"; otherwise it
/// returns `(file_count, folder_count)`, each clamped to `usize`.
pub fn get_folder_contents_count(root: &Option<Entry>) -> (r: Result<(usize, usize), String>)
    ensures
        root is None ==> (r matches Result::Err(m) && m@ == "Folder does not exist"@),
        root matches Some(e) ==> (e is File ==> (r matches Result::Err(m) && m@
            == "Path is not a directory"@)),
        root matches Some(e) ==> (e is Dir ==> (r matches Result::Ok(c) && c.0 as nat == sat_usize(
            visible_file_count(e->children@),
        ) && c.1 as nat == sat_usize(visible_folder_count(e->children@)))),
{
    match root {
        Option::None => Result::Err("Folder does not exist".to_owned()),
        Option::Some(e) => match e {
            Entry::File { .. } => Result::Err("Path is not a directory".to_owned()),
            Entry::Dir { children, .. } => Result::Ok(count_visible(children)),
        },
    }
}

} // verus!
