//! Flat directory listing.
//!
//! One level of a directory snapshot, hidden entries skipped, each file
//! classified by its extension and each folder sized recursively, ordered
//! folders-first and case-insensitively by name.

use vstd::prelude::*;
use vstd::string::StringExecFns;
use crate::classify::{file_type_spec, get_file_type};
use crate::order::{EntryKey, key_lt, key_lt_exec};
use crate::paths::{extension_of, extension_of_exec, joined, join_path};
use crate::snapshot::{
    directory_size, Entry, entry_is_dir, entry_name, entry_size, is_hidden, is_hidden_name, sat64,
    spec_name,
};
use crate::sorting::{insert_by, lemma_insert_by_at, sort_by_key, Keyed};

verus! {

/// One row of a flat directory listing.
#[derive(Debug, Clone)]
pub struct FileInfo {
    pub path: String,
    pub name: String,
    pub file_type: String,
    pub size: u64,
    pub is_directory: bool,
}

/// A listing row as mathematical values.
pub struct InfoView {
    pub path: Seq<char>,
    pub name: Seq<char>,
    pub file_type: Seq<char>,
    pub size: nat,
    pub is_directory: bool,
}

impl Keyed for InfoView {
    open spec fn key(&self) -> EntryKey {
        EntryKey { is_directory: self.is_directory, name: self.name }
    }
}

/// The mathematical content of a row.
pub open spec fn info_view(f: FileInfo) -> InfoView {
    InfoView {
        path: f.path@,
        name: f.name@,
        file_type: f.file_type@,
        size: f.size as nat,
        is_directory: f.is_directory,
    }
}

/// The contents of a whole row vector.
pub open spec fn rows_view(s: Seq<FileInfo>) -> Seq<InfoView> {
    Seq::new(s.len(), |i: int| info_view(s[i]))
}

/// The row that one snapshot entry yields, beneath the directory `dir`.
pub open spec fn info_of(dir: Seq<char>, e: Entry) -> InfoView {
    InfoView {
        path: joined(dir, spec_name(e)),
        name: spec_name(e),
        file_type: if e is Dir {
            "folder"@
        } else {
            file_type_spec(extension_of(spec_name(e)))
        },
        size: sat64(entry_size(e)),
        is_directory: e is Dir,
    }
}

/// Rows of the non-hidden entries of `s`, in input order; directory rows
/// appear only when `include_folders` is set.
pub open spec fn infos_of(dir: Seq<char>, s: Seq<Entry>, include_folders: bool) -> Seq<InfoView>
    decreases s,
{
    if s.len() == 0 {
        Seq::empty()
    } else {
        let rest = infos_of(dir, s.drop_last(), include_folders);
        if is_hidden_name(spec_name(s.last())) || (s.last() is Dir && !include_folders) {
            rest
        } else {
            rest.push(info_of(dir, s.last()))
        }
    }
}

/// The whole flat listing of a directory's children, sorted.
pub open spec fn listing_spec(dir: Seq<char>, s: Seq<Entry>, include_folders: bool) -> Seq<
    InfoView,
> {
    sort_by_key(infos_of(dir, s, include_folders))
}

/// The folder filter defaults to files-only when the caller passes nothing.
pub open spec fn include_flag(o: Option<bool>) -> bool {
    match o {
        Option::Some(b) => b,
        Option::None => false,
    }
}

/// Place one row into an already sorted vector, after every row it does not
/// strictly precede.
fn insert_row(rows: &mut Vec<FileInfo>, row: FileInfo)
    ensures
        rows_view(final(rows)@) == insert_by(rows_view(old(rows)@), info_view(row)),
{
    let ghost rv = rows_view(rows@);
    let ghost x = info_view(row);
    let mut p: usize = 0;
    while p < rows.len() && !key_lt_exec(
        row.is_directory,
        &row.name,
        rows[p].is_directory,
        &rows[p].name,
    )
        invariant
            *rows == *old(rows),
            rv == rows_view(rows@),
            x == info_view(row),
            p <= rows.len(),
            forall|k: int| 0 <= k < p ==> !key_lt(x.key(), rv[k].key()),
        decreases rows.len() - p,
    {
        proof {
            assert(rv[p as int] == info_view(rows@[p as int]));
        }
        p = p + 1;
    }
    proof {
        assert(p < rows@.len() ==> key_lt(x.key(), rv[p as int].key()));
        lemma_insert_by_at(rv, x, p as int);
    }
    rows.insert(p, row);
    proof {
        rv.insert_ensures(p as int, x);
        assert(rows_view(rows@) =~= rv.insert(p as int, x));
    }
}

/// The flat listing of a directory.
///
/// With a missing root the call fails with "Folder does not exist"; with a
/// file as root it fails with "Path is not a directory"; otherwise it
/// returns exactly the sorted rows of the root's non-hidden children.
pub fn list_files(folder_path: &String, root: &Option<Entry>, include_folders: Option<bool>) -> (r:
    Result<Vec<FileInfo>, String>)
    ensures
        root is None ==> (r matches Result::Err(m) && m@ == "Folder does not exist"@),
        root matches Some(e) ==> (e is File ==> (r matches Result::Err(m) && m@
            == "Path is not a directory"@)),
        root matches Some(e) ==> (e is Dir ==> (r matches Result::Ok(rows) && rows_view(rows@)
            == listing_spec(folder_path@, e->children@, include_flag(include_folders)))),
{
    match root {
        Option::None => Result::Err("Folder does not exist".to_owned()),
        Option::Some(e) => match e {
            Entry::File { .. } => Result::Err("Path is not a directory".to_owned()),
            Entry::Dir { children, .. } => {
                let with_folders = match include_folders {
                    Option::Some(b) => b,
                    Option::None => false,
                };
                let ghost dirv = folder_path@;
                let mut rows: Vec<FileInfo> = Vec::new();
                let mut j: usize = 0;
                proof {
                    assert(children@.subrange(0, 0) =~= Seq::<Entry>::empty());
                    assert(rows_view(rows@) =~= Seq::<InfoView>::empty());
                }
                while j < children.len()
                    invariant
                        j <= children.len(),
                        with_folders == include_flag(include_folders),
                        dirv == folder_path@,
                        rows_view(rows@) == sort_by_key(
                            infos_of(dirv, children@.subrange(0, j as int), with_folders),
                        ),
                    decreases children.len() - j,
                {
                    let ghost prefix = children@.subrange(0, j as int);
                    let ghost prefix1 = children@.subrange(0, j as int + 1);
                    proof {
                        assert(prefix1.drop_last() =~= prefix);
                        assert(prefix1.last() == children@[j as int]);
                    }
                    let c = &children[j];
                    let hidden = is_hidden(entry_name(c));
                    let is_dir = entry_is_dir(c);
                    if !hidden && (with_folders || !is_dir) {
                        let name = entry_name(c).clone();
                        let path = join_path(folder_path, &name);
                        let file_type = if is_dir {
                            "folder".to_owned()
                        } else {
                            get_file_type(extension_of_exec(name.as_str()).as_str())
                        };
                        let size = directory_size(c);
                        let row = FileInfo { path, name, file_type, size, is_directory: is_dir };
                        proof {
                            assert(info_view(row) == info_of(dirv, *c));
                            assert(infos_of(dirv, prefix1, with_folders) == infos_of(
                                dirv,
                                prefix,
                                with_folders,
                            ).push(info_of(dirv, *c)));
                            assert(infos_of(dirv, prefix1, with_folders).drop_last() =~= infos_of(
                                dirv,
                                prefix,
                                with_folders,
                            ));
                        }
                        insert_row(&mut rows, row);
                    } else {
                        proof {
                            assert(infos_of(dirv, prefix1, with_folders) == infos_of(
                                dirv,
                                prefix,
                                with_folders,
                            ));
                        }
                    }
                    j = j + 1;
                }
                proof {
                    assert(children@.subrange(0, children@.len() as int) =~= children@);
                }
                Result::Ok(rows)
            },
        },
    }
}

} // verus!
