//! Single-file metadata.
//!
//! The host stats one path and reports the outcome; from it and the path
//! text this module builds the descriptor the browsing view shows.

use vstd::prelude::*;
use vstd::string::StringExecFns;
use crate::classify::{file_type_spec, get_file_type};
use crate::paths::{extension_of, extension_of_exec, file_name_of, file_name_of_exec};

verus! {

/// What the host found when it statted a path.
#[derive(Debug, Clone)]
pub enum StatOutcome {
    /// The path does not exist at call time.
    Missing,
    /// The path exists but its metadata could not be read; the text is the
    /// underlying error.
    Unreadable(String),
    /// The path exists and has this byte size.
    Found { size: u64 },
}

/// Descriptor of one file.
#[derive(Debug)]
pub struct FileMetadata {
    pub path: String,
    pub name: String,
    pub file_type: String,
    pub size: u64,
    pub extension: String,
}

/// Metadata of the file at `file_path`, given the host's stat outcome for
/// exactly that path.
///
/// A missing path fails with "File does not exist"; an unreadable one with
/// "Failed to get metadata: " and the underlying error; otherwise every
/// field is determined by the path text and the reported size.
pub fn get_file_metadata(file_path: String, stat: &StatOutcome) -> (r: Result<
    FileMetadata,
    String,
>)
    ensures
        stat is Missing ==> (r matches Result::Err(m) && m@ == "File does not exist"@),
        stat matches StatOutcome::Unreadable(e) ==> (r matches Result::Err(m) && m@
            == "Failed to get metadata: "@ + e@),
        stat matches StatOutcome::Found { size } ==> (r matches Result::Ok(meta) && {
            &&& meta.path == file_path
            &&& meta.name@ == file_name_of(file_path@)
            &&& meta.extension@ == extension_of(file_name_of(file_path@))
            &&& meta.file_type@ == file_type_spec(extension_of(file_name_of(file_path@)))
            &&& meta.size == size
        }),
{
    match stat {
        StatOutcome::Missing => Result::Err("File does not exist".to_owned()),
        StatOutcome::Unreadable(e) => {
            let msg = "Failed to get metadata: ".to_owned().concat(e.as_str());
            Result::Err(msg)
        },
        StatOutcome::Found { size } => {
            let name = file_name_of_exec(file_path.as_str());
            let extension = extension_of_exec(name.as_str());
            let file_type = get_file_type(extension.as_str());
            Result::Ok(FileMetadata { path: file_path, name, file_type, size: *size, extension })
        },
    }
}

} // verus!
