//! Text preview of one file.
//!
//! The host reads the file as text and reports the outcome; this module
//! truncates the content to a character budget, so multi-byte encodings
//! cut safely at a character boundary.

use vstd::prelude::*;
use vstd::string::StrSliceExecFns;
use vstd::string::StringExecFns;

verus! {

/// What the host found when it read a path as text.
#[derive(Debug, Clone)]
pub enum ReadOutcome {
    /// The path does not exist at call time.
    Missing,
    /// The file could not be read as text (I/O error or invalid encoding);
    /// the text is the underlying error.
    Unreadable(String),
    /// The file's full text content.
    Content(String),
}

/// The first characters of `content`, at most `max_chars` of them.
pub open spec fn preview_spec(content: Seq<char>, max_chars: nat) -> Seq<char> {
    if content.len() <= max_chars {
        content
    } else {
        content.take(max_chars as int)
    }
}

/// A preview of the file the host read: its text truncated to `max_chars`
/// characters.
///
/// A missing path fails with "File does not exist"; an unreadable one with
/// "Failed to read file: " and the underlying error.
pub fn read_text_preview(read: &ReadOutcome, max_chars: usize) -> (r: Result<String, String>)
    ensures
        read is Missing ==> (r matches Result::Err(m) && m@ == "File does not exist"@),
        read matches ReadOutcome::Unreadable(e) ==> (r matches Result::Err(m) && m@
            == "Failed to read file: "@ + e@),
        read matches ReadOutcome::Content(text) ==> (r matches Result::Ok(p) && p@ == preview_spec(
            text@,
            max_chars as nat,
        )),
{
    match read {
        ReadOutcome::Missing => Result::Err("File does not exist".to_owned()),
        ReadOutcome::Unreadable(e) => {
            let msg = "Failed to read file: ".to_owned().concat(e.as_str());
            Result::Err(msg)
        },
        ReadOutcome::Content(text) => {
            let s = text.as_str();
            let len = s.unicode_len();
            if len <= max_chars {
                Result::Ok(text.clone())
            } else {
                let cut = s.substring_char(0, max_chars);
                proof {
                    assert(text@.subrange(0, max_chars as int) =~= text@.take(max_chars as int));
                }
                Result::Ok(cut.to_owned())
            }
        },
    }
}

} // verus!
