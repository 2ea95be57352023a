//! File classification by extension.
//!
//! An extension is matched case-insensitively against three fixed sets:
//! common image formats, PDF, and a broad set of text, source and
//! configuration formats. Anything else is `other`. Directories are
//! reported as `folder` by the listing, not by this classifier.

use vstd::prelude::*;
use vstd::string::StrSliceExecFns;
use crate::order::{lower, lower_char, lower_char_exec};

verus! {

/// Case-folded extensions that classify as an image.
pub open spec fn is_image_ext(l: Seq<char>) -> bool {
    ||| l == "jpg"@
    ||| l == "jpeg"@
    ||| l == "png"@
    ||| l == "gif"@
    ||| l == "webp"@
    ||| l == "bmp"@
    ||| l == "svg"@
    ||| l == "ico"@
}

/// Case-folded extensions that classify as text, source code or
/// configuration.
pub open spec fn is_text_ext(l: Seq<char>) -> bool {
    ||| l == "txt"@
    ||| l == "md"@
    ||| l == "json"@
    ||| l == "xml"@
    ||| l == "html"@
    ||| l == "css"@
    ||| l == "js"@
    ||| l == "ts"@
    ||| l == "rs"@
    ||| l == "py"@
    ||| l == "java"@
    ||| l == "c"@
    ||| l == "cpp"@
    ||| l == "h"@
    ||| l == "hpp"@
    ||| l == "go"@
    ||| l == "rb"@
    ||| l == "php"@
    ||| l == "sh"@
    ||| l == "yaml"@
    ||| l == "yml"@
    ||| l == "toml"@
    ||| l == "ini"@
    ||| l == "cfg"@
    ||| l == "conf"@
    ||| l == "log"@
    ||| l == "csv"@
}

/// The coarse content category of an extension, as listing text.
pub open spec fn file_type_spec(ext: Seq<char>) -> Seq<char> {
    let l = lower(ext);
    if is_image_ext(l) {
        "image"@
    } else if l == "pdf"@ {
        "pdf"@
    } else if is_text_ext(l) {
        "text"@
    } else {
        "other"@
    }
}

/// True exactly when `s`, case-folded, reads as `t`.
fn eq_lower(s: &str, t: &str) -> (r: bool)
    ensures
        r == (lower(s@) == t@),
{
    let ls = s.unicode_len();
    let lt = t.unicode_len();
    if ls != lt {
        proof {
            assert(lower(s@).len() == s@.len());
        }
        return false;
    }
    let mut i: usize = 0;
    while i < ls
        invariant
            i <= ls,
            ls == s@.len(),
            ls == t@.len(),
            forall|j: int| 0 <= j < i ==> lower(s@)[j] == t@[j],
        decreases ls - i,
    {
        let c = lower_char_exec(s.get_char(i));
        let d = t.get_char(i);
        if c != d {
            proof {
                assert(lower(s@)[i as int] == lower_char(s@[i as int]));
            }
            return false;
        }
        proof {
            assert(lower(s@)[i as int] == lower_char(s@[i as int]));
        }
        i = i + 1;
    }
    proof {
        assert(lower(s@) =~= t@);
    }
    true
}

/// Classify a file extension, case-insensitively, as `image`, `pdf`,
/// `text` or `other`. Total over every input, the empty string included.
pub fn get_file_type(extension: &str) -> (r: String)
    ensures
        r@ == file_type_spec(extension@),
{
    if eq_lower(extension, "jpg") || eq_lower(extension, "jpeg") || eq_lower(extension, "png")
        || eq_lower(extension, "gif") || eq_lower(extension, "webp") || eq_lower(extension, "bmp")
        || eq_lower(extension, "svg") || eq_lower(extension, "ico") {
        "image".to_owned()
    } else if eq_lower(extension, "pdf") {
        "pdf".to_owned()
    } else if eq_lower(extension, "txt") || eq_lower(extension, "md") || eq_lower(extension, "json")
        || eq_lower(extension, "xml") || eq_lower(extension, "html") || eq_lower(extension, "css")
        || eq_lower(extension, "js") || eq_lower(extension, "ts") || eq_lower(extension, "rs")
        || eq_lower(extension, "py") || eq_lower(extension, "java") || eq_lower(extension, "c")
        || eq_lower(extension, "cpp") || eq_lower(extension, "h") || eq_lower(extension, "hpp")
        || eq_lower(extension, "go") || eq_lower(extension, "rb") || eq_lower(extension, "php")
        || eq_lower(extension, "sh") || eq_lower(extension, "yaml") || eq_lower(extension, "yml")
        || eq_lower(extension, "toml") || eq_lower(extension, "ini") || eq_lower(extension, "cfg")
        || eq_lower(extension, "conf") || eq_lower(extension, "log") || eq_lower(extension, "csv") {
        "text".to_owned()
    } else {
        "other".to_owned()
    }
}

} // verus!
