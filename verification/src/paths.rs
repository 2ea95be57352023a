//! Path text helpers.
//!
//! Paths are absolute filesystem paths encoded as text with `/` between
//! components. A file name's extension is the part after its last dot,
//! except that a name whose only dot is the leading one (a hidden file such
//! as `.profile`) has no extension.

use vstd::prelude::*;
use vstd::string::StrSliceExecFns;
use vstd::string::StringExecFns;

verus! {

/// Index of the last `.` in a name, or `-1` when there is none.
pub open spec fn last_dot(name: Seq<char>) -> int
    decreases name.len(),
{
    if name.len() == 0 {
        -1
    } else if name.last() == '.' {
        name.len() - 1
    } else {
        last_dot(name.drop_last())
    }
}

/// The extension of a file name: what follows the last dot, empty when the
/// name has no dot or only its leading character is one.
pub open spec fn extension_of(name: Seq<char>) -> Seq<char> {
    if last_dot(name) <= 0 {
        Seq::empty()
    } else {
        name.skip(last_dot(name) + 1)
    }
}

/// Index of the last `/` in a path, or `-1` when there is none.
pub open spec fn last_slash(path: Seq<char>) -> int
    decreases path.len(),
{
    if path.len() == 0 {
        -1
    } else if path.last() == '/' {
        path.len() - 1
    } else {
        last_slash(path.drop_last())
    }
}

/// The last `/`-separated component of a path.
pub open spec fn file_name_of(path: Seq<char>) -> Seq<char> {
    path.skip(last_slash(path) + 1)
}

/// A directory path joined with the name of one of its entries.
pub open spec fn joined(dir: Seq<char>, name: Seq<char>) -> Seq<char> {
    dir + seq!['/'] + name
}

/// The last dot of a name lies within it.
pub proof fn lemma_last_dot_bounds(s: Seq<char>)
    ensures
        -1 <= last_dot(s) < s.len(),
    decreases s.len(),
{
    if s.len() != 0 && s.last() != '.' {
        lemma_last_dot_bounds(s.drop_last());
    }
}

/// The last slash of a path lies within it.
pub proof fn lemma_last_slash_bounds(s: Seq<char>)
    ensures
        -1 <= last_slash(s) < s.len(),
    decreases s.len(),
{
    if s.len() != 0 && s.last() != '/' {
        lemma_last_slash_bounds(s.drop_last());
    }
}

/// Position just past the last occurrence of `target` in `s`, or `0` when
/// there is none.
fn scan_last(s: &str, target: char) -> (r: usize)
    requires
        target == '.' || target == '/',
    ensures
        target == '.' ==> r == last_dot(s@) + 1,
        target == '/' ==> r == last_slash(s@) + 1,
{
    let len = s.unicode_len();
    let mut i: usize = len;
    proof {
        assert(s@.subrange(0, len as int) =~= s@);
    }
    while i > 0
        invariant
            i <= len,
            len == s@.len(),
            target == '.' ==> last_dot(s@) == last_dot(s@.subrange(0, i as int)),
            target == '/' ==> last_slash(s@) == last_slash(s@.subrange(0, i as int)),
        decreases i,
    {
        let ghost p = s@.subrange(0, i as int);
        proof {
            assert(p.last() == s@[i as int - 1]);
            assert(p.drop_last() =~= s@.subrange(0, i as int - 1));
        }
        if s.get_char(i - 1) == target {
            return i;
        }
        i = i - 1;
    }
    proof {
        assert(s@.subrange(0, 0) =~= Seq::<char>::empty());
    }
    0
}

/// Executable counterpart of [`extension_of`].
pub fn extension_of_exec(name: &str) -> (r: String)
    ensures
        r@ == extension_of(name@),
{
    proof {
        lemma_last_dot_bounds(name@);
    }
    let after = scan_last(name, '.');
    if after <= 1 {
        String::new()
    } else {
        let len = name.unicode_len();
        let sub = name.substring_char(after, len);
        proof {
            assert(name@.skip(last_dot(name@) + 1) =~= name@.subrange(after as int, len as int));
        }
        sub.to_owned()
    }
}

/// Executable counterpart of [`file_name_of`].
pub fn file_name_of_exec(path: &str) -> (r: String)
    ensures
        r@ == file_name_of(path@),
{
    proof {
        lemma_last_slash_bounds(path@);
    }
    let after = scan_last(path, '/');
    let len = path.unicode_len();
    let sub = path.substring_char(after, len);
    proof {
        assert(path@.skip(last_slash(path@) + 1) =~= path@.subrange(after as int, len as int));
    }
    sub.to_owned()
}

/// Executable counterpart of [`joined`].
pub fn join_path(dir: &String, name: &String) -> (r: String)
    ensures
        r@ == joined(dir@, name@),
{
    let mut r = dir.clone();
    r.append("/");
    r.append(name.as_str());
    proof {
        reveal_strlit("/");
        assert("/"@ =~= seq!['/']);
        assert(r@ =~= joined(dir@, name@));
    }
    r
}

} // verus!
