//! Case-insensitive name ordering.
//!
//! Listings and tree previews sort directory entries with folders first and,
//! within a kind, by name compared case-insensitively (ASCII letters are
//! folded to lower case) in ascending lexicographic order of character codes.

use vstd::prelude::*;
use vstd::string::StrSliceExecFns;

verus! {

/// Lower-case an ASCII letter; every other character is unchanged.
pub open spec fn lower_char(c: char) -> char {
    match c {
        'A' => 'a',
        'B' => 'b',
        'C' => 'c',
        'D' => 'd',
        'E' => 'e',
        'F' => 'f',
        'G' => 'g',
        'H' => 'h',
        'I' => 'i',
        'J' => 'j',
        'K' => 'k',
        'L' => 'l',
        'M' => 'm',
        'N' => 'n',
        'O' => 'o',
        'P' => 'p',
        'Q' => 'q',
        'R' => 'r',
        'S' => 's',
        'T' => 't',
        'U' => 'u',
        'V' => 'v',
        'W' => 'w',
        'X' => 'x',
        'Y' => 'y',
        'Z' => 'z',
        _ => c,
    }
}

/// Case-fold a whole name.
pub open spec fn lower(s: Seq<char>) -> Seq<char> {
    s.map_values(|c: char| lower_char(c))
}

/// Strict lexicographic order on character sequences, by character code;
/// a proper prefix sorts before any of its extensions.
pub open spec fn lex_lt(a: Seq<char>, b: Seq<char>) -> bool
    decreases a.len(),
{
    if b.len() == 0 {
        false
    } else if a.len() == 0 {
        true
    } else if (a[0] as u32) < (b[0] as u32) {
        true
    } else if (b[0] as u32) < (a[0] as u32) {
        false
    } else {
        lex_lt(a.drop_first(), b.drop_first())
    }
}

/// The sort key of a directory entry: its kind and its raw name.
pub struct EntryKey {
    pub is_directory: bool,
    pub name: Seq<char>,
}

/// Strict "sorts before" order on entry keys: folders before files; within
/// one kind, case-insensitive name order.
pub open spec fn key_lt(a: EntryKey, b: EntryKey) -> bool {
    if a.is_directory != b.is_directory {
        a.is_directory
    } else {
        lex_lt(lower(a.name), lower(b.name))
    }
}

/// Executable counterpart of [`lower_char`].
pub fn lower_char_exec(c: char) -> (r: char)
    ensures
        r == lower_char(c),
{
    match c {
        'A' => 'a',
        'B' => 'b',
        'C' => 'c',
        'D' => 'd',
        'E' => 'e',
        'F' => 'f',
        'G' => 'g',
        'H' => 'h',
        'I' => 'i',
        'J' => 'j',
        'K' => 'k',
        'L' => 'l',
        'M' => 'm',
        'N' => 'n',
        'O' => 'o',
        'P' => 'p',
        'Q' => 'q',
        'R' => 'r',
        'S' => 's',
        'T' => 't',
        'U' => 'u',
        'V' => 'v',
        'W' => 'w',
        'X' => 'x',
        'Y' => 'y',
        'Z' => 'z',
        _ => c,
    }
}

/// Executable counterpart of [`key_lt`].
pub fn key_lt_exec(a_dir: bool, a_name: &String, b_dir: bool, b_name: &String) -> (r: bool)
    ensures
        r == key_lt(
            (EntryKey { is_directory: a_dir, name: a_name@ }),
            (EntryKey { is_directory: b_dir, name: b_name@ }),
        ),
{
    if a_dir != b_dir {
        a_dir
    } else {
        name_lt(a_name.as_str(), b_name.as_str())
    }
}

/// If two sequences agree (after case folding) on their first `i` characters,
/// their order is decided by the remainders.
proof fn lemma_lex_lt_skip(a: Seq<char>, b: Seq<char>, i: int)
    requires
        0 <= i <= a.len(),
        0 <= i <= b.len(),
        forall|j: int| 0 <= j < i ==> a[j] == b[j],
    ensures
        lex_lt(a, b) == lex_lt(a.skip(i), b.skip(i)),
    decreases i,
{
    if i > 0 {
        assert(a.len() > 0 && b.len() > 0);
        assert(a[0] == b[0]);
        assert(lex_lt(a, b) == lex_lt(a.drop_first(), b.drop_first()));
        lemma_lex_lt_skip(a.drop_first(), b.drop_first(), i - 1);
        assert(a.drop_first().skip(i - 1) =~= a.skip(i));
        assert(b.drop_first().skip(i - 1) =~= b.skip(i));
    } else {
        assert(a.skip(0) =~= a);
        assert(b.skip(0) =~= b);
    }
}

/// Compare two names case-insensitively; true when `a` sorts strictly
/// before `b`.
pub fn name_lt(a: &str, b: &str) -> (r: bool)
    ensures
        r == lex_lt(lower(a@), lower(b@)),
{
    let la = a.unicode_len();
    let lb = b.unicode_len();
    let ghost ga = lower(a@);
    let ghost gb = lower(b@);
    let mut i: usize = 0;
    while i < la && i < lb
        invariant
            i <= la,
            i <= lb,
            la == a@.len(),
            lb == b@.len(),
            ga == lower(a@),
            gb == lower(b@),
            ga.len() == la,
            gb.len() == lb,
            forall|j: int| 0 <= j < i ==> ga[j] == gb[j],
        decreases la - i,
    {
        let ca = lower_char_exec(a.get_char(i));
        let cb = lower_char_exec(b.get_char(i));
        assert(ca == ga[i as int]);
        assert(cb == gb[i as int]);
        if (ca as u32) < (cb as u32) {
            proof {
                lemma_lex_lt_skip(ga, gb, i as int);
                assert(ga.skip(i as int)[0] == ca);
                assert(gb.skip(i as int)[0] == cb);
            }
            return true;
        }
        if (cb as u32) < (ca as u32) {
            proof {
                lemma_lex_lt_skip(ga, gb, i as int);
                assert(ga.skip(i as int)[0] == ca);
                assert(gb.skip(i as int)[0] == cb);
            }
            return false;
        }
        proof {
            vstd::utf8::char_u32_cast(ca, ca as u32);
            vstd::utf8::char_u32_cast(cb, cb as u32);
        }
        i = i + 1;
    }
    proof {
        lemma_lex_lt_skip(ga, gb, i as int);
    }
    if i >= la {
        // `a` is exhausted: it sorts before `b` exactly when `b` goes on.
        assert(ga.skip(i as int).len() == 0);
        i < lb
    } else {
        // `b` is exhausted while `a` goes on.
        assert(gb.skip(i as int).len() == 0);
        assert(ga.skip(i as int).len() > 0);
        false
    }
}

} // verus!
