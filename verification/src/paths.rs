//! Key and path handling.
//!
//! Keys are slash-separated strings. A download joins the destination
//! directory with the key, and every directory above the resulting file
//! path must exist before the file is written; the text before the last
//! separator of the joined path names that parent directory.

use vstd::prelude::*;

verus! {

/// The joined path: `dir` and `key` with exactly the directory's own text
/// between them.  A directory that already ends in a separator contributes
/// no second one; an empty directory contributes nothing.
pub open spec fn joined_path(dir: Seq<char>, key: Seq<char>) -> Seq<char> {
    if dir.len() == 0 {
        key
    } else if dir.last() == '/' {
        dir + key
    } else {
        dir + seq!['/'] + key
    }
}

/// The index of the last separator in `p`, or `-1` if `p` has none.
pub open spec fn last_sep_index(p: Seq<char>) -> int
    decreases p.len(),
{
    if p.len() == 0 {
        -1
    } else if p.last() == '/' {
        p.len() - 1
    } else {
        last_sep_index(p.drop_last())
    }
}

/// A path has a usable parent directory when a separator stands strictly
/// inside it: the text before the last separator is then non-empty.
pub open spec fn has_parent(p: Seq<char>) -> bool {
    last_sep_index(p) >= 1
}

/// The parent directory of `p`: the text before the last separator.
pub open spec fn parent_of(p: Seq<char>) -> Seq<char> {
    p.take(last_sep_index(p))
}

proof fn lemma_last_sep_index_bounds(p: Seq<char>)
    ensures
        -1 <= last_sep_index(p) < p.len(),
        last_sep_index(p) >= 0 ==> p[last_sep_index(p)] == '/',
        forall|j: int| last_sep_index(p) < j < p.len() ==> p[j] != '/',
    decreases p.len(),
{
    if p.len() == 0 {
    } else if p.last() == '/' {
    } else {
        lemma_last_sep_index_bounds(p.drop_last());
        assert(forall|j: int|
            0 <= j < p.len() - 1 ==> p.drop_last()[j] == p[j]);
    }
}

/// Joins a directory and a key into one path.
pub fn join_under(dir: &str, key: &str) -> (r: String)
    ensures
        r@ == joined_path(dir@, key@),
{
    proof {
        reveal_strlit("/");
    }
    let n: usize = dir.unicode_len();
    if n == 0 {
        let r = key.to_owned();
        assert(r@ =~= joined_path(dir@, key@));
        r
    } else if dir.get_char(n - 1) == '/' {
        let r = String::from_str(dir).concat(key);
        assert(r@ =~= joined_path(dir@, key@));
        r
    } else {
        let r = String::from_str(dir).concat("/").concat(key);
        assert("/"@ =~= seq!['/']);
        assert(r@ =~= joined_path(dir@, key@));
        r
    }
}

/// Finds the last separator of `p`, if any.
pub fn find_last_sep(p: &str) -> (r: Option<usize>)
    ensures
        match r {
            Some(i) => i == last_sep_index(p@),
            None => last_sep_index(p@) == -1,
        },
{
    let n: usize = p.unicode_len();
    proof {
        assert(p@.take(n as int) =~= p@);
    }
    let mut i: usize = n;
    while i > 0
        invariant
            i <= n,
            n == p@.len(),
            last_sep_index(p@) == last_sep_index(p@.take(i as int)),
        decreases i,
    {
        let c = p.get_char(i - 1);
        proof {
            assert(p@.take(i as int).last() == p@[i - 1]);
            if c != '/' {
                assert(p@.take(i as int).drop_last() =~= p@.take(i - 1));
            }
        }
        if c == '/' {
            return Some(i - 1);
        }
        i = i - 1;
    }
    proof {
        assert(p@.take(0) =~= Seq::<char>::empty());
    }
    None
}

/// The parent directory of `p`, when `p` has one.
pub fn parent_dir(p: &str) -> (r: Option<String>)
    ensures
        match r {
            Some(d) => has_parent(p@) && d@ == parent_of(p@),
            None => !has_parent(p@),
        },
{
    match find_last_sep(p) {
        Some(i) => {
            if i >= 1 {
                proof {
                    lemma_last_sep_index_bounds(p@);
                }
                Some(String::from_str(p.substring_char(0, i)))
            } else {
                None
            }
        },
        None => None,
    }
}

/// Whether two strings hold the same characters.
pub fn str_eq(a: &str, b: &str) -> (r: bool)
    ensures
        r == (a@ == b@),
{
    let na: usize = a.unicode_len();
    let nb: usize = b.unicode_len();
    if na != nb {
        return false;
    }
    let mut i: usize = 0;
    while i < na
        invariant
            i <= na,
            na == a@.len(),
            nb == b@.len(),
            na == nb,
            forall|j: int| 0 <= j < i ==> a@[j] == b@[j],
        decreases na - i,
    {
        if a.get_char(i) != b.get_char(i) {
            return false;
        }
        i = i + 1;
    }
    proof {
        assert(a@ =~= b@);
    }
    true
}

/// Whether `p` is a prefix of `s`, character by character.
pub fn str_starts_with(s: &str, p: &str) -> (r: bool)
    ensures
        r == p@.is_prefix_of(s@),
{
    let np: usize = p.unicode_len();
    let ns: usize = s.unicode_len();
    if np > ns {
        return false;
    }
    let mut i: usize = 0;
    while i < np
        invariant
            i <= np,
            np == p@.len(),
            ns == s@.len(),
            np <= ns,
            forall|j: int| 0 <= j < i ==> p@[j] == s@[j],
        decreases np - i,
    {
        if p.get_char(i) != s.get_char(i) {
            proof {
                assert(s@.subrange(0, np as int)[i as int] == s@[i as int]);
            }
            return false;
        }
        i = i + 1;
    }
    proof {
        assert(p@ =~= s@.subrange(0, np as int));
    }
    true
}

} // verus!
