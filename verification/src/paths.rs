//! Path-string helpers.
//!
//! The library models filesystem paths as plain strings of characters.
//! Components are separated by `/`; a file's name is what follows the last
//! separator, and its extension is what follows the last dot of that name,
//! provided the dot is not the name's first character.

use vstd::prelude::*;
use crate::text;

verus! {

/// Index of the last occurrence of `c` in `s`, or `-1` if absent.
pub open spec fn last_index_of(s: Seq<char>, c: char) -> int
    decreases s.len(),
{
    if s.len() == 0 {
        -1
    } else if s.last() == c {
        s.len() - 1
    } else {
        last_index_of(s.drop_last(), c)
    }
}

pub proof fn lemma_last_index_of(s: Seq<char>, c: char)
    ensures
        -1 <= last_index_of(s, c) < s.len(),
        last_index_of(s, c) >= 0 ==> s[last_index_of(s, c)] == c,
        forall|j: int| last_index_of(s, c) < j < s.len() ==> s[j] != c,
    decreases s.len(),
{
    if s.len() > 0 && s.last() != c {
        lemma_last_index_of(s.drop_last(), c);
        assert forall|j: int| last_index_of(s, c) < j < s.len() implies s[j] != c by {
            if j < s.len() - 1 {
                assert(s.drop_last()[j] == s[j]);
            }
        }
    }
}

pub proof fn lemma_last_index_of_is(s: Seq<char>, c: char, k: int)
    requires
        -1 <= k < s.len(),
        k >= 0 ==> s[k] == c,
        forall|j: int| k < j < s.len() ==> s[j] != c,
    ensures
        last_index_of(s, c) == k,
    decreases s.len(),
{
    if s.len() > 0 {
        if k == s.len() - 1 {
        } else {
            assert(s.last() != c);
            lemma_last_index_of_is(s.drop_last(), c, k);
        }
    }
}

/// Last index of `c` in `v`, if any.
pub fn rfind_char(v: &Vec<char>, c: char) -> (r: Option<usize>)
    ensures
        match r {
            Some(i) => i == last_index_of(v@, c) && i < v@.len() && v@[i as int] == c,
            None => last_index_of(v@, c) == -1,
        },
{
    let mut i: usize = v.len();
    while i > 0
        invariant
            i <= v@.len(),
            forall|j: int| i <= j < v@.len() ==> v@[j] != c,
        decreases i,
    {
        i -= 1;
        if v[i] == c {
            proof {
                lemma_last_index_of_is(v@, c, i as int);
            }
            return Some(i);
        }
    }
    proof {
        lemma_last_index_of_is(v@, c, -1);
    }
    None
}

/// What follows the last `/`, or all of `p` if it has none.
pub open spec fn file_name_sp(p: Seq<char>) -> Seq<char> {
    p.subrange(last_index_of(p, '/') + 1, p.len() as int)
}

/// The extension of `p`'s file name: what follows the last dot, provided
/// that dot is not the name's first character.
pub open spec fn extension_sp(p: Seq<char>) -> Option<Seq<char>> {
    let f = file_name_sp(p);
    let d = last_index_of(f, '.');
    if d <= 0 {
        None
    } else {
        Some(f.subrange(d + 1, f.len() as int))
    }
}

/// The file name of `p` with its extension removed.
pub open spec fn file_stem_sp(p: Seq<char>) -> Seq<char> {
    let f = file_name_sp(p);
    let d = last_index_of(f, '.');
    if d <= 0 {
        f
    } else {
        f.subrange(0, d)
    }
}

/// What follows the last `/` of `v`, or all of `v`.
pub fn file_name(v: &Vec<char>) -> (r: Vec<char>)
    ensures
        r@ == file_name_sp(v@),
{
    proof {
        lemma_last_index_of(v@, '/');
    }
    let n = v.len();
    match rfind_char(v, '/') {
        Some(i) => text::subvec(v, i + 1, n),
        None => text::subvec(v, 0, n),
    }
}

/// The extension of `v`'s file name, lower-cased, if it has one.
pub fn extension_lower(v: &Vec<char>) -> (r: Option<Vec<char>>)
    ensures
        match r {
            Some(e) => extension_sp(v@) is Some && e@ == text::lower_seq(extension_sp(v@)->Some_0),
            None => extension_sp(v@) is None,
        },
{
    let f = file_name(v);
    proof {
        lemma_last_index_of(f@, '.');
    }
    match rfind_char(&f, '.') {
        Some(d) => {
            if d == 0 {
                None
            } else {
                let e = text::subvec(&f, d + 1, f.len());
                Some(text::to_lower(&e))
            }
        },
        None => None,
    }
}

/// The file name of `v` with its extension removed.
pub fn file_stem(v: &Vec<char>) -> (r: Vec<char>)
    ensures
        r@ == file_stem_sp(v@),
{
    let f = file_name(v);
    proof {
        lemma_last_index_of(f@, '.');
    }
    match rfind_char(&f, '.') {
        Some(d) => {
            if d == 0 {
                f
            } else {
                text::subvec(&f, 0, d)
            }
        },
        None => f,
    }
}

/// `p` is a direct child of directory `dir`: one more non-empty component,
/// with no further separator. `dir` is taken literally, except that a bare
/// `/` root is handled on its own.
pub open spec fn is_direct_child_of(p: Seq<char>, dir: Seq<char>) -> bool {
    if dir == seq!['/'] {
        p.len() > 1 && p[0] == '/' && (forall|j: int| 1 <= j < p.len() ==> p[j] != '/')
    } else {
        &&& p.len() > dir.len() + 1
        &&& p.subrange(0, dir.len() as int) == dir
        &&& p[dir.len() as int] == '/'
        &&& forall|j: int| dir.len() + 1 <= j < p.len() ==> p[j] != '/'
    }
}

/// Whether `p` names a direct child of `dir`.
pub fn is_direct_child(p: &Vec<char>, dir: &Vec<char>) -> (r: bool)
    ensures
        r == is_direct_child_of(p@, dir@),
{
    let dl = dir.len();
    if dl == 1 && dir[0] == '/' {
        proof {
            assert(dir@ =~= seq!['/']);
        }
        if p.len() <= 1 || p[0] != '/' {
            return false;
        }
        let mut j: usize = 1;
        while j < p.len()
            invariant
                1 <= j <= p@.len(),
                dir@ == seq!['/'],
                p@.len() > 1,
                p@[0] == '/',
                forall|t: int| 1 <= t < j ==> p@[t] != '/',
            decreases p@.len() - j,
        {
            if p[j] == '/' {
                return false;
            }
            j += 1;
        }
        return true;
    }
    proof {
        if dir@.len() != 1 {
            assert(!(dir@ =~= seq!['/']));
        } else if dir@[0] != '/' {
            assert(!(dir@ =~= seq!['/']));
        }
    }
    if p.len() <= dl {
        return false;
    }
    if p.len() == dl + 1 {
        return false;
    }
    let prefix = text::subvec(p, 0, dl);
    if !text::chars_eq(&prefix, dir) {
        return false;
    }
    if p[dl] != '/' {
        return false;
    }
    let mut j: usize = dl + 1;
    while j < p.len()
        invariant
            dl + 1 <= j <= p@.len(),
            dl == dir@.len(),
            !(dir@ == seq!['/']),
            forall|t: int| dl + 1 <= t < j ==> p@[t] != '/',
        decreases p@.len() - j,
    {
        if p[j] == '/' {
            return false;
        }
        j += 1;
    }
    true
}

/// `dir` followed by a separator and `name`; no separator is added when
/// `dir` already ends with one.
pub open spec fn joined_sp(dir: Seq<char>, name: Seq<char>) -> Seq<char> {
    if dir.len() > 0 && dir.last() == '/' {
        dir + name
    } else {
        dir + seq!['/'] + name
    }
}

/// Join a directory and a file name.
pub fn join_path(dir: &Vec<char>, name: &Vec<char>) -> (r: Vec<char>)
    ensures
        r@ == joined_sp(dir@, name@),
{
    if dir.len() > 0 && dir[dir.len() - 1] == '/' {
        text::concat_chars(dir, name)
    } else {
        let mut d = text::subvec(dir, 0, dir.len());
        proof {
            assert(dir@.subrange(0, dir@.len() as int) =~= dir@);
        }
        d.push('/');
        let r = text::concat_chars(&d, name);
        proof {
            assert(dir@.push('/') =~= dir@ + seq!['/']);
        }
        r
    }
}

/// `p` lies in directory `dir`: it is `dir` itself or continues it past a
/// separator, any number of levels deep. `dir` is taken literally.
pub open spec fn in_dir_sp(p: Seq<char>, dir: Seq<char>) -> bool {
    p == dir || (p.len() > dir.len() && p.subrange(0, dir.len() as int) == dir && p[dir.len() as int]
        == '/')
}

/// Whether `p` lies in directory `dir`.
pub fn path_in_dir(p: &Vec<char>, dir: &Vec<char>) -> (r: bool)
    ensures
        r == in_dir_sp(p@, dir@),
{
    if text::chars_eq(p, dir) {
        return true;
    }
    let dl = dir.len();
    if p.len() <= dl {
        return false;
    }
    let prefix = text::subvec(p, 0, dl);
    text::chars_eq(&prefix, dir) && p[dl] == '/'
}

/// `needle` occurs as a prefix of `p`.
pub open spec fn starts_with_sp(p: Seq<char>, needle: Seq<char>) -> bool {
    p.len() >= needle.len() && p.subrange(0, needle.len() as int) == needle
}

pub fn starts_with(p: &Vec<char>, needle: &Vec<char>) -> (r: bool)
    ensures
        r == starts_with_sp(p@, needle@),
{
    if p.len() < needle.len() {
        return false;
    }
    let prefix = text::subvec(p, 0, needle.len());
    text::chars_eq(&prefix, needle)
}

/// `needle` occurs somewhere inside `p`.
pub open spec fn contains_sp(p: Seq<char>, needle: Seq<char>) -> bool {
    exists|i: int|
        0 <= i <= p.len() - needle.len() && #[trigger] p.subrange(i, i + needle.len()) == needle
}

pub fn contains_seq(p: &Vec<char>, needle: &Vec<char>) -> (r: bool)
    ensures
        r == contains_sp(p@, needle@),
{
    if needle.len() == 0 {
        proof {
            assert(contains_sp(p@, needle@)) by {
                assert(p@.subrange(0, 0) =~= needle@);
                assert(p@.subrange(0, 0 + needle@.len() as int) == needle@);
            }
        }
        return true;
    }
    if p.len() < needle.len() {
        return false;
    }
    let last = p.len() - needle.len();
    let mut i: usize = 0;
    while i <= last
        invariant
            i <= last + 1,
            last == p@.len() - needle@.len(),
            1 <= needle@.len() <= p@.len(),
            p@.len() <= usize::MAX as int,
            forall|t: int| 0 <= t < i ==> #[trigger] p@.subrange(t, t + needle@.len()) != needle@,
        decreases last - i + 1,
    {
        let w = text::subvec(p, i, i + needle.len());
        if text::chars_eq(&w, needle) {
            return true;
        }
        i += 1;
    }
    false
}

} // verus!
