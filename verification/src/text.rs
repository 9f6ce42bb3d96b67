//! Character-level text utilities shared by the parsers and path helpers.
//!
//! Executable code works on `Vec<char>` so that every step is visible to the
//! verifier; `String` appears only at the edges.

use vstd::prelude::*;
use vstd::string::StrSliceExecFns;
use vstd::string::StringExecFns;

verus! {

/// The ASCII blanks that this library's parsers strip.
pub open spec fn is_ws(c: char) -> bool {
    c == ' ' || c == '\t' || c == '\r' || c == '\n'
}

pub fn is_ws_char(c: char) -> (r: bool)
    ensures
        r == is_ws(c),
{
    c == ' ' || c == '\t' || c == '\r' || c == '\n'
}

/// Collect the characters of a string slice into a vector.
pub fn to_chars(s: &str) -> (r: Vec<char>)
    ensures
        r@ == s@,
{
    let n = s.unicode_len();
    let mut v: Vec<char> = Vec::new();
    let mut i: usize = 0;
    while i < n
        invariant
            i <= n,
            n == s@.len(),
            v@ == s@.subrange(0, i as int),
        decreases n - i,
    {
        let c = s.get_char(i);
        v.push(c);
        proof {
            assert(s@.subrange(0, i + 1 as int) =~= s@.subrange(0, i as int).push(s@[i as int]));
        }
        i += 1;
    }
    proof {
        assert(v@ =~= s@);
    }
    v
}

/// Relies on `core::iter::Iterator::collect` building a `String` from chars:
/// the result holds exactly the characters of `v` in order.
#[verifier::external_body]
pub fn from_chars(v: &Vec<char>) -> (r: String)
    ensures
        r@ == v@,
{
    v.iter().collect()
}

/// Copy of `v[from..to]`.
pub fn subvec(v: &Vec<char>, from: usize, to: usize) -> (r: Vec<char>)
    requires
        from <= to <= v@.len(),
    ensures
        r@ == v@.subrange(from as int, to as int),
{
    let mut r: Vec<char> = Vec::new();
    let mut i: usize = from;
    while i < to
        invariant
            from <= i <= to <= v@.len(),
            r@ == v@.subrange(from as int, i as int),
        decreases to - i,
    {
        r.push(v[i]);
        proof {
            assert(v@.subrange(from as int, i + 1 as int) =~= v@.subrange(
                from as int,
                i as int,
            ).push(v@[i as int]));
        }
        i += 1;
    }
    r
}

/// Equality of a string and a string slice.
pub fn string_eq(a: &String, b: &str) -> (r: bool)
    ensures
        r == (a@ == b@),
{
    let bs = String::from_str(b);
    *a == bs
}

/// Copies of the strings of `v`, in order.
pub fn clone_strings(v: &Vec<String>) -> (r: Vec<String>)
    ensures
        r@ == v@,
{
    let n = v.len();
    let mut r: Vec<String> = Vec::new();
    let mut i: usize = 0;
    while i < n
        invariant
            i <= n,
            n == v@.len(),
            r@.len() == i,
            forall|j: int| 0 <= j < i ==> r@[j] == v@[j],
        decreases n - i,
    {
        r.push(v[i].clone());
        i += 1;
    }
    proof {
        assert(r@ =~= v@);
    }
    r
}

/// Character-by-character equality of two vectors.
pub fn chars_eq(a: &Vec<char>, b: &Vec<char>) -> (r: bool)
    ensures
        r == (a@ == b@),
{
    if a.len() != b.len() {
        return false;
    }
    let n = a.len();
    let mut i: usize = 0;
    while i < n
        invariant
            i <= n,
            n == a@.len() == b@.len(),
            forall|j: int| 0 <= j < i ==> a@[j] == b@[j],
        decreases n - i,
    {
        if a[i] != b[i] {
            return false;
        }
        i += 1;
    }
    proof {
        assert(a@ =~= b@);
    }
    true
}

/// Index of the first occurrence of `c` in `s`, or `s.len()` if absent.
pub open spec fn first_index_of(s: Seq<char>, c: char) -> nat
    decreases s.len(),
{
    if s.len() == 0 {
        0
    } else if s[0] == c {
        0
    } else {
        1 + first_index_of(s.drop_first(), c)
    }
}

/// What `first_index_of` returns: the least index holding `c`, or the length.
pub proof fn lemma_first_index_of(s: Seq<char>, c: char)
    ensures
        first_index_of(s, c) <= s.len(),
        first_index_of(s, c) < s.len() ==> s[first_index_of(s, c) as int] == c,
        forall|j: int| 0 <= j < first_index_of(s, c) ==> s[j] != c,
    decreases s.len(),
{
    if s.len() > 0 && s[0] != c {
        lemma_first_index_of(s.drop_first(), c);
        assert forall|j: int| 0 <= j < first_index_of(s, c) implies s[j] != c by {
            if j > 0 {
                assert(s.drop_first()[j - 1] == s[j]);
            }
        }
    }
}

/// `first_index_of` is pinned by any witness index with a `c`-free prefix.
pub proof fn lemma_first_index_of_is(s: Seq<char>, c: char, k: int)
    requires
        0 <= k <= s.len(),
        forall|j: int| 0 <= j < k ==> s[j] != c,
        k < s.len() ==> s[k] == c,
    ensures
        first_index_of(s, c) == k,
    decreases s.len(),
{
    if s.len() > 0 && s[0] != c {
        lemma_first_index_of_is(s.drop_first(), c, k - 1);
    }
}

/// First index of `c` in `v`, if any.
pub fn find_char(v: &Vec<char>, c: char) -> (r: Option<usize>)
    ensures
        match r {
            Some(i) => i == first_index_of(v@, c) && i < v@.len() && v@[i as int] == c,
            None => first_index_of(v@, c) == v@.len(),
        },
{
    let n = v.len();
    let mut i: usize = 0;
    while i < n
        invariant
            i <= n,
            n == v@.len(),
            forall|j: int| 0 <= j < i ==> v@[j] != c,
        decreases n - i,
    {
        if v[i] == c {
            proof {
                lemma_first_index_of_is(v@, c, i as int);
            }
            return Some(i);
        }
        i += 1;
    }
    proof {
        lemma_first_index_of_is(v@, c, n as int);
    }
    None
}

/// `s` with leading blanks removed.
pub open spec fn trim_front(s: Seq<char>) -> Seq<char>
    decreases s.len(),
{
    if s.len() > 0 && is_ws(s[0]) {
        trim_front(s.drop_first())
    } else {
        s
    }
}

/// `s` with trailing blanks removed.
pub open spec fn trim_back(s: Seq<char>) -> Seq<char>
    decreases s.len(),
{
    if s.len() > 0 && is_ws(s.last()) {
        trim_back(s.drop_last())
    } else {
        s
    }
}

/// `s` with blanks removed at both ends.
pub open spec fn trimmed(s: Seq<char>) -> Seq<char> {
    trim_back(trim_front(s))
}

pub proof fn lemma_trim_front_at(s: Seq<char>, a: int)
    requires
        0 <= a <= s.len(),
        forall|j: int| 0 <= j < a ==> is_ws(s[j]),
        a < s.len() ==> !is_ws(s[a]),
    ensures
        trim_front(s) =~= s.subrange(a, s.len() as int),
    decreases a,
{
    if a == 0 {
        assert(s.subrange(0, s.len() as int) =~= s);
    } else {
        assert(is_ws(s[0]));
        lemma_trim_front_at(s.drop_first(), a - 1);
        assert(s.drop_first().subrange(a - 1, s.drop_first().len() as int) =~= s.subrange(
            a,
            s.len() as int,
        ));
    }
}

pub proof fn lemma_trim_back_at(s: Seq<char>, b: int)
    requires
        0 <= b <= s.len(),
        forall|j: int| b <= j < s.len() ==> is_ws(s[j]),
        b > 0 ==> !is_ws(s[b - 1]),
    ensures
        trim_back(s) =~= s.subrange(0, b),
    decreases s.len() - b,
{
    if b == s.len() {
        assert(s.subrange(0, s.len() as int) =~= s);
    } else {
        assert(is_ws(s.last()));
        lemma_trim_back_at(s.drop_last(), b);
        assert(s.drop_last().subrange(0, b) =~= s.subrange(0, b));
    }
}

/// `v` with blanks removed at both ends.
pub fn trim(v: &Vec<char>) -> (r: Vec<char>)
    ensures
        r@ == trimmed(v@),
{
    let n = v.len();
    let mut a: usize = 0;
    while a < n && is_ws_char(v[a])
        invariant
            a <= n,
            n == v@.len(),
            forall|j: int| 0 <= j < a ==> is_ws(v@[j]),
        decreases n - a,
    {
        a += 1;
    }
    proof {
        lemma_trim_front_at(v@, a as int);
    }
    // a is the first non-blank index (or n); now shrink from the back
    let mut b: usize = n;
    while b > a && is_ws_char(v[b - 1])
        invariant
            a <= b <= n,
            n == v@.len(),
            forall|j: int| b <= j < n ==> is_ws(v@[j]),
        decreases b,
    {
        b -= 1;
    }
    let r = subvec(v, a, b);
    proof {
        let f = v@.subrange(a as int, n as int);
        lemma_trim_back_at(f, b - a);
        assert(f.subrange(0, b - a) =~= v@.subrange(a as int, b as int));
    }
    r
}

/// Segments of `s` between occurrences of `c`; always one more segment than
/// there are separators, so the empty sequence yields one empty segment.
pub open spec fn split_on(s: Seq<char>, c: char) -> Seq<Seq<char>>
    decreases s.len(),
{
    if first_index_of(s, c) == s.len() {
        seq![s]
    } else {
        proof {
            lemma_first_index_of(s, c);
        }
        seq![s.subrange(0, first_index_of(s, c) as int)] + split_on(
            s.subrange(first_index_of(s, c) as int + 1, s.len() as int),
            c,
        )
    }
}

pub proof fn lemma_split_on_found(t: Seq<char>, c: char, k: int)
    requires
        0 <= k < t.len(),
        t[k] == c,
        forall|j: int| 0 <= j < k ==> t[j] != c,
    ensures
        split_on(t, c) == seq![t.subrange(0, k)] + split_on(t.subrange(k + 1, t.len() as int), c),
{
    lemma_first_index_of_is(t, c, k);
}

pub proof fn lemma_split_on_none(t: Seq<char>, c: char)
    requires
        forall|j: int| 0 <= j < t.len() ==> t[j] != c,
    ensures
        split_on(t, c) == seq![t],
{
    lemma_first_index_of_is(t, c, t.len() as int);
}

/// Split `v` at every occurrence of `c`.
pub fn split_on_char(v: &Vec<char>, c: char) -> (r: Vec<Vec<char>>)
    ensures
        r@.map_values(|x: Vec<char>| x@) == split_on(v@, c),
        r@.len() > 0,
{
    let n = v.len();
    let mut r: Vec<Vec<char>> = Vec::new();
    let mut start: usize = 0;
    let mut i: usize = 0;
    proof {
        assert(v@.subrange(0, n as int) =~= v@);
        assert(r@.map_values(|x: Vec<char>| x@) =~= Seq::<Seq<char>>::empty());
    }
    while i < n
        invariant
            start <= i <= n,
            n == v@.len(),
            forall|j: int| start <= j < i ==> v@[j] != c,
            split_on(v@, c) =~= r@.map_values(|x: Vec<char>| x@) + split_on(
                v@.subrange(start as int, n as int),
                c,
            ),
        decreases n - i,
    {
        if v[i] == c {
            let seg = subvec(v, start, i);
            proof {
                let t = v@.subrange(start as int, n as int);
                let k = i - start;
                assert(t[k] == c);
                assert(forall|j: int| 0 <= j < k ==> t[j] == v@[start + j] && t[j] != c);
                lemma_split_on_found(t, c, k);
                assert(t.subrange(0, k) =~= v@.subrange(start as int, i as int));
                assert(t.subrange(k + 1, t.len() as int) =~= v@.subrange(
                    i + 1 as int,
                    n as int,
                ));
                assert((r@.push(seg)).map_values(|x: Vec<char>| x@) =~= r@.map_values(
                    |x: Vec<char>| x@,
                ).push(seg@));
            }
            r.push(seg);
            start = i + 1;
        }
        i += 1;
    }
    let seg = subvec(v, start, n);
    proof {
        let t = v@.subrange(start as int, n as int);
        assert(forall|j: int| 0 <= j < t.len() ==> t[j] == v@[start + j] && t[j] != c);
        lemma_split_on_none(t, c);
        assert((r@.push(seg)).map_values(|x: Vec<char>| x@) =~= r@.map_values(
            |x: Vec<char>| x@,
        ).push(seg@));
    }
    r.push(seg);
    proof {
        assert(r@.map_values(|x: Vec<char>| x@) =~= split_on(v@, c));
    }
    r
}

/// `a` followed by `b`.
pub fn concat_chars(a: &Vec<char>, b: &Vec<char>) -> (r: Vec<char>)
    ensures
        r@ == a@ + b@,
{
    let mut r = subvec(a, 0, a.len());
    let mut i: usize = 0;
    let n = b.len();
    proof {
        assert(a@.subrange(0, a@.len() as int) =~= a@);
    }
    while i < n
        invariant
            i <= n,
            n == b@.len(),
            r@ == a@ + b@.subrange(0, i as int),
        decreases n - i,
    {
        r.push(b[i]);
        proof {
            assert(a@ + b@.subrange(0, i + 1 as int) =~= (a@ + b@.subrange(0, i as int)).push(
                b@[i as int],
            ));
        }
        i += 1;
    }
    proof {
        assert(a@ + b@.subrange(0, n as int) =~= a@ + b@);
    }
    r
}

/// ASCII lower-casing of one character; everything else is untouched.
pub open spec fn lower_char(c: char) -> char {
    if 65 <= c as u32 <= 90 {
        (((c as u32) + 32) as u8) as char
    } else {
        c
    }
}

/// ASCII lower-casing of a sequence.
pub open spec fn lower_seq(s: Seq<char>) -> Seq<char> {
    s.map_values(|c: char| lower_char(c))
}

pub fn to_lower_char(c: char) -> (r: char)
    ensures
        r == lower_char(c),
{
    let u = c as u32;
    if 65 <= u && u <= 90 {
        ((u + 32) as u8) as char
    } else {
        c
    }
}

/// ASCII lower-casing of a vector.
pub fn to_lower(v: &Vec<char>) -> (r: Vec<char>)
    ensures
        r@ == lower_seq(v@),
{
    let n = v.len();
    let mut r: Vec<char> = Vec::new();
    let mut i: usize = 0;
    while i < n
        invariant
            i <= n,
            n == v@.len(),
            r@ == lower_seq(v@.subrange(0, i as int)),
        decreases n - i,
    {
        r.push(to_lower_char(v[i]));
        proof {
            assert(lower_seq(v@.subrange(0, i + 1 as int)) =~= lower_seq(
                v@.subrange(0, i as int),
            ).push(lower_char(v@[i as int])));
        }
        i += 1;
    }
    proof {
        assert(v@.subrange(0, n as int) =~= v@);
    }
    r
}

pub open spec fn is_digit(c: char) -> bool {
    48 <= c as u32 <= 57
}

pub open spec fn digit_val(c: char) -> int {
    c as u32 - 48
}

/// Numeric value of a big-endian decimal digit string.
pub open spec fn dec_value(s: Seq<char>) -> int
    decreases s.len(),
{
    if s.len() == 0 {
        0
    } else {
        dec_value(s.drop_last()) * 10 + digit_val(s.last())
    }
}

pub open spec fn all_digits(s: Seq<char>) -> bool {
    forall|j: int| 0 <= j < s.len() ==> is_digit(s[j])
}

pub proof fn lemma_dec_value_nonneg(s: Seq<char>)
    requires
        all_digits(s),
    ensures
        dec_value(s) >= 0,
    decreases s.len(),
{
    if s.len() > 0 {
        assert(all_digits(s.drop_last()));
        lemma_dec_value_nonneg(s.drop_last());
    }
}

/// A digit string's value only grows as digits are appended.
pub proof fn lemma_dec_value_prefix_le(s: Seq<char>, i: int)
    requires
        all_digits(s),
        0 <= i <= s.len(),
    ensures
        dec_value(s.subrange(0, i)) <= dec_value(s),
    decreases s.len() - i,
{
    if i == s.len() {
        assert(s.subrange(0, i) =~= s);
    } else {
        lemma_dec_value_prefix_le(s, i + 1);
        let t = s.subrange(0, i + 1);
        assert(t.drop_last() =~= s.subrange(0, i));
        assert(all_digits(s.subrange(0, i)));
        lemma_dec_value_nonneg(s.subrange(0, i));
    }
}

/// Parse an unsigned decimal number; `None` on empty input, any non-digit,
/// or a value that does not fit in `u32`.
pub fn parse_u32(v: &Vec<char>) -> (r: Option<u32>)
    ensures
        match r {
            Some(x) => v@.len() > 0 && all_digits(v@) && dec_value(v@) == x as int,
            None => v@.len() == 0 || !all_digits(v@) || dec_value(v@) > u32::MAX as int,
        },
{
    let n = v.len();
    if n == 0 {
        return None;
    }
    let mut acc: u64 = 0;
    let mut i: usize = 0;
    proof {
        assert(v@.subrange(0, 0) =~= Seq::<char>::empty());
    }
    while i < n
        invariant
            i <= n,
            n == v@.len(),
            all_digits(v@.subrange(0, i as int)),
            acc as int == dec_value(v@.subrange(0, i as int)),
            acc <= u32::MAX as u64,
        decreases n - i,
    {
        let u = v[i] as u32;
        if u < 48 || u > 57 {
            return None;
        }
        let d = (u - 48) as u64;
        let nd: u64 = acc * 10 + d;
        proof {
            let t = v@.subrange(0, i + 1 as int);
            assert(t.drop_last() =~= v@.subrange(0, i as int));
            assert(t.last() == v@[i as int]);
            assert(all_digits(t));
            assert(dec_value(t) == nd as int);
        }
        if nd > 0xffff_ffff {
            proof {
                if all_digits(v@) {
                    lemma_dec_value_prefix_le(v@, i + 1);
                }
            }
            return None;
        }
        acc = nd;
        i += 1;
    }
    proof {
        assert(v@.subrange(0, n as int) =~= v@);
    }
    Some(acc as u32)
}

/// The character of one decimal digit.
pub open spec fn digit_char(d: int) -> char {
    ((48 + d) as u8) as char
}

/// The decimal rendering of a non-negative number, most significant digit
/// first, without leading zeroes.
pub open spec fn dec_str(n: int) -> Seq<char>
    decreases n,
{
    if n < 10 {
        seq![digit_char(n)]
    } else {
        dec_str(n / 10) + seq![digit_char(n % 10)]
    }
}

/// Append the decimal rendering of `x`.
pub fn push_dec(out: &mut Vec<char>, x: u32)
    ensures
        final(out)@ == old(out)@ + dec_str(x as int),
    decreases x,
{
    if x < 10 {
        out.push(((48 + x) as u8) as char);
        proof {
            assert(out@ =~= old(out)@ + dec_str(x as int));
        }
    } else {
        push_dec(out, x / 10);
        out.push(((48 + (x % 10)) as u8) as char);
        proof {
            assert(out@ =~= old(out)@ + dec_str(x as int));
        }
    }
}

/// Index of the first blank in `s`, or `s.len()` if there is none.
pub open spec fn first_ws_index(s: Seq<char>) -> nat
    decreases s.len(),
{
    if s.len() == 0 {
        0
    } else if is_ws(s[0]) {
        0
    } else {
        1 + first_ws_index(s.drop_first())
    }
}

pub proof fn lemma_first_ws_index(s: Seq<char>)
    ensures
        first_ws_index(s) <= s.len(),
        first_ws_index(s) < s.len() ==> is_ws(s[first_ws_index(s) as int]),
        forall|j: int| 0 <= j < first_ws_index(s) ==> !is_ws(s[j]),
    decreases s.len(),
{
    if s.len() > 0 && !is_ws(s[0]) {
        lemma_first_ws_index(s.drop_first());
        assert forall|j: int| 0 <= j < first_ws_index(s) implies !is_ws(s[j]) by {
            if j > 0 {
                assert(s.drop_first()[j - 1] == s[j]);
            }
        }
    }
}

pub proof fn lemma_first_ws_index_is(s: Seq<char>, k: int)
    requires
        0 <= k <= s.len(),
        forall|j: int| 0 <= j < k ==> !is_ws(s[j]),
        k < s.len() ==> is_ws(s[k]),
    ensures
        first_ws_index(s) == k,
    decreases s.len(),
{
    if s.len() > 0 && !is_ws(s[0]) {
        lemma_first_ws_index_is(s.drop_first(), k - 1);
    }
}

/// The blank-separated words of `s`, in order, each word non-empty.
pub open spec fn split_ws(s: Seq<char>) -> Seq<Seq<char>>
    decreases s.len(),
{
    if s.len() == 0 {
        Seq::empty()
    } else if is_ws(s[0]) {
        split_ws(s.drop_first())
    } else {
        proof {
            lemma_first_ws_index(s);
        }
        seq![s.subrange(0, first_ws_index(s) as int)] + split_ws(
            s.subrange(first_ws_index(s) as int, s.len() as int),
        )
    }
}

pub proof fn lemma_split_ws_word(s: Seq<char>, k: int)
    requires
        0 < k <= s.len(),
        forall|j: int| 0 <= j < k ==> !is_ws(s[j]),
        k < s.len() ==> is_ws(s[k]),
    ensures
        split_ws(s) == seq![s.subrange(0, k)] + split_ws(s.subrange(k, s.len() as int)),
{
    lemma_first_ws_index_is(s, k);
}

/// Split `v` into its blank-separated words.
pub fn split_whitespace(v: &Vec<char>) -> (r: Vec<Vec<char>>)
    ensures
        r@.map_values(|x: Vec<char>| x@) == split_ws(v@),
{
    let n = v.len();
    let mut r: Vec<Vec<char>> = Vec::new();
    let mut i: usize = 0;
    proof {
        assert(v@.subrange(0, n as int) =~= v@);
        assert(r@.map_values(|x: Vec<char>| x@) =~= Seq::<Seq<char>>::empty());
    }
    while i < n
        invariant
            i <= n,
            n == v@.len(),
            split_ws(v@) =~= r@.map_values(|x: Vec<char>| x@) + split_ws(
                v@.subrange(i as int, n as int),
            ),
        decreases n - i,
    {
        if is_ws_char(v[i]) {
            proof {
                assert(v@.subrange(i as int, n as int).drop_first() =~= v@.subrange(
                    i + 1 as int,
                    n as int,
                ));
            }
            i += 1;
        } else {
            let mut j: usize = i;
            while j < n && !is_ws_char(v[j])
                invariant
                    i <= j <= n,
                    n == v@.len(),
                    forall|t: int| i <= t < j ==> !is_ws(v@[t]),
                decreases n - j,
            {
                j += 1;
            }
            let seg = subvec(v, i, j);
            proof {
                let t = v@.subrange(i as int, n as int);
                let k = j - i;
                assert(forall|m: int| 0 <= m < k ==> t[m] == v@[i + m] && !is_ws(t[m]));
                if k < t.len() {
                    assert(t[k] == v@[j as int]);
                }
                lemma_split_ws_word(t, k);
                assert(t.subrange(0, k) =~= v@.subrange(i as int, j as int));
                assert(t.subrange(k, t.len() as int) =~= v@.subrange(j as int, n as int));
                assert((r@.push(seg)).map_values(|x: Vec<char>| x@) =~= r@.map_values(
                    |x: Vec<char>| x@,
                ).push(seg@));
            }
            r.push(seg);
            i = j;
        }
    }
    proof {
        assert(v@.subrange(n as int, n as int) =~= Seq::<char>::empty());
    }
    r
}

/// The words of `parts` joined with single spaces.
pub open spec fn join_sp(parts: Seq<Seq<char>>) -> Seq<char>
    decreases parts.len(),
{
    if parts.len() == 0 {
        Seq::empty()
    } else if parts.len() == 1 {
        parts[0]
    } else {
        parts[0] + seq![' '] + join_sp(parts.drop_first())
    }
}

pub proof fn lemma_join_sp_push(parts: Seq<Seq<char>>, p: Seq<char>)
    ensures
        parts.len() == 0 ==> join_sp(parts.push(p)) == p,
        parts.len() > 0 ==> join_sp(parts.push(p)) == join_sp(parts) + seq![' '] + p,
    decreases parts.len(),
{
    if parts.len() == 0 {
        assert(parts.push(p)[0] =~= p);
    } else if parts.len() == 1 {
        let q = parts.push(p);
        assert(q.drop_first() =~= seq![p]);
        assert(q[0] == parts[0]);
        assert(seq![p][0] == p);
        assert(join_sp(seq![p]) == p);
        assert(join_sp(q) == q[0] + seq![' '] + join_sp(q.drop_first()));
        assert(join_sp(parts.push(p)) =~= join_sp(parts) + seq![' '] + p);
    } else {
        lemma_join_sp_push(parts.drop_first(), p);
        assert(parts.push(p).drop_first() =~= parts.drop_first().push(p));
        assert(parts.push(p)[0] == parts[0]);
        assert(join_sp(parts.push(p)) =~= join_sp(parts) + seq![' '] + p);
    }
}

/// Join `parts` with single spaces.
pub fn join_spaces(parts: &Vec<Vec<char>>) -> (r: Vec<char>)
    ensures
        r@ == join_sp(parts@.map_values(|x: Vec<char>| x@)),
{
    let n = parts.len();
    let mut r: Vec<char> = Vec::new();
    let mut k: usize = 0;
    proof {
        assert(parts@.map_values(|x: Vec<char>| x@).subrange(0, 0) =~= Seq::<Seq<char>>::empty());
    }
    while k < n
        invariant
            k <= n,
            n == parts@.len(),
            r@ == join_sp(parts@.map_values(|x: Vec<char>| x@).subrange(0, k as int)),
        decreases n - k,
    {
        proof {
            let m = parts@.map_values(|x: Vec<char>| x@);
            lemma_join_sp_push(m.subrange(0, k as int), m[k as int]);
            assert(m.subrange(0, k + 1 as int) =~= m.subrange(0, k as int).push(m[k as int]));
        }
        if k > 0 {
            r.push(' ');
            proof {
                let m = parts@.map_values(|x: Vec<char>| x@);
                assert(r@ =~= join_sp(m.subrange(0, k as int)) + seq![' ']);
            }
        }
        r = concat_chars(&r, &parts[k]);
        k += 1;
    }
    proof {
        assert(parts@.map_values(|x: Vec<char>| x@).subrange(0, n as int) =~= parts@.map_values(
            |x: Vec<char>| x@,
        ));
    }
    r
}

} // verus!
