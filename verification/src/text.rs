//! Text helpers for extension dispatch, search and sorting: ASCII case
//! folding, case-insensitive comparison and containment, and path stem
//! extraction.  All of them are exact functions of their character
//! sequences.

use vstd::prelude::*;

verus! {

/// ASCII lower-casing of one character; other characters are unchanged.
pub open spec fn spec_lower_char(c: char) -> char {
    if 'A' <= c <= 'Z' {
        ((c as u8) + 32) as char
    } else {
        c
    }
}

/// ASCII lower-casing of a character sequence.
pub open spec fn spec_lower(s: Seq<char>) -> Seq<char> {
    s.map_values(|c: char| spec_lower_char(c))
}

/// Folding is idempotent: a folded text folds to itself.
pub proof fn lemma_lower_idempotent(s: Seq<char>)
    ensures
        spec_lower(spec_lower(s)) =~= spec_lower(s),
{
    assert forall|i: int| 0 <= i < s.len() implies spec_lower(spec_lower(s))[i] == spec_lower(
        s,
    )[i] by {
        assert(spec_lower(s)[i] == spec_lower_char(s[i]));
        assert(spec_lower(spec_lower(s))[i] == spec_lower_char(spec_lower_char(s[i])));
    }
}

fn lower_char(c: char) -> (r: char)
    ensures
        r == spec_lower_char(c),
{
    if 'A' <= c && c <= 'Z' {
        ((c as u8) + 32) as char
    } else {
        c
    }
}

/// The lower-cased text equals `t` (which callers pass already folded).
pub fn eq_lower(s: &str, t: &str) -> (r: bool)
    ensures
        r == (spec_lower(s@) == t@),
{
    let n = s.unicode_len();
    let m = t.unicode_len();
    if n != m {
        proof {
            assert(spec_lower(s@).len() == s@.len());
        }
        return false;
    }
    let mut i: usize = 0;
    while i < n
        invariant
            n == s@.len(),
            n == t@.len(),
            i <= n,
            forall|j: int| 0 <= j < i ==> spec_lower_char(s@[j]) == t@[j],
        decreases n - i,
    {
        let c = s.get_char(i);
        let d = t.get_char(i);
        if lower_char(c) != d {
            proof {
                assert(spec_lower(s@)[i as int] == spec_lower_char(s@[i as int]));
            }
            return false;
        }
        i = i + 1;
    }
    proof {
        assert(spec_lower(s@) =~= t@);
    }
    true
}

/// The lower-cased text ends with `suffix` (which callers pass already
/// folded).
pub fn ends_with_lower(s: &str, suffix: &str) -> (r: bool)
    ensures
        r == (s@.len() >= suffix@.len() && spec_lower(s@).skip(s@.len() - suffix@.len())
            =~= suffix@),
{
    let n = s.unicode_len();
    let m = suffix.unicode_len();
    if n < m {
        return false;
    }
    let off = n - m;
    let mut i: usize = 0;
    while i < m
        invariant
            n == s@.len(),
            m == suffix@.len(),
            off == n - m,
            i <= m,
            forall|j: int| 0 <= j < i ==> spec_lower_char(s@[off + j]) == suffix@[j],
        decreases m - i,
    {
        let c = s.get_char(off + i);
        let d = suffix.get_char(i);
        if lower_char(c) != d {
            proof {
                assert(spec_lower(s@).skip(n - m)[i as int] == spec_lower_char(s@[off + i]));
            }
            return false;
        }
        i = i + 1;
    }
    proof {
        assert forall|j: int| 0 <= j < m implies spec_lower(s@).skip(n - m)[j] == suffix@[j] by {
            assert(spec_lower(s@).skip(n - m)[j] == spec_lower_char(s@[off + j]));
        }
        assert(spec_lower(s@).skip(n - m) =~= suffix@);
    }
    true
}

/// `needle` occurs as a contiguous run inside `hay`.
pub open spec fn spec_contains_seq(hay: Seq<char>, needle: Seq<char>) -> bool {
    exists|i: int|
        0 <= i <= hay.len() - needle.len() && #[trigger] hay.subrange(i, i + needle.len() as int)
            =~= needle
}

/// The folded needle occurs inside the folded haystack (callers pass the
/// needle already folded).
pub fn contains_lower(hay: &str, needle: &str) -> (r: bool)
    ensures
        r == spec_contains_seq(spec_lower(hay@), needle@),
{
    let n = hay.unicode_len();
    let m = needle.unicode_len();
    if m > n {
        proof {
            assert(spec_lower(hay@).len() == hay@.len());
        }
        return false;
    }
    if m == 0 {
        proof {
            assert(spec_lower(hay@).subrange(0, 0 + needle@.len() as int) =~= needle@);
        }
        return true;
    }
    let last = n - m;
    let mut i: usize = 0;
    while i <= last
        invariant
            n == hay@.len(),
            m == needle@.len(),
            0 < m <= n,
            last == n - m,
            i <= last + 1,
            forall|k: int|
                0 <= k < i ==> !(#[trigger] spec_lower(hay@).subrange(k, k + m as int)
                    =~= needle@),
        decreases last - i + 1,
    {
        let mut j: usize = 0;
        let mut ok = true;
        while ok && j < m
            invariant
                n == hay@.len(),
                m == needle@.len(),
                i + m <= n,
                j <= m,
                ok ==> forall|q: int| 0 <= q < j ==> spec_lower_char(hay@[i + q]) == needle@[q],
                !ok ==> !(spec_lower(hay@).subrange(i as int, i + m as int) =~= needle@),
            decreases m - j + (if ok {
                1int
            } else {
                0int
            }),
        {
            let c = hay.get_char(i + j);
            let d = needle.get_char(j);
            if lower_char(c) != d {
                proof {
                    assert(spec_lower(hay@).subrange(i as int, i + m as int)[j as int]
                        == spec_lower_char(hay@[i + j]));
                }
                ok = false;
            } else {
                j = j + 1;
            }
        }
        if ok {
            proof {
                assert forall|q: int|
                    0 <= q < m implies spec_lower(hay@).subrange(i as int, i + m as int)[q]
                    == needle@[q] by {
                    assert(spec_lower(hay@).subrange(i as int, i + m as int)[q]
                        == spec_lower_char(hay@[i + q]));
                }
                assert(spec_lower(hay@).subrange(i as int, i + m as int) =~= needle@);
            }
            return true;
        }
        i = i + 1;
    }
    false
}

/// Strict lexicographic order on character sequences, by code point.
pub open spec fn spec_lex_lt(a: Seq<char>, b: Seq<char>) -> bool
    decreases a.len(),
{
    if b.len() == 0 {
        false
    } else if a.len() == 0 {
        true
    } else if (a[0] as u32) < (b[0] as u32) {
        true
    } else if (a[0] as u32) > (b[0] as u32) {
        false
    } else {
        spec_lex_lt(a.drop_first(), b.drop_first())
    }
}

/// The folded `a` precedes the folded `b` lexicographically.
pub fn lt_lower(a: &str, b: &str) -> (r: bool)
    ensures
        r == spec_lex_lt(spec_lower(a@), spec_lower(b@)),
{
    let n = a.unicode_len();
    let m = b.unicode_len();
    proof {
        assert(spec_lower(a@).skip(0) =~= spec_lower(a@));
        assert(spec_lower(b@).skip(0) =~= spec_lower(b@));
    }
    let mut i: usize = 0;
    while i < n || i < m
        invariant
            n == a@.len(),
            m == b@.len(),
            i <= n,
            i <= m,
            spec_lex_lt(spec_lower(a@), spec_lower(b@)) == spec_lex_lt(
                spec_lower(a@).skip(i as int),
                spec_lower(b@).skip(i as int),
            ),
        decreases n - i + m - i,
    {
        if i >= m {
            return false;
        }
        if i >= n {
            return true;
        }
        let ca = lower_char(a.get_char(i));
        let cb = lower_char(b.get_char(i));
        proof {
            let la = spec_lower(a@).skip(i as int);
            let lb = spec_lower(b@).skip(i as int);
            assert(la[0] == spec_lower_char(a@[i as int]));
            assert(lb[0] == spec_lower_char(b@[i as int]));
            assert(la.drop_first() =~= spec_lower(a@).skip(i + 1));
            assert(lb.drop_first() =~= spec_lower(b@).skip(i + 1));
        }
        if (ca as u32) < (cb as u32) {
            return true;
        }
        if (ca as u32) > (cb as u32) {
            return false;
        }
        i = i + 1;
    }
    proof {
        assert(spec_lower(a@).skip(i as int).len() == 0);
        assert(spec_lower(b@).skip(i as int).len() == 0);
    }
    false
}

/// Index one past the last path separator (`/` or `\`), or zero.
pub open spec fn spec_name_start(p: Seq<char>) -> int
    decreases p.len(),
{
    if p.len() == 0 {
        0
    } else if p.last() == '/' || p.last() == '\\' {
        p.len() as int
    } else {
        spec_name_start(p.drop_last())
    }
}

/// The file name of a path: everything after the last separator.
pub open spec fn spec_file_name(p: Seq<char>) -> Seq<char> {
    p.skip(spec_name_start(p))
}

/// The position of the last dot in a file name, counting only dots after
/// the leading character.
pub open spec fn spec_last_dot(name: Seq<char>) -> Option<int>
    decreases name.len(),
{
    if name.len() <= 1 {
        None
    } else if name.last() == '.' {
        Some(name.len() - 1)
    } else {
        spec_last_dot(name.drop_last())
    }
}

/// The stem of a file name: everything before the last dot, unless the
/// dot is the leading character or there is none.
pub open spec fn spec_stem_of_name(name: Seq<char>) -> Seq<char> {
    match spec_last_dot(name) {
        Some(i) => name.take(i),
        None => name,
    }
}

/// The extension of a file name: everything after the last dot, unless
/// the dot is the leading character or there is none.
pub open spec fn spec_ext_of_name(name: Seq<char>) -> Option<Seq<char>> {
    match spec_last_dot(name) {
        Some(i) => Some(name.skip(i + 1)),
        None => None,
    }
}

/// Index one past the last path separator, or zero.
fn find_name_start(p: &str) -> (r: usize)
    ensures
        r as int == spec_name_start(p@),
        r <= p@.len(),
{
    let n = p.unicode_len();
    proof {
        assert(p@.take(n as int) =~= p@);
    }
    let mut i: usize = n;
    while i > 0
        invariant
            n == p@.len(),
            i <= n,
            spec_name_start(p@) == spec_name_start(p@.take(i as int)),
        decreases i,
    {
        let c = p.get_char(i - 1);
        proof {
            assert(p@.take(i as int).last() == p@[i - 1]);
        }
        if c == '/' || c == '\\' {
            return i;
        }
        proof {
            assert(p@.take(i as int).drop_last() =~= p@.take(i - 1));
        }
        i = i - 1;
    }
    0
}

/// The position of the last dot after the leading character of `name`.
fn find_last_dot(name: &str) -> (r: Option<usize>)
    ensures
        match r {
            Some(i) => spec_last_dot(name@) == Some(i as int) && i < name@.len(),
            None => spec_last_dot(name@) is None,
        },
{
    let n = name.unicode_len();
    proof {
        assert(name@.take(n as int) =~= name@);
    }
    let mut i: usize = n;
    while i > 1
        invariant
            n == name@.len(),
            i <= n,
            spec_last_dot(name@) == spec_last_dot(name@.take(i as int)),
        decreases i,
    {
        let c = name.get_char(i - 1);
        proof {
            assert(name@.take(i as int).last() == name@[i - 1]);
        }
        if c == '.' {
            return Some(i - 1);
        }
        proof {
            assert(name@.take(i as int).drop_last() =~= name@.take(i - 1));
        }
        i = i - 1;
    }
    None
}

/// The file stem of a path: the file name without its extension.
pub fn path_file_stem(p: &str) -> (r: String)
    ensures
        r@ == spec_stem_of_name(spec_file_name(p@)),
{
    let start = find_name_start(p);
    let n = p.unicode_len();
    let name = p.substring_char(start, n);
    proof {
        assert(name@ =~= spec_file_name(p@));
    }
    match find_last_dot(name) {
        Some(dot) => {
            let r = name.substring_char(0, dot);
            proof {
                assert(r@ =~= name@.take(dot as int));
            }
            r.to_string()
        },
        None => name.to_string(),
    }
}

/// The extension of a path's file name, lower-cased; `None` when the name
/// has no extension.
pub fn path_extension_lower(p: &str) -> (r: Option<String>)
    ensures
        match r {
            Some(e) => {
                &&& spec_ext_of_name(spec_file_name(p@)) matches Some(x) && e@ == spec_lower(x)
            },
            None => spec_ext_of_name(spec_file_name(p@)) is None,
        },
{
    let start = find_name_start(p);
    let n = p.unicode_len();
    let name = p.substring_char(start, n);
    proof {
        assert(name@ =~= spec_file_name(p@));
    }
    match find_last_dot(name) {
        Some(dot) => {
            let nn = name.unicode_len();
            let e = name.substring_char(dot + 1, nn);
            proof {
                assert(e@ =~= name@.skip(dot + 1));
            }
            Some(lower_string(e))
        },
        None => None,
    }
}

/// A lower-cased copy of ASCII text; non-ASCII characters are kept.
pub fn lower_string(s: &str) -> (r: String)
    ensures
        r@ == spec_lower(s@),
{
    let n = s.unicode_len();
    let mut out = String::new();
    let mut i: usize = 0;
    while i < n
        invariant
            n == s@.len(),
            i <= n,
            out@ =~= spec_lower(s@).take(i as int),
        decreases n - i,
    {
        let c = lower_char(s.get_char(i));
        out.append(char_str(c).as_str());
        proof {
            assert(out@ =~= spec_lower(s@).take(i + 1));
        }
        i = i + 1;
    }
    proof {
        assert(spec_lower(s@).take(n as int) =~= spec_lower(s@));
    }
    out
}

/// Relies on char::to_string from std: the result is the one-character
/// string holding exactly this character.
#[verifier::external_body]
fn char_str(c: char) -> (r: String)
    ensures
        r@ =~= seq![c],
{
    c.to_string()
}

} // verus!
