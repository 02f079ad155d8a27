//! Verified text utilities for path classification: ASCII case folding,
//! case-insensitive containment, and extraction of the file name and the
//! extension from a path written with `/` or `\` separators.

use vstd::prelude::*;
use vstd::string::StrSliceExecFns;

verus! {

/// The code point of a character after ASCII case folding: upper-case
/// ASCII letters map to their lower-case counterparts, every other
/// character is left as it is.
pub open spec fn fold_char(c: char) -> int {
    if 65 <= c as u32 && c as u32 <= 90 {
        c as u32 + 32
    } else {
        c as u32 as int
    }
}

/// A character sequence after ASCII case folding, as code points.
pub open spec fn folded(s: Seq<char>) -> Seq<int> {
    s.map_values(|c: char| fold_char(c))
}

/// Two character sequences are equal up to ASCII case.
pub open spec fn eq_ci(a: Seq<char>, b: Seq<char>) -> bool {
    folded(a) == folded(b)
}

/// `pat` occurs in `s` at offset `i`, up to ASCII case.
pub open spec fn contains_ci_at(s: Seq<char>, pat: Seq<char>, i: int) -> bool {
    0 <= i && i + pat.len() <= s.len() && eq_ci(s.subrange(i, i + pat.len() as int), pat)
}

/// `pat` occurs somewhere in `s`, up to ASCII case.
pub open spec fn contains_ci(s: Seq<char>, pat: Seq<char>) -> bool {
    exists|i: int| contains_ci_at(s, pat, i)
}

/// `s` begins with `pat`, up to ASCII case.
pub open spec fn starts_with_ci(s: Seq<char>, pat: Seq<char>) -> bool {
    contains_ci_at(s, pat, 0)
}

/// `s` ends with `pat`, up to ASCII case.
pub open spec fn ends_with_ci(s: Seq<char>, pat: Seq<char>) -> bool {
    pat.len() <= s.len() && contains_ci_at(s, pat, s.len() - pat.len())
}

/// `s` begins with `pat`, case-sensitively.
pub open spec fn starts_with(s: Seq<char>, pat: Seq<char>) -> bool {
    pat.len() <= s.len() && s.subrange(0, pat.len() as int) == pat
}

/// A path separator: the tool treats both `/` and `\` as separators, as
/// path strings from either platform convention may be classified.
pub open spec fn is_sep(c: char) -> bool {
    c == '/' || c == '\\'
}

/// The file name of a path: the suffix after the last separator, or the
/// whole path when it holds no separator.
pub open spec fn file_name_of(s: Seq<char>) -> Seq<char>
    decreases s.len(),
{
    if s.len() == 0 {
        s
    } else if is_sep(s.last()) {
        Seq::empty()
    } else {
        file_name_of(s.drop_last()).push(s.last())
    }
}

/// The extension of a file name: the suffix after the last `.`, provided
/// that dot is not the leading character (so dotfiles such as `.profile`
/// have no extension). A trailing dot yields the empty extension.
pub open spec fn extension_of(f: Seq<char>) -> Option<Seq<char>>
    decreases f.len(),
{
    if f.len() < 2 {
        None
    } else if f.last() == '.' {
        Some(Seq::empty())
    } else {
        match extension_of(f.drop_last()) {
            Some(e) => Some(e.push(f.last())),
            None => None,
        }
    }
}

/// ASCII case folding, executable form.
pub fn fold_code(c: char) -> (r: u32)
    ensures
        r as int == fold_char(c),
{
    let u = c as u32;
    if 65 <= u && u <= 90 {
        u + 32
    } else {
        u
    }
}

/// The characters of a string, collected into a vector.
pub fn chars_of(s: &str) -> (r: Vec<char>)
    ensures
        r@ == s@,
{
    let n = s.unicode_len();
    let mut r: Vec<char> = Vec::new();
    let mut i: usize = 0;
    while i < n
        invariant
            i <= n,
            n == s@.len(),
            r@ == s@.subrange(0, i as int),
        decreases n - i,
    {
        let c = s.get_char(i);
        r.push(c);
        proof {
            assert(s@.subrange(0, i as int).push(s@[i as int]) =~= s@.subrange(0, i + 1 as int));
        }
        i = i + 1;
    }
    proof {
        assert(s@.subrange(0, n as int) =~= s@);
    }
    r
}

/// Whether `pat` occurs at offset `at` of `s`, up to ASCII case.
pub fn match_ci_at(s: &Vec<char>, pat: &Vec<char>, at: usize) -> (r: bool)
    requires
        at + pat@.len() <= s@.len(),
    ensures
        r == contains_ci_at(s@, pat@, at as int),
{
    let m = pat.len();
    let sn = s.len();
    let mut j: usize = 0;
    while j < m
        invariant
            j <= m,
            m == pat@.len(),
            sn == s@.len(),
            at + m <= sn,
            forall|k: int| 0 <= k < j ==> fold_char(s@[at + k]) == fold_char(pat@[k]),
        decreases m - j,
    {
        if fold_code(s[at + j]) != fold_code(pat[j]) {
            proof {
                let sub = s@.subrange(at as int, at + m as int);
                assert(folded(sub)[j as int] != folded(pat@)[j as int]);
            }
            return false;
        }
        j = j + 1;
    }
    proof {
        let sub = s@.subrange(at as int, at + m as int);
        assert(folded(sub) =~= folded(pat@));
    }
    true
}

/// Whether `pat` occurs anywhere in `s`, up to ASCII case.
pub fn find_ci(s: &Vec<char>, pat: &Vec<char>) -> (r: bool)
    ensures
        r == contains_ci(s@, pat@),
{
    let n = s.len();
    let m = pat.len();
    if m > n {
        proof {
            assert(forall|i: int| !contains_ci_at(s@, pat@, i));
        }
        return false;
    }
    if m == 0 {
        proof {
            assert(s@.subrange(0, 0) =~= Seq::<char>::empty());
            assert(folded(s@.subrange(0, 0)) =~= folded(pat@));
            assert(contains_ci_at(s@, pat@, 0));
        }
        return true;
    }
    let mut i: usize = 0;
    while i <= n - m
        invariant
            1 <= m <= n,
            n == s@.len(),
            m == pat@.len(),
            i <= n - m + 1,
            forall|k: int| 0 <= k < i ==> !contains_ci_at(s@, pat@, k),
        decreases n - i,
    {
        if match_ci_at(s, pat, i) {
            proof {
                assert(contains_ci_at(s@, pat@, i as int));
            }
            return true;
        }
        i = i + 1;
    }
    proof {
        assert forall|k: int| !contains_ci_at(s@, pat@, k) by {
            if 0 <= k < i {
            }
        }
    }
    false
}

/// Whether `a` equals `b` up to ASCII case.
pub fn eq_ci_chars(a: &Vec<char>, b: &Vec<char>) -> (r: bool)
    ensures
        r == eq_ci(a@, b@),
{
    if a.len() != b.len() {
        proof {
            assert(folded(a@).len() != folded(b@).len());
        }
        return false;
    }
    proof {
        assert(a@.subrange(0, a@.len() as int) =~= a@);
    }
    match_ci_at(a, b, 0)
}

/// Whether `s` begins with `pat`, up to ASCII case.
pub fn starts_with_ci_chars(s: &Vec<char>, pat: &Vec<char>) -> (r: bool)
    ensures
        r == starts_with_ci(s@, pat@),
{
    if pat.len() > s.len() {
        return false;
    }
    match_ci_at(s, pat, 0)
}

/// Whether `s` ends with `pat`, up to ASCII case.
pub fn ends_with_ci_chars(s: &Vec<char>, pat: &Vec<char>) -> (r: bool)
    ensures
        r == ends_with_ci(s@, pat@),
{
    if pat.len() > s.len() {
        return false;
    }
    match_ci_at(s, pat, s.len() - pat.len())
}

/// Whether `s` begins with `pat`, case-sensitively.
pub fn starts_with_chars(s: &Vec<char>, pat: &Vec<char>) -> (r: bool)
    ensures
        r == starts_with(s@, pat@),
{
    let m = pat.len();
    if m > s.len() {
        return false;
    }
    let mut j: usize = 0;
    while j < m
        invariant
            j <= m,
            m == pat@.len(),
            m <= s@.len(),
            forall|k: int| 0 <= k < j ==> s@[k] == pat@[k],
        decreases m - j,
    {
        if s[j] != pat[j] {
            proof {
                assert(s@.subrange(0, m as int)[j as int] != pat@[j as int]);
            }
            return false;
        }
        j = j + 1;
    }
    proof {
        assert(s@.subrange(0, m as int) =~= pat@);
    }
    true
}

/// The file name of a path equals the suffix that follows its last
/// separator.
proof fn lemma_file_name_suffix(s: Seq<char>, start: int)
    requires
        0 <= start <= s.len(),
        forall|j: int| start <= j < s.len() ==> !is_sep(s[j]),
        start == 0 || is_sep(s[start - 1]),
    ensures
        file_name_of(s) == s.subrange(start, s.len() as int),
    decreases s.len(),
{
    if s.len() == 0 {
        assert(file_name_of(s) =~= s.subrange(0, 0));
    } else if start == s.len() {
        assert(is_sep(s.last()));
        assert(file_name_of(s) =~= s.subrange(start, s.len() as int));
    } else {
        assert(!is_sep(s.last()));
        lemma_file_name_suffix(s.drop_last(), start);
        assert(s.drop_last().subrange(start, s.len() - 1).push(s.last()) =~= s.subrange(
            start,
            s.len() as int,
        ));
    }
}

/// The file name of a path, as characters.
pub fn file_name_chars(s: &Vec<char>) -> (r: Vec<char>)
    ensures
        r@ == file_name_of(s@),
{
    let n = s.len();
    let mut start: usize = n;
    while start > 0 && !(s[start - 1] == '/' || s[start - 1] == '\\')
        invariant
            start <= n,
            n == s@.len(),
            forall|j: int| start <= j < n ==> !is_sep(s@[j]),
        decreases start,
    {
        start = start - 1;
    }
    proof {
        lemma_file_name_suffix(s@, start as int);
    }
    let mut r: Vec<char> = Vec::new();
    let mut i: usize = start;
    while i < n
        invariant
            start <= i <= n,
            n == s@.len(),
            r@ == s@.subrange(start as int, i as int),
        decreases n - i,
    {
        r.push(s[i]);
        proof {
            assert(s@.subrange(start as int, i as int).push(s@[i as int]) =~= s@.subrange(
                start as int,
                i + 1 as int,
            ));
        }
        i = i + 1;
    }
    r
}

/// A file name with no dot beyond its leading character has no extension.
proof fn lemma_no_extension(f: Seq<char>)
    requires
        forall|j: int| 1 <= j < f.len() ==> f[j] != '.',
    ensures
        extension_of(f) is None,
    decreases f.len(),
{
    if f.len() < 2 {
    } else {
        assert(f.last() != '.');
        lemma_no_extension(f.drop_last());
    }
}

/// The extension of a file name equals the suffix after its last dot,
/// when that dot is not the leading character.
proof fn lemma_extension_suffix(f: Seq<char>, start: int)
    requires
        2 <= start <= f.len(),
        f[start - 1] == '.',
        forall|j: int| start <= j < f.len() ==> f[j] != '.',
    ensures
        extension_of(f) == Some(f.subrange(start, f.len() as int)),
    decreases f.len(),
{
    if start == f.len() {
        assert(f.last() == '.');
        assert(extension_of(f) == Some(Seq::<char>::empty()));
        assert(Seq::<char>::empty() =~= f.subrange(start, f.len() as int));
    } else {
        assert(f.last() != '.');
        lemma_extension_suffix(f.drop_last(), start);
        assert(f.drop_last().subrange(start, f.len() - 1).push(f.last()) =~= f.subrange(
            start,
            f.len() as int,
        ));
    }
}

/// The extension of a file name, as characters, or `None` when the file
/// name has none.
pub fn extension_chars(f: &Vec<char>) -> (r: Option<Vec<char>>)
    ensures
        match r {
            Some(e) => extension_of(f@) == Some(e@),
            None => extension_of(f@) is None,
        },
{
    let n = f.len();
    let mut start: usize = n;
    while start > 0 && !(f[start - 1] == '.')
        invariant
            start <= n,
            n == f@.len(),
            forall|j: int| start <= j < n ==> f@[j] != '.',
        decreases start,
    {
        start = start - 1;
    }
    if start < 2 {
        proof {
            lemma_no_extension(f@);
        }
        return None;
    }
    proof {
        lemma_extension_suffix(f@, start as int);
    }
    let mut r: Vec<char> = Vec::new();
    let mut i: usize = start;
    while i < n
        invariant
            start <= i <= n,
            n == f@.len(),
            r@ == f@.subrange(start as int, i as int),
        decreases n - i,
    {
        r.push(f[i]);
        proof {
            assert(f@.subrange(start as int, i as int).push(f@[i as int]) =~= f@.subrange(
                start as int,
                i + 1 as int,
            ));
        }
        i = i + 1;
    }
    Some(r)
}

} // verus!
