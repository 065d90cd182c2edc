//! Verified helpers over strings, used by the catalogs, the linker and
//! the size validator. All contracts are stated over `Seq<char>` views.

use vstd::prelude::*;

verus! {

/// True iff `n` occurs in `s` as a contiguous subsequence.
pub open spec fn seq_contains_str(s: Seq<char>, n: Seq<char>) -> bool {
    exists|i: int| 0 <= i && i + n.len() <= s.len() && #[trigger] s.subrange(i, i + n.len() as int) == n
}

/// `path` made relative to `root`: if `root` is a prefix of `path`, the
/// remainder with one leading `/` removed; otherwise `path` unchanged.
pub open spec fn spec_relative_to(path: Seq<char>, root: Seq<char>) -> Seq<char> {
    if root.is_prefix_of(path) {
        let rest = path.skip(root.len() as int);
        if rest.len() > 0 && rest[0] == '/' {
            rest.skip(1)
        } else {
            rest
        }
    } else {
        path
    }
}

/// Character-wise string equality.
pub fn str_eq(a: &str, b: &str) -> (r: bool)
    ensures
        r == (a@ == b@),
{
    let alen = a.unicode_len();
    let blen = b.unicode_len();
    if alen != blen {
        return false;
    }
    let mut i: usize = 0;
    while i < alen
        invariant
            alen == a@.len(),
            blen == b@.len(),
            alen == blen,
            i <= alen,
            forall|j: int| 0 <= j < i ==> a@[j] == b@[j],
        decreases alen - i,
    {
        if a.get_char(i) != b.get_char(i) {
            return false;
        }
        i += 1;
    }
    proof {
        assert(a@ =~= b@);
    }
    true
}

/// True iff `prefix` is a prefix of `s`.
pub fn str_starts_with(s: &str, prefix: &str) -> (r: bool)
    ensures
        r == prefix@.is_prefix_of(s@),
{
    let slen = s.unicode_len();
    let plen = prefix.unicode_len();
    if plen > slen {
        return false;
    }
    let mut i: usize = 0;
    while i < plen
        invariant
            slen == s@.len(),
            plen == prefix@.len(),
            plen <= slen,
            i <= plen,
            forall|j: int| 0 <= j < i ==> s@[j] == prefix@[j],
        decreases plen - i,
    {
        if s.get_char(i) != prefix.get_char(i) {
            return false;
        }
        i += 1;
    }
    proof {
        assert(prefix@ =~= s@.subrange(0, plen as int));
    }
    true
}

/// True iff `s` matches `needle` at position `start`.
fn match_at(s: &str, start: usize, needle: &str) -> (r: bool)
    requires
        start + needle@.len() <= s@.len(),
        s@.len() <= usize::MAX,
    ensures
        r == (s@.subrange(start as int, start + needle@.len()) == needle@),
{
    let nlen = needle.unicode_len();
    let mut j: usize = 0;
    while j < nlen
        invariant
            nlen == needle@.len(),
            start + nlen <= s@.len(),
            s@.len() <= usize::MAX,
            j <= nlen,
            forall|k: int| 0 <= k < j ==> s@[start + k] == needle@[k],
        decreases nlen - j,
    {
        if s.get_char(start + j) != needle.get_char(j) {
            proof {
                assert(s@.subrange(start as int, start + needle@.len())[j as int] == s@[start + j]);
            }
            return false;
        }
        j += 1;
    }
    proof {
        assert(s@.subrange(start as int, start + needle@.len()) =~= needle@);
    }
    true
}

/// True iff `needle` occurs anywhere in `s`.
pub fn str_contains(s: &str, needle: &str) -> (r: bool)
    ensures
        r == seq_contains_str(s@, needle@),
{
    let slen = s.unicode_len();
    let nlen = needle.unicode_len();
    if nlen > slen {
        return false;
    }
    if nlen == 0 {
        proof {
            assert(s@.subrange(0, 0 + needle@.len() as int) =~= needle@);
        }
        return true;
    }
    let mut i: usize = 0;
    while i <= slen - nlen
        invariant
            slen == s@.len(),
            nlen == needle@.len(),
            1 <= nlen <= slen,
            i <= slen - nlen + 1,
            forall|k: int| 0 <= k < i ==> #[trigger] s@.subrange(k, k + needle@.len()) != needle@,
        decreases slen - i,
    {
        if match_at(s, i, needle) {
            return true;
        }
        i += 1;
    }
    false
}

/// `path` made relative to `root`, as [`spec_relative_to`] describes.
pub fn relative_to(path: &str, root: &str) -> (r: String)
    ensures
        r@ == spec_relative_to(path@, root@),
{
    if str_starts_with(path, root) {
        let plen = path.unicode_len();
        let rlen = root.unicode_len();
        let rest = path.substring_char(rlen, plen);
        proof {
            assert(rest@ =~= path@.skip(root@.len() as int));
        }
        if rest.unicode_len() > 0 && rest.get_char(0) == '/' {
            let trimmed = rest.substring_char(1, rest.unicode_len());
            proof {
                assert(trimmed@ =~= path@.skip(root@.len() as int).skip(1));
            }
            String::from_str(trimmed)
        } else {
            String::from_str(rest)
        }
    } else {
        String::from_str(path)
    }
}

/// True iff some element of `v` has the same characters as `s`.
pub fn vec_contains_string(v: &Vec<String>, s: &str) -> (r: bool)
    ensures
        r == (exists|i: int| 0 <= i < v@.len() && v@[i]@ == s@),
{
    let mut i: usize = 0;
    while i < v.len()
        invariant
            i <= v@.len(),
            forall|j: int| 0 <= j < i ==> v@[j]@ != s@,
        decreases v@.len() - i,
    {
        if str_eq(v[i].as_str(), s) {
            return true;
        }
        i += 1;
    }
    false
}

/// Copies a vector of strings; the copy's view equals the original's.
pub fn clone_strings(v: &Vec<String>) -> (r: Vec<String>)
    ensures
        r@ == v@,
{
    let mut out: Vec<String> = Vec::new();
    let mut i: usize = 0;
    while i < v.len()
        invariant
            i <= v@.len(),
            out@ == v@.subrange(0, i as int),
        decreases v@.len() - i,
    {
        out.push(v[i].clone());
        proof {
            assert(out@ =~= v@.subrange(0, i + 1 as int));
        }
        i += 1;
    }
    proof {
        assert(v@.subrange(0, v@.len() as int) =~= v@);
    }
    out
}

} // verus!
