//! Resolution of the canonical remote version for an index source.
//!
//! The remote side publishes each index under a version-redirect URL; the
//! version is the last path segment of the final location, with a known
//! prefix token stripped.  The locally observed release identifier is
//! normalized first: the known rolling release maps to the literal token
//! `unstable`, every other identifier passes through as its first five
//! characters.

use vstd::prelude::*;
use crate::error::CacheError;

verus! {

/// The release identifier that denotes the rolling release.
pub open spec fn rolling_release() -> Seq<char> {
    "22.11"@
}

/// The token the rolling release is published under.
pub open spec fn rolling_token() -> Seq<char> {
    "unstable"@
}

/// The normalized form of a raw release identifier: its first five
/// characters, except that the rolling release maps to `unstable`.
pub open spec fn spec_normalize_release(raw: Seq<char>) -> Seq<char>
    recommends
        raw.len() >= 5,
{
    if raw.subrange(0, 5) == rolling_release() {
        rolling_token()
    } else {
        raw.subrange(0, 5)
    }
}

/// Character-for-character string equality.
pub fn str_eq(a: &str, b: &str) -> (r: bool)
    ensures
        r == (a@ == b@),
{
    let la = a.unicode_len();
    let lb = b.unicode_len();
    if la != lb {
        assert(a@ != b@) by {
            assert(a@.len() != b@.len());
        }
        return false;
    }
    let mut i: usize = 0;
    while i < la
        invariant
            i <= la,
            la == a@.len(),
            la == b@.len(),
            forall|j: int| 0 <= j < i ==> a@[j] == b@[j],
        decreases la - i,
    {
        if a.get_char(i) != b.get_char(i) {
            return false;
        }
        i += 1;
    }
    proof {
        assert(a@ =~= b@);
    }
    true
}

/// The suffix of `p` after its final `/`; the whole of `p` when it has
/// none, and empty when `p` ends in `/`.
pub open spec fn last_segment(p: Seq<char>) -> Seq<char>
    decreases p.len(),
{
    if p.len() == 0 {
        Seq::empty()
    } else if p[p.len() - 1] == '/' {
        Seq::empty()
    } else {
        last_segment(p.drop_last()).push(p.last())
    }
}

proof fn lemma_last_segment_subrange(p: Seq<char>, cut: int)
    requires
        0 <= cut <= p.len(),
        cut == 0 || p[cut - 1] == '/',
        forall|j: int| cut <= j < p.len() ==> p[j] != '/',
    ensures
        last_segment(p) == p.subrange(cut, p.len() as int),
    decreases p.len(),
{
    if p.len() == cut {
        assert(last_segment(p) =~= p.subrange(cut, p.len() as int));
    } else {
        assert(p[p.len() - 1] != '/');
        lemma_last_segment_subrange(p.drop_last(), cut);
        assert(p.drop_last().subrange(cut, p.drop_last().len() as int) =~= p.subrange(
            cut,
            p.len() - 1,
        ));
        assert(last_segment(p) =~= p.subrange(cut, p.len() as int));
    }
}

/// The last path segment of `path`.
pub fn last_path_segment(path: &str) -> (r: String)
    ensures
        r@ == last_segment(path@),
{
    let n = path.unicode_len();
    let mut i: usize = 0;
    let mut cut: usize = 0;
    while i < n
        invariant
            i <= n,
            n == path@.len(),
            cut <= i,
            cut == 0 || path@[cut - 1] == '/',
            forall|j: int| cut <= j < i ==> path@[j] != '/',
        decreases n - i,
    {
        if path.get_char(i) == '/' {
            cut = i + 1;
        }
        i += 1;
    }
    let seg = path.substring_char(cut, n);
    proof {
        lemma_last_segment_subrange(path@, cut as int);
    }
    seg.to_owned()
}

/// `s` with the prefix `pre` removed when it starts with it, `s` itself
/// otherwise.
pub open spec fn spec_strip_prefix(pre: Seq<char>, s: Seq<char>) -> Seq<char> {
    if pre.len() <= s.len() && s.subrange(0, pre.len() as int) == pre {
        s.subrange(pre.len() as int, s.len() as int)
    } else {
        s
    }
}

/// Removes a leading `pre` from `s` if present.
pub fn strip_prefix_str(s: &str, pre: &str) -> (r: String)
    ensures
        r@ == spec_strip_prefix(pre@, s@),
{
    let ls = s.unicode_len();
    let lp = pre.unicode_len();
    if lp <= ls {
        let head = s.substring_char(0, lp);
        if str_eq(head, pre) {
            let tail = s.substring_char(lp, ls);
            return tail.to_owned();
        }
    }
    s.to_owned()
}

/// The prefix token under which the remote publishes its version tags.
pub open spec fn version_prefix() -> Seq<char> {
    "nixos-"@
}

/// The canonical remote version, given the path of the final location the
/// version-redirect URL resolved to: the last path segment, with the
/// `nixos-` prefix stripped if present.  Fails when the path is empty
/// (no path segments to take the version from).
pub fn resolve_version_from_path(path: &str) -> (r: Result<String, CacheError>)
    ensures
        path@.len() == 0 ==> (r matches Err(e) && e == CacheError::Resolve),
        path@.len() > 0 ==> (r matches Ok(v) && v@ == spec_strip_prefix(
            version_prefix(),
            last_segment(path@),
        )),
{
    if path.unicode_len() == 0 {
        return Err(CacheError::Resolve);
    }
    let seg = last_path_segment(path);
    Ok(strip_prefix_str(seg.as_str(), "nixos-"))
}

/// The base of every channel URL, up to where the version tag follows.
pub open spec fn channel_base() -> Seq<char> {
    "https://channels.nixos.org/nixos-"@
}

/// The version-redirect URL for a normalized release identifier.
pub fn version_url(version: &str) -> (r: String)
    ensures
        r@ == channel_base() + version@,
{
    let mut s = String::from_str("https://channels.nixos.org/nixos-");
    s.append(version);
    s
}

/// The download URL of a document `file` published under `version`.
pub fn document_url(version: &str, file: &str) -> (r: String)
    ensures
        r@ == channel_base() + version@ + "/"@ + file@,
{
    let mut s = String::from_str("https://channels.nixos.org/nixos-");
    s.append(version);
    s.append("/");
    s.append(file);
    s
}

/// Normalizes a raw release identifier.  Fails only when the identifier
/// has fewer than five characters: too short to carry a release number.
pub fn normalize_release(raw: &str) -> (r: Result<String, CacheError>)
    ensures
        raw@.len() >= 5 ==> (r matches Ok(v) && v@ == spec_normalize_release(raw@)),
        raw@.len() < 5 ==> (r matches Err(e) && e == CacheError::Resolve),
{
    let n = raw.unicode_len();
    if n < 5 {
        return Err(CacheError::Resolve);
    }
    let five = raw.substring_char(0, 5);
    if str_eq(five, "22.11") {
        Ok(String::from_str("unstable"))
    } else {
        Ok(five.to_owned())
    }
}

} // verus!
