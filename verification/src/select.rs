//! Asset selection.
//!
//! Picks the asset whose name encodes the running platform's identifier.
//! Matching is by substring on the asset name; if several assets match,
//! the first in manifest order is chosen — deterministically, by design.

use vstd::prelude::*;
use crate::errors::UpdateError;
use crate::manifest::Release;

verus! {

/// `tok` occurs in `name` starting at position `k`.
pub open spec fn matches_at(name: Seq<char>, tok: Seq<char>, k: int) -> bool {
    0 <= k && k + tok.len() <= name.len() && name.subrange(k, k + tok.len()) == tok
}

/// `tok` occurs somewhere in `name`.
pub open spec fn name_matches(name: Seq<char>, tok: Seq<char>) -> bool {
    exists|k: int| matches_at(name, tok, k)
}

/// Does `t` occur in `s` starting at position `k`?
fn match_at(s: &str, t: &str, k: usize) -> (b: bool)
    requires
        k + t@.len() <= s@.len(),
    ensures
        b == matches_at(s@, t@, k as int),
{
    let n = s.unicode_len();
    let m = t.unicode_len();
    let mut j: usize = 0;
    while j < m
        invariant
            n == s@.len(),
            m == t@.len(),
            k + m <= n,
            0 <= j <= m,
            forall|x: int| 0 <= x < j ==> s@[k + x] == t@[x],
        decreases m - j,
    {
        if s.get_char(k + j) != t.get_char(j) {
            proof {
                assert(s@.subrange(k as int, k as int + t@.len())[j as int] != t@[j as int]);
            }
            return false;
        }
        j = j + 1;
    }
    proof {
        assert(s@.subrange(k as int, k as int + t@.len()) =~= t@);
    }
    true
}

/// Does `t` occur anywhere in `s`?
fn contains_str(s: &str, t: &str) -> (b: bool)
    ensures
        b == name_matches(s@, t@),
{
    let n = s.unicode_len();
    let m = t.unicode_len();
    if m > n {
        return false;
    }
    if m == 0 {
        proof {
            assert(matches_at(s@, t@, 0)) by {
                assert(s@.subrange(0, 0) =~= t@);
            }
        }
        return true;
    }
    let mut k: usize = 0;
    while k <= n - m
        invariant
            n == s@.len(),
            m == t@.len(),
            1 <= m <= n,
            0 <= k <= n - m + 1,
            forall|x: int| 0 <= x < k ==> !matches_at(s@, t@, x),
        decreases n - m + 1 - k,
    {
        if match_at(s, t, k) {
            return true;
        }
        k = k + 1;
    }
    false
}

/// Picks the asset for the running platform: the index of the first asset
/// whose name contains `platform`, in manifest order. Fails with
/// `NoMatchingAsset` exactly when no asset name contains the token.
pub fn select(manifest: &Release, platform: &str) -> (r: Result<usize, UpdateError>)
    ensures
        match r {
            Ok(i) => i < manifest.assets@.len() && name_matches(
                manifest.assets@[i as int].name@,
                platform@,
            ) && forall|j: int| 0 <= j < i ==> !name_matches(
                #[trigger] manifest.assets@[j].name@,
                platform@,
            ),
            Err(e) => e == UpdateError::NoMatchingAsset && forall|j: int|
                0 <= j < manifest.assets@.len() ==> !name_matches(
                    #[trigger] manifest.assets@[j].name@,
                    platform@,
                ),
        },
{
    let n = manifest.assets.len();
    let mut i: usize = 0;
    while i < n
        invariant
            n == manifest.assets@.len(),
            0 <= i <= n,
            forall|j: int| 0 <= j < i ==> !name_matches(
                #[trigger] manifest.assets@[j].name@,
                platform@,
            ),
        decreases n - i,
    {
        if contains_str(manifest.assets[i].name.as_str(), platform) {
            return Ok(i);
        }
        i = i + 1;
    }
    Err(UpdateError::NoMatchingAsset)
}

} // verus!
