//! The name filter: decides whether a discovered advertisement is eligible
//! for consideration, from the manager's optional configured pattern and the
//! device's optional advertised name. Matching is by substring: the pattern
//! must occur contiguously somewhere in the name.

use vstd::prelude::*;

verus! {

/// The view of an optionally configured or advertised string.
pub open spec fn opt_str_view(o: Option<String>) -> Option<Seq<char>> {
    match o {
        Some(s) => Some(s@),
        None => None,
    }
}

/// `p` occurs contiguously somewhere in `s` (at any offset, including the
/// empty occurrence of an empty `p`).
pub open spec fn is_substring_of(p: Seq<char>, s: Seq<char>) -> bool {
    exists|i: int| 0 <= i && i + p.len() <= s.len() && #[trigger] s.subrange(i, i + p.len()) == p
}

/// Eligibility of an advertisement under an optional configured pattern:
/// with no pattern every device is eligible, even a nameless one; with a
/// pattern a nameless device is ineligible, and a named one is eligible
/// exactly when the pattern is a substring of the name.
pub open spec fn spec_eligible(pattern: Option<Seq<char>>, name: Option<Seq<char>>) -> bool {
    match pattern {
        None => true,
        Some(p) => match name {
            None => false,
            Some(n) => is_substring_of(p, n),
        },
    }
}

/// With no pattern configured, no device is excluded: a device with no
/// advertised name is still eligible.
pub proof fn lemma_no_filter_no_exclusion(name: Option<Seq<char>>)
    ensures
        spec_eligible(None, name),
{
}

/// Does `p` occur in `s` starting at character offset `i`?
fn matches_at(s: &str, p: &str, i: usize) -> (r: bool)
    requires
        i + p@.len() <= s@.len(),
    ensures
        r == (s@.subrange(i as int, i + p@.len()) == p@),
{
    let m = p.unicode_len();
    let n = s.unicode_len();
    let mut k: usize = 0;
    while k < m
        invariant
            m == p@.len(),
            n == s@.len(),
            i + m <= n,
            0 <= k <= m,
            forall|t: int| 0 <= t < k ==> s@[i + t] == p@[t],
        decreases m - k,
    {
        if s.get_char(i + k) != p.get_char(k) {
            proof {
                assert(s@.subrange(i as int, i + p@.len())[k as int] != p@[k as int]);
            }
            return false;
        }
        k += 1;
    }
    proof {
        assert(s@.subrange(i as int, i + p@.len()) =~= p@);
    }
    true
}

/// Substring search: does `p` occur contiguously anywhere in `s`?
pub fn contains_substring(s: &str, p: &str) -> (r: bool)
    ensures
        r == is_substring_of(p@, s@),
{
    let n = s.unicode_len();
    let m = p.unicode_len();
    if m > n {
        return false;
    }
    let limit = n - m;
    let mut i: usize = 0;
    loop
        invariant
            n == s@.len(),
            m == p@.len(),
            m <= n,
            limit == n - m,
            0 <= i <= limit,
            forall|j: int| 0 <= j < i ==> #[trigger] s@.subrange(j, j + p@.len()) != p@,
        decreases limit - i,
    {
        if matches_at(s, p, i) {
            return true;
        }
        if i == limit {
            proof {
                assert forall|j: int|
                    0 <= j && j + p@.len() <= s@.len() implies #[trigger] s@.subrange(
                    j,
                    j + p@.len(),
                ) != p@ by {
                    if j < i {
                    } else {
                        assert(j == i);
                    }
                }
            }
            return false;
        }
        i += 1;
    }
}

/// Applies the filter to one advertisement, as the manager sees it: the
/// configured pattern against the optionally advertised name.
pub fn eligible(pattern: &Option<String>, name: &Option<String>) -> (r: bool)
    ensures
        r == spec_eligible(opt_str_view(*pattern), opt_str_view(*name)),
{
    match pattern {
        None => true,
        Some(p) => match name {
            None => false,
            Some(n) => contains_substring(n.as_str(), p.as_str()),
        },
    }
}

} // verus!
