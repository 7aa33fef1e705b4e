//! Reading the bare semantic version back out of a canonical version string.
//!
//! This is a scan, not a parse: the result starts after the last `v` seen
//! before the first `-` and ends just before that `-` (or at the end). A `v`
//! inside the version literal itself would move the start.

use vstd::prelude::*;
use vstd::string::*;

use crate::synthesize::{
    canonical_of, dirty_marker, is_digits, is_semver_core, lemma_semver_chars, RepoDescriptor,
};
use crate::{FALLBACK_VERSION, VERSION_LITERAL, VERSION_PREFIX};

verus! {

/// Index of the first `-` in `s` at or after `i`, or the length of `s`.
pub open spec fn stop_from(s: Seq<char>, i: int) -> int
    decreases s.len() - i,
{
    if i >= s.len() {
        s.len() as int
    } else if s[i] == '-' {
        i
    } else {
        stop_from(s, i + 1)
    }
}

/// Index just after the last `v` among the first `n` characters of `s`, or 0.
pub open spec fn start_before(s: Seq<char>, n: int) -> int
    decreases n,
{
    if n <= 0 {
        0
    } else if s[n - 1] == 'v' {
        n
    } else {
        start_before(s, n - 1)
    }
}

/// The semantic version that the scan finds in `s`: nothing when `s` holds
/// neither `-` nor `v`.
pub open spec fn semantic_of(s: Seq<char>) -> Seq<char> {
    if !s.contains('-') && !s.contains('v') {
        Seq::empty()
    } else {
        let stop = stop_from(s, 0);
        s.subrange(start_before(s, stop), stop)
    }
}

/// `stop` is the first `-` at or after `k`, or the end.
pub proof fn lemma_stop_from(s: Seq<char>, k: int, stop: int)
    requires
        0 <= k <= stop <= s.len(),
        forall|j: int| k <= j < stop ==> s[j] != '-',
        stop == s.len() || s[stop] == '-',
    ensures
        stop_from(s, k) == stop,
    decreases stop - k,
{
    if k < stop {
        lemma_stop_from(s, k + 1, stop);
    }
}

/// Past a `v` at `start - 1`, the characters up to `n` hold no `v`.
pub proof fn lemma_start_before(s: Seq<char>, start: int, n: int)
    requires
        0 < start <= n <= s.len(),
        s[start - 1] == 'v',
        forall|j: int| start <= j < n ==> s[j] != 'v',
    ensures
        start_before(s, n) == start,
    decreases n - start,
{
    if n > start {
        lemma_start_before(s, start, n - 1);
    }
}

/// The start is 0 exactly when no `v` comes before `n`; otherwise a `v`
/// stands just before it.
pub proof fn lemma_start_before_bounds(s: Seq<char>, n: int)
    requires
        0 <= n <= s.len(),
    ensures
        0 <= start_before(s, n) <= n,
        start_before(s, n) == 0 ==> forall|j: int| 0 <= j < n ==> s[j] != 'v',
        start_before(s, n) > 0 ==> s[start_before(s, n) - 1] == 'v',
    decreases n,
{
    if n > 0 && s[n - 1] != 'v' {
        lemma_start_before_bounds(s, n - 1);
    }
}

/// Extracts the bare semantic version (`6.0.1`) from a canonical version
/// string; never fails, and gives an empty string where there is nothing to
/// find.
pub fn semantic_version<'a>(s: &'a str) -> (r: &'a str)
    ensures
        r@ == semantic_of(s@),
{
    let n = s.unicode_len();
    let mut i: usize = 0;
    let mut start: usize = 0;
    while i < n
        invariant
            n == s@.len(),
            start <= i <= n,
            start == start_before(s@, i as int),
            forall|j: int| 0 <= j < i ==> s@[j] != '-',
        ensures
            start <= i <= n,
            start == start_before(s@, i as int),
            forall|j: int| 0 <= j < i ==> s@[j] != '-',
            i == n || s@[i as int] == '-',
        decreases n - i,
    {
        let c = s.get_char(i);
        if c == '-' {
            break;
        }
        if c == 'v' {
            start = i + 1;
        }
        i = i + 1;
    }
    proof {
        lemma_stop_from(s@, 0, i as int);
        lemma_start_before_bounds(s@, i as int);
        if i < n {
            assert(s@.contains('-'));
        } else if start > 0 {
            assert(s@[start - 1] == 'v');
            assert(s@.contains('v'));
        }
    }
    if i == n && start == 0 {
        s.substring_char(0, 0)
    } else {
        s.substring_char(start, i)
    }
}

/// What the scan relies on in the prefix: twelve characters, no `-`, and a
/// `v` last.
pub proof fn lemma_prefix_chars()
    ensures
        VERSION_PREFIX@.len() == 12,
        VERSION_PREFIX@[11] == 'v',
        forall|j: int| 0 <= j < 12 ==> VERSION_PREFIX@[j] != '-',
{
    reveal_strlit("Lighthouse/v");
}

/// For every `MAJOR.MINOR.PATCH` literal, followed or not by a pre-release
/// part that starts with `-`, and whatever the repository metadata, the scan
/// of the canonical version string gives back exactly `MAJOR.MINOR.PATCH`.
pub proof fn lemma_semantic_of_canonical(core: Seq<char>, tail: Seq<char>, repo: Option<RepoDescriptor>)
    requires
        is_semver_core(core),
        tail.len() == 0 || tail[0] == '-',
    ensures
        semantic_of(canonical_of(core + tail, repo)) == core,
        is_semver_core(semantic_of(canonical_of(core + tail, repo))),
{
    lemma_prefix_chars();
    lemma_semver_chars(core);
    let p = VERSION_PREFIX@;
    let s = canonical_of(core + tail, repo);
    let rest = match repo {
        None => tail,
        Some(d) => tail + seq!['-'] + d.hash@ + dirty_marker(d.dirty),
    };
    assert(s =~= p + core + rest);
    let m = 12 + core.len() as int;
    assert(rest.len() == 0 || rest[0] == '-');
    assert(m == s.len() || s[m] == '-') by {
        if rest.len() > 0 {
            assert(s[m] == rest[0]);
        }
    }
    assert forall|j: int| 0 <= j < m implies s[j] != '-' by {
        if j < 12 {
            assert(s[j] == p[j]);
        } else {
            assert(s[j] == core[j - 12]);
        }
    }
    assert forall|j: int| 12 <= j < m implies s[j] != 'v' by {
        assert(s[j] == core[j - 12]);
    }
    assert(s[11] == p[11]);
    assert(s.contains('v'));
    lemma_stop_from(s, 0, m);
    lemma_start_before(s, 12, m);
    assert(s.subrange(12, m) =~= core);
}

/// The semantic version of this build, `MAJOR.MINOR.PATCH`. Every canonical
/// version string of the build, with or without repository metadata, scans
/// to this same value.
pub fn version() -> (r: &'static str)
    ensures
        r@ == VERSION_LITERAL@,
        is_semver_core(r@),
        forall|repo: Option<RepoDescriptor>|
            #[trigger] semantic_of(canonical_of(VERSION_LITERAL@, repo)) == r@,
{
    proof {
        reveal_strlit("6.0.1");
        reveal_strlit("Lighthouse/v");
        reveal_strlit("Lighthouse/v6.0.1");
        let lit = VERSION_LITERAL@;
        assert(lit =~= seq!['6'] + seq!['.'] + seq!['0'] + seq!['.'] + seq!['1']);
        assert(is_digits(seq!['6']) && is_digits(seq!['0']) && is_digits(seq!['1']));
        assert(is_semver_core(lit));
        assert(lit + Seq::empty() =~= lit);
        assert forall|repo: Option<RepoDescriptor>|
            #[trigger] semantic_of(canonical_of(lit, repo)) == lit by {
            lemma_semantic_of_canonical(lit, Seq::empty(), repo);
        }
        assert(FALLBACK_VERSION@ =~= canonical_of(lit, None));
    }
    semantic_version(FALLBACK_VERSION)
}

} // verus!
