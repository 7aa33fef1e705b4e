//! Combining the version literal with repository metadata.

use vstd::prelude::*;
use vstd::string::*;

use crate::{COMMIT_PREFIX_SENTINEL, VERSION_PREFIX};

verus! {

/// What the repository says about the commit a build was made from.
pub struct RepoDescriptor {
    /// The abbreviated commit hash.
    pub hash: String,
    /// Whether the working tree had uncommitted changes.
    pub dirty: bool,
}

/// The canonical version string for `literal` and the repository metadata
/// `repo`: the prefix and the literal, then `-` and the hash and a `+` for a
/// dirty tree when metadata is present.
pub open spec fn canonical_of(literal: Seq<char>, repo: Option<RepoDescriptor>) -> Seq<char> {
    match repo {
        None => VERSION_PREFIX@ + literal,
        Some(d) => VERSION_PREFIX@ + literal + seq!['-'] + d.hash@ + dirty_marker(d.dirty),
    }
}

/// `+` for a dirty tree, nothing for a clean one.
pub open spec fn dirty_marker(dirty: bool) -> Seq<char> {
    if dirty {
        seq!['+']
    } else {
        Seq::empty()
    }
}

/// The commit prefix for `repo`: the hash alone, or the sentinel.
pub open spec fn commit_prefix_of(repo: Option<RepoDescriptor>) -> Seq<char> {
    match repo {
        None => COMMIT_PREFIX_SENTINEL@,
        Some(d) => d.hash@,
    }
}

/// The repository metadata that a `git describe --always --dirty=+` output
/// stands for; an empty output means that none was available.
pub open spec fn describe_of(out: Seq<char>) -> Option<(Seq<char>, bool)> {
    if out.len() == 0 {
        None
    } else if out.last() == '+' {
        Some((out.drop_last(), true))
    } else {
        Some((out, false))
    }
}

/// Whether `c` is a decimal digit.
pub open spec fn is_digit(c: char) -> bool {
    '0' <= c <= '9'
}

/// A non-empty run of decimal digits.
pub open spec fn is_digits(s: Seq<char>) -> bool {
    s.len() > 0 && forall|i: int| 0 <= i < s.len() ==> is_digit(#[trigger] s[i])
}

/// A version literal of the form `MAJOR.MINOR.PATCH`.
pub open spec fn is_semver_core(s: Seq<char>) -> bool {
    exists|major: Seq<char>, minor: Seq<char>, patch: Seq<char>|
        is_digits(major) && is_digits(minor) && is_digits(patch) && s == major + seq!['.']
            + minor + seq!['.'] + patch
}

/// Every character of a `MAJOR.MINOR.PATCH` literal is a digit or a dot.
pub proof fn lemma_semver_chars(s: Seq<char>)
    requires
        is_semver_core(s),
    ensures
        s.len() > 0,
        forall|i: int| 0 <= i < s.len() ==> is_digit(#[trigger] s[i]) || s[i] == '.',
{
    let (major, minor, patch) = choose|major: Seq<char>, minor: Seq<char>, patch: Seq<char>|
        is_digits(major) && is_digits(minor) && is_digits(patch) && s == major + seq!['.']
            + minor + seq!['.'] + patch;
    assert forall|i: int| 0 <= i < s.len() implies is_digit(#[trigger] s[i]) || s[i] == '.' by {
        let a = major.len() as int;
        let b = a + 1 + minor.len();
        if i < a {
            assert(s[i] == major[i]);
        } else if i == a {
        } else if i < b {
            assert(s[i] == minor[i - a - 1]);
        } else if i == b {
        } else {
            assert(s[i] == patch[i - b - 1]);
        }
    }
}

/// A hexadecimal digit, in either case.
pub open spec fn is_hex_digit(c: char) -> bool {
    is_digit(c) || ('a' <= c <= 'f') || ('A' <= c <= 'F')
}

/// An abbreviated hash of `width` hexadecimal digits.
pub open spec fn is_hex(s: Seq<char>, width: nat) -> bool {
    s.len() == width && forall|i: int| 0 <= i < s.len() ==> is_hex_digit(#[trigger] s[i])
}

/// `-` and the hash, or nothing where there is no hash.
pub open spec fn hash_part(hash: Seq<char>) -> Seq<char> {
    if hash.len() == 0 {
        Seq::empty()
    } else {
        seq!['-'] + hash
    }
}

/// The shape of a canonical version string: the prefix, `MAJOR.MINOR.PATCH`,
/// an optional `-` and hash of `width` hexadecimal digits, an optional `+`.
pub open spec fn matches_version_grammar(v: Seq<char>, width: nat) -> bool {
    exists|core: Seq<char>, hash: Seq<char>, dirty: bool|
        is_semver_core(core) && (hash.len() == 0 || is_hex(hash, width)) && v == VERSION_PREFIX@
            + core + hash_part(hash) + dirty_marker(dirty)
}

/// Every canonical version string built from a `MAJOR.MINOR.PATCH` literal,
/// with a hash of `width` hexadecimal digits where there is metadata, has the
/// shape of the grammar.
pub proof fn lemma_canonical_grammar(literal: Seq<char>, repo: Option<RepoDescriptor>, width: nat)
    requires
        is_semver_core(literal),
        width > 0,
        repo matches Some(d) ==> is_hex(d.hash@, width),
    ensures
        matches_version_grammar(canonical_of(literal, repo), width),
{
    let v = canonical_of(literal, repo);
    match repo {
        None => {
            let e = Seq::<char>::empty();
            assert(v =~= VERSION_PREFIX@ + literal + hash_part(e) + dirty_marker(false));
        },
        Some(d) => {
            assert(v =~= VERSION_PREFIX@ + literal + hash_part(d.hash@) + dirty_marker(d.dirty));
        },
    }
}

/// Without repository metadata the version string is the prefix and the
/// literal alone, and the commit prefix is eight zeros.
pub proof fn lemma_fallback(literal: Seq<char>)
    ensures
        canonical_of(literal, None) == VERSION_PREFIX@ + literal,
        commit_prefix_of(None) == Seq::new(8, |i: int| '0'),
{
    reveal_strlit("00000000");
    assert(COMMIT_PREFIX_SENTINEL@ =~= Seq::new(8, |i: int| '0'));
}

/// With a hexadecimal hash, the version string ends in `+` exactly when the
/// tree is dirty, and then in a single `+`.
pub proof fn lemma_dirty_marker(literal: Seq<char>, d: RepoDescriptor, width: nat)
    requires
        width > 0,
        is_hex(d.hash@, width),
    ensures
        ({
            let v = canonical_of(literal, Some(d));
            &&& v.len() >= 2
            &&& (v.last() == '+') == d.dirty
            &&& d.dirty ==> v[v.len() - 2] != '+'
        }),
{
    let v = canonical_of(literal, Some(d));
    let h = d.hash@;
    let base = VERSION_PREFIX@ + literal + seq!['-'] + h;
    assert(base.last() == h.last());
    assert(is_hex_digit(h[h.len() - 1]));
    if d.dirty {
        assert(v =~= base.push('+'));
    } else {
        assert(v =~= base);
    }
}

/// Builds the canonical version string of a build from its version literal
/// and, when there is any, the repository metadata.
pub fn canonical_version(literal: &str, repo: &Option<RepoDescriptor>) -> (r: String)
    ensures
        r@ == canonical_of(literal@, *repo),
{
    let mut out = String::from_str(VERSION_PREFIX);
    out.append(literal);
    match repo {
        None => {},
        Some(d) => {
            out.append("-");
            out.append(d.hash.as_str());
            if d.dirty {
                out.append("+");
            }
            proof {
                reveal_strlit("-");
                reveal_strlit("+");
            }
        },
    }
    assert(out@ =~= canonical_of(literal@, *repo));
    out
}

/// The short commit prefix: the abbreviated hash undecorated, or the
/// all-zero sentinel when no metadata is available.
pub fn commit_prefix(repo: &Option<RepoDescriptor>) -> (r: String)
    ensures
        r@ == commit_prefix_of(*repo),
{
    match repo {
        None => String::from_str(COMMIT_PREFIX_SENTINEL),
        Some(d) => d.hash.clone(),
    }
}

/// Reads the output of `git describe --always --dirty=+`: a trailing `+`
/// marks a dirty tree and the rest is the abbreviated hash. An empty output
/// stands for a build without repository metadata.
pub fn parse_describe(out: &str) -> (r: Option<RepoDescriptor>)
    ensures
        match (r, describe_of(out@)) {
            (None, None) => true,
            (Some(d), Some((hash, dirty))) => d.hash@ == hash && d.dirty == dirty,
            _ => false,
        },
{
    let n = out.unicode_len();
    if n == 0 {
        None
    } else if out.get_char(n - 1) == '+' {
        Some(RepoDescriptor { hash: String::from_str(out.substring_char(0, n - 1)), dirty: true })
    } else {
        Some(RepoDescriptor { hash: String::from_str(out), dirty: false })
    }
}

} // verus!
