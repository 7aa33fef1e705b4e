use lighthouse_version::decompose::{semantic_version, version};
use lighthouse_version::platform::{version_with_platform, with_platform};
use lighthouse_version::synthesize::{canonical_version, commit_prefix, parse_describe, RepoDescriptor};
use lighthouse_version::{COMMIT_PREFIX_SENTINEL, FALLBACK_VERSION, VERSION_LITERAL, VERSION_PREFIX};
use regex::Regex;

fn repo(hash: &str, dirty: bool) -> Option<RepoDescriptor> {
    Some(RepoDescriptor { hash: hash.to_string(), dirty })
}

#[test]
fn version_formatting() {
    let re =
        Regex::new(r"^Lighthouse/v[0-9]+\.[0-9]+\.[0-9]+(-rc.[0-9])?(-[[:xdigit:]]{7})?\+?$")
            .unwrap();
    for r in [None, repo("67da032", false), repo("67da032", true)] {
        let v = canonical_version(VERSION_LITERAL, &r);
        assert!(re.is_match(&v), "version doesn't match regex: {}", v);
    }
}

#[test]
fn semantic_version_formatting() {
    let re = Regex::new(r"^[0-9]+\.[0-9]+\.[0-9]+").unwrap();
    assert!(
        re.is_match(version()),
        "semantic version doesn't match regex: {}",
        version()
    );
}

#[test]
fn dirty_build_with_metadata() {
    let v = canonical_version("6.0.1", &repo("abc1234", true));
    assert_eq!(v, "Lighthouse/v6.0.1-abc1234+");
    assert_eq!(semantic_version(&v), "6.0.1");
    assert_eq!(commit_prefix(&repo("abc1234d", true)), "abc1234d");
}

#[test]
fn build_without_metadata() {
    let v = canonical_version("6.0.1", &None);
    assert_eq!(v, "Lighthouse/v6.0.1");
    assert_eq!(v, FALLBACK_VERSION);
    assert_eq!(semantic_version(&v), "6.0.1");
    assert_eq!(commit_prefix(&None), "00000000");
    assert_eq!(COMMIT_PREFIX_SENTINEL.len(), 8);
}

#[test]
fn pre_release_stops_at_first_hyphen() {
    let v = canonical_version("6.0.1-rc1", &repo("abc1234", false));
    assert_eq!(v, "Lighthouse/v6.0.1-rc1-abc1234");
    assert_eq!(semantic_version(&v), "6.0.1");
    let v = canonical_version("6.0.1-rc1", &None);
    assert_eq!(semantic_version(&v), "6.0.1");
}

#[test]
fn clean_build_has_no_marker() {
    let v = canonical_version("1.5.1", &repo("67da032", false));
    assert_eq!(v, "Lighthouse/v1.5.1-67da032");
    assert!(!v.ends_with('+'));
}

#[test]
fn dirty_build_has_one_marker() {
    let v = canonical_version("1.5.1", &repo("67da032", true));
    assert!(v.ends_with('+'));
    assert!(!v.ends_with("++"));
}

#[test]
fn version_is_the_literal() {
    assert_eq!(version(), VERSION_LITERAL);
    assert_eq!(version(), "6.0.1");
    assert_eq!(VERSION_PREFIX, "Lighthouse/v");
}

#[test]
fn scan_degenerate_inputs() {
    assert_eq!(semantic_version(""), "");
    assert_eq!(semantic_version("abc"), "");
    assert_eq!(semantic_version("1.2.3"), "");
    assert_eq!(semantic_version("1.2.3-abc"), "1.2.3");
    assert_eq!(semantic_version("-abc"), "");
    assert_eq!(semantic_version("abcv"), "");
    assert_eq!(semantic_version("Lighthouse/v"), "");
}

#[test]
fn scan_moves_start_on_every_v() {
    assert_eq!(semantic_version("Lighthouse/v6.0.1v2-abc1234"), "2");
    assert_eq!(semantic_version("vx1.2v3.4"), "3.4");
}

#[test]
fn platform_suffix_is_appended() {
    assert_eq!(
        with_platform("Lighthouse/v1.5.1-67da032+", "x86_64", "linux"),
        "Lighthouse/v1.5.1-67da032+/x86_64-linux"
    );
    assert_eq!(with_platform("", "", ""), "/-");
}

#[test]
fn platform_suffix_names_this_target() {
    let v = version_with_platform("Lighthouse/v6.0.1");
    let rest = v.strip_prefix("Lighthouse/v6.0.1/").unwrap();
    let (arch, os) = rest.split_once('-').unwrap();
    assert!(!arch.is_empty());
    assert!(!os.is_empty());
    let arches = ["x86", "x86_64", "mips", "powerpc", "arm", "aarch64", "unknown"];
    assert!(arches.contains(&arch), "unexpected architecture: {}", arch);
    let oses = [
        "windows", "macos", "ios", "linux", "android", "freebsd", "dragonfly", "bitrig", "openbsd",
        "netbsd", "unknown",
    ];
    assert!(oses.contains(&os), "unexpected operating system: {}", os);
}

#[test]
fn describe_output_is_read() {
    assert!(parse_describe("").is_none());
    let d = parse_describe("67da032+").unwrap();
    assert_eq!(d.hash, "67da032");
    assert!(d.dirty);
    let d = parse_describe("67da032").unwrap();
    assert_eq!(d.hash, "67da032");
    assert!(!d.dirty);
    let d = parse_describe("+").unwrap();
    assert_eq!(d.hash, "");
    assert!(d.dirty);
}
