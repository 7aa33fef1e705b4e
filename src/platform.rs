//! The platform-qualified form of a version string, for display.

use vstd::prelude::*;
use vstd::string::*;

verus! {

/// The architectures that the build-target query can name.
pub open spec fn is_named_arch(a: Seq<char>) -> bool {
    a == "x86"@ || a == "x86_64"@ || a == "mips"@ || a == "powerpc"@ || a == "arm"@ || a
        == "aarch64"@ || a == "unknown"@
}

/// The operating systems that the build-target query can name.
pub open spec fn is_named_os(o: Seq<char>) -> bool {
    o == "windows"@ || o == "macos"@ || o == "ios"@ || o == "linux"@ || o == "android"@ || o
        == "freebsd"@ || o == "dragonfly"@ || o == "bitrig"@ || o == "openbsd"@ || o == "netbsd"@
        || o == "unknown"@
}

/// `version/arch-os`.
pub open spec fn platform_qualified(version: Seq<char>, arch: Seq<char>, os: Seq<char>) -> Seq<
    char,
> {
    version + seq!['/'] + arch + seq!['-'] + os
}

/// Relies on target_info::Target::arch: the build target's architecture,
/// one of the names it lists or "unknown".
#[verifier::external_body]
fn target_arch() -> (r: &'static str)
    ensures
        is_named_arch(r@),
{
    target_info::Target::arch()
}

/// Relies on target_info::Target::os: the build target's operating system,
/// one of the names it lists or "unknown".
#[verifier::external_body]
fn target_os() -> (r: &'static str)
    ensures
        is_named_os(r@),
{
    target_info::Target::os()
}

/// Appends `/arch-os` to a version string, passing both names through as
/// they are.
pub fn with_platform(version: &str, arch: &str, os: &str) -> (r: String)
    ensures
        r@ == platform_qualified(version@, arch@, os@),
{
    let mut out = String::from_str(version);
    out.append("/");
    out.append(arch);
    out.append("-");
    out.append(os);
    proof {
        reveal_strlit("/");
        reveal_strlit("-");
    }
    assert(out@ =~= platform_qualified(version@, arch@, os@));
    out
}

/// The version string followed by the architecture and operating system of
/// the build target, as in `Lighthouse/v1.5.1-67da032+/x86_64-linux`.
pub fn version_with_platform(version: &str) -> (r: String)
    ensures
        exists|arch: Seq<char>, os: Seq<char>|
            is_named_arch(arch) && is_named_os(os) && r@ == platform_qualified(version@, arch, os),
{
    let arch = target_arch();
    let os = target_os();
    with_platform(version, arch, os)
}

} // verus!
