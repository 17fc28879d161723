//! Shared constants: the dashboard host and the architectures it builds.

use vstd::prelude::*;

verus! {

/// The systems the dashboard currently builds for.
pub open spec fn spec_known_architectures() -> Seq<Seq<char>> {
    seq!["x86_64-linux"@, "aarch64-linux"@, "x86_64-darwin"@, "aarch64-darwin"@]
}

/// Currently supported systems on the dashboard; may change over time.
pub fn known_architectures() -> (r: Vec<&'static str>)
    ensures
        r@.map_values(|s: &str| s@) == spec_known_architectures(),
{
    let mut v: Vec<&'static str> = Vec::new();
    v.push("x86_64-linux");
    v.push("aarch64-linux");
    v.push("x86_64-darwin");
    v.push("aarch64-darwin");
    proof {
        assert(v@.map_values(|s: &str| s@) =~= spec_known_architectures());
    }
    v
}

/// An architecture string is known when it is one of the listed systems.
pub open spec fn spec_is_known_architecture(arch: Seq<char>) -> bool {
    spec_known_architectures().contains(arch)
}

/// Decides whether an architecture string is one the dashboard builds for.
pub fn is_known_architecture(arch: &str) -> (r: bool)
    ensures
        r == spec_is_known_architecture(arch@),
{
    let r = crate::strutil::str_eq(arch, "x86_64-linux") || crate::strutil::str_eq(
        arch,
        "aarch64-linux",
    ) || crate::strutil::str_eq(arch, "x86_64-darwin") || crate::strutil::str_eq(
        arch,
        "aarch64-darwin",
    );
    proof {
        let archs = spec_known_architectures();
        if arch@ == "x86_64-linux"@ {
            assert(archs[0] == arch@);
        } else if arch@ == "aarch64-linux"@ {
            assert(archs[1] == arch@);
        } else if arch@ == "x86_64-darwin"@ {
            assert(archs[2] == arch@);
        } else if arch@ == "aarch64-darwin"@ {
            assert(archs[3] == arch@);
        } else {
            assert(forall|i: int| 0 <= i < archs.len() ==> #[trigger] archs[i] != arch@) by {
                assert(archs[0] == "x86_64-linux"@);
                assert(archs[1] == "aarch64-linux"@);
                assert(archs[2] == "x86_64-darwin"@);
                assert(archs[3] == "aarch64-darwin"@);
            }
        }
    }
    r
}

/// The dashboard's base URL.
pub open spec fn spec_host_url() -> Seq<char> {
    "https://hydra.nixos.org"@
}

/// Returns the dashboard's base URL.
pub fn host_url() -> (r: &'static str)
    ensures
        r@ == spec_host_url(),
{
    "https://hydra.nixos.org"
}

} // verus!
