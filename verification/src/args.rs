//! Resolution of raw command-line options into a fully-resolved query
//! context: guessing the architecture, mapping a channel alias to its
//! jobset name, and normalising package names.
//!
//! The surrounding binary parses the flags and supplies the facts only the
//! environment knows — the host architecture, whether the host runs NixOS,
//! and the fetched stable release number; everything decided from them is
//! verified here.

use vstd::prelude::*;
use crate::strutil::{
    is_digit, spec_starts_with, spec_ends_with, starts_with, ends_with, is_digit_exec, find_char,
};

verus! {

/// Raw command-line options, before resolution.
#[derive(Clone, Debug)]
pub struct Args {
    /// Packages to query, as given.
    pub packages: Vec<String>,
    /// Only print the build URL.
    pub url: bool,
    /// Output JSON.
    pub json: bool,
    /// Write only the latest entry per item.
    pub short: bool,
    /// System architecture to check.
    pub arch: Option<String>,
    /// Channel alias to check packages for.
    pub channel: String,
    /// Verbatim jobset, overriding the channel.
    pub jobset: Option<String>,
    /// Evaluations to query.
    pub eval: Vec<String>,
    /// Print more information.
    pub verbose: bool,
}

/// Spec-level image of `Args`.
pub ghost struct ArgsV {
    pub packages: Seq<Seq<char>>,
    pub url: bool,
    pub json: bool,
    pub short: bool,
    pub arch: Option<Seq<char>>,
    pub channel: Seq<char>,
    pub jobset: Option<Seq<char>>,
    pub eval: Seq<Seq<char>>,
    pub verbose: bool,
}

impl View for Args {
    type V = ArgsV;

    open spec fn view(&self) -> ArgsV {
        ArgsV {
            packages: self.packages@.map_values(|s: String| s@),
            url: self.url,
            json: self.json,
            short: self.short,
            arch: crate::rows::opt_view(self.arch),
            channel: self.channel@,
            jobset: crate::rows::opt_view(self.jobset),
            eval: self.eval@.map_values(|s: String| s@),
            verbose: self.verbose,
        }
    }
}

/// Resolved command line arguments, with all options unwrapped.
#[derive(Clone, Debug)]
pub struct ResolvedArgs {
    /// List of packages to query, with normalised names.
    pub packages: Vec<String>,
    pub url: bool,
    pub json: bool,
    pub short: bool,
    pub jobset: String,
    pub eval: Vec<String>,
    pub verbose: bool,
}

/// Spec-level image of `ResolvedArgs`.
pub ghost struct ResolvedArgsV {
    pub packages: Seq<Seq<char>>,
    pub url: bool,
    pub json: bool,
    pub short: bool,
    pub jobset: Seq<char>,
    pub eval: Seq<Seq<char>>,
    pub verbose: bool,
}

impl View for ResolvedArgs {
    type V = ResolvedArgsV;

    open spec fn view(&self) -> ResolvedArgsV {
        ResolvedArgsV {
            packages: self.packages@.map_values(|s: String| s@),
            url: self.url,
            json: self.json,
            short: self.short,
            jobset: self.jobset@,
            eval: self.eval@.map_values(|s: String| s@),
            verbose: self.verbose,
        }
    }
}

/// Resolution failures: the stable release number was needed but not
/// supplied.
#[derive(Clone, Debug)]
pub enum ArgsError {
    StableVersionUnknown,
}

impl ArgsError {
    /// A human-readable account of the failure.
    pub fn message(&self) -> (r: &'static str)
        ensures
            r@ == "could not fetch the stable release version number"@,
    {
        "could not fetch the stable release version number"
    }
}

/// `s` splits at `i` into a nonempty run of digits, a dot, and a nonempty
/// run of digits.
pub open spec fn spec_version_split_at(s: Seq<char>, i: int) -> bool {
    &&& 0 < i < s.len() - 1
    &&& s[i] == '.'
    &&& forall|k: int| 0 <= k < i ==> is_digit(#[trigger] s[k])
    &&& forall|k: int| i < k < s.len() ==> is_digit(#[trigger] s[k])
}

/// The whole of `s` is a release version: digits, one dot, digits.
pub open spec fn spec_is_version(s: Seq<char>) -> bool {
    exists|i: int| spec_version_split_at(s, i)
}

fn digits_in_range(s: &str, a: usize, b: usize) -> (r: bool)
    requires
        a <= b <= s@.len(),
    ensures
        r == (forall|k: int| a <= k < b ==> is_digit(#[trigger] s@[k])),
{
    let mut k = a;
    while k < b
        invariant
            a <= k <= b,
            b <= s@.len(),
            forall|j: int| a <= j < k ==> is_digit(#[trigger] s@[j]),
        decreases b - k,
    {
        if !is_digit_exec(s.get_char(k)) {
            assert(!is_digit(s@[k as int]));
            return false;
        }
        k = k + 1;
    }
    true
}

/// Decides whether `s` as a whole is a release version number.
pub fn is_version(s: &str) -> (r: bool)
    ensures
        r == spec_is_version(s@),
{
    let len = s.unicode_len();
    let i = find_char(s, '.');
    if i == 0 || i >= len || i + 1 >= len {
        proof {
            if spec_is_version(s@) {
                let j = choose|j: int| spec_version_split_at(s@, j);
                if i == 0 {
                    assert(s@[0] == '.');
                    assert(is_digit(s@[0]));
                } else if i >= len {
                    assert(s@[j] == '.');
                } else {
                    assert(i == len - 1);
                    if j < i {
                        assert(s@[j] != '.');
                    }
                }
            }
        }
        return false;
    }
    let before = digits_in_range(s, 0, i);
    let after = digits_in_range(s, i + 1, len);
    proof {
        if before && after {
            assert(spec_version_split_at(s@, i as int));
        } else {
            if spec_is_version(s@) {
                let j = choose|j: int| spec_version_split_at(s@, j);
                if j < i {
                    assert(s@[j] != '.');
                } else if j > i {
                    assert(is_digit(s@[i as int]));
                } else {
                    assert(j == i);
                    if !before {
                        let k = choose|k: int| 0 <= k < i && !is_digit(#[trigger] s@[k]);
                        assert(is_digit(s@[k]));
                    } else {
                        let k = choose|k: int| i + 1 <= k < len && !is_digit(#[trigger] s@[k]);
                        assert(is_digit(s@[k]));
                    }
                }
            }
        }
    }
    before && after
}

/// After position `from`, `s` continues with a nonempty run of digits, a
/// dot at `i`, and at least one more digit.
pub open spec fn spec_version_cont_at(s: Seq<char>, from: int, i: int) -> bool {
    &&& from < i
    &&& i + 1 < s.len()
    &&& s[i] == '.'
    &&& is_digit(s[i + 1])
    &&& forall|k: int| from <= k < i ==> is_digit(#[trigger] s[k])
}

/// `s` continues from `from` with a version prefix: digits, a dot and at
/// least one more digit, whatever follows.
pub open spec fn spec_version_from(s: Seq<char>, from: int) -> bool {
    exists|i: int| spec_version_cont_at(s, from, i)
}

/// Decides whether a version prefix starts at `from`.
pub fn version_from(s: &str, from: usize) -> (r: bool)
    requires
        from <= s@.len(),
    ensures
        r == spec_version_from(s@, from as int),
{
    let len = s.unicode_len();
    let mut k = from;
    while k < len && is_digit_exec(s.get_char(k))
        invariant
            from <= k <= len,
            len == s@.len(),
            forall|j: int| from <= j < k ==> is_digit(#[trigger] s@[j]),
        decreases len - k,
    {
        k = k + 1;
    }
    if k == from {
        proof {
            if spec_version_from(s@, from as int) {
                let i = choose|i: int| spec_version_cont_at(s@, from as int, i);
                assert(is_digit(s@[from as int]));
            }
        }
        return false;
    }
    if k < len && k + 1 < len && s.get_char(k) == '.' && is_digit_exec(s.get_char(k + 1)) {
        proof {
            assert(spec_version_cont_at(s@, from as int, k as int));
        }
        return true;
    }
    proof {
        if spec_version_from(s@, from as int) {
            let i = choose|i: int| spec_version_cont_at(s@, from as int, i);
            if i < k {
                assert(is_digit(s@[i]));
            } else if i > k {
                if k < len {
                    assert(is_digit(s@[k as int]));
                }
            }
        }
    }
    false
}

/// The package name carries a known architecture suffix already.
pub open spec fn spec_has_known_arch_suffix(p: Seq<char>) -> bool {
    ||| spec_ends_with(p, ".x86_64-linux"@)
    ||| spec_ends_with(p, ".aarch64-linux"@)
    ||| spec_ends_with(p, ".x86_64-darwin"@)
    ||| spec_ends_with(p, ".aarch64-darwin"@)
}

/// The suffix appended to a package name: nothing when the name already
/// ends in a known architecture or no usable architecture is at hand, else
/// a dot and the architecture.
pub open spec fn spec_arch_suffix(p: Seq<char>, arch: Option<Seq<char>>) -> Seq<char> {
    if spec_has_known_arch_suffix(p) {
        Seq::empty()
    } else {
        match arch {
            Option::None => Seq::empty(),
            Option::Some(a) => if a.len() == 0 {
                Seq::empty()
            } else {
                seq!['.'] + a
            },
        }
    }
}

/// The fully-qualified package name: the architecture suffix appended, and
/// the `nixpkgs.` prefix assumed for bare names on NixOS release jobsets.
pub open spec fn spec_guess_package_name(
    p: Seq<char>,
    arch: Option<Seq<char>>,
    jobset: Option<Seq<char>>,
) -> Seq<char> {
    let suffix = spec_arch_suffix(p, arch);
    if spec_starts_with(p, "nixpkgs."@) || spec_starts_with(p, "nixos."@) {
        p + suffix
    } else if jobset matches Option::Some(j) && spec_starts_with(j, "nixos/"@) {
        "nixpkgs."@ + p + suffix
    } else {
        p + suffix
    }
}

/// A package spelling the resolver refuses: the python package sets must
/// be named with their versioned attribute names.
pub open spec fn spec_package_rejected(p: Seq<char>) -> bool {
    spec_starts_with(p, "python3Packages"@) || spec_starts_with(p, "python3.pkgs"@)
}

/// The normalised package list: rejected spellings dropped, every other
/// name fully qualified.
pub open spec fn spec_guessed_packages(
    pkgs: Seq<Seq<char>>,
    arch: Option<Seq<char>>,
    jobset: Option<Seq<char>>,
) -> Seq<Seq<char>>
    decreases pkgs.len(),
{
    if pkgs.len() == 0 {
        Seq::empty()
    } else {
        let rest = spec_guessed_packages(pkgs.drop_first(), arch, jobset);
        if spec_package_rejected(pkgs[0]) {
            rest
        } else {
            seq![spec_guess_package_name(pkgs[0], arch, jobset)] + rest
        }
    }
}

/// The jobset a channel alias resolves to; `None` when the stable release
/// number was needed but not supplied.
pub open spec fn spec_jobset_for(
    channel: Seq<char>,
    arch: Option<Seq<char>>,
    is_nixos: bool,
    stable: Option<Seq<char>>,
) -> Option<Seq<char>> {
    if channel == "master"@ || channel == "nixpkgs-unstable"@ {
        Option::Some("nixpkgs/trunk"@)
    } else if channel == "nixos-unstable"@ {
        Option::Some("nixos/trunk-combined"@)
    } else if channel == "nixos-unstable-small"@ {
        Option::Some("nixos/unstable-small"@)
    } else if channel == "unstable"@ {
        Option::Some(
            if is_nixos {
                "nixos/trunk-combined"@
            } else {
                "nixpkgs/trunk"@
            },
        )
    } else if channel == "stable"@ {
        match stable {
            Option::None => Option::None,
            Option::Some(ver) => Option::Some(
                if arch matches Option::Some(a) && spec_ends_with(a, "darwin"@) {
                    "nixpkgs/nixpkgs-"@ + ver + "-darwin"@
                } else {
                    "nixos/release-"@ + ver
                },
            ),
        }
    } else if spec_starts_with(channel, "staging-next"@) {
        Option::Some("nixpkgs/"@ + channel)
    } else if spec_is_version(channel) {
        Option::Some("nixos/release-"@ + channel)
    } else if spec_starts_with(channel, "nixos-"@) && spec_version_from(channel, 6) {
        Option::Some("nixos/release"@ + channel.subrange(5, channel.len() as int))
    } else if spec_starts_with(channel, "nixpkgs-"@) && spec_version_from(channel, 8) {
        Option::Some("nixpkgs/nixpkgs"@ + channel.subrange(7, channel.len() as int))
    } else {
        Option::Some(channel)
    }
}

impl Args {
    /// Fills the architecture from the host's when none was given.  The
    /// caller supplies the host's architecture-and-system string.
    pub fn guess_arch(self, host_arch: &str) -> (r: Self)
        ensures
            r@ == (ArgsV {
                arch: Option::Some(
                    match self@.arch {
                        Option::Some(a) => a,
                        Option::None => host_arch@,
                    },
                ),
                ..self@
            }),
    {
        match &self.arch {
            Option::Some(_) => {
                let r = self;
                proof {
                    assert(r@ =~~= (ArgsV {
                        arch: Option::Some(r@.arch->Some_0),
                        ..r@
                    }));
                }
                r
            },
            Option::None => {
                let r = Args { arch: Option::Some(host_arch.to_owned()), ..self };
                proof {
                    assert(r@ =~~= (ArgsV { arch: Option::Some(host_arch@), ..self@ }));
                }
                r
            },
        }
    }

    /// Resolves the channel alias into a jobset name, unless one was given
    /// verbatim.  The caller supplies whether the host runs NixOS and the
    /// fetched stable release number; the resolution of the `stable` alias
    /// fails without the latter.
    pub fn guess_jobset(self, is_nixos: bool, stable: Option<&str>) -> (r: Result<
        Self,
        ArgsError,
    >)
        ensures
            match r {
                Result::Ok(a) => {
                    &&& self@.jobset is Some ==> a@ == self@
                    &&& self@.jobset is None ==> (spec_jobset_for(
                        self@.channel,
                        self@.arch,
                        is_nixos,
                        spec_opt_str_view(stable),
                    ) matches Option::Some(j) && a@ == (ArgsV {
                        jobset: Option::Some(j),
                        ..self@
                    }))
                },
                Result::Err(_) => self@.jobset is None && spec_jobset_for(
                    self@.channel,
                    self@.arch,
                    is_nixos,
                    spec_opt_str_view(stable),
                ) is None,
            },
    {
        if self.jobset.is_some() {
            return Result::Ok(self);
        }
        proof {
            reveal_strlit("nixos-");
            reveal_strlit("nixpkgs-");
        }
        let channel = self.channel.as_str();
        let jobset: String = if crate::strutil::str_eq(channel, "master") || crate::strutil::str_eq(
            channel,
            "nixpkgs-unstable",
        ) {
            "nixpkgs/trunk".to_owned()
        } else if crate::strutil::str_eq(channel, "nixos-unstable") {
            "nixos/trunk-combined".to_owned()
        } else if crate::strutil::str_eq(channel, "nixos-unstable-small") {
            "nixos/unstable-small".to_owned()
        } else if crate::strutil::str_eq(channel, "unstable") {
            if is_nixos {
                "nixos/trunk-combined".to_owned()
            } else {
                "nixpkgs/trunk".to_owned()
            }
        } else if crate::strutil::str_eq(channel, "stable") {
            let ver = match stable {
                Option::None => {
                    return Result::Err(ArgsError::StableVersionUnknown);
                },
                Option::Some(v) => v,
            };
            let darwin = match &self.arch {
                Option::Some(a) => ends_with(a.as_str(), "darwin"),
                Option::None => false,
            };
            if darwin {
                let mut j = "nixpkgs/nixpkgs-".to_owned();
                j.append(ver);
                j.append("-darwin");
                j
            } else {
                let mut j = "nixos/release-".to_owned();
                j.append(ver);
                j
            }
        } else if starts_with(channel, "staging-next") {
            let mut j = "nixpkgs/".to_owned();
            j.append(channel);
            j
        } else if is_version(channel) {
            let mut j = "nixos/release-".to_owned();
            j.append(channel);
            j
        } else if starts_with(channel, "nixos-") && version_from(channel, 6) {
            let mut j = "nixos/release".to_owned();
            j.append(channel.substring_char(5, channel.unicode_len()));
            j
        } else if starts_with(channel, "nixpkgs-") && version_from(channel, 8) {
            let mut j = "nixpkgs/nixpkgs".to_owned();
            j.append(channel.substring_char(7, channel.unicode_len()));
            j
        } else {
            self.channel.clone()
        };
        let r = Args { jobset: Option::Some(jobset), ..self };
        proof {
            assert(r@ =~~= (ArgsV {
                jobset: Option::Some(
                    spec_jobset_for(
                        self@.channel,
                        self@.arch,
                        is_nixos,
                        spec_opt_str_view(stable),
                    )->Some_0,
                ),
                ..self@
            }));
        }
        Result::Ok(r)
    }

    /// Fully qualifies one package name as `spec_guess_package_name` says.
    pub fn guess_package_name(&self, package: &str) -> (r: String)
        ensures
            r@ == spec_guess_package_name(package@, self@.arch, self@.jobset),
    {
        let has_suffix = ends_with(package, ".x86_64-linux") || ends_with(
            package,
            ".aarch64-linux",
        ) || ends_with(package, ".x86_64-darwin") || ends_with(package, ".aarch64-darwin");
        let suffix: String = if has_suffix {
            String::new()
        } else {
            match &self.arch {
                Option::None => String::new(),
                Option::Some(a) => {
                    if a.as_str().unicode_len() == 0 {
                        String::new()
                    } else {
                        let mut s = ".".to_owned();
                        s.append(a.as_str());
                        proof {
                            reveal_strlit(".");
                            assert("."@ =~= seq!['.']);
                        }
                        s
                    }
                },
            }
        };
        proof {
            assert(suffix@ == spec_arch_suffix(package@, self@.arch));
        }
        let qualify = if starts_with(package, "nixpkgs.") || starts_with(package, "nixos.") {
            false
        } else {
            match &self.jobset {
                Option::Some(j) => starts_with(j.as_str(), "nixos/"),
                Option::None => false,
            }
        };
        let mut r: String = if qualify {
            "nixpkgs.".to_owned()
        } else {
            String::new()
        };
        r.append(package);
        r.append(suffix.as_str());
        proof {
            assert(r@ =~= spec_guess_package_name(package@, self@.arch, self@.jobset));
        }
        r
    }

    /// Normalises the package list: rejected spellings are dropped, every
    /// other name fully qualified, order kept.
    pub fn guess_packages(self) -> (r: Self)
        ensures
            r@ == (ArgsV {
                packages: spec_guessed_packages(self@.packages, self@.arch, self@.jobset),
                ..self@
            }),
    {
        let ghost all = self@.packages;
        let mut out: Vec<String> = Vec::new();
        let mut i: usize = 0;
        proof {
            assert(all.subrange(0, all.len() as int) =~= all);
            assert(out@.map_values(|s: String| s@) =~= Seq::<Seq<char>>::empty());
        }
        while i < self.packages.len()
            invariant
                0 <= i <= self.packages@.len(),
                all == self@.packages,
                all.len() == self.packages@.len(),
                forall|k: int| 0 <= k < self.packages@.len()
                    ==> all[k] == #[trigger] self.packages@[k]@,
                spec_guessed_packages(all, self@.arch, self@.jobset) == out@.map_values(
                    |s: String| s@,
                ) + spec_guessed_packages(
                    all.subrange(i as int, all.len() as int),
                    self@.arch,
                    self@.jobset,
                ),
            decreases self.packages@.len() - i,
        {
            let ghost sub_i = all.subrange(i as int, all.len() as int);
            let ghost sub_i1 = all.subrange(i as int + 1, all.len() as int);
            let ghost pre = out@.map_values(|s: String| s@);
            proof {
                assert(sub_i.len() > 0);
                assert(sub_i[0] == all[i as int]);
                assert(sub_i.drop_first() =~= sub_i1);
            }
            let p = &self.packages[i];
            let rejected = starts_with(p.as_str(), "python3Packages") || starts_with(
                p.as_str(),
                "python3.pkgs",
            );
            if !rejected {
                let name = self.guess_package_name(p.as_str());
                out.push(name);
                proof {
                    assert(out@.map_values(|s: String| s@) =~= pre.push(
                        spec_guess_package_name(all[i as int], self@.arch, self@.jobset),
                    ));
                    assert(pre + (seq![
                        spec_guess_package_name(all[i as int], self@.arch, self@.jobset),
                    ] + spec_guessed_packages(sub_i1, self@.arch, self@.jobset)) =~= pre.push(
                        spec_guess_package_name(all[i as int], self@.arch, self@.jobset),
                    ) + spec_guessed_packages(sub_i1, self@.arch, self@.jobset));
                }
            }
            i = i + 1;
        }
        proof {
            assert(all.subrange(i as int, all.len() as int).len() == 0);
            assert(out@.map_values(|s: String| s@) + Seq::<Seq<char>>::empty() =~= out@.map_values(
                |s: String| s@,
            ));
        }
        let r = Args { packages: out, ..self };
        proof {
            assert(r@ =~~= (ArgsV {
                packages: spec_guessed_packages(all, self@.arch, self@.jobset),
                ..self@
            }));
        }
        r
    }

    /// Resolves raw options into a full query context, in the order the
    /// guesses build on one another: architecture first, then the jobset,
    /// then the package names.
    pub fn parse_and_guess(self, host_arch: &str, is_nixos: bool, stable: Option<&str>) -> (r:
        Result<ResolvedArgs, ArgsError>)
        ensures
            match r {
                Result::Ok(res) => spec_resolved(
                    self@,
                    host_arch@,
                    is_nixos,
                    spec_opt_str_view(stable),
                ) matches Option::Some(v) && res@ == v,
                Result::Err(_) => spec_resolved(
                    self@,
                    host_arch@,
                    is_nixos,
                    spec_opt_str_view(stable),
                ) is None,
            },
    {
        let with_arch = self.guess_arch(host_arch);
        let with_jobset = match with_arch.guess_jobset(is_nixos, stable) {
            Result::Ok(a) => a,
            Result::Err(e) => {
                return Result::Err(e);
            },
        };
        let guessed = with_jobset.guess_packages();
        let jobset: String = match guessed.jobset {
            Option::Some(j) => j,
            Option::None => {
                proof {
                    assert(false);
                }
                String::new()
            },
        };
        let res = ResolvedArgs {
            packages: guessed.packages,
            url: guessed.url,
            json: guessed.json,
            short: guessed.short,
            jobset,
            eval: guessed.eval,
            verbose: guessed.verbose,
        };
        proof {
            assert(res@ =~~= spec_resolved(
                self@,
                host_arch@,
                is_nixos,
                spec_opt_str_view(stable),
            )->Some_0);
        }
        Result::Ok(res)
    }
}

/// The view of an optional borrowed string.
pub open spec fn spec_opt_str_view(o: Option<&str>) -> Option<Seq<char>> {
    match o {
        Option::None => Option::None,
        Option::Some(s) => Option::Some(s@),
    }
}

/// The whole resolution pipeline: architecture guessed from the host,
/// jobset from the channel, package names normalised; `None` exactly when
/// the stable release number was needed but missing.
pub open spec fn spec_resolved(
    a: ArgsV,
    host_arch: Seq<char>,
    is_nixos: bool,
    stable: Option<Seq<char>>,
) -> Option<ResolvedArgsV> {
    let arch = Option::Some(
        match a.arch {
            Option::Some(x) => x,
            Option::None => host_arch,
        },
    );
    let jobset = if a.jobset is Some {
        a.jobset
    } else {
        spec_jobset_for(a.channel, arch, is_nixos, stable)
    };
    match jobset {
        Option::None => Option::None,
        Option::Some(j) => Option::Some(
            ResolvedArgsV {
                packages: spec_guessed_packages(a.packages, arch, Option::Some(j)),
                url: a.url,
                json: a.json,
                short: a.short,
                jobset: j,
                eval: a.eval,
                verbose: a.verbose,
            },
        ),
    }
}

} // verus!
