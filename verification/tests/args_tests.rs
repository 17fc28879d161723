use hydra_check::args::{Args, ArgsError};

fn base_args(channel: &str) -> Args {
    Args {
        packages: vec![],
        url: false,
        json: false,
        short: false,
        arch: None,
        channel: channel.to_string(),
        jobset: None,
        eval: vec![],
        verbose: false,
    }
}

#[test]
fn guess_jobset() {
    let aliases = [
        ("24.05", "nixos/release-24.05"),
        ("nixos-23.05", "nixos/release-23.05"),
        ("nixos-23.11-small", "nixos/release-23.11-small"),
    ];
    for (channel, jobset) in aliases {
        println!("{channel} => {jobset}");
        let args = base_args(channel).guess_jobset(false, None).unwrap();
        assert_eq!(args.jobset, Some(jobset.into()));
    }
}

#[test]
fn guess_jobset_aliases() {
    let cases = [
        ("master", "nixpkgs/trunk"),
        ("nixpkgs-unstable", "nixpkgs/trunk"),
        ("nixos-unstable", "nixos/trunk-combined"),
        ("nixos-unstable-small", "nixos/unstable-small"),
        ("staging-next", "nixpkgs/staging-next"),
        ("staging-next-24.05", "nixpkgs/staging-next-24.05"),
        ("nixpkgs-24.05-darwin", "nixpkgs/nixpkgs-24.05-darwin"),
        ("someone/jobset", "someone/jobset"),
    ];
    for (channel, jobset) in cases {
        let args = base_args(channel).guess_jobset(false, None).unwrap();
        assert_eq!(args.jobset, Some(jobset.to_string()));
    }
}

#[test]
fn guess_jobset_unstable_depends_on_host() {
    let args = base_args("unstable").guess_jobset(true, None).unwrap();
    assert_eq!(args.jobset, Some("nixos/trunk-combined".to_string()));
    let args = base_args("unstable").guess_jobset(false, None).unwrap();
    assert_eq!(args.jobset, Some("nixpkgs/trunk".to_string()));
}

#[test]
fn guess_jobset_stable_needs_version() {
    let err = base_args("stable").guess_jobset(false, None);
    assert!(matches!(err, Err(ArgsError::StableVersionUnknown)));

    let args = base_args("stable").guess_jobset(false, Some("24.05")).unwrap();
    assert_eq!(args.jobset, Some("nixos/release-24.05".to_string()));

    let mut darwin = base_args("stable");
    darwin.arch = Some("aarch64-darwin".to_string());
    let args = darwin.guess_jobset(false, Some("24.05")).unwrap();
    assert_eq!(args.jobset, Some("nixpkgs/nixpkgs-24.05-darwin".to_string()));
}

#[test]
fn guess_jobset_keeps_explicit_jobset() {
    let mut args = base_args("stable");
    args.jobset = Some("nixpkgs/trunk".to_string());
    let args = args.guess_jobset(false, None).unwrap();
    assert_eq!(args.jobset, Some("nixpkgs/trunk".to_string()));
}

#[test]
fn guess_package_name_cases() {
    let mut args = base_args("unstable");
    args.arch = Some("x86_64-linux".to_string());
    args.jobset = Some("nixos/release-24.05".to_string());
    assert_eq!(args.guess_package_name("hello"), "nixpkgs.hello.x86_64-linux");
    assert_eq!(args.guess_package_name("nixpkgs.hello"), "nixpkgs.hello.x86_64-linux");
    assert_eq!(args.guess_package_name("nixos.tests.openssh"), "nixos.tests.openssh.x86_64-linux");
    assert_eq!(args.guess_package_name("gimp.aarch64-darwin"), "nixpkgs.gimp.aarch64-darwin");

    let mut args = base_args("unstable");
    args.arch = Some("x86_64-linux".to_string());
    args.jobset = Some("nixpkgs/trunk".to_string());
    assert_eq!(args.guess_package_name("hello"), "hello.x86_64-linux");

    let mut args = base_args("unstable");
    args.arch = Some(String::new());
    args.jobset = Some("nixpkgs/trunk".to_string());
    assert_eq!(args.guess_package_name("hello"), "hello");
}

#[test]
fn guess_packages_rejects_python3_spellings() {
    let mut args = base_args("unstable");
    args.arch = Some("x86_64-linux".to_string());
    args.jobset = Some("nixpkgs/trunk".to_string());
    args.packages = vec![
        "python3Packages.requests".to_string(),
        "python3.pkgs.requests".to_string(),
        "python311Packages.requests".to_string(),
    ];
    let args = args.guess_packages();
    assert_eq!(args.packages, vec!["python311Packages.requests.x86_64-linux".to_string()]);
}

#[test]
fn parse_and_guess_resolves_everything() {
    let mut args = base_args("24.05");
    args.packages = vec!["hello".to_string()];
    let resolved = args.parse_and_guess("x86_64-linux", false, None).unwrap();
    assert_eq!(resolved.jobset, "nixos/release-24.05");
    assert_eq!(resolved.packages, vec!["nixpkgs.hello.x86_64-linux".to_string()]);
}

#[test]
fn known_architectures_listed() {
    let archs = hydra_check::constants::known_architectures();
    assert_eq!(
        archs,
        vec!["x86_64-linux", "aarch64-linux", "x86_64-darwin", "aarch64-darwin"],
    );
    assert!(hydra_check::constants::is_known_architecture("x86_64-linux"));
    assert!(!hydra_check::constants::is_known_architecture("riscv64-linux"));
}
