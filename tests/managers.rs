use stars::{
    entry_to_name, Cargo, CargoGlobal, CargoToml, CrateValue, Dpkg, Github, Gitlab, Homebrew,
    IdentifierStyle, Method, Package, Pacman, Portage, Target, TargetRegistry, WebUrl, Yum,
    Zypper,
};

/// A registry that recognises the hosts the sample outputs point to.
fn hosts() -> TargetRegistry {
    let mut targets = TargetRegistry::new();
    targets.register(Github::target());
    targets.register(Gitlab::target());
    targets
}

const DETAILS: &str = "Name            : ripgrep
Version         : 13.0.0-1
Description     : A search tool
URL             : https://github.com/BurntSushi/ripgrep
Licenses        : MIT

Name            : bash
Version         : 5.1.016-1
URL             : https://www.gnu.org/software/bash/bash.html

Name            : inkscape
URL             : https://gitlab.com/inkscape/inkscape.git
";

fn idents(packages: &[Package]) -> Vec<(&str, &str, &str)> {
    packages
        .iter()
        .map(|p| (p.name.as_str(), p.identifier.as_str(), p.target.as_str()))
        .collect()
}

#[test]
fn test_dpkg() {
    let output = "bash\thttps://www.gnu.org/software/bash/\r\n\
                  ripgrep\thttps://github.com/BurntSushi/ripgrep\n\
                  libfoo\t\n\
                  no-tab-here\n\
                  fd\thttps://www.github.com/sharkdp/fd.git";
    let packages = Dpkg::packages(output, &hosts());
    assert!(!packages.is_empty());
    assert_eq!(
        idents(&packages),
        vec![("ripgrep", "BurntSushi/ripgrep", "github"), ("fd", "sharkdp/fd", "github")]
    );
}

#[test]
fn dpkg_empty_output() {
    assert!(Dpkg::packages("", &hosts()).is_empty());
    assert!(Dpkg::packages("x\thttps://github.com/a/b\n", &TargetRegistry::new()).is_empty());
}

#[test]
fn test_pacman() {
    let packages = Pacman::packages(DETAILS, &hosts());
    assert!(!packages.is_empty());
    assert_eq!(
        idents(&packages),
        vec![
            ("ripgrep", "BurntSushi/ripgrep", "github"),
            ("inkscape", "inkscape%2Finkscape", "gitlab")
        ]
    );
}

#[test]
fn test_yum() {
    let packages = Yum::packages(DETAILS, &hosts());
    assert!(!packages.is_empty());
    assert_eq!(packages.len(), 2);
}

#[test]
fn test_zypper() {
    let search = r#"<?xml version='1.0'?>
<stream>
<search-result version="0.0">
<solvable-list>
<solvable status="installed" name="ripgrep" summary="A search tool" kind="package"/>
<solvable status="not-installed" name="fd" summary="find" kind="package"/>
<solvable status="installed" name="inkscape" summary="Editor" kind="package"/>
</solvable-list>
</search-result>
</stream>"#;
    assert_eq!(Zypper::installed(search), vec!["ripgrep".to_string(), "inkscape".to_string()]);
    let packages = Zypper::packages(DETAILS, &hosts());
    assert!(!packages.is_empty());
}

#[test]
fn test_portage() {
    assert_eq!(Portage::package_name("ripgrep-13.0.0"), "ripgrep");
    assert_eq!(Portage::package_name("gtk+-3.24.34-r1"), "gtk+");
    assert_eq!(Portage::package_name("noversion"), "noversion");
    let ebuild = "EAPI=8\nDESCRIPTION=\"search\"\nHOMEPAGE=\"https://example.org/rg https://github.com/BurntSushi/ripgrep\"\nLICENSE=\"MIT\"\n";
    let p = Portage::atom_package("ripgrep-13.0.0", ebuild, &hosts()).unwrap();
    assert_eq!(
        (p.name.as_str(), p.identifier.as_str(), p.target.as_str()),
        ("ripgrep", "BurntSushi/ripgrep", "github")
    );
}

#[test]
fn portage_homepages_all_or_nothing() {
    let ok = Portage::homepages("HOMEPAGE=\"https://a.example/x https://b.example/y\"\n").unwrap();
    assert_eq!(ok.len(), 2);
    assert_eq!(ok[1].domain.as_deref(), Some("b.example"));
    assert!(Portage::homepages("HOMEPAGE=\"https://a.example/x not-a-url\"\n").is_none());
    assert!(Portage::homepages("DESCRIPTION=\"none\"\n").is_none());
}

#[test]
fn test_cargo_global() {
    let output = "cargo-edit v0.8.0:\n    cargo-add\n    cargo-rm\nripgrep v13.0.0:\n    rg\n";
    let crates = CargoGlobal::installed(output);
    assert_eq!(crates, vec!["cargo-edit".to_string(), "ripgrep".to_string()]);
    let targets = hosts();
    let packages: Vec<Package> = crates
        .iter()
        .filter_map(|name| {
            let homepage = Some(format!("https://crates.io/crates/{}", name));
            let repository = Some(format!("https://github.com/owner/{}", name));
            Cargo::crate_package(&targets, name, &homepage, &repository)
        })
        .collect();
    assert!(!packages.is_empty());
    assert_eq!(packages[1].identifier, "owner/ripgrep");
}

#[test]
fn cargo_manifest_names() {
    assert_eq!(entry_to_name("serde", &CrateValue::Ver("1".to_string())), "serde");
    assert_eq!(entry_to_name("json", &CrateValue::Table { name: Some("serde_json".to_string()) }), "serde_json");
    assert_eq!(entry_to_name("url", &CrateValue::Table { name: None }), "url");
    let toml = CargoToml {
        dependencies: vec![("a".to_string(), CrateValue::Ver("1".to_string()))],
        dev_dependencies: vec![("b".to_string(), CrateValue::Table { name: Some("real-b".to_string()) })],
        build_dependencies: vec![("c".to_string(), CrateValue::Ver("2".to_string()))],
    };
    assert_eq!(toml.all_dependencies().len(), 3);
    assert_eq!(Cargo::crate_names(&toml), vec!["a".to_string(), "real-b".to_string(), "c".to_string()]);
    assert!(Cargo::crate_package(&hosts(), &"a".to_string(), &None, &None).is_none());
}

#[test]
fn homebrew_prefers_homepage() {
    let targets = hosts();
    let name = "ripgrep".to_string();
    let p = Homebrew::formula_package(
        &targets,
        &name,
        &"https://github.com/BurntSushi/ripgrep".to_string(),
        &vec!["https://gitlab.com/mirror/ripgrep".to_string()],
    )
    .unwrap();
    assert_eq!(p.target, "github");
    let p = Homebrew::formula_package(
        &targets,
        &name,
        &"https://example.org".to_string(),
        &vec!["not a url".to_string(), "https://gitlab.com/mirror/ripgrep".to_string()],
    )
    .unwrap();
    assert_eq!(p.identifier, "mirror%2Fripgrep");
    let cask = Homebrew::cask_package(
        &targets,
        &"app".to_string(),
        &"https://example.org".to_string(),
        &"https://github.com/owner/app/releases/download/v1/app.dmg".to_string(),
    )
    .unwrap();
    assert_eq!(cask.identifier, "owner/app");
    assert!(Homebrew::cask_package(&targets, &"x".to_string(), &"a".to_string(), &"b".to_string()).is_none());
}

#[test]
fn github_matching_and_request() {
    let gh = Github::new();
    let u = WebUrl {
        domain: Some("github.com".to_string()),
        segments: Some(vec!["owner".to_string(), "repo.git.git".to_string()]),
    };
    assert_eq!(gh.try_handle(&u).as_deref(), Some("owner/repo"));
    assert_eq!(Github::login("user", "token"), "user:token");
    let gh = Github { credential: Some(Github::login("user", "token")) };
    let req = gh.star_request(&Package::new("r".to_string(), "owner/repo".to_string(), "github".to_string()));
    assert_eq!(req.method, Method::Put);
    assert_eq!(req.url, "https://api.github.com/user/starred/owner/repo");
    assert_eq!(req.authorization, "Basic dXNlcjp0b2tlbg==");
    assert!(Github::accepts(204));
    assert!(!Github::accepts(304));
    assert_eq!(Github::credential_key(), "github_credential");
}

#[test]
fn gitlab_matching_and_request() {
    let gl = Gitlab::new();
    let u = WebUrl {
        domain: Some("www.gitlab.com".to_string()),
        segments: Some(vec!["group".to_string(), "proj".to_string()]),
    };
    assert_eq!(gl.try_handle(&u).as_deref(), Some("group%2Fproj"));
    let other = WebUrl { domain: Some("github.com".to_string()), segments: u.segments.clone() };
    assert!(gl.try_handle(&other).is_none());
    let gl = Gitlab { access_token: Some("tok".to_string()) };
    let req = gl.star_request(&Package::new("p".to_string(), "group%2Fproj".to_string(), "gitlab".to_string()));
    assert_eq!(req.method, Method::Post);
    assert_eq!(req.url, "https://gitlab.com/api/v4/projects/group%2Fproj/star");
    assert_eq!(req.authorization, "Bearer tok");
    assert!(Gitlab::accepts(200));
    assert!(Gitlab::accepts(304));
    assert!(!Gitlab::accepts(404));
    assert_eq!(Gitlab::credential_key(), "gitlab_token");
}

#[test]
fn custom_target_from_text() {
    let mut targets = TargetRegistry::new();
    targets.register(Target {
        name: "forge-a".to_string(),
        domains: vec!["forge-a.example".to_string()],
        style: IdentifierStyle::Encoded,
    });
    let packages = Dpkg::packages("pkg\tHTTPS://FORGE-A.example/u/r\n", &targets);
    assert_eq!(idents(&packages), vec![("pkg", "u%2Fr", "forge-a")]);
}

#[test]
fn test_cargo() {
    let dep = |name: &str| (name.to_string(), CrateValue::Ver("1".to_string()));
    let manifest = CargoToml {
        dependencies: vec![dep("argh"), dep("regex"), dep("url")],
        dev_dependencies: vec![("maplit".to_string(), CrateValue::Table { name: None })],
        build_dependencies: vec![],
    };
    let crates = Cargo::crate_names(&manifest);
    assert_eq!(crates.len(), 4);
    let targets = hosts();
    let packages: Vec<Package> = crates
        .iter()
        .filter_map(|name| {
            let repository = Some(format!("https://github.com/rust-lang/{}", name));
            Cargo::crate_package(&targets, name, &None, &repository)
        })
        .collect();
    assert!(!packages.is_empty());
    assert_eq!(packages[0].identifier, "rust-lang/argh");
}
