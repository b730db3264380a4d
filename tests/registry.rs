use stars::{
    Args,
    IdentifierStyle, Package, Source, SourceRegistry, SourceType, StarStep, Target,
    TargetRegistry, WebUrl,
};

fn forge(name: &str, domain: &str) -> Target {
    Target {
        name: name.to_string(),
        domains: vec![domain.to_string()],
        style: IdentifierStyle::Path,
    }
}

fn url(domain: &str, segments: &[&str]) -> WebUrl {
    WebUrl {
        domain: Some(domain.to_string()),
        segments: Some(segments.iter().map(|s| s.to_string()).collect()),
    }
}

fn package(name: &str, identifier: &str, target: &str) -> Package {
    Package::new(name.to_string(), identifier.to_string(), target.to_string())
}

fn global(name: &str) -> Source {
    Source { name: name.to_string(), source_type: SourceType::Global }
}

fn local(name: &str, files: &[&str]) -> Source {
    Source {
        name: name.to_string(),
        source_type: SourceType::Local(files.iter().map(|s| s.to_string()).collect()),
    }
}

fn two_forges() -> TargetRegistry {
    let mut targets = TargetRegistry::new();
    targets.register(forge("forge-a", "forge-a.example"));
    targets.register(forge("forge-b", "forge-b.example"));
    targets
}

#[test]
fn url_classification_example() {
    let targets = two_forges();
    let p = targets.try_parse("pkg".to_string(), &url("forge-a.example", &["u", "r"])).unwrap();
    assert_eq!(p.name, "pkg");
    assert_eq!(p.target, "forge-a");
    assert_eq!(p.identifier, "u/r");
    assert!(targets.try_parse("pkg".to_string(), &url("unknown.example", &["x"])).is_none());
}

#[test]
fn classification_takes_first_registered_match() {
    let mut targets = TargetRegistry::new();
    targets.register(forge("first", "shared.example"));
    targets.register(forge("second", "shared.example"));
    let p = targets.try_parse("pkg".to_string(), &url("shared.example", &["u", "r"])).unwrap();
    assert_eq!(p.target, "first");
}

#[test]
fn classification_needs_two_nonempty_segments() {
    let targets = two_forges();
    assert!(targets.try_parse("p".to_string(), &url("forge-a.example", &["u"])).is_none());
    assert!(targets.try_parse("p".to_string(), &url("forge-a.example", &["u", ""])).is_none());
    assert!(targets.try_parse("p".to_string(), &url("forge-a.example", &["", "r"])).is_none());
    let no_path = WebUrl { domain: Some("forge-a.example".to_string()), segments: None };
    assert!(targets.try_parse("p".to_string(), &no_path).is_none());
    let no_domain = WebUrl { domain: None, segments: Some(vec!["u".to_string(), "r".to_string()]) };
    assert!(targets.try_parse("p".to_string(), &no_domain).is_none());
    let p = targets
        .try_parse("p".to_string(), &url("forge-b.example", &["u", "r.git", "tree", "main"]))
        .unwrap();
    assert_eq!(p.identifier, "u/r");
    assert_eq!(p.target, "forge-b");
}

#[test]
fn registration_collision_example() {
    let mut targets = TargetRegistry::new();
    assert!(!targets.contains("gh"));
    targets.register(forge("gh", "gh.example"));
    // A second target named "gh" is a collision: the caller must stop here.
    assert!(targets.contains("gh"));
}

#[test]
fn target_initialised_once() {
    let mut targets = two_forges();
    let first = package("one", "u/one", "forge-a");
    let second = package("two", "u/two", "forge-a");
    assert_eq!(targets.star(&first), StarStep::Initialize);
    assert_eq!(targets.record_init(&first, true), StarStep::Star);
    assert_eq!(targets.star(&second), StarStep::Star);
    // A stray second outcome is ignored.
    assert_eq!(targets.record_init(&second, false), StarStep::Star);
    assert_eq!(targets.star(&second), StarStep::Star);
    // The other target is untouched.
    assert_eq!(targets.star(&package("x", "u/x", "forge-b")), StarStep::Initialize);
}

#[test]
fn failed_target_skips_everything() {
    let mut targets = two_forges();
    let first = package("one", "u/one", "forge-b");
    assert_eq!(targets.star(&first), StarStep::Initialize);
    assert_eq!(targets.record_init(&first, false), StarStep::Skip);
    for name in ["two", "three"] {
        let p = package(name, name, "forge-b");
        assert_eq!(targets.star(&p), StarStep::Skip);
        assert_eq!(targets.record_init(&p, true), StarStep::Skip);
    }
}

#[test]
fn deregistered_target_reported() {
    let mut targets = two_forges();
    let p = targets.try_parse("pkg".to_string(), &url("forge-a.example", &["u", "r"])).unwrap();
    assert!(targets.deregister("forge-a"));
    assert!(!targets.deregister("forge-a"));
    assert!(!targets.contains("forge-a"));
    assert_eq!(targets.star(&p), StarStep::NoSuchTarget);
    assert_eq!(targets.record_init(&p, true), StarStep::NoSuchTarget);
    assert!(targets.try_parse("pkg".to_string(), &url("forge-a.example", &["u", "r"])).is_none());
}

#[test]
fn dedup_keeps_first_occurrence() {
    let out = SourceRegistry::aggregate(vec![
        Ok(vec![package("a", "id1", "t1"), package("b", "id2", "t1")]),
        Err("failed".to_string()),
        Ok(vec![package("c", "id1", "t2"), package("d", "id3", "t2"), package("e", "id2", "t2")]),
    ]);
    let got: Vec<(&str, &str, &str)> = out
        .iter()
        .map(|p| (p.name.as_str(), p.identifier.as_str(), p.target.as_str()))
        .collect();
    assert_eq!(got, vec![("a", "id1", "t1"), ("b", "id2", "t1"), ("d", "id3", "t2")]);
}

#[test]
fn aggregate_of_nothing_is_empty() {
    assert!(SourceRegistry::aggregate(vec![]).is_empty());
    assert!(SourceRegistry::aggregate(vec![Err("e".to_string()), Ok(vec![])]).is_empty());
}

#[test]
fn unavailable_source_not_registered() {
    let mut sources = SourceRegistry::new();
    sources.register(global("absent"), false);
    assert!(!sources.contains("absent"));
    sources.register(global("present"), true);
    assert!(sources.contains("present"));
    assert_eq!(sources.plan(&vec![]), vec![0]);
}

#[test]
fn global_mode_runs_only_global_sources() {
    let mut sources = SourceRegistry::new();
    sources.register(global("g1"), true);
    sources.register(local("cargo", &["Cargo.toml"]), true);
    sources.register(global("g2"), true);
    assert_eq!(sources.wanted_files(), vec!["Cargo.toml".to_string()]);
    assert_eq!(sources.plan(&vec![]), vec![0, 2]);
    // A found file that no local source asks for does not switch modes.
    assert_eq!(sources.plan(&vec!["README".to_string()]), vec![0, 2]);
}

#[test]
fn local_mode_runs_only_complete_local_sources() {
    let mut sources = SourceRegistry::new();
    sources.register(global("g"), true);
    sources.register(local("cargo", &["Cargo.toml"]), true);
    sources.register(local("npm", &["package.json", "package-lock.json"]), true);
    assert_eq!(
        sources.wanted_files(),
        vec!["Cargo.toml".to_string(), "package.json".to_string(), "package-lock.json".to_string()]
    );
    // Only npm's manifest is there, without its lock file: nothing runs.
    assert_eq!(sources.plan(&vec!["package.json".to_string()]), Vec::<usize>::new());
    assert_eq!(sources.plan(&vec!["Cargo.toml".to_string(), "package.json".to_string()]), vec![1]);
    assert_eq!(
        sources.plan(&vec![
            "package-lock.json".to_string(),
            "Cargo.toml".to_string(),
            "package.json".to_string()
        ]),
        vec![1, 2]
    );
}

#[test]
fn deregister_example() {
    let mut sources = SourceRegistry::new();
    sources.register(global("sourceA"), true);
    sources.register(global("sourceB"), true);
    assert!(sources.deregister("sourceA"));
    assert!(!sources.deregister("sourceA"));
    let plan = sources.plan(&vec![]);
    assert_eq!(plan, vec![0]);
    // The one planned run is sourceB's.
    let out = SourceRegistry::aggregate(vec![Ok(vec![package("b", "id-b", "t")])]);
    assert_eq!(out.len(), 1);
    assert_eq!(out[0].name, "b");
}

#[test]
fn disable_option_removes_sources_and_targets() {
    let mut sources = SourceRegistry::new();
    sources.register(global("dpkg"), true);
    sources.register(global("pacman"), true);
    let mut targets = two_forges();
    let args = Args {
        dry_run: false,
        quiet: false,
        ignore_saved: false,
        disable: vec!["pacman".to_string(), "forge-a".to_string(), "nothing".to_string()],
    };
    args.apply_disable(&mut sources, &mut targets);
    assert!(sources.contains("dpkg"));
    assert!(!sources.contains("pacman"));
    assert!(!targets.contains("forge-a"));
    assert!(targets.contains("forge-b"));
}
