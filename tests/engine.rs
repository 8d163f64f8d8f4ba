use lal::cache::{cache_dir, stash_dir, tarball_path};
use lal::configure::{upgrade_due, Config};
use lal::errors::CliError;
use lal::install::{parse_specifier, reuse_filter, FetchAll, FetchStep, Specifier, UpdateRun};
use lal::lockfile::{find_all_dependencies, Container, Lockfile};
use lal::manifest::{get_version, names_of, Manifest};
use lal::numbers::{decimal_string, hex_string, parse_u32};
use lal::verify::verify;

fn entry(n: &str, v: u32) -> (String, u32) {
    (n.to_string(), v)
}

fn node(name: &str, version: &str, env: &str) -> Lockfile {
    let mut l = Lockfile::new(name, "img:tag", Some(version), None);
    l.environment = env.to_string();
    l
}

fn manifest(deps: Vec<(String, u32)>, dev: Vec<(String, u32)>) -> Manifest {
    Manifest { name: "A".to_string(), dependencies: deps, dev_dependencies: dev }
}

fn config() -> Config {
    Config {
        artifactory: "http://repo".to_string(),
        cache: "/cache".to_string(),
        container: "img".to_string(),
        upgradeCheck: String::new(),
    }
}

#[test]
fn decimal_and_hex_rendering() {
    assert_eq!(decimal_string(0), "0");
    assert_eq!(decimal_string(1234), "1234");
    assert_eq!(decimal_string(u32::MAX as u64), "4294967295");
    assert_eq!(hex_string(0), "0");
    assert_eq!(hex_string(255), "ff");
    assert_eq!(hex_string(u64::MAX), "ffffffffffffffff");
}

#[test]
fn parse_versions() {
    assert_eq!(parse_u32("0"), Some(0));
    assert_eq!(parse_u32("3"), Some(3));
    assert_eq!(parse_u32("007"), Some(7));
    assert_eq!(parse_u32("4294967295"), Some(u32::MAX));
    assert_eq!(parse_u32("4294967296"), None);
    assert_eq!(parse_u32(""), None);
    assert_eq!(parse_u32("wip"), None);
    assert_eq!(parse_u32("1a"), None);
}

#[test]
fn version_zero_is_an_ordinary_version() {
    let m = manifest(vec![entry("B", 0)], vec![]);
    assert_eq!(m.version("B"), Some(0));
    let installed = {
        let mut root = Lockfile::new("A", "img", Some("1"), None);
        root.insert_dependency(node("B", "0", "x"));
        root
    };
    let t = m.fetch_targets(true);
    assert!(reuse_filter(&t, &installed, "x").is_empty());
}

#[test]
fn container_split() {
    let c = Container::new("edonusdevelopers/centos_build:2.0");
    assert_eq!(c.name, "edonusdevelopers/centos_build");
    assert_eq!(c.tag, "2.0");
    let c = Container::new("plain");
    assert_eq!(c.name, "plain");
    assert_eq!(c.tag, "latest");
    let c = Container::new("a:b:c");
    assert_eq!(c.name, "a:b:c");
    assert_eq!(c.tag, "latest");
}

#[test]
fn fresh_lockfile_defaults() {
    let l = Lockfile::new("A", "img", None, None);
    assert!(l.version.starts_with("EXPERIMENTAL+"));
    assert!(l.version.len() > "EXPERIMENTAL+".len());
    assert_eq!(parse_u32(&l.version), None);
    assert_eq!(l.config, "release");
    assert_eq!(l.container.tag, "latest");
    assert_eq!(l.environment, "global");
    assert!(l.dependencies.is_empty());
    let l = Lockfile::new("A", "img:1", Some("5"), Some("debug"));
    assert_eq!(l.version, "5");
    assert_eq!(l.config, "debug");
    assert_eq!(l.container.tag, "1");
}

#[test]
fn closure_lists_every_node() {
    let mut c1 = node("C", "1", "x");
    c1.insert_dependency(node("D", "4", "x"));
    let mut root = node("A", "1", "x");
    root.insert_dependency(c1);
    root.insert_dependency(node("B", "2", "y"));
    let mut usage: Vec<(String, String, String)> = find_all_dependencies(&root);
    usage.sort();
    assert_eq!(
        usage,
        vec![
            ("B".to_string(), "2".to_string(), "y".to_string()),
            ("C".to_string(), "1".to_string(), "x".to_string()),
            ("D".to_string(), "4".to_string(), "x".to_string()),
        ]
    );
}

#[test]
fn insert_dependency_replaces_same_name() {
    let mut root = node("A", "1", "x");
    root.insert_dependency(node("B", "1", "x"));
    root.insert_dependency(node("B", "2", "x"));
    assert_eq!(root.dependencies.len(), 1);
    assert_eq!(root.dependencies[0].version, "2");
}

#[test]
fn update_entry_keeps_maps_disjoint() {
    let mut m = manifest(vec![entry("B", 1)], vec![entry("C", 2)]);
    m.update_entry("B", 5, true);
    assert!(get_version(&m.dependencies, "B").is_none());
    assert_eq!(get_version(&m.dev_dependencies, "B"), Some(5));
    m.update_entry("C", 7, false);
    assert_eq!(get_version(&m.dependencies, "C"), Some(7));
    assert!(get_version(&m.dev_dependencies, "C").is_none());
}

#[test]
fn record_updates_last_wins_and_skips_own_name() {
    let mut m = manifest(vec![entry("B", 1)], vec![entry("C", 2)]);
    m.record_updates(&vec![entry("C", 3), entry("D", 4), entry("C", 9), entry("A", 1)], false);
    assert_eq!(get_version(&m.dependencies, "C"), Some(9));
    assert_eq!(get_version(&m.dependencies, "D"), Some(4));
    assert_eq!(get_version(&m.dependencies, "B"), Some(1));
    assert!(get_version(&m.dependencies, "A").is_none());
    assert!(m.dev_dependencies.is_empty());
}

#[test]
fn remove_entries_and_missing_component() {
    let m = manifest(vec![entry("B", 1), entry("C", 2)], vec![entry("D", 3)]);
    let r = m.remove_entries(&vec!["B".to_string()], false).ok().unwrap();
    assert_eq!(names_of(&r.dependencies), vec!["C".to_string()]);
    assert_eq!(r.dev_dependencies.len(), 1);
    let e = m.remove_entries(&vec!["D".to_string()], false).err().unwrap();
    assert_eq!(e, CliError::MissingComponent("D".to_string()));
    let e = m.remove_entries(&vec!["B".to_string(), "B".to_string()], false).err().unwrap();
    assert_eq!(e, CliError::MissingComponent("B".to_string()));
    let r = m.remove_entries(&vec!["D".to_string()], true).ok().unwrap();
    assert!(r.dev_dependencies.is_empty());
    assert_eq!(r.dependencies.len(), 2);
}

#[test]
fn fetch_targets_core_only_or_all() {
    let m = manifest(vec![entry("B", 1)], vec![entry("C", 2)]);
    assert_eq!(m.fetch_targets(true), vec![entry("B", 1)]);
    assert_eq!(m.fetch_targets(false), vec![entry("B", 1), entry("C", 2)]);
}

#[test]
fn specifiers() {
    assert_eq!(parse_specifier("B"), Specifier::Latest("B".to_string()));
    assert_eq!(parse_specifier("B=3"), Specifier::Version("B".to_string(), 3));
    assert_eq!(parse_specifier("B=wip"), Specifier::Stash("B".to_string(), "wip".to_string()));
    assert_eq!(parse_specifier("B=0"), Specifier::Version("B".to_string(), 0));
    assert_eq!(parse_specifier("B=3=4"), Specifier::Version("B".to_string(), 3));
}

#[test]
fn cold_fetch_fetches_and_succeeds() {
    let m = manifest(vec![entry("B", 3)], vec![]);
    let empty = Lockfile::new("A", "img", Some("1"), None);
    let mut run = FetchAll::new(&m, &empty, true, "x");
    assert_eq!(run.step(), FetchStep::Fetch("B".to_string(), 3));
    run.report(true);
    assert_eq!(run.step(), FetchStep::Finished(Ok(())));
    assert_eq!(tarball_path(&config(), "B", 3, "x"), "/cache/globals/x/B/3/B.tar");
}

#[test]
fn warm_reuse_fetches_nothing() {
    let m = manifest(vec![entry("B", 3)], vec![]);
    let mut installed = Lockfile::new("A", "img", Some("1"), None);
    installed.insert_dependency(node("B", "3", "x"));
    let mut run = FetchAll::new(&m, &installed, true, "x");
    assert_eq!(run.step(), FetchStep::Finished(Ok(())));
}

#[test]
fn other_environment_is_refetched() {
    let m = manifest(vec![entry("B", 3)], vec![]);
    let mut installed = Lockfile::new("A", "img", Some("1"), None);
    installed.insert_dependency(node("B", "3", "x"));
    let mut run = FetchAll::new(&m, &installed, true, "y");
    assert_eq!(run.step(), FetchStep::Fetch("B".to_string(), 3));
    assert_eq!(tarball_path(&config(), "B", 3, "y"), "/cache/globals/y/B/3/B.tar");
}

#[test]
fn stashed_input_is_never_reused() {
    let m = manifest(vec![entry("B", 3)], vec![]);
    let mut installed = Lockfile::new("A", "img", Some("1"), None);
    installed.insert_dependency(node("B", "wip", "x"));
    let t = m.fetch_targets(true);
    assert_eq!(reuse_filter(&t, &installed, "x"), vec![entry("B", 3)]);
}

#[test]
fn stash_then_reinstall_leaves_manifest() {
    assert_eq!(parse_specifier("B=wip"), Specifier::Stash("B".to_string(), "wip".to_string()));
    assert_eq!(stash_dir(&config(), "A", "wip"), Ok("/cache/stash/A/wip".to_string()));
    let mut m = manifest(vec![entry("B", 3)], vec![]);
    let run = UpdateRun::new();
    let updated = run.finish().ok().unwrap();
    m.record_updates(&updated, false);
    assert_eq!(m.dependencies, vec![entry("B", 3)]);
    assert!(m.dev_dependencies.is_empty());
}

#[test]
fn integer_stash_label_rejected() {
    assert_eq!(stash_dir(&config(), "A", "0"), Err(CliError::InvalidStashName(0)));
    assert_eq!(stash_dir(&config(), "A", "12"), Err(CliError::InvalidStashName(12)));
}

#[test]
fn empty_core_fetch_is_noop() {
    let m = manifest(vec![], vec![entry("C", 2)]);
    let empty = Lockfile::new("A", "img", Some("1"), None);
    let mut run = FetchAll::new(&m, &empty, true, "x");
    assert_eq!(run.step(), FetchStep::Finished(Ok(())));
}

#[test]
fn partial_install_rolls_back() {
    let m = manifest(vec![entry("B", 1), entry("C", 2)], vec![]);
    let empty = Lockfile::new("A", "img", Some("1"), None);
    let mut run = FetchAll::new(&m, &empty, true, "x");
    assert_eq!(run.step(), FetchStep::Fetch("B".to_string(), 1));
    run.report(true);
    assert_eq!(run.step(), FetchStep::Fetch("C".to_string(), 2));
    run.report(false);
    assert_eq!(run.step(), FetchStep::WipeInput);
    assert_eq!(run.step(), FetchStep::Finished(Err(CliError::InstallFailure)));
}

#[test]
fn update_run_keeps_first_failure() {
    let mut run = UpdateRun::new();
    run.fetched("B", 3);
    run.failed(CliError::MissingTarball);
    run.failed(CliError::InstallFailure);
    assert_eq!(run.finish().err(), Some(CliError::MissingTarball));
    let mut run = UpdateRun::new();
    run.fetched("B", 3);
    run.fetched("C", 4);
    assert_eq!(run.finish().ok(), Some(vec![entry("B", 3), entry("C", 4)]));
}

fn good_input() -> (Manifest, Lockfile) {
    let m = manifest(vec![entry("B", 3)], vec![entry("C", 1)]);
    let mut root = node("A", "1", "x");
    root.insert_dependency(node("B", "3", "x"));
    root.insert_dependency(node("C", "1", "x"));
    (m, root)
}

#[test]
fn verify_accepts_consistent_input() {
    let (m, root) = good_input();
    assert_eq!(verify(&m, &root, "x"), Ok(()));
}

#[test]
fn verify_reports_each_violation() {
    let (m, mut root) = good_input();
    root.dependencies.pop();
    assert_eq!(verify(&m, &root, "x"), Err(CliError::MissingDependencies));

    let (m, mut root) = good_input();
    root.insert_dependency(node("E", "1", "x"));
    assert_eq!(verify(&m, &root, "x"), Err(CliError::ExtraneousDependencies("E".to_string())));

    let (m, mut root) = good_input();
    root.insert_dependency(node("B", "4", "x"));
    assert_eq!(verify(&m, &root, "x"), Err(CliError::InvalidVersion("B".to_string())));

    let (m, mut root) = good_input();
    root.insert_dependency(node("B", "wip", "x"));
    assert_eq!(verify(&m, &root, "x"), Err(CliError::InvalidVersion("B".to_string())));

    let (m, mut root) = good_input();
    let mut b = node("B", "3", "x");
    b.insert_dependency(node("D", "7", "z"));
    let mut c = node("C", "1", "x");
    c.insert_dependency(node("D", "7", "x"));
    root.insert_dependency(b);
    root.insert_dependency(c);
    assert_eq!(verify(&m, &root, "x"), Err(CliError::MultipleEnvironments("D".to_string())));

    let (m, mut root) = good_input();
    let mut b = node("B", "3", "x");
    b.insert_dependency(node("D", "wip", "x"));
    root.insert_dependency(b);
    assert_eq!(verify(&m, &root, "x"), Err(CliError::NonGlobalDependencies("D".to_string())));
}

#[test]
fn verify_environment_mismatch() {
    let m = manifest(vec![entry("B", 3)], vec![]);
    let mut root = node("A", "1", "x");
    root.insert_dependency(node("B", "3", "x"));
    assert_eq!(
        verify(&m, &root, "y"),
        Err(CliError::EnvironmentMismatch("B".to_string(), "x".to_string()))
    );
}

#[test]
fn multi_version_violation() {
    let m = manifest(vec![entry("B", 1), entry("C", 1)], vec![]);
    let mut e = node("E", "1", "x");
    e.insert_dependency(node("C", "2", "x"));
    let mut c = node("C", "1", "x");
    c.insert_dependency(e);
    let mut root = node("A", "1", "x");
    root.insert_dependency(c);
    root.insert_dependency(node("B", "1", "x"));
    assert_eq!(verify(&m, &root, "x"), Err(CliError::MultipleVersions("C".to_string())));
}

#[test]
fn cache_layout() {
    assert_eq!(cache_dir(&config(), "B", 3, "x"), "/cache/globals/x/B/3");
    assert_eq!(tarball_path(&config(), "B", 0, "global"), "/cache/globals/global/B/0/B.tar");
}

#[test]
fn upgrade_timing() {
    assert!(upgrade_due(None, 0));
    assert!(upgrade_due(Some(0), 86401));
    assert!(!upgrade_due(Some(0), 86400));
    assert!(upgrade_due(Some(i64::MIN), i64::MIN + 86401));
    let c = Config::new("/home/u");
    assert_eq!(c.cache, "/home/u/.lal/cache");
    assert_eq!(c.container, "edonusdevelopers/centos_build:latest");
    assert!(c.upgrade_check_time());
    let mut stale = config();
    stale.upgradeCheck = "2000-01-01T00:00:00+00:00".to_string();
    assert!(stale.upgrade_check_time());
    stale.performed_upgrade();
    assert!(!stale.upgrade_check_time());
    stale.upgradeCheck = "garbage".to_string();
    assert!(stale.upgrade_check_time());
}

#[test]
fn error_messages() {
    assert_eq!(CliError::MissingComponent("B".to_string()).message(), "Component 'B' not found in manifest");
    assert_eq!(CliError::InvalidStashName(0).message(), "Invalid name '0' to stash under - must not be an integer");
    assert_eq!(
        CliError::EnvironmentMismatch("B".to_string(), "x".to_string()).message(),
        "Environment mismatch for B - built in x"
    );
    assert_eq!(CliError::InstallFailure.message(), "Install failed");
    assert_eq!(CliError::Io("disk".to_string()).message(), "disk");
}

#[test]
fn nothing_cached_under_a_missing_root() {
    let mut cfg = config();
    cfg.cache = "/nonexistent/lal/cache/root".to_string();
    assert!(!lal::cache::is_cached(&cfg, "B", 3, "x"));
}

#[test]
fn fresh_markers_differ() {
    let a = Lockfile::new("A", "img", None, None);
    let b = Lockfile::new("A", "img", None, None);
    assert_ne!(a.version, b.version);
}

#[test]
fn plus_sign_versions() {
    assert_eq!(parse_u32("+7"), Some(7));
    assert_eq!(parse_u32("+0"), Some(0));
    assert_eq!(parse_u32("+"), None);
    assert_eq!(parse_u32("++7"), None);
    assert_eq!(parse_u32("-0"), None);
    assert_eq!(parse_u32("+4294967296"), None);
    assert_eq!(stash_dir(&config(), "A", "+5"), Err(CliError::InvalidStashName(5)));
    assert_eq!(parse_specifier("B=+3"), Specifier::Version("B".to_string(), 3));
    let m = manifest(vec![entry("B", 3)], vec![]);
    let mut installed = Lockfile::new("A", "img", Some("1"), None);
    installed.insert_dependency(node("B", "+3", "x"));
    let mut run = FetchAll::new(&m, &installed, true, "x");
    assert_eq!(run.step(), FetchStep::Finished(Ok(())));
}

#[test]
fn manifest_validity() {
    assert!(manifest(vec![entry("B", 1)], vec![entry("C", 2)]).is_valid());
    assert!(manifest(vec![], vec![]).is_valid());
    assert!(!manifest(vec![entry("B", 1), entry("B", 2)], vec![]).is_valid());
    assert!(!manifest(vec![], vec![entry("C", 1), entry("C", 1)]).is_valid());
    assert!(!manifest(vec![entry("B", 1)], vec![entry("B", 1)]).is_valid());
    assert!(!manifest(vec![entry("A", 1)], vec![]).is_valid());
    assert!(!manifest(vec![], vec![entry("A", 1)]).is_valid());
}

#[test]
fn manifest_written_only_when_saving() {
    let m = manifest(vec![entry("B", 1)], vec![entry("C", 2)]);
    assert!(m.after_update(&vec![entry("B", 4)], false, false).is_none());
    let saved = m.after_update(&vec![entry("C", 4)], true, false).unwrap();
    assert_eq!(saved.dependencies, vec![entry("B", 1), entry("C", 4)]);
    assert!(saved.dev_dependencies.is_empty());
    let dev = m.after_update(&vec![entry("B", 5)], false, true).unwrap();
    assert!(dev.dependencies.is_empty());
    assert_eq!(dev.dev_dependencies, vec![entry("C", 2), entry("B", 5)]);
    let zero = m.after_update(&vec![entry("D", 0)], true, false).unwrap();
    assert_eq!(get_version(&zero.dependencies, "D"), Some(0));
}
