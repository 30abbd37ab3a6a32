use cratup::config::Config;
use cratup::display::{build_directory_display, build_matches_info, decimal_string, get_colored_dir_path};
use cratup::increase::{check_versions, IncreaseError, Increaser};
use cratup::model::{DepsInfo, PackageAndDeps, PkgInfo};
use cratup::records::{format_pair_with_version, get_colored_pkg_deps, Paint};
use cratup::publish::{
    initial_states, is_excluded_target_dir, mark_published, published_dirs, sweep_again,
    unpublished_dirs, PublishAction, PublishSweeps,
};
use cratup::scan::{manifest_entry, package_entry, version_matches, VersionMatch};
use cratup::verbosity::{LevelFilter, Verbosity};

fn strip_colour(s: &str) -> String {
    s.replace("\u{1b}[32m", "").replace("\u{1b}[0m", "")
}

#[test]
fn display_of_file_in_start_directory() {
    let s = build_directory_display("/w/Cargo.toml", "/w");
    assert_eq!(strip_colour(&s), "./Cargo.toml");
}

#[test]
fn display_of_nested_files() {
    assert_eq!(strip_colour(&build_directory_display("/w/core/Cargo.toml", "/w")), "core/Cargo.toml");
    assert_eq!(
        strip_colour(&get_colored_dir_path("/w/a/b/core/Cargo.toml", "/w")),
        "a/b/core/Cargo.toml"
    );
}

#[test]
fn matches_info_shows_count() {
    assert_eq!(strip_colour(&build_matches_info(3)), "(3 matches)");
    assert_eq!(strip_colour(&build_matches_info(120)), "(120 matches)");
    assert_eq!(decimal_string(0), "0");
    assert_eq!(decimal_string(9075), "9075");
}

#[test]
fn verbosity_levels() {
    assert_eq!(Verbosity { verbose: 0, quiet: 0 }.log_level_filter(), LevelFilter::Info);
    assert_eq!(Verbosity { verbose: 1, quiet: 0 }.log_level_filter(), LevelFilter::Debug);
    assert_eq!(Verbosity { verbose: 5, quiet: 0 }.log_level_filter(), LevelFilter::Trace);
    assert_eq!(Verbosity { verbose: 2, quiet: 1 }.log_level_filter(), LevelFilter::Warn);
}

#[test]
fn config_defaults_and_answers() {
    assert!(!Config::default().always_ask_permission);
    assert!(Config::from_answer("yes").always_ask_permission);
    assert!(!Config::from_answer("Yes").always_ask_permission);
    assert!(!Config::from_answer("no").always_ask_permission);
    assert_eq!(Config { always_ask_permission: true }.current_answer(), "yes");
    assert_eq!(Config { always_ask_permission: false }.current_answer(), "no");
}

#[test]
fn target_directories_are_excluded() {
    assert!(is_excluded_target_dir("/w/target/debug/x"));
    assert!(is_excluded_target_dir("target"));
    assert!(!is_excluded_target_dir("/w/targets/x"));
    assert!(!is_excluded_target_dir("/w/core"));
}

#[test]
fn publish_sweep_decisions() {
    let mut states = initial_states(vec!["a".to_string(), "b".to_string(), "c".to_string()]);
    mark_published(&mut states, 0);
    mark_published(&mut states, 2);
    assert_eq!(published_dirs(&states), vec!["a".to_string(), "c".to_string()]);
    assert_eq!(unpublished_dirs(&states), vec!["b".to_string()]);
    assert!(sweep_again(true, 1, 3));
    assert!(!sweep_again(false, 1, 3));
    assert!(!sweep_again(true, 3, 3));
}

#[test]
fn publish_sweeps_retry_until_no_progress() {
    let mut s = PublishSweeps::new(vec!["a".to_string(), "b".to_string(), "c".to_string()]);
    // first sweep: b fails, a and c succeed
    assert_eq!(s.next_action(), PublishAction::Attempt(0));
    s.record(0, true);
    assert_eq!(s.next_action(), PublishAction::Attempt(1));
    s.record(1, false);
    assert_eq!(s.next_action(), PublishAction::Attempt(2));
    s.record(2, true);
    // second sweep: only b is left, and it fails again
    assert_eq!(s.next_action(), PublishAction::Attempt(1));
    s.record(1, false);
    // no progress: done
    assert_eq!(s.next_action(), PublishAction::Finished);
    assert_eq!(unpublished_dirs(&s.states), vec!["b".to_string()]);
}

#[test]
fn publish_sweeps_stop_when_all_published() {
    let mut s = PublishSweeps::new(vec!["a".to_string()]);
    assert_eq!(s.next_action(), PublishAction::Attempt(0));
    s.record(0, true);
    assert_eq!(s.next_action(), PublishAction::Finished);
    let mut empty = PublishSweeps::new(vec![]);
    assert_eq!(empty.next_action(), PublishAction::Finished);
}

#[test]
fn version_checks() {
    assert_eq!(check_versions("0.1.0", "0.2.0"), Ok(()));
    assert_eq!(check_versions("0.1.0", "0.1.0"), Err(IncreaseError::VersionsIdentical));
    assert_eq!(check_versions("x", "0.1.0"), Err(IncreaseError::InvalidCurrentVersion));
    assert_eq!(check_versions("0.1.0", "1.0"), Err(IncreaseError::InvalidNextVersion));
    assert_eq!(check_versions("1.0.0-alpha", "1.0.0"), Ok(()));
}

fn pkg(name: &str, version: &str) -> PkgInfo {
    PkgInfo {
        name: name.to_string(),
        version: version.to_string(),
        name_pair: String::new(),
        version_pair: String::new(),
    }
}

#[test]
fn increaser_refuses_without_matches() {
    let empty = vec![("/w/Cargo.toml".to_string(), PackageAndDeps { package: None, dependencies: vec![] })];
    let r = Increaser::new("/w".to_string(), "0.1.0".to_string(), "0.2.0".to_string(), None, empty);
    assert_eq!(r.err(), Some(IncreaseError::NoMatches));
    let some = vec![("/w/Cargo.toml".to_string(), PackageAndDeps { package: Some(pkg("a", "0.1.0")), dependencies: vec![] })];
    let inc = Increaser::new("/w".to_string(), "0.1.0".to_string(), "0.2.0".to_string(), None, some).ok().unwrap();
    let u = inc.version_update();
    assert_eq!(u.current_version, "0.1.0");
    assert_eq!(u.new_version, "0.2.0");
    assert_eq!(inc.next_matches_update().current_version, "0.2.0");
    let same = Increaser::new("/w".to_string(), "0.1.0".to_string(), "0.1.0".to_string(), None, vec![]);
    assert_eq!(same.err(), Some(IncreaseError::VersionsIdentical));
}

#[test]
fn manifest_entries_skip_target_and_report_records() {
    let src = "[package]\nname = \"a\"\nversion = \"1.0.0\"\n";
    assert!(manifest_entry("/w/target/debug/Cargo.toml".to_string(), src).unwrap().is_none());
    let (path, rec) = manifest_entry("/w/a/Cargo.toml".to_string(), src).unwrap().unwrap();
    assert_eq!(path, "/w/a/Cargo.toml");
    assert_eq!(rec.package.unwrap().name, "a");
    let (_, info) = package_entry("/w/a/Cargo.toml".to_string(), src).unwrap().unwrap();
    assert_eq!(info.version, "1.0.0");
    assert!(manifest_entry("/w/b/Cargo.toml".to_string(), "[dependencies]\n").unwrap().is_none());
    assert!(package_entry("/w/d/Cargo.toml".to_string(), "[dependencies]\nx = { version = \"1\" }\n").unwrap().is_none());
}

#[test]
fn version_matches_skip_empty_records() {
    let dirs = vec![
        ("/w/a/Cargo.toml".to_string(), PackageAndDeps { package: Some(pkg("a", "1")), dependencies: vec![] }),
        ("/w/b/Cargo.toml".to_string(), PackageAndDeps { package: None, dependencies: vec![] }),
    ];
    let m = version_matches(dirs);
    assert_eq!(m.len(), 1);
    assert_eq!(m[0].file_path, "/w/a/Cargo.toml");
    assert_eq!(m[0].matches, 1);
    let two = vec![(
        "/w/c/Cargo.toml".to_string(),
        PackageAndDeps {
            package: Some(pkg("c", "1")),
            dependencies: vec![DepsInfo {
                name: "d".to_string(),
                version: "1".to_string(),
                name_pair: String::new(),
                version_pair: String::new(),
            }],
        },
    )];
    assert_eq!(version_matches(two)[0].matches, 2);
    let v = VersionMatch::new("/x".to_string(), PackageAndDeps { package: None, dependencies: vec![] });
    assert_eq!(v.matches, 0);
}

fn strip_all_colours(s: &str) -> String {
    let mut out = s.to_string();
    for code in ["31", "32", "33", "35", "0"] {
        out = out.replace(&format!("\u{1b}[{}m", code), "");
    }
    out
}

#[test]
fn format_pair_highlights_first_version() {
    assert_eq!(
        format_pair_with_version("version = \"1.0.0\"", "1.0.0", "<1.0.0>"),
        "version = \"<1.0.0>\""
    );
    assert_eq!(format_pair_with_version("a = 1.0 1.0", "1.0", "X"), "a = X 1.0");
    assert_eq!(format_pair_with_version("name = \"x\"", "2.0", "X"), "name = \"x\"");
}

#[test]
fn record_display_lines() {
    let rec = PackageAndDeps {
        package: Some(PkgInfo {
            name: "core".to_string(),
            version: "0.1.0".to_string(),
            name_pair: "name = \"core\"".to_string(),
            version_pair: "version = \"0.1.0\"".to_string(),
        }),
        dependencies: vec![DepsInfo {
            name: "util".to_string(),
            version: "0.1.0".to_string(),
            name_pair: "util = { version = \"0.1.0\" }".to_string(),
            version_pair: "version = \"0.1.0\"".to_string(),
        }],
    };
    let shown = strip_all_colours(&get_colored_pkg_deps(&rec, Paint::Red));
    assert_eq!(
        shown,
        "\tcore: name = \"core\" version = \"0.1.0\"\n\tutil: util = { version = \"0.1.0\" }"
    );
    let deps_only = PackageAndDeps { package: None, dependencies: rec.dependencies.clone() };
    assert_eq!(
        strip_all_colours(&get_colored_pkg_deps(&deps_only, Paint::Green)),
        "\tutil: util = { version = \"0.1.0\" }"
    );
}

#[test]
fn directory_scan_loaders() {
    use_loaders();
}

fn use_loaders() {
    let files = vec![
        ("/w/a/Cargo.toml".to_string(), "[package]\nname = \"a\"\nversion = \"1.0.0\"\n[dependencies]\nb = { version = \"1.0.0\" }\n".to_string()),
        ("/w/target/debug/Cargo.toml".to_string(), "[package]\nname = \"t\"\nversion = \"1.0.0\"\n".to_string()),
        ("/w/c/Cargo.toml".to_string(), "[dependencies]\nb = { version = \"1.0.0\" }\n".to_string()),
    ];
    let (found, failed) = cratup::scan::load_dirs_pkgs_deps(files.clone());
    assert!(failed.is_empty());
    assert_eq!(found.len(), 2);
    assert_eq!(found[0].0, "/w/a/Cargo.toml");
    assert_eq!(found[0].1.dependencies.len(), 1);
    assert_eq!(found[1].0, "/w/c/Cargo.toml");
    assert!(found[1].1.package.is_none());
    let (pkgs, _) = cratup::scan::load_dirs_pkgs(files.clone());
    assert_eq!(pkgs.len(), 1);
    assert_eq!(pkgs[0].1.name, "a");
    let u = cratup::update::VersionUpdate {
        package_name: Some("b".to_string()),
        current_version: "1.0.0".to_string(),
        new_version: "2.0.0".to_string(),
    };
    let filtered = cratup::scan::load_dirs_and_packages(&u, files);
    assert_eq!(filtered.len(), 2);
    assert!(filtered[0].1.package.is_none());
    assert_eq!(filtered[0].1.dependencies[0].name, "b");
}
