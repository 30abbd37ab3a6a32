use cratup::model::{DepsInfo, PackageAndDeps, PkgInfo};
use cratup::records::Paint;
use cratup::search::{
    filter_by_package_name, filter_by_version, filter_package_and_deps, find_closest_package,
    first_minimum, Search,
};

fn pkg(name: &str, version: &str) -> PkgInfo {
    PkgInfo {
        name: name.to_string(),
        version: version.to_string(),
        name_pair: format!("name = \"{}\"", name),
        version_pair: format!("version = \"{}\"", version),
    }
}

fn dep(name: &str, version: &str) -> DepsInfo {
    DepsInfo {
        name: name.to_string(),
        version: version.to_string(),
        name_pair: format!("{} = {{ version = \"{}\" }}", name, version),
        version_pair: format!("version = \"{}\"", version),
    }
}

#[test]
fn test_filter_package_and_deps_match() {
    let pkg_and_deps = PackageAndDeps {
        package: Some(PkgInfo {
            name: "\"test-package\"".to_string(),
            version: "1.0.0".to_string(),
            name_pair: "test-package".to_string(),
            version_pair: "1.0.0".to_string(),
        }),
        dependencies: vec![
            DepsInfo {
                name: "\"test-package\"".to_string(),
                version: "1.0.0".to_string(),
                name_pair: "test-package".to_string(),
                version_pair: "1.0.0".to_string(),
            },
            DepsInfo {
                name: "\"other-package\"".to_string(),
                version: "2.0.0".to_string(),
                name_pair: "other-package".to_string(),
                version_pair: "2.0.0".to_string(),
            },
        ],
    };

    let filtered = filter_package_and_deps(pkg_and_deps.clone(), "test-package");
    assert_eq!(
        filtered.package.as_ref().unwrap().name,
        pkg_and_deps.package.as_ref().unwrap().name
    );
    assert_eq!(filtered.dependencies.len(), 1);
}

#[test]
fn test_filter_package_and_deps_no_match() {
    let pkg_and_deps = PackageAndDeps {
        package: Some(PkgInfo {
            name: "\"test-package\"".to_string(),
            version: "1.0.0".to_string(),
            name_pair: "test-package".to_string(),
            version_pair: "1.0.0".to_string(),
        }),
        dependencies: vec![
            DepsInfo {
                name: "\"test-package\"".to_string(),
                version: "1.0.0".to_string(),
                name_pair: "test-package".to_string(),
                version_pair: "1.0.0".to_string(),
            },
            DepsInfo {
                name: "\"other-package\"".to_string(),
                version: "2.0.0".to_string(),
                name_pair: "other-package".to_string(),
                version_pair: "2.0.0".to_string(),
            },
        ],
    };

    let filtered = filter_package_and_deps(pkg_and_deps.clone(), "non-existent-package");
    assert!(filtered.package.is_none());
    assert!(filtered.dependencies.is_empty());
}

#[test]
fn test_filter_package_and_deps_empty_dependencies() {
    let pkg_and_deps = PackageAndDeps {
        package: Some(PkgInfo {
            name: "\"test-package\"".to_string(),
            version: "1.0.0".to_string(),
            name_pair: "test-package".to_string(),
            version_pair: "1.0.0".to_string(),
        }),
        dependencies: vec![],
    };

    let filtered = filter_package_and_deps(pkg_and_deps.clone(), "test-package");
    assert_eq!(
        filtered.package.as_ref().unwrap().name,
        pkg_and_deps.package.as_ref().unwrap().name
    );
    assert!(filtered.dependencies.is_empty());
}

#[test]
fn test_filter_package_and_deps_no_package() {
    let pkg_and_deps = PackageAndDeps {
        package: None,
        dependencies: vec![DepsInfo {
            name: "\"test-package\"".to_string(),
            version: "1.0.0".to_string(),
            name_pair: "test-package".to_string(),
            version_pair: "1.0.0".to_string(),
        }],
    };

    let filtered = filter_package_and_deps(pkg_and_deps.clone(), "test-package");
    assert!(filtered.package.is_none());
    assert_eq!(filtered.dependencies.len(), 1);
}

fn sample_dirs() -> Vec<(String, PackageAndDeps)> {
    vec![
        (
            "/w/core/Cargo.toml".to_string(),
            PackageAndDeps {
                package: Some(pkg("core", "0.1.0")),
                dependencies: vec![dep("util", "0.1.0"), dep("serde", "1.0.0")],
            },
        ),
        (
            "/w/util/Cargo.toml".to_string(),
            PackageAndDeps { package: Some(pkg("util", "0.1.0")), dependencies: vec![] },
        ),
        (
            "/w/app/Cargo.toml".to_string(),
            PackageAndDeps {
                package: Some(pkg("app", "0.3.0")),
                dependencies: vec![dep("core", "0.1.0")],
            },
        ),
    ]
}

fn summary(dirs: &[(String, PackageAndDeps)]) -> Vec<(String, Option<String>, Vec<String>)> {
    dirs.iter()
        .map(|(p, r)| {
            (
                p.clone(),
                r.package.as_ref().map(|x| x.name.clone()),
                r.dependencies.iter().map(|d| d.name.clone()).collect(),
            )
        })
        .collect()
}

#[test]
fn filter_by_version_prunes_and_drops_files() {
    let out = filter_by_version(sample_dirs(), "0.1.0");
    assert_eq!(
        summary(&out),
        vec![
            ("/w/core/Cargo.toml".to_string(), Some("core".to_string()), vec!["util".to_string()]),
            ("/w/util/Cargo.toml".to_string(), Some("util".to_string()), vec![]),
            ("/w/app/Cargo.toml".to_string(), None, vec!["core".to_string()]),
        ]
    );
}

#[test]
fn filter_by_package_name_keeps_package_and_dependency_matches() {
    let out = filter_by_package_name(sample_dirs(), "util");
    assert_eq!(
        summary(&out),
        vec![
            ("/w/core/Cargo.toml".to_string(), None, vec!["util".to_string()]),
            ("/w/util/Cargo.toml".to_string(), Some("util".to_string()), vec![]),
        ]
    );
}

#[test]
fn filter_stages_commute() {
    let a = filter_by_package_name(filter_by_version(sample_dirs(), "0.1.0"), "core");
    let b = filter_by_version(filter_by_package_name(sample_dirs(), "core"), "0.1.0");
    assert_eq!(summary(&a), summary(&b));
    assert_eq!(
        summary(&a),
        vec![
            ("/w/core/Cargo.toml".to_string(), Some("core".to_string()), vec![]),
            ("/w/app/Cargo.toml".to_string(), None, vec!["core".to_string()]),
        ]
    );
}

#[test]
fn search_with_unknown_version_is_empty_and_no_fallback() {
    let mut s = Search::new("/w".to_string(), Some("9.9.9".to_string()), None, sample_dirs());
    s.search();
    assert!(s.pkg_deps_dirs.is_empty());
    let candidates = vec![("/w/core/Cargo.toml".to_string(), pkg("core", "0.1.0"))];
    assert!(s.fuzzy_search(candidates).is_empty());
}

#[test]
fn search_by_version_and_name() {
    let mut s = Search::new(
        "/w".to_string(),
        Some("0.1.0".to_string()),
        Some("util".to_string()),
        sample_dirs(),
    );
    s.search();
    assert_eq!(
        summary(&s.pkg_deps_dirs),
        vec![
            ("/w/core/Cargo.toml".to_string(), None, vec!["util".to_string()]),
            ("/w/util/Cargo.toml".to_string(), Some("util".to_string()), vec![]),
        ]
    );
}

#[test]
fn closest_package_is_first_minimum() {
    let candidates = vec![
        ("/w/a/Cargo.toml".to_string(), pkg("serde", "1.0.0")),
        ("/w/b/Cargo.toml".to_string(), pkg("cored", "0.1.0")),
        ("/w/c/Cargo.toml".to_string(), pkg("corx", "0.1.0")),
    ];
    let (path, rec) = find_closest_package(candidates.clone(), "core").unwrap();
    assert_eq!(path, "/w/b/Cargo.toml");
    assert_eq!(rec.package.unwrap().name, "cored");
    assert!(rec.dependencies.is_empty());
    let again = find_closest_package(candidates, "core").unwrap();
    assert_eq!(again.0, "/w/b/Cargo.toml");
}

#[test]
fn closest_package_exact_name_wins() {
    let candidates = vec![
        ("/w/a/Cargo.toml".to_string(), pkg("kitten", "1.0.0")),
        ("/w/b/Cargo.toml".to_string(), pkg("sitting", "0.1.0")),
    ];
    let (path, _) = find_closest_package(candidates, "sitting").unwrap();
    assert_eq!(path, "/w/b/Cargo.toml");
}

#[test]
fn closest_package_of_nothing_is_none() {
    assert!(find_closest_package(vec![], "core").is_none());
}

#[test]
fn fuzzy_search_returns_closest() {
    let s = Search::new("/w".to_string(), None, Some("utill".to_string()), vec![]);
    let candidates = vec![
        ("/w/core/Cargo.toml".to_string(), pkg("core", "0.1.0")),
        ("/w/util/Cargo.toml".to_string(), pkg("util", "0.1.0")),
    ];
    let found = s.fuzzy_search(candidates);
    assert_eq!(found.len(), 1);
    assert_eq!(found[0].0, "/w/util/Cargo.toml");
}

#[test]
fn first_minimum_picks_earliest_tie() {
    assert_eq!(first_minimum(&vec![3, 1, 2, 1]), Some(1));
    assert_eq!(first_minimum(&vec![5]), Some(0));
    assert_eq!(first_minimum(&vec![]), None);
}

#[test]
fn search_display_lines() {
    let mut s = Search::new("/w".to_string(), None, Some("util".to_string()), sample_dirs());
    s.search();
    let lines: Vec<String> = s
        .display(Paint::Green)
        .iter()
        .map(|l| l.replace("\u{1b}[32m", "").replace("\u{1b}[33m", "").replace("\u{1b}[35m", "").replace("\u{1b}[0m", ""))
        .collect();
    assert_eq!(
        lines,
        vec![
            "core/Cargo.toml\n\tutil: util = { version = \"0.1.0\" }".to_string(),
            "util/Cargo.toml\n\tutil: name = \"util\" version = \"0.1.0\"\n".to_string(),
        ]
    );
}
