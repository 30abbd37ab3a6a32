use cratup::manifest::TomlParser;
use cratup::model::ByteSpan;
use cratup::update::VersionUpdate;

const CORE: &str = "[package]\nname = \"core\"\nversion = \"0.1.0\"\n\n[dependencies]\nutil = { version = \"0.1.0\", path = \"../util\" }\n";

fn update(current: &str, new: &str, name: Option<&str>) -> VersionUpdate {
    VersionUpdate {
        package_name: name.map(|n| n.to_string()),
        current_version: current.to_string(),
        new_version: new.to_string(),
    }
}

#[test]
fn extracts_package_and_inline_dependency() {
    let parser = TomlParser::new(CORE).unwrap();
    let rec = parser.find_package_and_deps().unwrap();
    let (span, pkg) = rec.package.unwrap();
    assert_eq!(pkg.name, "core");
    assert_eq!(pkg.version, "0.1.0");
    assert_eq!(pkg.name_pair, "name = \"core\"");
    assert_eq!(pkg.version_pair, "version = \"0.1.0\"");
    assert_eq!(&CORE[span.start..span.end], "\"0.1.0\"");
    assert_eq!(rec.dependencies.len(), 1);
    let (dspan, d) = &rec.dependencies[0];
    assert_eq!(d.name, "util");
    assert_eq!(d.version, "0.1.0");
    assert_eq!(d.name_pair, "util = { version = \"0.1.0\", path = \"../util\" }");
    assert_eq!(d.version_pair, "version = \"0.1.0\"");
    assert_eq!(&CORE[dspan.start..dspan.end], "\"0.1.0\"");
    assert!(dspan.start > span.end);
}

#[test]
fn extraction_is_idempotent() {
    let a = TomlParser::new(CORE).unwrap().find_package_and_deps().unwrap().into_plain();
    let b = TomlParser::new(CORE).unwrap().find_package_and_deps().unwrap().into_plain();
    assert_eq!(format!("{:?}", a), format!("{:?}", b));
    let parser = TomlParser::new(CORE).unwrap();
    let c = parser.find_package_and_deps().unwrap().into_plain();
    let d = parser.find_package_and_deps().unwrap().into_plain();
    assert_eq!(format!("{:?}", c), format!("{:?}", d));
    assert_eq!(format!("{:?}", a), format!("{:?}", c));
}

#[test]
fn bare_string_dependencies_are_not_extracted() {
    let src = "[package]\nname = \"p\"\nversion = \"1.0.0\"\n\n[dependencies]\nserde = \"1.0.0\"\nlog = { path = \"x\" }\n";
    let rec = TomlParser::new(src).unwrap().find_package_and_deps().unwrap();
    assert!(rec.package.is_some());
    assert!(rec.dependencies.is_empty());
}

#[test]
fn package_without_version_is_absent() {
    let src = "[package]\nname = \"package_test\"\nedition = \"2021\"\n";
    let parser = TomlParser::new(src).unwrap();
    assert!(parser.find_package_and_deps().is_none());
    assert!(parser.find_package().is_none());
}

#[test]
fn manifest_with_only_dependencies_has_a_record() {
    let src = "[dependencies]\npackage_test2 = { version = \"0.4.3\", path = \"package_test2\" }\n";
    let parser = TomlParser::new(src).unwrap();
    let rec = parser.find_package_and_deps().unwrap();
    assert!(rec.package.is_none());
    assert_eq!(rec.dependencies.len(), 1);
    assert_eq!(rec.dependencies[0].1.name, "package_test2");
    assert!(parser.find_package().is_none());
}

#[test]
fn dependency_only_manifest_is_updated() {
    let src = "[workspace]\nmembers = [\"a\"]\n\n[dependencies]\na = { version = \"0.1.0\", path = \"a\" }\nb = { version = \"0.1.0\" }\n";
    let u = update("0.1.0", "0.2.0", None);
    assert_eq!(
        u.update_all_pkg_and_deps(src),
        "[workspace]\nmembers = [\"a\"]\n\n[dependencies]\na = { version = \"0.2.0\", path = \"a\" }\nb = { version = \"0.2.0\" }\n"
    );
}

#[test]
fn manifest_without_tables_is_absent() {
    let parser = TomlParser::new("key = \"value\"").unwrap();
    assert!(parser.find_package_and_deps().is_none());
}

#[test]
fn extra_package_keys_are_ignored() {
    let src = "\n[package]\nname = \"another_package\"\nversion = \"1.2.3\"\ndescription = \"An example package\"\nauthors = [\"Alice\", \"Bob\"]\n";
    let pkg = TomlParser::new(src).unwrap().find_package().unwrap();
    assert_eq!(pkg.name, "another_package");
    assert_eq!(pkg.version, "1.2.3");
}

#[test]
fn first_package_table_wins() {
    let src = "[package]\nname = \"first\"\nversion = \"1.0.0\"\n\n[package]\nname = \"second\"\nversion = \"2.0.0\"\n";
    let pkg = TomlParser::new(src).unwrap().find_package().unwrap();
    assert_eq!(pkg.name, "first");
}

#[test]
fn edit_node_replaces_only_the_span() {
    let parser = TomlParser::new(CORE).unwrap();
    let (span, _) = parser.find_package_and_deps().unwrap().package.unwrap();
    let out = parser.edit_node(span, "\"9.9.9\"");
    assert_eq!(&out[..span.start], &CORE[..span.start]);
    assert_eq!(&out[span.start..span.start + 7], "\"9.9.9\"");
    assert_eq!(&out[span.start + 7..], &CORE[span.end..]);
}

#[test]
fn edit_preserves_bytes_around_a_longer_literal() {
    let src = "# comment é\n[package] # x\nname = \"a\"\nversion = \"1\"\n";
    let parser = TomlParser::new(src).unwrap();
    let out = parser.edit_node(ByteSpan { start: 3, end: 10 }, "REPLACED");
    assert_eq!(out, "# cREPLACEDé\n[package] # x\nname = \"a\"\nversion = \"1\"\n");
}

#[test]
fn fixpoint_scenario_two_passes_then_stop() {
    let u = update("0.1.0", "0.2.0", None);
    let pass1 = u.update_pass(CORE).unwrap();
    assert_eq!(
        pass1,
        "[package]\nname = \"core\"\nversion = \"0.2.0\"\n\n[dependencies]\nutil = { version = \"0.1.0\", path = \"../util\" }\n"
    );
    let pass2 = u.update_pass(&pass1).unwrap();
    let expected = "[package]\nname = \"core\"\nversion = \"0.2.0\"\n\n[dependencies]\nutil = { version = \"0.2.0\", path = \"../util\" }\n";
    assert_eq!(pass2, expected);
    assert!(u.update_pass(&pass2).is_none());
    assert_eq!(u.update_all_pkg_and_deps(CORE), expected);
}

#[test]
fn fixpoint_rewrites_all_matching_declarations() {
    let src = "[package]\nname = \"a\"\nversion = \"1.0.0\"\n\n[dependencies]\nb = { version = \"1.0.0\" }\nc = { version = \"2.0.0\" }\nd = { path = \"d\", version = \"1.0.0\" }\n";
    let u = update("1.0.0", "1.1.0", None);
    let out = u.update_all_pkg_and_deps(src);
    assert_eq!(
        out,
        "[package]\nname = \"a\"\nversion = \"1.1.0\"\n\n[dependencies]\nb = { version = \"1.1.0\" }\nc = { version = \"2.0.0\" }\nd = { path = \"d\", version = \"1.1.0\" }\n"
    );
    let after = u.filtered_pkg_and_deps(&out).unwrap();
    assert!(after.package.is_none());
    assert!(after.dependencies.is_empty());
    let next = update("1.1.0", "1.1.0", None);
    assert_eq!(next.filtered_pkg_and_deps(&out).unwrap().count(), 3);
}

#[test]
fn update_by_name_touches_only_that_package() {
    let u = update("0.1.0", "0.2.0", Some("util"));
    let out = u.update_all_pkg_and_deps(CORE);
    assert_eq!(
        out,
        "[package]\nname = \"core\"\nversion = \"0.1.0\"\n\n[dependencies]\nutil = { version = \"0.2.0\", path = \"../util\" }\n"
    );
}

#[test]
fn update_without_matches_leaves_source() {
    let u = update("7.7.7", "8.0.0", None);
    assert!(u.update_pass(CORE).is_none());
    assert_eq!(u.update_all_pkg_and_deps(CORE), CORE);
}

#[test]
fn filtered_record_counts_matches() {
    let u = update("0.1.0", "0.2.0", None);
    let rec = u.filtered_pkg_and_deps(CORE).unwrap();
    assert_eq!(rec.count(), 2);
    let none = update("0.1.0", "0.2.0", Some("nothing"));
    assert_eq!(none.filtered_pkg_and_deps(CORE).unwrap().count(), 0);
}

#[test]
fn fixpoint_takes_one_pass_per_declaration() {
    let src = "[package]\nname = \"a\"\nversion = \"1.0.0\"\n\n[dependencies]\nb = { version = \"1.0.0\" }\nc = { version = \"2.0.0\" }\nd = { path = \"d\", version = \"1.0.0\" }\n";
    let u = update("1.0.0", "1.1.0", None);
    let mut current = src.to_string();
    let mut passes = 0;
    while let Some(next) = u.update_pass(&current) {
        current = next;
        passes += 1;
    }
    assert_eq!(passes, 3);
    assert_eq!(current, u.update_all_pkg_and_deps(src));
    let at_new = update("1.1.0", "1.1.0", None);
    assert_eq!(at_new.filtered_pkg_and_deps(&current).unwrap().count(), 3);
    assert_eq!(u.filtered_pkg_and_deps(&current).unwrap().count(), 0);
}
