//! What a directory scan does with each manifest it reads, and the checks
//! of a version change before any file is touched. Walking directories and
//! reading and writing files are the caller's part.

use vstd::prelude::*;
use vstd::utf8::*;
use vstd::string::StringExecFns;
use vstd::string::StringSliceAdditionalSpecFns;
use crate::display::{build_directory_display, build_matches_info, dir_display, matches_info};
use crate::extract::manifest_record;
use crate::manifest::{TomlParser, TomlParserError};
use crate::model::{keep, plain_of, Identity, PackageAndDeps, PkgInfo, PlainRecord};
use crate::paths::components;
use crate::publish::{is_excluded_target_dir, target_word};
use crate::search::{entries_view, is_empty_record};
use crate::syntax::source_tree;
use crate::update::{filtered_of_source, UpdateView, VersionUpdate};

verus! {

/// Whether `path` lies under a build output directory.
pub open spec fn excluded(path: Seq<char>) -> bool {
    components(encode_utf8(path)).contains(target_word())
}

/// What a scan makes of one file.
pub enum Outcome<T> {
    /// Left out: under a build output directory, or nothing declared.
    Skip,
    /// The content does not parse.
    Failed,
    /// Listed, with what it declares.
    Found(T),
}

/// What a scan makes of the manifest at `path` with content `content`:
/// its record, without spans, as the TOML grammar parses it.
pub open spec fn entry_outcome(path: Seq<char>, content: Seq<char>) -> Outcome<PlainRecord> {
    if excluded(path) {
        Outcome::Skip
    } else {
        match source_tree(content) {
            None => Outcome::Failed,
            Some(t) => match manifest_record(encode_utf8(content), t) {
                Some(rec) => Outcome::Found(plain_of(rec)),
                None => Outcome::Skip,
            },
        }
    }
}

/// What a package scan makes of the manifest at `path` with content
/// `content`: its package, if its record has one.
pub open spec fn package_outcome(path: Seq<char>, content: Seq<char>) -> Outcome<Identity> {
    match entry_outcome(path, content) {
        Outcome::Found(r) => match r.package {
            Some(p) => Outcome::Found(p),
            None => Outcome::Skip,
        },
        Outcome::Failed => Outcome::Failed,
        Outcome::Skip => Outcome::Skip,
    }
}

/// The record of the manifest at `path` with content `content`: `Ok(None)`
/// when the path is under a build output directory or the manifest
/// declares neither a package nor a dependency; an error exactly when it
/// does not parse.
pub fn manifest_entry(path: String, content: &str) -> (r: Result<
    Option<(String, PackageAndDeps)>,
    TomlParserError,
>)
    ensures
        match r {
            Ok(Some(x)) => x.0 == path && entry_outcome(path@, content@) == Outcome::Found(x.1@),
            Ok(None) => entry_outcome(path@, content@) == Outcome::<PlainRecord>::Skip,
            Err(_) => entry_outcome(path@, content@) == Outcome::<PlainRecord>::Failed,
        },
{
    if is_excluded_target_dir(path.as_str()) {
        return Ok(None);
    }
    let parser = TomlParser::new(content)?;
    match parser.find_package_and_deps() {
        Some(rec) => {
            let plain = rec.into_plain();
            Ok(Some((path, plain)))
        },
        None => Ok(None),
    }
}

/// The package of the manifest at `path` with content `content`: `Ok(None)`
/// when the path is under a build output directory or the manifest
/// declares no package; an error exactly when it does not parse.
pub fn package_entry(path: String, content: &str) -> (r: Result<
    Option<(String, PkgInfo)>,
    TomlParserError,
>)
    ensures
        match r {
            Ok(Some(x)) => x.0 == path && package_outcome(path@, content@) == Outcome::Found(x.1@),
            Ok(None) => package_outcome(path@, content@) == Outcome::<Identity>::Skip,
            Err(_) => package_outcome(path@, content@) == Outcome::<Identity>::Failed,
        },
{
    if is_excluded_target_dir(path.as_str()) {
        return Ok(None);
    }
    let parser = TomlParser::new(content)?;
    match parser.find_package() {
        Some(info) => Ok(Some((path, info))),
        None => Ok(None),
    }
}

/// A file's path, its record, and the number of declarations in it.
pub struct VersionMatch {
    pub file_path: String,
    pub matches: usize,
    pub pkg_deps: PackageAndDeps,
}

impl VersionMatch {
    /// Counts 1 for a package plus one for each dependency.
    pub fn new(file_path: String, pkg_deps: PackageAndDeps) -> (r: VersionMatch)
        requires
            pkg_deps.dependencies@.len() < usize::MAX,
        ensures
            r.file_path == file_path,
            r.pkg_deps == pkg_deps,
            r.matches == (if pkg_deps.package is Some { 1int } else { 0int })
                + pkg_deps.dependencies@.len(),
    {
        let matches = pkg_deps.count();
        VersionMatch { file_path, matches, pkg_deps }
    }
}

/// The display of a match's path relative to `current_dir`, a space, and
/// its match count.
pub fn get_colored_dir_path_and_matches(version_match: &VersionMatch, current_dir: &str) -> (r:
    String)
    ensures
        exists|a: Seq<char>, b: Seq<char>|
            r@ == a + " "@ + b && dir_display(
                a,
                encode_utf8(version_match.file_path@),
                current_dir.spec_bytes(),
            ) && matches_info(b, version_match.matches as nat),
{
    let display = build_directory_display(version_match.file_path.as_str(), current_dir);
    let info = build_matches_info(version_match.matches);
    let mut out = display;
    let ghost a = out@;
    out.append(" ");
    out.append(info.as_str());
    assert(out@ == a + " "@ + info@ && dir_display(
        a,
        encode_utf8(version_match.file_path@),
        current_dir.spec_bytes(),
    ) && matches_info(info@, version_match.matches as nat));
    out
}

pub open spec fn has_declarations() -> spec_fn((String, PackageAndDeps)) -> bool {
    |e: (String, PackageAndDeps)| !is_empty_record(e.1@)
}

/// The count that `VersionMatch::new` gives a record.
pub open spec fn match_count(r: PackageAndDeps) -> int {
    (if r.package is Some { 1int } else { 0int }) + r.dependencies@.len()
}

/// The records with at least one declaration, each with its count, in
/// their order.
pub fn version_matches(dirs: Vec<(String, PackageAndDeps)>) -> (r: Vec<VersionMatch>)
    requires
        forall|i: int| 0 <= i < dirs@.len() ==> (#[trigger] dirs@[i]).1.dependencies@.len() < usize::MAX,
    ensures
        r@.len() == keep(dirs@, has_declarations()).len(),
        forall|k: int|
            0 <= k < r@.len() ==> {
                &&& (#[trigger] r@[k]).file_path == keep(dirs@, has_declarations())[k].0
                &&& r@[k].pkg_deps == keep(dirs@, has_declarations())[k].1
                &&& r@[k].matches == match_count(keep(dirs@, has_declarations())[k].1)
                &&& r@[k].matches > 0
            },
{
    let ghost all = dirs@;
    let ghost n = dirs@.len() as int;
    let ghost p = has_declarations();
    let mut rest = dirs;
    let mut out: Vec<VersionMatch> = Vec::new();
    assert(all.subrange(0, 0) =~= Seq::<(String, PackageAndDeps)>::empty());
    while rest.len() > 0
        invariant
            0 <= rest@.len() <= n,
            all.len() == n,
            p == has_declarations(),
            forall|j: int| 0 <= j < rest@.len() ==> #[trigger] rest@[j] == all[n - rest@.len() + j],
            forall|i: int| 0 <= i < n ==> (#[trigger] all[i]).1.dependencies@.len() < usize::MAX,
            out@.len() == keep(all.subrange(0, n - rest@.len()), p).len(),
            forall|k: int|
                0 <= k < out@.len() ==> {
                    &&& (#[trigger] out@[k]).file_path == keep(all.subrange(0, n - rest@.len()), p)[k].0
                    &&& out@[k].pkg_deps == keep(all.subrange(0, n - rest@.len()), p)[k].1
                    &&& out@[k].matches == match_count(keep(all.subrange(0, n - rest@.len()), p)[k].1)
                    &&& out@[k].matches > 0
                },
        decreases rest@.len(),
    {
        let ghost before = rest@;
        let ghost at = n - rest@.len();
        let ghost prev = keep(all.subrange(0, at), p);
        let (path, rec) = rest.remove(0);
        assert(before[0] == all[at]);
        assert forall|j: int| 0 <= j < rest@.len() implies #[trigger] rest@[j] == all[n
            - rest@.len() + j] by {
            assert(rest@[j] == before[j + 1]);
        }
        assert(all.subrange(0, at + 1).drop_last() =~= all.subrange(0, at));
        assert(all.subrange(0, at + 1).last() == all[at]);
        assert(all[at].1.dependencies@.len() < usize::MAX);
        if rec.package.is_some() || rec.dependencies.len() > 0 {
            assert(p((path, rec)));
            let ghost e = (path, rec);
            let m = VersionMatch::new(path, rec);
            out.push(m);
            assert(keep(all.subrange(0, at + 1), p) == prev.push(e));
            assert forall|k: int| 0 <= k < out@.len() implies {
                &&& (#[trigger] out@[k]).file_path == keep(all.subrange(0, at + 1), p)[k].0
                &&& out@[k].pkg_deps == keep(all.subrange(0, at + 1), p)[k].1
                &&& out@[k].matches == match_count(keep(all.subrange(0, at + 1), p)[k].1)
                &&& out@[k].matches > 0
            } by {
                if k < out@.len() - 1 {
                    assert(prev.push(e)[k] == prev[k]);
                }
            }
        } else {
            assert(!p((path, rec)));
        }
    }
    assert(all.subrange(0, n) =~= all);
    out
}

/// Whether any record holds a declaration.
pub fn any_matches(dirs: &Vec<(String, PackageAndDeps)>) -> (r: bool)
    ensures
        r == exists|i: int| 0 <= i < dirs@.len() && !is_empty_record(#[trigger] dirs@[i].1@),
{
    let mut i: usize = 0;
    while i < dirs.len()
        invariant
            i <= dirs@.len(),
            forall|j: int| 0 <= j < i ==> is_empty_record(#[trigger] dirs@[j].1@),
        decreases dirs@.len() - i,
    {
        if dirs[i].1.package.is_some() || dirs[i].1.dependencies.len() > 0 {
            assert(!is_empty_record(dirs@[i as int].1@));
            return true;
        }
        i = i + 1;
    }
    false
}

/// The records that a scan of `files` lists: those of the files that
/// parse and declare something, in their order.
pub open spec fn scan_records(files: Seq<(String, String)>) -> Seq<(Seq<char>, PlainRecord)>
    decreases files.len(),
{
    if files.len() == 0 {
        Seq::empty()
    } else {
        let prev = scan_records(files.drop_last());
        let f = files.last();
        match entry_outcome(f.0@, f.1@) {
            Outcome::Found(r) => prev.push((f.0@, r)),
            _ => prev,
        }
    }
}

/// The paths of the files of `files` that do not parse, outside build
/// output directories, in their order.
pub open spec fn scan_failures(files: Seq<(String, String)>) -> Seq<Seq<char>>
    decreases files.len(),
{
    if files.len() == 0 {
        Seq::empty()
    } else {
        let prev = scan_failures(files.drop_last());
        let f = files.last();
        match entry_outcome(f.0@, f.1@) {
            Outcome::Failed => prev.push(f.0@),
            _ => prev,
        }
    }
}

/// The packages of records, each with its path, in their order: the
/// name-only projection of a record scan.
pub open spec fn package_projection(recs: Seq<(Seq<char>, PlainRecord)>) -> Seq<(Seq<char>, Identity)>
    decreases recs.len(),
{
    if recs.len() == 0 {
        Seq::empty()
    } else {
        let prev = package_projection(recs.drop_last());
        match recs.last().1.package {
            Some(p) => prev.push((recs.last().0, p)),
            None => prev,
        }
    }
}

/// The records of `files` reduced to what `u` changes: those of the files
/// outside build output directories that parse and declare something, in
/// their order.
pub open spec fn scan_filtered(files: Seq<(String, String)>, u: UpdateView) -> Seq<
    (Seq<char>, PlainRecord),
>
    decreases files.len(),
{
    if files.len() == 0 {
        Seq::empty()
    } else {
        let prev = scan_filtered(files.drop_last(), u);
        let f = files.last();
        if !excluded(f.0@) && filtered_of_source(f.1@, u) is Some {
            prev.push((f.0@, filtered_of_source(f.1@, u)->0))
        } else {
            prev
        }
    }
}

pub open spec fn paths_view(s: Seq<String>) -> Seq<Seq<char>> {
    s.map_values(|p: String| p@)
}

pub open spec fn packages_view(s: Seq<(String, PkgInfo)>) -> Seq<(Seq<char>, Identity)> {
    s.map_values(|e: (String, PkgInfo)| (e.0@, e.1@))
}

/// The records of the manifests read in a directory scan, given as pairs of
/// path and content, and the paths of those that did not parse, both in
/// the order of `files`. Paths under build output directories and
/// manifests that declare nothing are left out.
pub fn load_dirs_pkgs_deps(files: Vec<(String, String)>) -> (r: (
    Vec<(String, PackageAndDeps)>,
    Vec<String>,
))
    ensures
        entries_view(r.0@) == scan_records(files@),
        paths_view(r.1@) == scan_failures(files@),
{
    let ghost all = files@;
    let ghost n = files@.len() as int;
    let mut rest = files;
    let mut found: Vec<(String, PackageAndDeps)> = Vec::new();
    let mut failed: Vec<String> = Vec::new();
    assert(all.subrange(0, 0) =~= Seq::<(String, String)>::empty());
    assert(entries_view(found@) =~= Seq::<(Seq<char>, PlainRecord)>::empty());
    assert(paths_view(failed@) =~= Seq::<Seq<char>>::empty());
    while rest.len() > 0
        invariant
            0 <= rest@.len() <= n,
            all.len() == n,
            forall|j: int| 0 <= j < rest@.len() ==> #[trigger] rest@[j] == all[n - rest@.len() + j],
            entries_view(found@) == scan_records(all.subrange(0, n - rest@.len())),
            paths_view(failed@) == scan_failures(all.subrange(0, n - rest@.len())),
        decreases rest@.len(),
    {
        let ghost before = rest@;
        let ghost at = n - rest@.len();
        let ghost found_before = found@;
        let ghost failed_before = failed@;
        let (path, content) = rest.remove(0);
        assert(before[0] == all[at]);
        assert forall|j: int| 0 <= j < rest@.len() implies #[trigger] rest@[j] == all[n
            - rest@.len() + j] by {
            assert(rest@[j] == before[j + 1]);
        }
        assert(all.subrange(0, at + 1).drop_last() =~= all.subrange(0, at));
        assert(all.subrange(0, at + 1).last() == all[at]);
        let copy = path.as_str().to_owned();
        match manifest_entry(path, content.as_str()) {
            Ok(Some(entry)) => {
                found.push(entry);
                assert(entries_view(found@) =~= entries_view(found_before).push((entry.0@, entry.1@)));
            },
            Ok(None) => {},
            Err(_) => {
                failed.push(copy);
                assert(paths_view(failed@) =~= paths_view(failed_before).push(copy@));
            },
        }
    }
    assert(all.subrange(0, n) =~= all);
    (found, failed)
}

/// The packages of the manifests read in a directory scan, given as pairs
/// of path and content, and the paths of those that did not parse: the
/// name-only projection of `load_dirs_pkgs_deps` on the same files.
pub fn load_dirs_pkgs(files: Vec<(String, String)>) -> (r: (Vec<(String, PkgInfo)>, Vec<String>))
    ensures
        packages_view(r.0@) == package_projection(scan_records(files@)),
        paths_view(r.1@) == scan_failures(files@),
{
    let (records, failed) = load_dirs_pkgs_deps(files);
    let ghost all = entries_view(records@);
    let ghost n = records@.len() as int;
    let mut rest = records;
    let mut found: Vec<(String, PkgInfo)> = Vec::new();
    assert(all.subrange(0, 0) =~= Seq::<(Seq<char>, PlainRecord)>::empty());
    assert(packages_view(found@) =~= Seq::<(Seq<char>, Identity)>::empty());
    while rest.len() > 0
        invariant
            0 <= rest@.len() <= n,
            all.len() == n,
            forall|j: int|
                0 <= j < rest@.len() ==> (#[trigger] rest@[j]).0@ == all[n - rest@.len() + j].0
                    && rest@[j].1@ == all[n - rest@.len() + j].1,
            packages_view(found@) == package_projection(all.subrange(0, n - rest@.len())),
        decreases rest@.len(),
    {
        let ghost before = rest@;
        let ghost at = n - rest@.len();
        let ghost found_before = found@;
        let (path, rec) = rest.remove(0);
        assert(before[0] == (path, rec));
        assert forall|j: int| 0 <= j < rest@.len() implies (#[trigger] rest@[j]).0@ == all[n
            - rest@.len() + j].0 && rest@[j].1@ == all[n - rest@.len() + j].1 by {
            assert(rest@[j] == before[j + 1]);
        }
        assert(all.subrange(0, at + 1).drop_last() =~= all.subrange(0, at));
        assert(all.subrange(0, at + 1).last() == all[at]);
        match rec.package {
            Some(info) => {
                found.push((path, info));
                assert(packages_view(found@) =~= packages_view(found_before).push(
                    (path@, info@),
                ));
            },
            None => {},
        }
    }
    assert(all.subrange(0, n) =~= all);
    (found, failed)
}

/// The records of the manifests read in a directory scan, reduced to the
/// declarations that `update` changes, in the order of `files`. Paths
/// under build output directories, and manifests that do not parse or
/// declare nothing, are left out.
pub fn load_dirs_and_packages(update: &VersionUpdate, files: Vec<(String, String)>) -> (r: Vec<
    (String, PackageAndDeps),
>)
    ensures
        entries_view(r@) == scan_filtered(files@, update@),
{
    let ghost all = files@;
    let ghost n = files@.len() as int;
    let mut rest = files;
    let mut found: Vec<(String, PackageAndDeps)> = Vec::new();
    assert(all.subrange(0, 0) =~= Seq::<(String, String)>::empty());
    assert(entries_view(found@) =~= Seq::<(Seq<char>, PlainRecord)>::empty());
    while rest.len() > 0
        invariant
            0 <= rest@.len() <= n,
            all.len() == n,
            forall|j: int| 0 <= j < rest@.len() ==> #[trigger] rest@[j] == all[n - rest@.len() + j],
            entries_view(found@) == scan_filtered(all.subrange(0, n - rest@.len()), update@),
        decreases rest@.len(),
    {
        let ghost before = rest@;
        let ghost at = n - rest@.len();
        let ghost found_before = found@;
        let (path, content) = rest.remove(0);
        assert(before[0] == all[at]);
        assert forall|j: int| 0 <= j < rest@.len() implies #[trigger] rest@[j] == all[n
            - rest@.len() + j] by {
            assert(rest@[j] == before[j + 1]);
        }
        assert(all.subrange(0, at + 1).drop_last() =~= all.subrange(0, at));
        assert(all.subrange(0, at + 1).last() == all[at]);
        if !is_excluded_target_dir(path.as_str()) {
            match update.filtered_pkg_and_deps(content.as_str()) {
                Some(rec) => {
                    let entry = (path, rec);
                    found.push(entry);
                    assert(entries_view(found@) =~= entries_view(found_before).push(
                        (entry.0@, entry.1@),
                    ));
                },
                None => {},
            }
        }
    }
    assert(all.subrange(0, n) =~= all);
    found
}

} // verus!
