//! The filter engine over extracted records, the search built on it, and
//! the similarity fallback that ranks package names by edit distance.

use vstd::prelude::*;
use vstd::utf8::*;
use crate::model::{keep, DepsInfo, Identity, PackageAndDeps, PkgInfo, PlainRecord};
use crate::text::{range_is, remove_quotes, unquoted};
use crate::display::{dir_display, get_colored_dir_path};
use crate::records::{get_colored_pkg_deps, shown_record, Paint};
use crate::update::opt_text;
use vstd::string::StringExecFns;

verus! {

/// Whether a name is `target`, once the quotes of both are taken out.
pub open spec fn name_matches(name: Seq<char>, target: Seq<char>) -> bool {
    remove_quotes(encode_utf8(name)) == remove_quotes(encode_utf8(target))
}

/// The version predicate: the identity's version is exactly `v`.
pub open spec fn version_is(v: Seq<char>) -> spec_fn(Identity) -> bool {
    |i: Identity| i.version == v
}

/// The name predicate: the identity's unquoted name is exactly `n`.
pub open spec fn name_is(n: Seq<char>) -> spec_fn(Identity) -> bool {
    |i: Identity| name_matches(i.name, n)
}

/// Both predicates.
pub open spec fn both(p: spec_fn(Identity) -> bool, q: spec_fn(Identity) -> bool) -> spec_fn(
    Identity,
) -> bool {
    |i: Identity| p(i) && q(i)
}

/// A record reduced to the identities for which `p` holds.
pub open spec fn filter_record(r: PlainRecord, p: spec_fn(Identity) -> bool) -> PlainRecord {
    PlainRecord {
        package: match r.package {
            Some(i) => if p(i) {
                Some(i)
            } else {
                None
            },
            None => None,
        },
        dependencies: keep(r.dependencies, p),
    }
}

/// A record with neither a package nor a dependency.
pub open spec fn is_empty_record(r: PlainRecord) -> bool {
    r.package is None && r.dependencies.len() == 0
}

/// Each file's record filtered by `p`, and the files left with nothing
/// dropped, in their order.
pub open spec fn filter_entries(s: Seq<(Seq<char>, PlainRecord)>, p: spec_fn(Identity) -> bool) -> Seq<
    (Seq<char>, PlainRecord),
>
    decreases s.len(),
{
    if s.len() == 0 {
        s
    } else {
        let prev = filter_entries(s.drop_last(), p);
        let f = filter_record(s.last().1, p);
        if is_empty_record(f) {
            prev
        } else {
            prev.push((s.last().0, f))
        }
    }
}

pub open spec fn entries_view(s: Seq<(String, PackageAndDeps)>) -> Seq<(Seq<char>, PlainRecord)> {
    s.map_values(|e: (String, PackageAndDeps)| (e.0@, e.1@))
}

/// The predicate of one criterion: by version when `by_version`, else by
/// name.
pub open spec fn criterion(by_version: bool, w: Seq<char>) -> spec_fn(Identity) -> bool {
    if by_version {
        version_is(w)
    } else {
        name_is(w)
    }
}

/// Whether `name` is `target`, once the quotes of both are taken out.
pub(crate) fn name_is_exec(name: &str, target: &str) -> (r: bool)
    ensures
        r == name_matches(name@, target@),
{
    let nb = name.as_bytes();
    let tb = target.as_bytes();
    let stripped = unquoted(nb, 0, nb.len());
    let wanted = unquoted(tb, 0, tb.len());
    assert(nb@.subrange(0, nb@.len() as int) =~= nb@);
    assert(tb@.subrange(0, tb@.len() as int) =~= tb@);
    let eq = range_is(stripped.as_slice(), 0, stripped.len(), wanted.as_slice());
    assert(stripped@.subrange(0, stripped@.len() as int) =~= stripped@);
    eq
}

/// Whether an identity with this name and version meets the criterion.
fn meets(by_version: bool, w: &str, name: &String, version: &String) -> (r: bool)
    ensures
        r == (criterion(by_version, w@))(
            Identity { name: name@, version: version@, name_pair: Seq::empty(), version_pair: Seq::empty() },
        ),
{
    if by_version {
        let wanted = w.to_owned();
        *version == wanted
    } else {
        name_is_exec(name.as_str(), w)
    }
}

/// The record reduced to the identities that meet the criterion.
fn filter_by(rec: PackageAndDeps, by_version: bool, w: &str) -> (r: PackageAndDeps)
    ensures
        r@ == filter_record(rec@, criterion(by_version, w@)),
{
    let ghost p = criterion(by_version, w@);
    let PackageAndDeps { package, dependencies } = rec;
    let package = match package {
        Some(info) => {
            if meets(by_version, w, &info.name, &info.version) {
                Some(info)
            } else {
                None
            }
        },
        None => None,
    };
    let ghost all = dependencies@.map_values(|d: DepsInfo| d@);
    let ghost n = dependencies@.len() as int;
    let mut rest = dependencies;
    let mut kept: Vec<DepsInfo> = Vec::new();
    assert(all.subrange(0, 0) =~= Seq::<Identity>::empty());
    assert(rest@.map_values(|d: DepsInfo| d@) =~= all.subrange(0, n));
    while rest.len() > 0
        invariant
            0 <= rest@.len() <= n,
            all.len() == n,
            rest@.map_values(|d: DepsInfo| d@) == all.subrange(n - rest@.len(), n),
            kept@.map_values(|d: DepsInfo| d@) == keep(all.subrange(0, n - rest@.len()), p),
            p == criterion(by_version, w@),
        decreases rest@.len(),
    {
        let ghost k = n - rest@.len();
        let ghost before = rest@;
        let d = rest.remove(0);
        assert(before.map_values(|d: DepsInfo| d@)[0] == d@);
        assert(all[k] == d@);
        assert(rest@ =~= before.subrange(1, before.len() as int));
        assert(rest@.map_values(|d: DepsInfo| d@) =~= before.map_values(|d: DepsInfo| d@).subrange(
            1,
            before.len() as int,
        ));
        assert(rest@.map_values(|d: DepsInfo| d@) =~= all.subrange(n - rest@.len(), n));
        assert(all.subrange(0, k + 1).drop_last() =~= all.subrange(0, k));
        assert(all.subrange(0, k + 1).last() == all[k]);
        let ghost kept_before = kept@;
        let ok = meets(by_version, w, &d.name, &d.version);
        assert(p(d@) == ok);
        if ok {
            kept.push(d);
            assert(kept@.map_values(|d: DepsInfo| d@) =~= kept_before.map_values(
                |d: DepsInfo| d@,
            ).push(d@));
        }
    }
    assert(all.subrange(0, n) =~= all);
    PackageAndDeps { package, dependencies: kept }
}

/// Keeps the package only if its unquoted name is `pkg_name`, and the
/// dependencies whose unquoted name is `pkg_name`.
pub fn filter_package_and_deps(pkg_and_deps: PackageAndDeps, pkg_name: &str) -> (r: PackageAndDeps)
    ensures
        r@ == filter_record(pkg_and_deps@, name_is(pkg_name@)),
{
    filter_by(pkg_and_deps, false, pkg_name)
}

/// Every file's record filtered by the criterion, files left with nothing
/// dropped.
fn filter_files(
    entries: Vec<(String, PackageAndDeps)>,
    by_version: bool,
    w: &str,
) -> (r: Vec<(String, PackageAndDeps)>)
    ensures
        entries_view(r@) == filter_entries(entries_view(entries@), criterion(by_version, w@)),
{
    let ghost p = criterion(by_version, w@);
    let ghost all = entries_view(entries@);
    let ghost n = entries@.len() as int;
    let mut rest = entries;
    let mut kept: Vec<(String, PackageAndDeps)> = Vec::new();
    assert(all.subrange(0, 0) =~= Seq::<(Seq<char>, PlainRecord)>::empty());
    assert(entries_view(rest@) =~= all.subrange(0, n));
    while rest.len() > 0
        invariant
            0 <= rest@.len() <= n,
            all.len() == n,
            entries_view(rest@) == all.subrange(n - rest@.len(), n),
            entries_view(kept@) == filter_entries(all.subrange(0, n - rest@.len()), p),
            p == criterion(by_version, w@),
        decreases rest@.len(),
    {
        let ghost k = n - rest@.len();
        let ghost before = rest@;
        let (path, rec) = rest.remove(0);
        assert(entries_view(before)[0] == (path@, rec@));
        assert(all[k] == (path@, rec@));
        assert(rest@ =~= before.subrange(1, before.len() as int));
        assert(entries_view(rest@) =~= entries_view(before).subrange(1, before.len() as int));
        assert(entries_view(rest@) =~= all.subrange(n - rest@.len(), n));
        assert(all.subrange(0, k + 1).drop_last() =~= all.subrange(0, k));
        assert(all.subrange(0, k + 1).last() == all[k]);
        let f = filter_by(rec, by_version, w);
        if f.package.is_some() || f.dependencies.len() > 0 {
            let ghost kept_before = kept@;
            kept.push((path, f));
            assert(entries_view(kept@) =~= entries_view(kept_before).push((path@, f@)));
        }
    }
    assert(all.subrange(0, n) =~= all);
    kept
}

/// Every file's record reduced to the identities at `version`; files with
/// none are dropped.
pub fn filter_by_version(package_dirs: Vec<(String, PackageAndDeps)>, version: &str) -> (r: Vec<
    (String, PackageAndDeps),
>)
    ensures
        entries_view(r@) == filter_entries(entries_view(package_dirs@), version_is(version@)),
{
    filter_files(package_dirs, true, version)
}

/// Every file's record reduced to the identities named `pkg_name`; files
/// with none are dropped.
pub fn filter_by_package_name(package_dirs: Vec<(String, PackageAndDeps)>, pkg_name: &str) -> (r: Vec<
    (String, PackageAndDeps),
>)
    ensures
        entries_view(r@) == filter_entries(entries_view(package_dirs@), name_is(pkg_name@)),
{
    filter_files(package_dirs, false, pkg_name)
}


/// Filtering twice keeps what both predicates keep.
pub proof fn lemma_keep_twice<A>(s: Seq<A>, p: spec_fn(A) -> bool, q: spec_fn(A) -> bool)
    ensures
        keep(keep(s, p), q) == keep(s, |x: A| p(x) && q(x)),
    decreases s.len(),
{
    if s.len() > 0 {
        lemma_keep_twice(s.drop_last(), p, q);
        if p(s.last()) {
            assert(keep(s, p).drop_last() =~= keep(s.drop_last(), p));
        }
    }
}

/// Filtering by predicates that agree everywhere keeps the same items.
pub proof fn lemma_keep_same<A>(s: Seq<A>, p: spec_fn(A) -> bool, q: spec_fn(A) -> bool)
    requires
        forall|x: A| #[trigger] p(x) == q(x),
    ensures
        keep(s, p) == keep(s, q),
    decreases s.len(),
{
    if s.len() > 0 {
        lemma_keep_same(s.drop_last(), p, q);
    }
}

/// Filtering a record by one criterion and then by another is filtering it
/// once by both, in either order.
pub proof fn lemma_filter_composition(r: PlainRecord, p: spec_fn(Identity) -> bool, q: spec_fn(Identity) -> bool)
    ensures
        filter_record(filter_record(r, p), q) == filter_record(r, both(p, q)),
        filter_record(filter_record(r, p), q) == filter_record(filter_record(r, q), p),
{
    lemma_keep_twice(r.dependencies, p, q);
    lemma_keep_twice(r.dependencies, q, p);
    lemma_keep_same(r.dependencies, |x: Identity| p(x) && q(x), both(p, q));
    lemma_keep_same(r.dependencies, |x: Identity| q(x) && p(x), both(p, q));
}

/// Filtering files by one criterion and then by another is filtering them
/// once by both: a file dropped by the first stage stays dropped.
pub proof fn lemma_filter_entries_composition(
    s: Seq<(Seq<char>, PlainRecord)>,
    p: spec_fn(Identity) -> bool,
    q: spec_fn(Identity) -> bool,
)
    ensures
        filter_entries(filter_entries(s, p), q) == filter_entries(s, both(p, q)),
    decreases s.len(),
{
    if s.len() > 0 {
        lemma_filter_entries_composition(s.drop_last(), p, q);
        lemma_filter_composition(s.last().1, p, q);
        let prev = filter_entries(s.drop_last(), p);
        let f = filter_record(s.last().1, p);
        if !is_empty_record(f) {
            assert(prev.push((s.last().0, f)).drop_last() =~= prev);
        } else {
            assert(keep(f.dependencies, q).len() == 0) by {
                lemma_keep_empty(f.dependencies, q);
            }
        }
    }
}

/// Filtering an empty sequence leaves it empty.
proof fn lemma_keep_empty<A>(s: Seq<A>, p: spec_fn(A) -> bool)
    requires
        s.len() == 0,
    ensures
        keep(s, p).len() == 0,
{
}

/// The files of a search after its criteria: by version first, if one is
/// given, then by name, if one is given.
pub open spec fn searched(
    e: Seq<(Seq<char>, PlainRecord)>,
    version: Option<Seq<char>>,
    name: Option<Seq<char>>,
) -> Seq<(Seq<char>, PlainRecord)> {
    let by_version = match version {
        Some(v) => filter_entries(e, version_is(v)),
        None => e,
    };
    match name {
        Some(n) => filter_entries(by_version, name_is(n)),
        None => by_version,
    }
}

/// A search over the records of the manifests under `dir_path`.
pub struct Search {
    pub dir_path: String,
    pub version: Option<String>,
    pub package_name: Option<String>,
    pub pkg_deps_dirs: Vec<(String, PackageAndDeps)>,
}

impl Search {
    /// A search with the given criteria over the records found under
    /// `dir_path`; nothing is filtered yet.
    pub fn new(
        dir_path: String,
        version: Option<String>,
        package_name: Option<String>,
        pkg_deps_dirs: Vec<(String, PackageAndDeps)>,
    ) -> (r: Search)
        ensures
            r.dir_path == dir_path,
            r.version == version,
            r.package_name == package_name,
            r.pkg_deps_dirs == pkg_deps_dirs,
    {
        Search { dir_path, version, package_name, pkg_deps_dirs }
    }

    /// Whether the similarity fallback is due: a package name is given and
    /// the search found nothing.
    pub fn needs_fallback(&self) -> (r: bool)
        ensures
            r == (self.package_name is Some && self.pkg_deps_dirs@.len() == 0),
    {
        self.package_name.is_some() && self.pkg_deps_dirs.len() == 0
    }

    /// Filters the records by version, then by package name, as far as each
    /// criterion is given.
    pub fn search(&mut self)
        ensures
            final(self).dir_path == old(self).dir_path,
            final(self).version == old(self).version,
            final(self).package_name == old(self).package_name,
            entries_view(final(self).pkg_deps_dirs@) == searched(
                entries_view(old(self).pkg_deps_dirs@),
                opt_text(old(self).version),
                opt_text(old(self).package_name),
            ),
    {
        let mut entries: Vec<(String, PackageAndDeps)> = Vec::new();
        std::mem::swap(&mut entries, &mut self.pkg_deps_dirs);
        let by_version = match &self.version {
            Some(v) => filter_by_version(entries, v.as_str()),
            None => entries,
        };
        let by_name = match &self.package_name {
            Some(n) => filter_by_package_name(by_version, n.as_str()),
            None => by_version,
        };
        self.pkg_deps_dirs = by_name;
    }
}


/// The Levenshtein distance between two character sequences: the fewest
/// single-character insertions, deletions and substitutions that turn one
/// into the other.
pub open spec fn levenshtein_of(a: Seq<char>, b: Seq<char>) -> nat
    decreases a.len() + b.len(),
{
    if a.len() == 0 {
        b.len()
    } else if b.len() == 0 {
        a.len()
    } else {
        let substitute = levenshtein_of(a.drop_last(), b.drop_last()) + if a.last() == b.last() {
            0nat
        } else {
            1nat
        };
        let delete = levenshtein_of(a.drop_last(), b) + 1;
        let insert = levenshtein_of(a, b.drop_last()) + 1;
        if substitute <= delete && substitute <= insert {
            substitute
        } else if delete <= insert {
            delete
        } else {
            insert
        }
    }
}

/// Relies on strsim::levenshtein: the minimum number of single-character
/// insertions, deletions and substitutions between the characters of `a`
/// and of `b`.
#[verifier::external_body]
fn edit_distance(a: &str, b: &str) -> (r: usize)
    ensures
        r as nat == levenshtein_of(a@, b@),
{
    strsim::levenshtein(a, b)
}

/// Index `i` holds the smallest distance, and no earlier index holds one as
/// small.
pub open spec fn is_first_min(ds: Seq<usize>, i: int) -> bool {
    &&& 0 <= i < ds.len()
    &&& forall|j: int| 0 <= j < ds.len() ==> ds[i] <= ds[j]
    &&& forall|j: int| 0 <= j < i ==> ds[i] < ds[j]
}

/// At most one index is the first minimum.
pub proof fn lemma_first_min_unique(ds: Seq<usize>, i: int, j: int)
    requires
        is_first_min(ds, i),
        is_first_min(ds, j),
    ensures
        i == j,
{
    if i < j {
        assert(ds[j] < ds[i]);
    } else if j < i {
        assert(ds[i] < ds[j]);
    }
}

/// The index of the first smallest distance; `None` for no distances.
pub fn first_minimum(ds: &Vec<usize>) -> (r: Option<usize>)
    ensures
        r is None <==> ds@.len() == 0,
        r matches Some(i) ==> is_first_min(ds@, i as int),
{
    if ds.len() == 0 {
        return None;
    }
    let mut best: usize = 0;
    let mut i: usize = 1;
    while i < ds.len()
        invariant
            0 <= best < i <= ds@.len(),
            forall|j: int| 0 <= j < i ==> ds@[best as int] <= ds@[j],
            forall|j: int| 0 <= j < best ==> ds@[best as int] < ds@[j],
        decreases ds@.len() - i,
    {
        if ds[i] < ds[best] {
            best = i;
        }
        i = i + 1;
    }
    Some(best)
}

/// The distances from each candidate's package name to `target`.
pub open spec fn name_distances(c: Seq<(String, PkgInfo)>, target: Seq<char>) -> Seq<nat> {
    Seq::new(c.len(), |i: int| levenshtein_of(c[i].1.name@, target))
}

/// The candidate whose package name is closest to `package_name` by edit
/// distance, the first one on a tie, as a record holding only that package;
/// `None` when there are no candidates.
pub fn find_closest_package(candidates: Vec<(String, PkgInfo)>, package_name: &str) -> (r: Option<
    (String, PackageAndDeps),
>)
    ensures
        r is None <==> candidates@.len() == 0,
        r matches Some(x) ==> find_closest_package_spec(candidates@, package_name@, x),
{
    let ghost c = candidates@;
    let mut ds: Vec<usize> = Vec::new();
    let mut k: usize = 0;
    while k < candidates.len()
        invariant
            c == candidates@,
            k <= c.len(),
            ds@.len() == k,
            forall|j: int| 0 <= j < k ==> ds@[j] as nat == name_distances(c, package_name@)[j],
        decreases c.len() - k,
    {
        let d = edit_distance(candidates[k].1.name.as_str(), package_name);
        ds.push(d);
        k = k + 1;
    }
    match first_minimum(&ds) {
        Some(i) => {
            proof {
                let nd = name_distances(c, package_name@);
                assert forall|j: int| 0 <= j < c.len() implies nd[i as int] <= nd[j] by {
                    assert(ds@[j] as nat == nd[j]);
                    assert(ds@[i as int] as nat == nd[i as int]);
                }
                assert forall|j: int| 0 <= j < i implies nd[i as int] < nd[j] by {
                    assert(ds@[j] as nat == nd[j]);
                    assert(ds@[i as int] as nat == nd[i as int]);
                }
            }
            let mut rest = candidates;
            let (path, info) = rest.swap_remove(i);
            let deps: Vec<DepsInfo> = Vec::new();
            let rec = PackageAndDeps { package: Some(info), dependencies: deps };
            assert(rec@.dependencies =~= Seq::<Identity>::empty());
            Some((path, rec))
        },
        None => None,
    }
}

impl Search {
    /// The fallback when a search by name finds nothing: the candidate
    /// package closest by name, if a name is given and there is any
    /// candidate.
    pub fn fuzzy_search(&self, candidates: Vec<(String, PkgInfo)>) -> (r: Vec<
        (String, PackageAndDeps),
    >)
        ensures
            r@.len() <= 1,
            r@.len() == 1 <==> self.package_name is Some && candidates@.len() > 0,
            r@.len() == 1 ==> (self.package_name matches Some(n) && find_closest_package_spec(
                candidates@,
                n@,
                r@[0],
            )),
    {
        match &self.package_name {
            Some(n) => match find_closest_package(candidates, n.as_str()) {
                Some(found) => {
                    let mut out: Vec<(String, PackageAndDeps)> = Vec::new();
                    out.push(found);
                    out
                },
                None => Vec::new(),
            },
            None => Vec::new(),
        }
    }
}

/// `x` is what `find_closest_package` returns for these candidates and name.
pub open spec fn find_closest_package_spec(
    candidates: Seq<(String, PkgInfo)>,
    target: Seq<char>,
    x: (String, PackageAndDeps),
) -> bool {
    exists|i: int|
        {
            &&& 0 <= i < candidates.len()
            &&& forall|j: int|
                0 <= j < candidates.len() ==> name_distances(candidates, target)[i]
                    <= name_distances(candidates, target)[j]
            &&& forall|j: int|
                0 <= j < i ==> name_distances(candidates, target)[i] < name_distances(
                    candidates,
                    target,
                )[j]
            &&& x.0 == candidates[i].0
            &&& x.1@.package == Some(candidates[i].1@)
            &&& x.1@.dependencies.len() == 0
        }
}


/// For a fixed candidate list and name, the closest candidate is one and
/// the same: any two results agree.
pub proof fn lemma_closest_deterministic(
    candidates: Seq<(String, PkgInfo)>,
    target: Seq<char>,
    x: (String, PackageAndDeps),
    y: (String, PackageAndDeps),
)
    requires
        find_closest_package_spec(candidates, target, x),
        find_closest_package_spec(candidates, target, y),
    ensures
        x.0 == y.0,
        x.1@ == y.1@,
{
    let nd = name_distances(candidates, target);
    let i = choose|i: int|
        {
            &&& 0 <= i < candidates.len()
            &&& forall|j: int| 0 <= j < candidates.len() ==> nd[i] <= nd[j]
            &&& forall|j: int| 0 <= j < i ==> nd[i] < nd[j]
            &&& x.0 == candidates[i].0
            &&& x.1@.package == Some(candidates[i].1@)
            &&& x.1@.dependencies.len() == 0
        };
    let k = choose|k: int|
        {
            &&& 0 <= k < candidates.len()
            &&& forall|j: int| 0 <= j < candidates.len() ==> nd[k] <= nd[j]
            &&& forall|j: int| 0 <= j < k ==> nd[k] < nd[j]
            &&& y.0 == candidates[k].0
            &&& y.1@.package == Some(candidates[k].1@)
            &&& y.1@.dependencies.len() == 0
        };
    if i < k {
        assert(nd[k] < nd[i]);
    } else if k < i {
        assert(nd[i] < nd[k]);
    }
    assert(x.1@.dependencies =~= y.1@.dependencies);
}

/// `r` is one search result: the file's path display, a line feed, and
/// the display of its record.
pub open spec fn result_shown(r: Seq<char>, path: Seq<char>, dir: Seq<char>, rec: PlainRecord, p: Paint) -> bool {
    exists|a: Seq<char>, b: Seq<char>| #[trigger] result_parts(r, a, b, path, dir, rec, p)
}

/// `r` is the result `a`, a line feed, and `b`, where `a` displays the path
/// and `b` the record.
pub open spec fn result_parts(
    r: Seq<char>,
    a: Seq<char>,
    b: Seq<char>,
    path: Seq<char>,
    dir: Seq<char>,
    rec: PlainRecord,
    p: Paint,
) -> bool {
    &&& r == a + "\n"@ + b
    &&& dir_display(a, encode_utf8(path), encode_utf8(dir))
    &&& shown_record(b, rec, p)
}

impl Search {
    /// One display per file found: its path relative to the searched
    /// directory, and its record with versions in the paint given.
    pub fn display(&self, p: Paint) -> (r: Vec<String>)
        ensures
            r@.len() == self.pkg_deps_dirs@.len(),
            forall|i: int|
                0 <= i < r@.len() ==> result_shown(
                    #[trigger] r@[i]@,
                    self.pkg_deps_dirs@[i].0@,
                    self.dir_path@,
                    self.pkg_deps_dirs@[i].1@,
                    p,
                ),
    {
        let mut out: Vec<String> = Vec::new();
        let mut i: usize = 0;
        while i < self.pkg_deps_dirs.len()
            invariant
                i <= self.pkg_deps_dirs@.len(),
                out@.len() == i,
                forall|j: int|
                    0 <= j < i ==> result_shown(
                        #[trigger] out@[j]@,
                        self.pkg_deps_dirs@[j].0@,
                        self.dir_path@,
                        self.pkg_deps_dirs@[j].1@,
                        p,
                    ),
            decreases self.pkg_deps_dirs@.len() - i,
        {
            let entry = &self.pkg_deps_dirs[i];
            let a = get_colored_dir_path(entry.0.as_str(), self.dir_path.as_str());
            let b = get_colored_pkg_deps(&entry.1, p);
            let mut line = a.as_str().to_owned();
            line.append("\n");
            line.append(b.as_str());
            assert(result_parts(line@, a@, b@, entry.0@, self.dir_path@, entry.1@, p));
            out.push(line);
            i = i + 1;
        }
        out
    }
}

} // verus!
