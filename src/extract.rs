//! The entity extractor: from a manifest's source and its syntax tree to
//! the package identity and the dependency identities it declares.

use vstd::prelude::*;
use crate::model::{
    located_package_view, ByteSpan, DepsInfo, Identity, LocatedRecord, PackageAndDepsNodes, PkgInfo,
};
use crate::syntax::{NodeKind, SyntaxNode, SyntaxTree};
use crate::text::{
    as_text, copy_range, range_is, remove_quotes, text_of, trim, trimmed_range, unquoted,
};

verus! {

/// The key `package`.
pub open spec fn package_word() -> Seq<u8> {
    seq![112u8, 97, 99, 107, 97, 103, 101]
}

/// The key `dependencies`.
pub open spec fn dependencies_word() -> Seq<u8> {
    seq![100u8, 101, 112, 101, 110, 100, 101, 110, 99, 105, 101, 115]
}

/// The key `name`.
pub open spec fn name_word() -> Seq<u8> {
    seq![110u8, 97, 109, 101]
}

/// The key `version`.
pub open spec fn version_word() -> Seq<u8> {
    seq![118u8, 101, 114, 115, 105, 111, 110]
}

/// The first node of kind `k` among the nodes `j ..= hi`, in pre-order.
pub open spec fn first_of_kind(t: Seq<SyntaxNode>, j: int, hi: int, k: NodeKind) -> Option<int>
    decreases hi - j + 1,
{
    if j > hi || j < 0 || j >= t.len() {
        None
    } else if t[j].kind == k {
        Some(j)
    } else {
        first_of_kind(t, j + 1, hi, k)
    }
}

/// The first descendant of node `p` of kind `k`, searching depth first.
pub open spec fn first_desc(t: Seq<SyntaxNode>, p: int, k: NodeKind) -> Option<int> {
    first_of_kind(t, p + 1, t[p].last as int, k)
}

/// The source bytes that node `n` covers.
pub open spec fn span_bytes(src: Seq<u8>, n: SyntaxNode) -> Seq<u8> {
    src.subrange(n.start as int, n.end as int)
}

/// The key of node `p`: the trimmed text of its first bare key.
pub open spec fn key_of(src: Seq<u8>, t: Seq<SyntaxNode>, p: int) -> Option<Seq<u8>> {
    match first_desc(t, p, NodeKind::BareKey) {
        Some(k) => Some(trim(span_bytes(src, t[k]))),
        None => None,
    }
}

/// The value of a string literal node, trimmed and without quotes.
pub open spec fn literal_text(src: Seq<u8>, n: SyntaxNode) -> Seq<char> {
    as_text(remove_quotes(trim(span_bytes(src, n))))
}

/// The trimmed text of a declaration node.
pub open spec fn decl_text(src: Seq<u8>, n: SyntaxNode) -> Seq<char> {
    as_text(trim(span_bytes(src, n)))
}

pub open spec fn span_of(n: SyntaxNode) -> ByteSpan {
    ByteSpan { start: n.start, end: n.end }
}

/// Whether node `i` is a `key = value` pair directly under node `p`.
pub open spec fn is_pair_of(t: Seq<SyntaxNode>, i: int, p: int) -> bool {
    t[i].kind == NodeKind::Pair && t[i].parent == p
}

/// The `name` and `version` declarations found so far in a package table:
/// each value with its declaration, and for the version the literal's span.
pub struct PkgScan {
    pub name: Option<(Seq<char>, Seq<char>)>,
    pub version: Option<(Seq<char>, Seq<char>, ByteSpan)>,
}

/// The scan of a package table after looking at node `i`; a later
/// declaration of a key replaces an earlier one.
pub open spec fn pkg_step(src: Seq<u8>, t: Seq<SyntaxNode>, c: int, i: int, acc: PkgScan) -> PkgScan {
    if is_pair_of(t, i, c) && (key_of(src, t, i) == Some(name_word()) || key_of(src, t, i)
        == Some(version_word())) && first_desc(t, i, NodeKind::Str) is Some {
        let s = first_desc(t, i, NodeKind::Str)->0;
        if key_of(src, t, i) == Some(name_word()) {
            PkgScan {
                name: Some((literal_text(src, t[s]), decl_text(src, t[i]))),
                version: acc.version,
            }
        } else {
            PkgScan {
                name: acc.name,
                version: Some((literal_text(src, t[s]), decl_text(src, t[i]), span_of(t[s]))),
            }
        }
    } else {
        acc
    }
}

/// The scan of a package table `c` over the nodes before `j`.
pub open spec fn pkg_scan(src: Seq<u8>, t: Seq<SyntaxNode>, c: int, j: int) -> PkgScan
    decreases j - c,
{
    if j <= c + 1 {
        PkgScan { name: None, version: None }
    } else {
        pkg_step(src, t, c, j - 1, pkg_scan(src, t, c, j - 1))
    }
}

/// The package that table `c` declares: present only when the table is
/// `[package]` and declares both a name and a version as strings.
pub open spec fn table_package(src: Seq<u8>, t: Seq<SyntaxNode>, c: int) -> Option<
    (ByteSpan, Identity),
> {
    let acc = pkg_scan(src, t, c, t[c].last + 1);
    if key_of(src, t, c) == Some(package_word()) && acc.name is Some && acc.version is Some {
        let n = acc.name->0;
        let v = acc.version->0;
        Some((v.2, Identity { name: n.0, version: v.0, name_pair: n.1, version_pair: v.1 }))
    } else {
        None
    }
}

/// The first `version = "..."` pair directly under inline table `it`, from
/// node `j` on: its value, its declaration and the literal's span.
pub open spec fn inline_version_from(src: Seq<u8>, t: Seq<SyntaxNode>, it: int, j: int) -> Option<
    (Seq<char>, Seq<char>, ByteSpan),
>
    decreases t[it].last - j + 1,
{
    if j > t[it].last || j < 0 || j >= t.len() {
        None
    } else if is_pair_of(t, j, it) && key_of(src, t, j) == Some(version_word()) && first_desc(
        t,
        j,
        NodeKind::Str,
    ) is Some {
        let s = first_desc(t, j, NodeKind::Str)->0;
        Some((literal_text(src, t[s]), decl_text(src, t[j]), span_of(t[s])))
    } else {
        inline_version_from(src, t, it, j + 1)
    }
}

/// The dependency that pair `p` declares: present only when its value is an
/// inline table with a string version.
pub open spec fn pair_dependency(src: Seq<u8>, t: Seq<SyntaxNode>, p: int) -> Option<
    (ByteSpan, Identity),
> {
    match (key_of(src, t, p), first_desc(t, p, NodeKind::InlineTable)) {
        (Some(name), Some(it)) => match inline_version_from(src, t, it, it + 1) {
            Some(v) => Some(
                (
                    v.2,
                    Identity {
                        name: as_text(name),
                        version: v.0,
                        name_pair: decl_text(src, t[p]),
                        version_pair: v.1,
                    },
                ),
            ),
            None => None,
        },
        _ => None,
    }
}

/// The dependencies that the pairs of table `c` before node `j` declare.
pub open spec fn deps_scan(src: Seq<u8>, t: Seq<SyntaxNode>, c: int, j: int) -> Seq<
    (ByteSpan, Identity),
>
    decreases j - c,
{
    if j <= c + 1 {
        seq![]
    } else {
        let prev = deps_scan(src, t, c, j - 1);
        if is_pair_of(t, j - 1, c) && pair_dependency(src, t, j - 1) is Some {
            prev.push(pair_dependency(src, t, j - 1)->0)
        } else {
            prev
        }
    }
}

/// The dependencies that table `c` declares, if it is `[dependencies]`.
pub open spec fn table_dependencies(src: Seq<u8>, t: Seq<SyntaxNode>, c: int) -> Seq<
    (ByteSpan, Identity),
> {
    if key_of(src, t, c) == Some(dependencies_word()) {
        deps_scan(src, t, c, t[c].last + 1)
    } else {
        seq![]
    }
}

/// What the top-level tables before node `j` declare; the first package
/// table found wins.
pub open spec fn record_scan(src: Seq<u8>, t: Seq<SyntaxNode>, j: int) -> LocatedRecord
    decreases j,
{
    if j <= 1 {
        LocatedRecord { package: None, dependencies: seq![] }
    } else {
        let prev = record_scan(src, t, j - 1);
        let c = j - 1;
        if t[c].kind == NodeKind::Table && t[c].parent == 0 {
            LocatedRecord {
                package: if prev.package is Some {
                    prev.package
                } else {
                    table_package(src, t, c)
                },
                dependencies: prev.dependencies + table_dependencies(src, t, c),
            }
        } else {
            prev
        }
    }
}

/// The record of a manifest: absent when the root is not a document or
/// nothing is declared, neither a package nor a dependency.
pub open spec fn manifest_record(src: Seq<u8>, t: Seq<SyntaxNode>) -> Option<LocatedRecord> {
    if t.len() == 0 || t[0].kind != NodeKind::Document {
        None
    } else {
        let r = record_scan(src, t, t[0].last + 1);
        if r.package is Some || r.dependencies.len() > 0 {
            Some(r)
        } else {
            None
        }
    }
}


pub open spec fn opt_index(o: Option<usize>) -> Option<int> {
    match o {
        Some(x) => Some(x as int),
        None => None,
    }
}

/// A node found by `first_of_kind` lies in the searched range and has the
/// kind asked for.
pub proof fn lemma_first_of_kind(t: Seq<SyntaxNode>, j: int, hi: int, k: NodeKind)
    ensures
        first_of_kind(t, j, hi, k) matches Some(x) ==> j <= x <= hi && 0 <= x < t.len()
            && t[x].kind == k,
    decreases hi - j + 1,
{
    if !(j > hi || j < 0 || j >= t.len()) && t[j].kind != k {
        lemma_first_of_kind(t, j + 1, hi, k);
    }
}

fn first_of_kind_in(t: &SyntaxTree, from: usize, hi: usize, k: NodeKind) -> (r: Option<usize>)
    requires
        hi < t@.len(),
    ensures
        opt_index(r) == first_of_kind(t@, from as int, hi as int, k),
        r matches Some(x) ==> from <= x <= hi && t@[x as int].kind == k,
{
    let len = t.nodes.len();
    let mut j = from;
    while j <= hi
        invariant
            hi < len == t@.len(),
            from <= j,
            first_of_kind(t@, from as int, hi as int, k) == first_of_kind(
                t@,
                j as int,
                hi as int,
                k,
            ),
        decreases hi + 1 - j,
    {
        if t.nodes[j].kind == k {
            return Some(j);
        }
        j = j + 1;
    }
    None
}

/// The byte range of the key of node `p`.
fn key_range(src: &[u8], t: &SyntaxTree, p: usize) -> (r: Option<(usize, usize)>)
    requires
        t.wf(src@.len()),
        p < t@.len(),
    ensures
        match r {
            Some(x) => x.0 <= x.1 <= src@.len() && key_of(src@, t@, p as int) == Some(
                src@.subrange(x.0 as int, x.1 as int),
            ),
            None => key_of(src@, t@, p as int) is None,
        },
{
    let last = t.nodes[p].last;
    assert(t@[p as int].last < t@.len());
    match first_of_kind_in(t, p + 1, last, NodeKind::BareKey) {
        Some(k) => {
            let n = t.nodes[k];
            assert(t@[k as int].start <= t@[k as int].end);
            Some(trimmed_range(src, n.start, n.end))
        },
        None => None,
    }
}

/// Whether the key of node `p` is `word`.
fn key_is(src: &[u8], t: &SyntaxTree, p: usize, word: &[u8]) -> (r: bool)
    requires
        t.wf(src@.len()),
        p < t@.len(),
    ensures
        r == (key_of(src@, t@, p as int) == Some(word@)),
{
    match key_range(src, t, p) {
        Some((lo, hi)) => range_is(src, lo, hi, word),
        None => false,
    }
}

fn word_package() -> (r: Vec<u8>)
    ensures
        r@ == package_word(),
{
    let r: Vec<u8> = vec![112u8, 97, 99, 107, 97, 103, 101];
    assert(r@ =~= package_word());
    r
}

fn word_dependencies() -> (r: Vec<u8>)
    ensures
        r@ == dependencies_word(),
{
    let r: Vec<u8> = vec![100u8, 101, 112, 101, 110, 100, 101, 110, 99, 105, 101, 115];
    assert(r@ =~= dependencies_word());
    r
}

fn word_name() -> (r: Vec<u8>)
    ensures
        r@ == name_word(),
{
    let r: Vec<u8> = vec![110u8, 97, 109, 101];
    assert(r@ =~= name_word());
    r
}

fn word_version() -> (r: Vec<u8>)
    ensures
        r@ == version_word(),
{
    let r: Vec<u8> = vec![118u8, 101, 114, 115, 105, 111, 110];
    assert(r@ =~= version_word());
    r
}

fn literal_string(src: &[u8], n: SyntaxNode) -> (r: String)
    requires
        n.start <= n.end <= src@.len(),
    ensures
        r@ == literal_text(src@, n),
{
    let (lo, hi) = trimmed_range(src, n.start, n.end);
    text_of(unquoted(src, lo, hi))
}

fn decl_string(src: &[u8], n: SyntaxNode) -> (r: String)
    requires
        n.start <= n.end <= src@.len(),
    ensures
        r@ == decl_text(src@, n),
{
    let (lo, hi) = trimmed_range(src, n.start, n.end);
    text_of(copy_range(src, lo, hi))
}


pub open spec fn name_view(o: Option<(String, String)>) -> Option<(Seq<char>, Seq<char>)> {
    match o {
        Some(x) => Some((x.0@, x.1@)),
        None => None,
    }
}

pub open spec fn version_view(o: Option<(String, String, ByteSpan)>) -> Option<
    (Seq<char>, Seq<char>, ByteSpan),
> {
    match o {
        Some(x) => Some((x.0@, x.1@, x.2)),
        None => None,
    }
}

fn node_span(n: SyntaxNode) -> (r: ByteSpan)
    ensures
        r == span_of(n),
{
    ByteSpan { start: n.start, end: n.end }
}

/// The package that table `c` declares.
fn table_package_exec(src: &[u8], t: &SyntaxTree, c: usize) -> (r: Option<(ByteSpan, PkgInfo)>)
    requires
        t.wf(src@.len()),
        c < t@.len(),
    ensures
        match r {
            Some(x) => table_package(src@, t@, c as int) == Some((x.0, x.1@)),
            None => table_package(src@, t@, c as int) is None,
        },
{
    let w_name = word_name();
    let w_version = word_version();
    let w_package = word_package();
    let last = t.nodes[c].last;
    assert(c <= t@[c as int].last < t@.len());
    let mut name: Option<(String, String)> = None;
    let mut version: Option<(String, String, ByteSpan)> = None;
    let mut j = c + 1;
    while j <= last
        invariant
            t.wf(src@.len()),
            c < j <= last + 1,
            last == t@[c as int].last < t@.len(),
            w_name@ == name_word(),
            w_version@ == version_word(),
            name_view(name) == pkg_scan(src@, t@, c as int, j as int).name,
            version_view(version) == pkg_scan(src@, t@, c as int, j as int).version,
        decreases last + 1 - j,
    {
        let n = t.nodes[j];
        assert(t@[j as int] == n);
        if n.kind == NodeKind::Pair && n.parent == c {
            let is_name = key_is(src, t, j, w_name.as_slice());
            let is_version = key_is(src, t, j, w_version.as_slice());
            if is_name || is_version {
                match first_of_kind_in(t, j + 1, n.last, NodeKind::Str) {
                    Some(k) => {
                        let lit = t.nodes[k];
                        assert(t@[k as int] == lit);
                        let value = literal_string(src, lit);
                        let decl = decl_string(src, n);
                        if is_name {
                            name = Some((value, decl));
                        } else {
                            version = Some((value, decl, node_span(lit)));
                        }
                    },
                    None => {},
                }
            }
        }
        j = j + 1;
    }
    if key_is(src, t, c, w_package.as_slice()) {
        match (name, version) {
            (Some((n, np)), Some((v, vp, span))) => Some(
                (span, PkgInfo { name: n, version: v, name_pair: np, version_pair: vp }),
            ),
            _ => None,
        }
    } else {
        None
    }
}

/// The first `version = "..."` pair directly under inline table `it`.
fn inline_version_exec(src: &[u8], t: &SyntaxTree, it: usize) -> (r: Option<
    (String, String, ByteSpan),
>)
    requires
        t.wf(src@.len()),
        it < t@.len(),
    ensures
        version_view(r) == inline_version_from(src@, t@, it as int, it + 1),
{
    let w_version = word_version();
    let last = t.nodes[it].last;
    assert(it <= t@[it as int].last < t@.len());
    let mut j = it + 1;
    while j <= last
        invariant
            t.wf(src@.len()),
            it < j <= last + 1,
            last == t@[it as int].last < t@.len(),
            w_version@ == version_word(),
            inline_version_from(src@, t@, it as int, it + 1) == inline_version_from(
                src@,
                t@,
                it as int,
                j as int,
            ),
        decreases last + 1 - j,
    {
        let n = t.nodes[j];
        assert(t@[j as int] == n);
        if n.kind == NodeKind::Pair && n.parent == it && key_is(src, t, j, w_version.as_slice()) {
            match first_of_kind_in(t, j + 1, n.last, NodeKind::Str) {
                Some(k) => {
                    let lit = t.nodes[k];
                    assert(t@[k as int] == lit);
                    return Some((literal_string(src, lit), decl_string(src, n), node_span(lit)));
                },
                None => {},
            }
        }
        j = j + 1;
    }
    None
}

/// The dependency that pair `p` declares.
fn pair_dependency_exec(src: &[u8], t: &SyntaxTree, p: usize) -> (r: Option<(ByteSpan, DepsInfo)>)
    requires
        t.wf(src@.len()),
        p < t@.len(),
    ensures
        match r {
            Some(x) => pair_dependency(src@, t@, p as int) == Some((x.0, x.1@)),
            None => pair_dependency(src@, t@, p as int) is None,
        },
{
    let n = t.nodes[p];
    assert(t@[p as int] == n);
    let key = match key_range(src, t, p) {
        Some(k) => k,
        None => {
            return None;
        },
    };
    let it = match first_of_kind_in(t, p + 1, n.last, NodeKind::InlineTable) {
        Some(i) => i,
        None => {
            return None;
        },
    };
    match inline_version_exec(src, t, it) {
        Some((version, version_pair, span)) => {
            let name = text_of(copy_range(src, key.0, key.1));
            Some(
                (
                    span,
                    DepsInfo { name, version, name_pair: decl_string(src, n), version_pair },
                ),
            )
        },
        None => None,
    }
}

pub open spec fn deps_view(s: Seq<(ByteSpan, DepsInfo)>) -> Seq<(ByteSpan, Identity)> {
    s.map_values(|d: (ByteSpan, DepsInfo)| (d.0, d.1@))
}

/// Appends the dependencies that table `c` declares to `out`.
fn table_dependencies_exec(src: &[u8], t: &SyntaxTree, c: usize, out: &mut Vec<(ByteSpan, DepsInfo)>)
    requires
        t.wf(src@.len()),
        c < t@.len(),
    ensures
        deps_view(final(out)@) == deps_view(old(out)@) + table_dependencies(src@, t@, c as int),
{
    let w_deps = word_dependencies();
    if !key_is(src, t, c, w_deps.as_slice()) {
        assert(deps_view(out@) =~= deps_view(out@) + Seq::<(ByteSpan, Identity)>::empty());
        return;
    }
    let last = t.nodes[c].last;
    assert(c <= t@[c as int].last < t@.len());
    let mut j = c + 1;
    assert(deps_view(out@) =~= deps_view(old(out)@) + deps_scan(src@, t@, c as int, j as int));
    while j <= last
        invariant
            t.wf(src@.len()),
            c < j <= last + 1,
            last == t@[c as int].last < t@.len(),
            deps_view(out@) == deps_view(old(out)@) + deps_scan(src@, t@, c as int, j as int),
        decreases last + 1 - j,
    {
        let n = t.nodes[j];
        assert(t@[j as int] == n);
        if n.kind == NodeKind::Pair && n.parent == c {
            match pair_dependency_exec(src, t, j) {
                Some(d) => {
                    let ghost before = out@;
                    out.push(d);
                    assert(deps_view(out@) =~= deps_view(before).push((d.0, d.1@)));
                },
                None => {},
            }
        }
        j = j + 1;
    }
}

/// The package and the dependencies that the manifest `src`, parsed as
/// `t`, declares, each with the span of its version literal.
pub fn extract_record(src: &[u8], t: &SyntaxTree) -> (r: Option<PackageAndDepsNodes>)
    requires
        t.wf(src@.len()),
    ensures
        match r {
            Some(x) => manifest_record(src@, t@) == Some(x@),
            None => manifest_record(src@, t@) is None,
        },
{
    let root = t.nodes[0];
    assert(t@[0] == root);
    if root.kind != NodeKind::Document {
        return None;
    }
    let last = root.last;
    let mut package: Option<(ByteSpan, PkgInfo)> = None;
    let mut dependencies: Vec<(ByteSpan, DepsInfo)> = Vec::new();
    let mut j: usize = 1;
    assert(deps_view(dependencies@) =~= record_scan(src@, t@, 1).dependencies);
    while j <= last
        invariant
            t.wf(src@.len()),
            1 <= j <= last + 1,
            last == t@[0].last < t@.len(),
            located_package_view(package) == record_scan(src@, t@, j as int).package,
            deps_view(dependencies@) == record_scan(src@, t@, j as int).dependencies,
        decreases last + 1 - j,
    {
        let n = t.nodes[j];
        assert(t@[j as int] == n);
        if n.kind == NodeKind::Table && n.parent == 0 {
            if package.is_none() {
                package = table_package_exec(src, t, j);
            }
            table_dependencies_exec(src, t, j, &mut dependencies);
        }
        j = j + 1;
    }
    if package.is_some() || dependencies.len() > 0 {
        let r = PackageAndDepsNodes { package, dependencies };
        assert(r@.dependencies == deps_view(dependencies@));
        Some(r)
    } else {
        None
    }
}

/// Extraction is a function of the source and its tree: extracting twice
/// from the same source and tree gives the same record.
pub proof fn lemma_extraction_idempotent(
    src: Seq<u8>,
    t: Seq<SyntaxNode>,
    a: Option<PackageAndDepsNodes>,
    b: Option<PackageAndDepsNodes>,
)
    requires
        match a {
            Some(x) => manifest_record(src, t) == Some(x@),
            None => manifest_record(src, t) is None,
        },
        match b {
            Some(x) => manifest_record(src, t) == Some(x@),
            None => manifest_record(src, t) is None,
        },
    ensures
        a is Some <==> b is Some,
        a matches Some(x) ==> b matches Some(y) && x@ == y@,
{
}

} // verus!
