//! The fixpoint update driver: parse, extract, filter, rewrite the first
//! matching version literal, and start over until nothing matches.

use vstd::prelude::*;
use vstd::utf8::*;
use vstd::string::StringSliceAdditionalSpecFns;
use crate::edit::{replace_span, span_is_valid, spliced, valid_span};
use crate::extract::{deps_view, extract_record, manifest_record};
use crate::model::{
    keep, plain_of, ByteSpan, DepsInfo, Identity, LocatedRecord, PackageAndDeps,
    PackageAndDepsNodes, PlainRecord,
};
use crate::syntax::{parse_manifest, source_tree, SyntaxNode, SyntaxTree};
use crate::text::{as_text, is_quote, push_range, remove_quotes, utf8_string};
use crate::search::{name_is_exec, name_matches};

verus! {

broadcast use {valid_utf8_concat, encode_utf8_valid_utf8, encode_utf8_decode_utf8};

/// A version change: declarations at `current_version`, of the package
/// named `package_name` if one is given, are to read `new_version`.
pub struct VersionUpdate {
    pub package_name: Option<String>,
    pub current_version: String,
    pub new_version: String,
}

/// What a `VersionUpdate` asks for, as character sequences.
pub struct UpdateView {
    pub package_name: Option<Seq<char>>,
    pub current: Seq<char>,
    pub new: Seq<char>,
}

pub open spec fn opt_text(o: Option<String>) -> Option<Seq<char>> {
    match o {
        Some(s) => Some(s@),
        None => None,
    }
}

impl VersionUpdate {
    pub open spec fn view(&self) -> UpdateView {
        UpdateView {
            package_name: opt_text(self.package_name),
            current: self.current_version@,
            new: self.new_version@,
        }
    }
}

/// Whether an identity is one that the update changes: at the current
/// version, and of the named package if a name is given.
pub open spec fn update_matches(id: Identity, current: Seq<char>, name: Option<Seq<char>>) -> bool {
    &&& id.version == current
    &&& (name matches Some(n) ==> name_matches(id.name, n))
}

/// `update_matches` on a located identity.
pub open spec fn update_pred(current: Seq<char>, name: Option<Seq<char>>) -> spec_fn(
    (ByteSpan, Identity),
) -> bool {
    |d: (ByteSpan, Identity)| update_matches(d.1, current, name)
}

/// A located record reduced to the identities that the update changes.
pub open spec fn filter_located(r: LocatedRecord, current: Seq<char>, name: Option<Seq<char>>) -> LocatedRecord {
    LocatedRecord {
        package: match r.package {
            Some(p) => if update_matches(p.1, current, name) {
                Some(p)
            } else {
                None
            },
            None => None,
        },
        dependencies: keep(r.dependencies, update_pred(current, name)),
    }
}

/// The span that one pass rewrites: the package's version literal if the
/// package matches, else that of the first matching dependency.
pub open spec fn pass_target(r: Option<LocatedRecord>, current: Seq<char>, name: Option<Seq<char>>) -> Option<ByteSpan> {
    match r {
        Some(rec) => {
            let f = filter_located(rec, current, name);
            if f.package is Some {
                let p = f.package->0;
                Some(p.0)
            } else if f.dependencies.len() > 0 {
                Some(f.dependencies[0].0)
            } else {
                None
            }
        },
        None => None,
    }
}

/// The bytes of `v` in double quotes.
pub open spec fn quoted_bytes(v: Seq<char>) -> Seq<u8> {
    seq![34u8] + encode_utf8(v) + seq![34u8]
}

/// The source that one pass over `src`, parsed as `t`, produces; `None`
/// when there is nothing to rewrite.
pub open spec fn pass_output(src: Seq<u8>, t: Seq<SyntaxNode>, u: UpdateView) -> Option<Seq<u8>> {
    match pass_target(manifest_record(src, t), u.current, u.package_name) {
        Some(span) => if valid_span(src, span) {
            Some(spliced(src, span, quoted_bytes(u.new)))
        } else {
            None
        },
        None => None,
    }
}

/// The source after one pass over `s`, parsed by the TOML grammar; `None`
/// when it does not parse or the pass finds nothing to rewrite.
pub open spec fn next_source(u: UpdateView, s: Seq<char>) -> Option<Seq<char>> {
    match source_tree(s) {
        Some(t) => match pass_output(encode_utf8(s), t, u) {
            Some(b) => Some(decode_utf8(b)),
            None => None,
        },
        None => None,
    }
}

/// Passes over `s`, at most `k` of them, stopping at the first that finds
/// nothing: the source they leave and how many rewrote something.
pub open spec fn run_passes(u: UpdateView, s: Seq<char>, k: nat) -> (Seq<char>, nat)
    decreases k,
{
    if k == 0 {
        (s, 0)
    } else {
        match next_source(u, s) {
            Some(m) => {
                let r = run_passes(u, m, (k - 1) as nat);
                (r.0, r.1 + 1)
            },
            None => (s, 0),
        }
    }
}

/// `v` in double quotes.
fn quoted(v: &str) -> (r: String)
    ensures
        encode_utf8(r@) == quoted_bytes(v@),
{
    let quote: Vec<u8> = vec![34u8];
    let vb = v.as_bytes();
    let mut out: Vec<u8> = Vec::new();
    push_range(&mut out, quote.as_slice(), 0, 1);
    push_range(&mut out, vb, 0, vb.len());
    push_range(&mut out, quote.as_slice(), 0, 1);
    proof {
        let q = seq!['"'];
        assert(is_ascii_chars(q));
        is_ascii_chars_encode_utf8(q);
        assert(('"' as u8) == 34u8);
        assert(encode_utf8(q) =~= seq![34u8]);
        assert(quote@.subrange(0, 1) =~= seq![34u8]);
        assert(vb@.subrange(0, vb@.len() as int) =~= vb@);
        assert(out@ =~= quoted_bytes(v@));
        assert(valid_utf8(seq![34u8] + encode_utf8(v@)));
    }
    match utf8_string(out) {
        Some(s) => s,
        // not reached: the quoted bytes are valid UTF-8, as proved above
        None => String::new(),
    }
}


impl VersionUpdate {
    /// Whether a declaration with this name and version is one to change.
    fn changes(&self, name: &String, version: &String) -> (r: bool)
        ensures
            r == (version@ == self.current_version@ && (self.package_name matches Some(n)
                ==> name_matches(name@, n@))),
    {
        if !(*version == self.current_version) {
            return false;
        }
        match &self.package_name {
            Some(n) => name_is_exec(name.as_str(), n.as_str()),
            None => true,
        }
    }

    /// Keeps the package only if it is one to change, and the dependencies
    /// that are, in their order.
    pub fn filter_package_and_deps(&self, nodes: PackageAndDepsNodes) -> (r: PackageAndDepsNodes)
        ensures
            r@ == filter_located(nodes@, self@.current, self@.package_name),
    {
        let ghost pred = update_pred(self@.current, self@.package_name);
        let PackageAndDepsNodes { package, dependencies } = nodes;
        let package = match package {
            Some((span, info)) => {
                if self.changes(&info.name, &info.version) {
                    Some((span, info))
                } else {
                    None
                }
            },
            None => None,
        };
        let ghost all = deps_view(dependencies@);
        let ghost n = dependencies@.len() as int;
        let mut rest = dependencies;
        let mut kept: Vec<(ByteSpan, DepsInfo)> = Vec::new();
        assert(all.subrange(0, 0) =~= Seq::<(ByteSpan, Identity)>::empty());
        assert(deps_view(rest@) =~= all.subrange(0, n));
        while rest.len() > 0
            invariant
                0 <= rest@.len() <= n,
                all.len() == n,
                deps_view(rest@) == all.subrange(n - rest@.len(), n),
                deps_view(kept@) == keep(all.subrange(0, n - rest@.len()), pred),
                pred == update_pred(self@.current, self@.package_name),
            decreases rest@.len(),
        {
            let ghost k = n - rest@.len();
            let ghost before = rest@;
            let d = rest.remove(0);
            assert(deps_view(before)[0] == (d.0, d.1@));
            assert(all[k] == (d.0, d.1@));
            assert(rest@ =~= before.subrange(1, before.len() as int));
            assert(deps_view(rest@) =~= deps_view(before).subrange(1, before.len() as int));
            assert(deps_view(rest@) =~= all.subrange(n - rest@.len(), n));
            assert(all.subrange(0, k + 1).drop_last() =~= all.subrange(0, k));
            assert(all.subrange(0, k + 1).last() == all[k]);
            let ghost kept_before = kept@;
            if self.changes(&d.1.name, &d.1.version) {
                kept.push(d);
                assert(deps_view(kept@) =~= deps_view(kept_before).push((d.0, d.1@)));
            }
        }
        assert(all.subrange(0, n) =~= all);
        let r = PackageAndDepsNodes { package, dependencies: kept };
        assert(r@.dependencies == deps_view(kept@));
        r
    }

    /// One pass over `source`, parsed as `tree`: the source with the first
    /// matching version literal rewritten, or `None` when nothing matches.
    pub fn update_pass_in(&self, source: &str, tree: &SyntaxTree) -> (r: Option<String>)
        requires
            tree.wf(source.spec_bytes().len()),
        ensures
            match r {
                Some(s) => pass_output(source.spec_bytes(), tree@, self@) == Some(encode_utf8(s@)),
                None => pass_output(source.spec_bytes(), tree@, self@) is None,
            },
    {
        let src = source.as_bytes();
        let record = match extract_record(src, tree) {
            Some(rec) => rec,
            None => {
                return None;
            },
        };
        let filtered = self.filter_package_and_deps(record);
        let span = match &filtered.package {
            Some((span, _)) => *span,
            None => {
                if filtered.dependencies.len() == 0 {
                    return None;
                }
                assert(filtered@.dependencies[0] == (
                    filtered.dependencies@[0].0,
                    filtered.dependencies@[0].1@,
                ));
                filtered.dependencies[0].0
            },
        };
        if !span_is_valid(source, span) {
            return None;
        }
        let literal = quoted(self.new_version.as_str());
        Some(replace_span(source, span, literal.as_str()))
    }

    /// One pass over `source`: it is parsed afresh, and the first matching
    /// version literal is rewritten; `None` when the source does not parse
    /// or nothing matches.
    pub fn update_pass(&self, source: &str) -> (r: Option<String>)
        ensures
            match r {
                Some(x) => next_source(self@, source@) == Some(x@),
                None => next_source(self@, source@) is None,
            },
    {
        match parse_manifest(source) {
            Some(tree) => {
                self.update_pass_in(source, &tree)
            },
            None => None,
        }
    }

    /// Applies passes until one finds nothing to rewrite, at most as many as
    /// the source has bytes: a source with `n` matching declarations needs
    /// `n` of them, and each declaration takes more than two bytes. The
    /// result admits no further pass unless that bound was reached.
    pub fn update_all_pkg_and_deps(&self, source: &str) -> (r: String)
        ensures
            r@ == run_passes(self@, source@, source.spec_bytes().len()).0,
            next_source(self@, r@) is None || run_passes(
                self@,
                source@,
                source.spec_bytes().len(),
            ).1 == source.spec_bytes().len(),
    {
        let mut current = source.to_owned();
        let limit = source.as_bytes().len();
        let ghost total = run_passes(self@, source@, limit as nat);
        let mut passes: usize = 0;
        let mut settled = false;
        while passes < limit
            invariant
                passes <= limit,
                limit == source.spec_bytes().len(),
                total == run_passes(self@, source@, limit as nat),
                total.0 == run_passes(self@, current@, (limit - passes) as nat).0,
                total.1 == run_passes(self@, current@, (limit - passes) as nat).1 + passes,
                settled ==> next_source(self@, current@) is None && passes < limit,
            ensures
                settled || passes == limit,
                settled ==> next_source(self@, current@) is None && passes < limit,
            decreases limit - passes,
        {
            match self.update_pass(current.as_str()) {
                Some(next) => {
                    current = next;
                },
                None => {
                    settled = true;
                    break ;
                },
            }
            passes = passes + 1;
        }
        current
    }
}


/// The record of `src`, parsed as `t`, reduced to what the update changes,
/// without spans.
pub open spec fn filtered_record(src: Seq<u8>, t: Seq<SyntaxNode>, u: UpdateView) -> Option<PlainRecord> {
    match manifest_record(src, t) {
        Some(rec) => Some(plain_of(filter_located(rec, u.current, u.package_name))),
        None => None,
    }
}

/// The record of `s`, parsed by the TOML grammar, reduced to what the
/// update changes; `None` when it does not parse or declares nothing.
pub open spec fn filtered_of_source(s: Seq<char>, u: UpdateView) -> Option<PlainRecord> {
    match source_tree(s) {
        Some(t) => filtered_record(encode_utf8(s), t, u),
        None => None,
    }
}

impl VersionUpdate {
    /// The record of `source`, parsed as `tree`, reduced to the
    /// declarations that the update changes.
    pub fn filtered_in(&self, source: &str, tree: &SyntaxTree) -> (r: Option<PackageAndDeps>)
        requires
            tree.wf(source.spec_bytes().len()),
        ensures
            match r {
                Some(x) => filtered_record(source.spec_bytes(), tree@, self@) == Some(x@),
                None => filtered_record(source.spec_bytes(), tree@, self@) is None,
            },
    {
        match extract_record(source.as_bytes(), tree) {
            Some(rec) => Some(self.filter_package_and_deps(rec).into_plain()),
            None => None,
        }
    }

    /// The record of `source` reduced to the declarations that the update
    /// changes; `None` when the source does not parse or declares nothing.
    pub fn filtered_pkg_and_deps(&self, source: &str) -> (r: Option<PackageAndDeps>)
        ensures
            match r {
                Some(x) => filtered_of_source(source@, self@) == Some(x@),
                None => filtered_of_source(source@, self@) is None,
            },
    {
        match parse_manifest(source) {
            Some(tree) => self.filtered_in(source, &tree),
            None => None,
        }
    }
}

/// Every item that `keep` keeps satisfies the predicate.
pub proof fn lemma_keep_satisfies<A>(s: Seq<A>, p: spec_fn(A) -> bool)
    ensures
        forall|i: int| 0 <= i < keep(s, p).len() ==> p(#[trigger] keep(s, p)[i]),
    decreases s.len(),
{
    if s.len() > 0 {
        lemma_keep_satisfies(s.drop_last(), p);
        let k = keep(s.drop_last(), p);
        if p(s.last()) {
            assert forall|i: int| 0 <= i < keep(s, p).len() implies p(#[trigger] keep(s, p)[i]) by {
                if i < k.len() {
                    assert(keep(s, p)[i] == k[i]);
                }
            }
        }
    }
}

/// The pass over `src`, parsed as `t`, rewrites the version literal at
/// `span` of the declaration `id`, which the update matches.
pub open spec fn rewrites_match(src: Seq<u8>, t: Seq<SyntaxNode>, u: UpdateView, span: ByteSpan, id: Identity) -> bool {
    let rec = manifest_record(src, t)->0;
    &&& manifest_record(src, t) is Some
    &&& (rec.package == Some((span, id)) || rec.dependencies.contains((span, id)))
    &&& update_matches(id, u.current, u.package_name)
    &&& valid_span(src, span)
    &&& pass_output(src, t, u) == Some(spliced(src, span, quoted_bytes(u.new)))
}

/// One pass rewrites the version literal of a declaration at the current
/// version, of the named package if one is given, into the quoted new
/// version, and keeps every other byte.
pub proof fn lemma_pass_rewrites_a_match(src: Seq<u8>, t: Seq<SyntaxNode>, u: UpdateView)
    requires
        pass_output(src, t, u) is Some,
    ensures
        exists|span: ByteSpan, id: Identity| #[trigger] rewrites_match(src, t, u, span, id),
{
    let rec = manifest_record(src, t)->0;
    let f = filter_located(rec, u.current, u.package_name);
    let pred = update_pred(u.current, u.package_name);
    if f.package is Some {
        let (span, id) = f.package->0;
        assert(rec.package == Some((span, id)));
        assert(update_matches(id, u.current, u.package_name));
        assert(rewrites_match(src, t, u, span, id));
    } else {
        lemma_keep_satisfies(rec.dependencies, pred);
        lemma_keep_subset(rec.dependencies, pred);
        let d = f.dependencies[0];
        assert(pred(d));
        assert(rec.dependencies.contains(d));
        assert(update_matches(d.1, u.current, u.package_name));
        assert(rewrites_match(src, t, u, d.0, d.1));
    }
}

/// Every item that `keep` keeps comes from the sequence.
pub proof fn lemma_keep_subset<A>(s: Seq<A>, p: spec_fn(A) -> bool)
    ensures
        forall|i: int| 0 <= i < keep(s, p).len() ==> s.contains(#[trigger] keep(s, p)[i]),
    decreases s.len(),
{
    if s.len() > 0 {
        lemma_keep_subset(s.drop_last(), p);
        let k = keep(s.drop_last(), p);
        assert forall|i: int| 0 <= i < keep(s, p).len() implies s.contains(#[trigger] keep(s, p)[i]) by {
            if i < k.len() {
                assert(keep(s, p)[i] == k[i]);
                let j = choose|j: int| 0 <= j < s.drop_last().len() && s.drop_last()[j] == k[i];
                assert(s[j] == k[i]);
            } else {
                assert(keep(s, p)[i] == s.last());
                assert(s[s.len() - 1] == s.last());
            }
        }
    }
}

/// Removing quotes from two byte strings joined is removing them from each.
pub proof fn lemma_remove_quotes_concat(a: Seq<u8>, b: Seq<u8>)
    ensures
        remove_quotes(a + b) == remove_quotes(a) + remove_quotes(b),
    decreases b.len(),
{
    if b.len() == 0 {
        assert(a + b =~= a);
        assert(remove_quotes(b) =~= Seq::<u8>::empty());
        assert(remove_quotes(a) + remove_quotes(b) =~= remove_quotes(a));
    } else {
        lemma_remove_quotes_concat(a, b.drop_last());
        assert((a + b).drop_last() =~= a + b.drop_last());
        assert((a + b).last() == b.last());
        if !is_quote(b.last()) {
            assert(remove_quotes(a) + remove_quotes(b.drop_last()).push(b.last()) =~= (remove_quotes(
                a,
            ) + remove_quotes(b.drop_last())).push(b.last()));
        }
    }
}

/// Bytes without a quote lose nothing when quotes are removed.
pub proof fn lemma_remove_quotes_none(b: Seq<u8>)
    requires
        forall|i: int| 0 <= i < b.len() ==> !is_quote(#[trigger] b[i]),
    ensures
        remove_quotes(b) == b,
    decreases b.len(),
{
    if b.len() > 0 {
        lemma_remove_quotes_none(b.drop_last());
        assert(b.drop_last().push(b.last()) =~= b);
    }
}

/// The literal that a pass writes reads the new version once its quotes are
/// taken out; so when the new version is not the current one, the rewritten
/// declaration no longer reads the current version.
pub proof fn lemma_written_literal_reads_new_version(w: Seq<char>, v: Seq<char>)
    requires
        forall|i: int| 0 <= i < encode_utf8(w).len() ==> !is_quote(#[trigger] encode_utf8(w)[i]),
    ensures
        as_text(remove_quotes(quoted_bytes(w))) == w,
        w != v ==> as_text(remove_quotes(quoted_bytes(w))) != v,
{
    let q = seq![34u8];
    let e = encode_utf8(w);
    lemma_remove_quotes_concat(q + e, q);
    lemma_remove_quotes_concat(q, e);
    lemma_remove_quotes_none(e);
    assert(remove_quotes(q) =~= Seq::<u8>::empty()) by {
        assert(q.len() == 1);
        assert(is_quote(q.last()));
        assert(q.drop_last() =~= Seq::<u8>::empty());
        assert(remove_quotes(q) == remove_quotes(q.drop_last()));
        assert(remove_quotes(Seq::<u8>::empty()) =~= Seq::<u8>::empty());
    }
    assert(remove_quotes(quoted_bytes(w)) =~= e);
    encode_utf8_valid_utf8(w);
    encode_utf8_decode_utf8(w);
}

} // verus!
