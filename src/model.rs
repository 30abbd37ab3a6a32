//! The records extracted from a manifest: package and dependency
//! identities, with the span of the version literal that an edit replaces.

use vstd::prelude::*;

verus! {

/// The items of `s` for which `p` holds, in their order.
pub open spec fn keep<A>(s: Seq<A>, p: spec_fn(A) -> bool) -> Seq<A>
    decreases s.len(),
{
    if s.len() == 0 {
        s
    } else if p(s.last()) {
        keep(s.drop_last(), p).push(s.last())
    } else {
        keep(s.drop_last(), p)
    }
}

/// A byte range `start..end` of a manifest's source.
#[derive(Clone, Copy, Debug, PartialEq, Eq, Structural)]
pub struct ByteSpan {
    pub start: usize,
    pub end: usize,
}

/// What an identity says, as character sequences.
pub struct Identity {
    pub name: Seq<char>,
    pub version: Seq<char>,
    pub name_pair: Seq<char>,
    pub version_pair: Seq<char>,
}

/// The package of a manifest: its name and version with the quotes taken
/// out, and the full `key = value` declarations of both.
#[derive(Clone, Debug)]
pub struct PkgInfo {
    pub name: String,
    pub version: String,
    pub name_pair: String,
    pub version_pair: String,
}

/// A dependency of a manifest: its key as name, the version of its inline
/// table with the quotes taken out, the whole declaration and the
/// `version = ..` pair.
#[derive(Clone, Debug)]
pub struct DepsInfo {
    pub name: String,
    pub version: String,
    pub name_pair: String,
    pub version_pair: String,
}

impl PkgInfo {
    pub open spec fn view(&self) -> Identity {
        Identity {
            name: self.name@,
            version: self.version@,
            name_pair: self.name_pair@,
            version_pair: self.version_pair@,
        }
    }
}

impl DepsInfo {
    pub open spec fn view(&self) -> Identity {
        Identity {
            name: self.name@,
            version: self.version@,
            name_pair: self.name_pair@,
            version_pair: self.version_pair@,
        }
    }
}

/// What a `PackageAndDepsNodes` holds: the package and the dependencies,
/// each with the span of its version literal.
pub struct LocatedRecord {
    pub package: Option<(ByteSpan, Identity)>,
    pub dependencies: Seq<(ByteSpan, Identity)>,
}

/// What a `PackageAndDeps` holds.
pub struct PlainRecord {
    pub package: Option<Identity>,
    pub dependencies: Seq<Identity>,
}

/// The package and dependencies of one manifest, each with the span of its
/// version literal in the source it was extracted from.
pub struct PackageAndDepsNodes {
    pub package: Option<(ByteSpan, PkgInfo)>,
    pub dependencies: Vec<(ByteSpan, DepsInfo)>,
}

/// The package and dependencies of one manifest, without spans.
#[derive(Clone, Debug)]
pub struct PackageAndDeps {
    pub package: Option<PkgInfo>,
    pub dependencies: Vec<DepsInfo>,
}

pub open spec fn located_package_view(p: Option<(ByteSpan, PkgInfo)>) -> Option<(ByteSpan, Identity)> {
    match p {
        Some((s, i)) => Some((s, i@)),
        None => None,
    }
}

pub open spec fn package_view(p: Option<PkgInfo>) -> Option<Identity> {
    match p {
        Some(i) => Some(i@),
        None => None,
    }
}

impl PackageAndDepsNodes {
    pub open spec fn view(&self) -> LocatedRecord {
        LocatedRecord {
            package: located_package_view(self.package),
            dependencies: self.dependencies@.map_values(|d: (ByteSpan, DepsInfo)| (d.0, d.1@)),
        }
    }
}

impl PackageAndDeps {
    pub open spec fn view(&self) -> PlainRecord {
        PlainRecord {
            package: package_view(self.package),
            dependencies: self.dependencies@.map_values(|d: DepsInfo| d@),
        }
    }

    /// 1 for a package, plus the number of dependencies.
    pub fn count(&self) -> (r: usize)
        requires
            self.dependencies@.len() < usize::MAX,
        ensures
            r == (if self.package is Some { 1int } else { 0int }) + self.dependencies@.len(),
    {
        let n = self.dependencies.len();
        if self.package.is_some() {
            n + 1
        } else {
            n
        }
    }
}


/// A located record without its spans.
pub open spec fn plain_of(r: LocatedRecord) -> PlainRecord {
    PlainRecord {
        package: match r.package {
            Some(p) => Some(p.1),
            None => None,
        },
        dependencies: r.dependencies.map_values(|d: (ByteSpan, Identity)| d.1),
    }
}

impl PackageAndDepsNodes {
    /// The same record without spans.
    pub fn into_plain(self) -> (r: PackageAndDeps)
        ensures
            r@ == plain_of(self@),
    {
        let ghost all = self@.dependencies;
        let PackageAndDepsNodes { package, dependencies } = self;
        let package = match package {
            Some((_, info)) => Some(info),
            None => None,
        };
        let ghost n = dependencies@.len() as int;
        let mut rest = dependencies;
        let mut out: Vec<DepsInfo> = Vec::new();
        while rest.len() > 0
            invariant
                0 <= rest@.len() <= n,
                all.len() == n,
                forall|j: int|
                    0 <= j < rest@.len() ==> (#[trigger] rest@[j]).0 == all[n - rest@.len() + j].0
                        && rest@[j].1@ == all[n - rest@.len() + j].1,
                out@.len() == n - rest@.len(),
                forall|j: int| 0 <= j < out@.len() ==> (#[trigger] out@[j])@ == all[j].1,
            decreases rest@.len(),
        {
            let ghost before = rest@;
            let d = rest.remove(0);
            assert(before[0] == d);
            assert forall|j: int| 0 <= j < rest@.len() implies (#[trigger] rest@[j]).0 == all[n
                - rest@.len() + j].0 && rest@[j].1@ == all[n - rest@.len() + j].1 by {
                assert(rest@[j] == before[j + 1]);
            }
            out.push(d.1);
        }
        let r = PackageAndDeps { package, dependencies: out };
        assert(r@.dependencies =~= all.map_values(|d: (ByteSpan, Identity)| d.1));
        r
    }
}

} // verus!
