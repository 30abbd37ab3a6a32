//! The display of a file's record: the package line and one line per
//! dependency, with names and versions highlighted.

use vstd::prelude::*;
use vstd::utf8::*;
use vstd::string::StringExecFns;
use vstd::string::StringSliceAdditionalSpecFns;
use crate::display::{no_escape, painted_with, purple_on, red_on, green_on, yellow_on};
use crate::model::{DepsInfo, Identity, PackageAndDeps, PkgInfo, PlainRecord};
use crate::text::{as_text, range_is};

verus! {

broadcast use {encode_utf8_valid_utf8, encode_utf8_decode_utf8};

/// The colour that versions are shown in.
#[derive(Clone, Copy, Debug, PartialEq, Eq, Structural)]
pub enum Paint {
    Red,
    Green,
}

pub open spec fn paint_on(p: Paint) -> Seq<char> {
    match p {
        Paint::Red => red_on(),
        Paint::Green => green_on(),
    }
}

/// The first place at or after `i` where `v` occurs in `p`.
pub open spec fn occurrence_from(p: Seq<u8>, v: Seq<u8>, i: int) -> Option<int>
    decreases p.len() - i + 1,
{
    if i < 0 || i + v.len() > p.len() {
        None
    } else if p.subrange(i, i + v.len()) == v {
        Some(i)
    } else {
        occurrence_from(p, v, i + 1)
    }
}

/// `pair` with the first occurrence of `version` replaced by `shown`; the
/// pair as it is when `version` does not occur in it.
pub open spec fn pair_shown(pair: Seq<char>, version: Seq<char>, shown: Seq<char>) -> Seq<char> {
    let p = encode_utf8(pair);
    let v = encode_utf8(version);
    match occurrence_from(p, v, 0) {
        Some(i) => if is_char_boundary(p, i) && is_char_boundary(p, i + v.len()) {
            as_text(p.subrange(0, i)) + shown + as_text(p.subrange(i + v.len(), p.len() as int))
        } else {
            pair
        },
        None => pair,
    }
}

/// `pair` with the first occurrence of `version` replaced by
/// `shown_version`, the version as the caller highlights it.
pub fn format_pair_with_version(pair: &str, version: &str, shown_version: &str) -> (r: String)
    ensures
        r@ == pair_shown(pair@, version@, shown_version@),
{
    let p = pair.as_bytes();
    let v = version.as_bytes();
    let plen = p.len();
    let vlen = v.len();
    if vlen > plen {
        return pair.to_owned();
    }
    let last = plen - vlen;
    let mut i: usize = 0;
    loop
        invariant
            i <= last == plen - vlen,
            vlen <= plen,
            p@ == pair.spec_bytes(),
            v@ == version.spec_bytes(),
            plen == p@.len(),
            vlen == v@.len(),
            occurrence_from(p@, v@, 0) == occurrence_from(p@, v@, i as int),
        ensures
            occurrence_from(p@, v@, 0) is None,
        decreases last - i,
    {
        if range_is(p, i, i + vlen, v) {
            let end = i + vlen;
            if !(pair.is_char_boundary(i) && pair.is_char_boundary(end)) {
                return pair.to_owned();
            }
            let (head, _) = pair.split_at(i);
            let (_, tail) = pair.split_at(end);
            proof {
                assert(head.spec_bytes() =~= p@.subrange(0, i as int));
                assert(tail.spec_bytes() =~= p@.subrange(end as int, plen as int));
            }
            let mut out = head.to_owned();
            out.append(shown_version);
            out.append(tail);
            return out;
        }
        if i == last {
            assert(occurrence_from(p@, v@, i + 1) is None);
            break;
        }
        i = i + 1;
    }
    pair.to_owned()
}


fn paint(p: Paint, s: &str) -> (r: String)
    ensures
        no_escape(s@) ==> painted_with(r@, s@, paint_on(p)),
{
    match p {
        Paint::Red => crate::display::red(s),
        Paint::Green => crate::display::green(s),
    }
}

/// `r` is the line of dependency `d`: a tab, its name in yellow, a colon,
/// and its declaration with the version highlighted.
pub open spec fn dep_line(r: Seq<char>, d: Identity, p: Paint) -> bool {
    no_escape(d.name) && no_escape(d.version) ==> exists|y: Seq<char>, c: Seq<char>|
        #[trigger] dep_line_shown(r, d, p, y, c)
}

/// `r` is the line of dependency `d` with its name shown as `y` and its
/// version as `c`.
pub open spec fn dep_line_shown(r: Seq<char>, d: Identity, p: Paint, y: Seq<char>, c: Seq<char>) -> bool {
    painted_with(y, d.name, yellow_on()) && painted_with(c, d.version, paint_on(p)) && r == "\t"@
        + y + ": "@ + pair_shown(d.name_pair, d.version, c)
}

/// `r` is the line of package `k`: its name in magenta, a colon, and its
/// name and version declarations with the version highlighted.
pub open spec fn pkg_line(r: Seq<char>, k: Identity, p: Paint) -> bool {
    no_escape(k.name) && no_escape(k.version) ==> exists|u: Seq<char>, c1: Seq<char>, c2: Seq<char>|
        #[trigger] pkg_line_shown(r, k, p, u, c1, c2)
}

/// `r` is the line of package `k` with its name shown as `u` and its
/// version as `c1` and `c2`.
pub open spec fn pkg_line_shown(
    r: Seq<char>,
    k: Identity,
    p: Paint,
    u: Seq<char>,
    c1: Seq<char>,
    c2: Seq<char>,
) -> bool {
    painted_with(u, k.name, purple_on()) && painted_with(c1, k.version, paint_on(p))
        && painted_with(c2, k.version, paint_on(p)) && r == u + ": "@ + pair_shown(
        k.name_pair,
        k.version,
        c1,
    ) + " "@ + pair_shown(k.version_pair, k.version, c2)
}

/// Lines joined by line feeds.
pub open spec fn join_lines(s: Seq<Seq<char>>) -> Seq<char>
    decreases s.len(),
{
    if s.len() == 0 {
        Seq::empty()
    } else if s.len() == 1 {
        s[0]
    } else {
        join_lines(s.drop_last()) + "\n"@ + s.last()
    }
}

fn dependency_line(d: &DepsInfo, p: Paint) -> (r: String)
    ensures
        dep_line(r@, d@, p),
{
    let name = crate::display::yellow(d.name.as_str());
    let version = paint(p, d.version.as_str());
    let pair = format_pair_with_version(d.name_pair.as_str(), d.version.as_str(), version.as_str());
    let mut out = "\t".to_owned();
    out.append(name.as_str());
    out.append(": ");
    out.append(pair.as_str());
    proof {
        if no_escape(d.name@) && no_escape(d.version@) {
            assert(dep_line_shown(out@, d@, p, name@, version@));
        }
    }
    out
}

fn package_line(k: &PkgInfo, p: Paint) -> (r: String)
    ensures
        pkg_line(r@, k@, p),
{
    let name = crate::display::purple(k.name.as_str());
    let v1 = paint(p, k.version.as_str());
    let v2 = paint(p, k.version.as_str());
    let name_pair = format_pair_with_version(k.name_pair.as_str(), k.version.as_str(), v1.as_str());
    let version_pair = format_pair_with_version(
        k.version_pair.as_str(),
        k.version.as_str(),
        v2.as_str(),
    );
    let mut out = name;
    let ghost u = out@;
    out.append(": ");
    out.append(name_pair.as_str());
    out.append(" ");
    out.append(version_pair.as_str());
    proof {
        if no_escape(k.name@) && no_escape(k.version@) {
            assert(pkg_line_shown(out@, k@, p, u, v1@, v2@));
        }
    }
    out
}

/// `r` is the display of record `rec`, whatever the colouring.
pub open spec fn shown_record(r: Seq<char>, rec: PlainRecord, p: Paint) -> bool {
    exists|lines: Seq<Seq<char>>| #[trigger] shown_record_lines(r, rec, p, lines)
}

/// `r` is the display of `rec` with `lines` as its dependency lines: with a
/// package, a tab, the package line and a line feed first; then the
/// dependency lines joined by line feeds.
pub open spec fn shown_record_lines(r: Seq<char>, rec: PlainRecord, p: Paint, lines: Seq<Seq<char>>) -> bool {
    &&& lines.len() == rec.dependencies.len()
    &&& forall|i: int| 0 <= i < lines.len() ==> dep_line(#[trigger] lines[i], rec.dependencies[i], p)
    &&& rec.package is None ==> r == join_lines(lines)
    &&& rec.package is Some ==> (exists|l: Seq<char>|
        pkg_line(l, rec.package->0, p) && r == "\t"@ + l + "\n"@ + join_lines(lines))
}

/// The display of a record: with a package, a tab, the package line and a
/// line feed first; then the dependency lines joined by line feeds.
pub fn get_colored_pkg_deps(pkg_deps: &PackageAndDeps, p: Paint) -> (r: String)
    ensures
        shown_record(r@, pkg_deps@, p),
{
    let mut deps_display = String::new();
    let ghost mut lines: Seq<Seq<char>> = Seq::empty();
    let mut i: usize = 0;
    while i < pkg_deps.dependencies.len()
        invariant
            i <= pkg_deps.dependencies@.len(),
            lines.len() == i,
            forall|j: int| 0 <= j < i ==> dep_line(#[trigger] lines[j], pkg_deps@.dependencies[j], p),
            deps_display@ == join_lines(lines),
        decreases pkg_deps.dependencies@.len() - i,
    {
        let line = dependency_line(&pkg_deps.dependencies[i], p);
        if i > 0 {
            deps_display.append("\n");
        }
        deps_display.append(line.as_str());
        proof {
            let old_lines = lines;
            lines = lines.push(line@);
            assert(lines.drop_last() =~= old_lines);
            if i == 0 {
                assert(deps_display@ =~= line@);
            }
        }
        i = i + 1;
    }
    match &pkg_deps.package {
        Some(k) => {
            let l = package_line(k, p);
            let mut out = "\t".to_owned();
            out.append(l.as_str());
            out.append("\n");
            out.append(deps_display.as_str());
            assert(pkg_line(l@, k@, p) && out@ == "\t"@ + l@ + "\n"@ + join_lines(lines));
            assert(pkg_deps@.package == Some(k@));
            assert(pkg_line(l@, pkg_deps@.package->0, p));
            assert(shown_record_lines(out@, pkg_deps@, p, lines));
            out
        },
        None => {
            assert(shown_record_lines(deps_display@, pkg_deps@, p, lines));
            deps_display
        },
    }
}

} // verus!
