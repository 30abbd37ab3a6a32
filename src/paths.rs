//! Splitting a manifest's path relative to the searched directory, and the
//! display of that path with its parent directory highlighted.

use vstd::prelude::*;
use vstd::string::StringSliceAdditionalSpecFns;
use crate::model::keep;
use crate::text::{as_text, push_range, range_is, text_of};

verus! {

/// The parts of a path: the directories before the parent, the parent
/// directory and the file.
#[derive(Debug, PartialEq, Eq)]
pub struct FileParts {
    pub prefix: String,
    pub parent: String,
    pub file: String,
}

/// A path directly in the searched directory (`Start`) or below it
/// (`Nested`).
#[derive(Debug, PartialEq, Eq)]
pub enum DirectoryType {
    Start(FileParts),
    Nested(FileParts),
}

/// What a `DirectoryType` holds.
pub struct PartsView {
    pub start: bool,
    pub prefix: Seq<char>,
    pub parent: Seq<char>,
    pub file: Seq<char>,
}

impl DirectoryType {
    pub open spec fn view(&self) -> PartsView {
        match self {
            DirectoryType::Start(p) => PartsView {
                start: true,
                prefix: p.prefix@,
                parent: p.parent@,
                file: p.file@,
            },
            DirectoryType::Nested(p) => PartsView {
                start: false,
                prefix: p.prefix@,
                parent: p.parent@,
                file: p.file@,
            },
        }
    }
}

/// The path separator `/`.
pub open spec fn is_slash(b: u8) -> bool {
    b == 47u8
}

/// The pieces of `b` between separators, empty ones included.
pub open spec fn split_parts(b: Seq<u8>) -> Seq<Seq<u8>>
    decreases b.len(),
{
    if b.len() == 0 {
        seq![Seq::empty()]
    } else {
        let p = split_parts(b.drop_last());
        if is_slash(b.last()) {
            p.push(Seq::empty())
        } else {
            p.update(p.len() - 1, p.last().push(b.last()))
        }
    }
}

pub open spec fn non_empty() -> spec_fn(Seq<u8>) -> bool {
    |s: Seq<u8>| s.len() > 0
}

/// The non-empty pieces of `b` between separators.
pub open spec fn components(b: Seq<u8>) -> Seq<Seq<u8>> {
    keep(split_parts(b), non_empty())
}

/// The pieces joined by separators.
pub open spec fn join(s: Seq<Seq<u8>>) -> Seq<u8>
    decreases s.len(),
{
    if s.len() == 0 {
        Seq::empty()
    } else if s.len() == 1 {
        s[0]
    } else {
        join(s.drop_last()) + seq![47u8] + s.last()
    }
}

/// `file` relative to `dir`: with `dir` and one separator after it taken
/// off the front when `file` starts with `dir`, else `file` itself.
pub open spec fn relative(file: Seq<u8>, dir: Seq<u8>) -> Seq<u8> {
    if dir.len() <= file.len() && file.subrange(0, dir.len() as int) == dir {
        let rest = file.subrange(dir.len() as int, file.len() as int);
        if rest.len() > 0 && is_slash(rest[0]) {
            rest.drop_first()
        } else {
            rest
        }
    } else {
        file
    }
}

/// The split of `file` relative to `dir`: no component or one is `Start`;
/// two are a parent and a file; with more, those before the last two are
/// joined as the prefix.
pub open spec fn split_view(file: Seq<u8>, dir: Seq<u8>) -> PartsView {
    let c = components(relative(file, dir));
    let n = c.len();
    if n == 0 {
        PartsView { start: true, prefix: Seq::empty(), parent: Seq::empty(), file: Seq::empty() }
    } else if n == 1 {
        PartsView { start: true, prefix: Seq::empty(), parent: Seq::empty(), file: as_text(c[0]) }
    } else if n == 2 {
        PartsView { start: false, prefix: Seq::empty(), parent: as_text(c[0]), file: as_text(c[1]) }
    } else {
        PartsView {
            start: false,
            prefix: as_text(join(c.subrange(0, n - 2))),
            parent: as_text(c[n - 2]),
            file: as_text(c[n - 1]),
        }
    }
}

proof fn lemma_split_parts_len(b: Seq<u8>)
    ensures
        split_parts(b).len() >= 1,
    decreases b.len(),
{
    if b.len() > 0 {
        lemma_split_parts_len(b.drop_last());
    }
}

pub open spec fn bytes_view(v: Seq<Vec<u8>>) -> Seq<Seq<u8>> {
    v.map_values(|x: Vec<u8>| x@)
}

/// The non-empty pieces of `b` between separators.
pub fn split_components(b: &[u8]) -> (r: Vec<Vec<u8>>)
    ensures
        bytes_view(r@) == components(b@),
{
    let mut done: Vec<Vec<u8>> = Vec::new();
    let mut cur: Vec<u8> = Vec::new();
    let mut i: usize = 0;
    proof {
        assert(b@.subrange(0, 0) =~= Seq::<u8>::empty());
        assert(bytes_view(done@) =~= keep(split_parts(b@.subrange(0, 0)).drop_last(), non_empty()));
    }
    while i < b.len()
        invariant
            0 <= i <= b@.len(),
            split_parts(b@.subrange(0, i as int)).last() == cur@,
            bytes_view(done@) == keep(split_parts(b@.subrange(0, i as int)).drop_last(), non_empty()),
        decreases b@.len() - i,
    {
        let ghost prev = b@.subrange(0, i as int);
        let ghost next = b@.subrange(0, i + 1);
        proof {
            assert(next.drop_last() =~= prev);
            lemma_split_parts_len(prev);
        }
        if b[i] == 47 {
            if cur.len() > 0 {
                let ghost before = done@;
                let piece = cur;
                done.push(piece);
                assert(bytes_view(done@) =~= bytes_view(before).push(piece@));
            }
            cur = Vec::new();
            assert(split_parts(next).drop_last() =~= split_parts(prev));
            assert(cur@ =~= Seq::<u8>::empty());
        } else {
            cur.push(b[i]);
            assert(split_parts(next).drop_last() =~= split_parts(prev).drop_last());
        }
        i = i + 1;
    }
    proof {
        assert(b@.subrange(0, b@.len() as int) =~= b@);
        lemma_split_parts_len(b@);
        assert(split_parts(b@).drop_last().push(cur@) =~= split_parts(b@));
    }
    if cur.len() > 0 {
        let ghost before = done@;
        let piece = cur;
        done.push(piece);
        assert(bytes_view(done@) =~= bytes_view(before).push(piece@));
    }
    done
}

/// The pieces `parts[..count]` joined by separators.
fn join_parts(parts: &Vec<Vec<u8>>, count: usize) -> (r: Vec<u8>)
    requires
        count <= parts@.len(),
    ensures
        r@ == join(bytes_view(parts@).subrange(0, count as int)),
{
    let mut out: Vec<u8> = Vec::new();
    let mut k: usize = 0;
    let slash: Vec<u8> = vec![47u8];
    while k < count
        invariant
            k <= count <= parts@.len(),
            slash@ == seq![47u8],
            out@ == join(bytes_view(parts@).subrange(0, k as int)),
        decreases count - k,
    {
        let ghost s = bytes_view(parts@).subrange(0, k + 1);
        assert(s.drop_last() =~= bytes_view(parts@).subrange(0, k as int));
        assert(s.last() == parts@[k as int]@);
        let part = &parts[k];
        if k > 0 {
            push_range(&mut out, slash.as_slice(), 0, 1);
            assert(slash@.subrange(0, 1) =~= seq![47u8]);
        } else {
            assert(bytes_view(parts@).subrange(0, 0) =~= Seq::<Seq<u8>>::empty());
        }
        push_range(&mut out, part.as_slice(), 0, part.len());
        assert(part@.subrange(0, part@.len() as int) =~= part@);
        if k == 0 {
            assert(out@ =~= s[0]);
        }
        k = k + 1;
    }
    out
}

/// The part of `file_path` after `current_dir` (and one separator), or all
/// of it when it does not start with `current_dir`.
fn relative_range(file: &[u8], dir: &[u8]) -> (r: usize)
    ensures
        r <= file@.len(),
        file@.subrange(r as int, file@.len() as int) == relative(file@, dir@),
{
    if dir.len() <= file.len() && range_is(file, 0, dir.len(), dir) {
        let rest = dir.len();
        if rest < file.len() && file[rest] == 47 {
            assert(file@.subrange(rest + 1, file@.len() as int) =~= file@.subrange(
                rest as int,
                file@.len() as int,
            ).drop_first());
            rest + 1
        } else {
            rest
        }
    } else {
        assert(file@.subrange(0, file@.len() as int) =~= file@);
        0
    }
}

/// Splits `file_path_str` relative to `current_dir_str` into a prefix, a
/// parent directory and a file.
pub fn split_dir_path_parts_str(file_path_str: &str, current_dir_str: &str) -> (r: DirectoryType)
    ensures
        r@ == split_view(file_path_str.spec_bytes(), current_dir_str.spec_bytes()),
{
    let file = file_path_str.as_bytes();
    let dir = current_dir_str.as_bytes();
    let from = relative_range(file, dir);
    let rel = {
        let mut v: Vec<u8> = Vec::new();
        push_range(&mut v, file, from, file.len());
        v
    };
    let comps = split_components(rel.as_slice());
    let n = comps.len();
    assert(bytes_view(comps@).len() == n);
    if n == 0 {
        DirectoryType::Start(FileParts { prefix: String::new(), parent: String::new(), file: String::new() })
    } else if n == 1 {
        let file = text_of(comps[0].clone());
        DirectoryType::Start(FileParts { prefix: String::new(), parent: String::new(), file })
    } else if n == 2 {
        let parent = text_of(comps[0].clone());
        let file = text_of(comps[1].clone());
        DirectoryType::Nested(FileParts { prefix: String::new(), parent, file })
    } else {
        let prefix = text_of(join_parts(&comps, n - 2));
        let parent = text_of(comps[n - 2].clone());
        let file = text_of(comps[n - 1].clone());
        DirectoryType::Nested(FileParts { prefix, parent, file })
    }
}

} // verus!
