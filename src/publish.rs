//! The decisions of the publish sweeps: which directories are left to
//! publish, and whether another sweep is due. Running the publish command
//! is the caller's part.

use vstd::prelude::*;
use vstd::string::StringSliceAdditionalSpecFns;
use crate::paths::{bytes_view, components, split_components};
use crate::text::range_is;

verus! {

/// A directory and whether its publication has succeeded.
#[derive(Debug)]
pub enum PublishState {
    Published(String),
    Unpublished(String),
}

impl PublishState {
    pub open spec fn is_published(&self) -> bool {
        self is Published
    }

    pub open spec fn dir(&self) -> Seq<char> {
        match self {
            PublishState::Published(d) => d@,
            PublishState::Unpublished(d) => d@,
        }
    }
}

/// The path segment `target`.
pub open spec fn target_word() -> Seq<u8> {
    seq![116u8, 97, 114, 103, 101, 116]
}

/// Whether one of the path's segments is `target`, the build output
/// directory.
pub fn is_excluded_target_dir(path: &str) -> (r: bool)
    ensures
        r == components(path.spec_bytes()).contains(target_word()),
{
    let parts = split_components(path.as_bytes());
    let word: Vec<u8> = vec![116u8, 97, 114, 103, 101, 116];
    assert(word@ =~= target_word());
    let mut i: usize = 0;
    while i < parts.len()
        invariant
            bytes_view(parts@) == components(path.spec_bytes()),
            word@ == target_word(),
            i <= parts@.len(),
            forall|j: int| 0 <= j < i ==> parts@[j]@ != target_word(),
        decreases parts@.len() - i,
    {
        let p = &parts[i];
        assert(p@.subrange(0, p@.len() as int) =~= p@);
        if range_is(p.as_slice(), 0, p.len(), word.as_slice()) {
            assert(bytes_view(parts@)[i as int] == target_word());
            return true;
        }
        i = i + 1;
    }
    assert forall|j: int| 0 <= j < bytes_view(parts@).len() implies bytes_view(parts@)[j]
        != target_word() by {
        assert(bytes_view(parts@)[j] == parts@[j]@);
    }
    false
}

/// Every directory, none published yet.
pub fn initial_states(dirs: Vec<String>) -> (r: Vec<PublishState>)
    ensures
        r@.len() == dirs@.len(),
        forall|i: int| 0 <= i < r@.len() ==> !r@[i].is_published() && r@[i].dir() == dirs@[i]@,
{
    let ghost all = dirs@;
    let ghost n = dirs@.len() as int;
    let mut rest = dirs;
    let mut out: Vec<PublishState> = Vec::new();
    while rest.len() > 0
        invariant
            0 <= rest@.len() <= n,
            all.len() == n,
            forall|j: int| 0 <= j < rest@.len() ==> #[trigger] rest@[j] == all[n - rest@.len() + j],
            out@.len() == n - rest@.len(),
            forall|j: int|
                0 <= j < out@.len() ==> !(#[trigger] out@[j]).is_published() && out@[j].dir()
                    == all[j]@,
        decreases rest@.len(),
    {
        let ghost before = rest@;
        let d = rest.remove(0);
        assert(before[0] == d);
        assert forall|j: int| 0 <= j < rest@.len() implies #[trigger] rest@[j] == all[n
            - rest@.len() + j] by {
            assert(rest@[j] == before[j + 1]);
        }
        out.push(PublishState::Unpublished(d));
    }
    out
}

/// Records that directory `i` was published; the others are unchanged.
pub fn mark_published(states: &mut Vec<PublishState>, i: usize)
    requires
        i < old(states)@.len(),
    ensures
        final(states)@.len() == old(states)@.len(),
        final(states)@[i as int].is_published(),
        final(states)@[i as int].dir() == old(states)@[i as int].dir(),
        forall|j: int| 0 <= j < old(states)@.len() && j != i ==> final(states)@[j] == old(states)@[j],
{
    let dir = match &states[i] {
        PublishState::Published(d) => d.as_str().to_owned(),
        PublishState::Unpublished(d) => d.as_str().to_owned(),
    };
    states.set(i, PublishState::Published(dir));
}

/// Whether another sweep is due: the last one published something, and
/// fewer sweeps than directories have been made.
pub fn sweep_again(progress: bool, sweeps: usize, total: usize) -> (r: bool)
    ensures
        r == (progress && sweeps < total),
{
    progress && sweeps < total
}

/// The directories published, in their order.
pub fn published_dirs(states: &Vec<PublishState>) -> (r: Vec<String>)
    ensures
        r@.map_values(|s: String| s@) == keep_dirs(states@, true),
{
    dirs_with(states, true)
}

/// The directories not published, in their order.
pub fn unpublished_dirs(states: &Vec<PublishState>) -> (r: Vec<String>)
    ensures
        r@.map_values(|s: String| s@) == keep_dirs(states@, false),
{
    dirs_with(states, false)
}

/// The directories whose publication state is `published`, in their order.
pub open spec fn keep_dirs(s: Seq<PublishState>, published: bool) -> Seq<Seq<char>>
    decreases s.len(),
{
    if s.len() == 0 {
        Seq::empty()
    } else if s.last().is_published() == published {
        keep_dirs(s.drop_last(), published).push(s.last().dir())
    } else {
        keep_dirs(s.drop_last(), published)
    }
}

fn dirs_with(states: &Vec<PublishState>, published: bool) -> (r: Vec<String>)
    ensures
        r@.map_values(|s: String| s@) == keep_dirs(states@, published),
{
    let mut out: Vec<String> = Vec::new();
    let mut i: usize = 0;
    while i < states.len()
        invariant
            i <= states@.len(),
            out@.map_values(|s: String| s@) == keep_dirs(states@.subrange(0, i as int), published),
        decreases states@.len() - i,
    {
        assert(states@.subrange(0, i + 1).drop_last() =~= states@.subrange(0, i as int));
        let ghost before = out@;
        let (is_pub, d) = match &states[i] {
            PublishState::Published(d) => (true, d),
            PublishState::Unpublished(d) => (false, d),
        };
        if is_pub == published {
            out.push(d.as_str().to_owned());
            assert(out@.map_values(|s: String| s@) =~= before.map_values(|s: String| s@).push(
                d@,
            ));
        }
        i = i + 1;
    }
    assert(states@.subrange(0, states@.len() as int) =~= states@);
    out
}

/// The first directory at or after `from` that is not published yet.
pub open spec fn first_unpublished(s: Seq<PublishState>, from: int) -> Option<int>
    decreases s.len() - from,
{
    if from < 0 || from >= s.len() {
        None
    } else if !s[from].is_published() {
        Some(from)
    } else {
        first_unpublished(s, from + 1)
    }
}

/// What the publish sweeps ask for next.
#[derive(Clone, Copy, Debug, PartialEq, Eq, Structural)]
pub enum PublishAction {
    /// Run the publish command in directory `i`.
    Attempt(usize),
    /// Stop: the last sweep published nothing, every directory is
    /// published, or as many sweeps as directories have been made.
    Finished,
}

/// The progress of the publish sweeps: each sweep attempts every directory
/// not yet published, in order; another sweep follows while the last one
/// published something and fewer sweeps than directories have been made.
/// `sweeps` counts the sweeps that another one followed.
pub struct PublishSweeps {
    pub states: Vec<PublishState>,
    pub sweeps: usize,
    pub cursor: usize,
    pub progress: bool,
}

/// `after` and `r` are what the next step makes of `before`.
pub open spec fn next_step(before: PublishSweeps, after: PublishSweeps, r: PublishAction) -> bool {
    let again = before.progress && before.sweeps + 1 < before.states@.len();
    &&& after.states@ == before.states@
    &&& match first_unpublished(before.states@, before.cursor as int) {
        Some(k) => r == PublishAction::Attempt(k as usize) && after.sweeps == before.sweeps
            && after.cursor == before.cursor && after.progress == before.progress,
        None => {
            &&& (again ==> after.sweeps == before.sweeps + 1 && after.cursor == 0 && !after.progress && r == match first_unpublished(
                before.states@,
                0,
            ) {
                Some(k) => PublishAction::Attempt(k as usize),
                None => PublishAction::Finished,
            })
            &&& (!again ==> r == PublishAction::Finished && after.sweeps == before.sweeps)
        },
    }
}

impl PublishSweeps {
    /// The first sweep over `dirs`, none published yet.
    pub fn new(dirs: Vec<String>) -> (r: PublishSweeps)
        ensures
            r.states@.len() == dirs@.len(),
            forall|i: int|
                0 <= i < r.states@.len() ==> !r.states@[i].is_published() && r.states@[i].dir()
                    == dirs@[i]@,
            r.sweeps == 0,
            r.cursor == 0,
            !r.progress,
    {
        PublishSweeps { states: initial_states(dirs), sweeps: 0, cursor: 0, progress: false }
    }

    /// The next step. Within a sweep: the first unpublished directory at or
    /// after the cursor. At the end of a sweep: a new sweep from the first
    /// directory if the ended one published something and fewer sweeps
    /// than directories have been made; otherwise the end.
    pub fn next_action(&mut self) -> (r: PublishAction)
        ensures
            next_step(*old(self), *final(self), r),
    {
        match self.first_from(self.cursor) {
            Some(k) => PublishAction::Attempt(k),
            None => {
                let len = self.states.len();
                let again = self.progress && self.sweeps < len && sweep_again(
                    self.progress,
                    self.sweeps + 1,
                    len,
                );
                if again {
                    self.sweeps = self.sweeps + 1;
                    self.cursor = 0;
                    self.progress = false;
                    match self.first_from(0) {
                        Some(k) => PublishAction::Attempt(k),
                        None => PublishAction::Finished,
                    }
                } else {
                    PublishAction::Finished
                }
            },
        }
    }

    fn first_from(&self, from: usize) -> (r: Option<usize>)
        ensures
            match r {
                Some(k) => first_unpublished(self.states@, from as int) == Some(k as int),
                None => first_unpublished(self.states@, from as int) is None,
            },
    {
        let mut i = from;
        while i < self.states.len()
            invariant
                from <= i,
                first_unpublished(self.states@, from as int) == first_unpublished(
                    self.states@,
                    i as int,
                ),
            decreases self.states@.len() - i,
        {
            match &self.states[i] {
                PublishState::Unpublished(_) => {
                    return Some(i);
                },
                PublishState::Published(_) => {},
            }
            i = i + 1;
        }
        None
    }

    /// Records the outcome of the attempt in directory `i`: on success it
    /// is published and the sweep has made progress; the sweep goes on
    /// after `i`.
    pub fn record(&mut self, i: usize, published: bool)
        requires
            i < old(self).states@.len(),
        ensures
            final(self).sweeps == old(self).sweeps,
            final(self).cursor == i + 1,
            final(self).progress == (old(self).progress || published),
            published ==> final(self).states@[i as int].is_published(),
            final(self).states@.len() == old(self).states@.len(),
            forall|j: int|
                0 <= j < old(self).states@.len() && (j != i || !published)
                    ==> #[trigger] final(self).states@[j] == old(self).states@[j],
            final(self).states@[i as int].dir() == old(self).states@[i as int].dir(),
    {
        let _len = self.states.len();
        if published {
            mark_published(&mut self.states, i);
            self.progress = true;
        }
        self.cursor = i + 1;
    }
}

} // verus!
