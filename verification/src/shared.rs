//! The shared result container read by the render loop and written by the
//! background retrieval task, together with the coarse loading status that
//! the widgets display.

use vstd::prelude::*;

verus! {

pub const ONE_SECOND_MS: i64 = 1000;

pub const ONE_MINUTE_MS: i64 = 1000 * 60;

pub const ONE_HOUR_MS: i64 = 1000 * 60 * 60;

pub const ONE_DAY_MS: i64 = 1000 * 60 * 60 * 24;

/// Coarse status of a background fetch, as the widgets display it.
#[derive(Debug)]
pub enum LoadingState {
    Idle,
    Loading,
    Loaded,
    Error(String),
}

impl LoadingState {
    /// True exactly when a fetch is still in flight.
    pub fn is_loading(&self) -> (r: bool)
        ensures
            r == (*self is Loading),
    {
        match self {
            LoadingState::Loading => true,
            _ => false,
        }
    }

    /// The placeholder an empty line list shows: a retrieval still in
    /// flight must read differently from a finished one that found no
    /// lines.
    pub fn empty_placeholder(&self) -> (r: &'static str)
        ensures
            *self is Loading ==> r@ == "loading..."@,
            !(*self is Loading) ==> r@ == "no data"@,
    {
        match self {
            LoadingState::Loading => "loading...",
            _ => "no data",
        }
    }

    /// A structurally equal copy; spelled out because the `Error` variant
    /// carries a `String`.
    pub fn duplicate(&self) -> (r: LoadingState)
        ensures
            r == *self,
    {
        match self {
            LoadingState::Idle => LoadingState::Idle,
            LoadingState::Loading => LoadingState::Loading,
            LoadingState::Loaded => LoadingState::Loaded,
            LoadingState::Error(e) => LoadingState::Error(e.clone()),
        }
    }
}

impl Default for LoadingState {
    fn default() -> (r: Self)
        ensures
            r is Idle,
    {
        LoadingState::Idle
    }
}

impl PartialEq for LoadingState {
    fn eq(&self, other: &Self) -> (r: bool) {
        match (self, other) {
            (LoadingState::Idle, LoadingState::Idle) => true,
            (LoadingState::Loading, LoadingState::Loading) => true,
            (LoadingState::Loaded, LoadingState::Loaded) => true,
            (LoadingState::Error(a), LoadingState::Error(b)) => *a == *b,
            _ => false,
        }
    }
}

impl vstd::std_specs::cmp::PartialEqSpecImpl for LoadingState {
    open spec fn obeys_eq_spec() -> bool {
        true
    }

    open spec fn eq_spec(&self, other: &Self) -> bool {
        match (self, other) {
            (LoadingState::Idle, LoadingState::Idle) => true,
            (LoadingState::Loading, LoadingState::Loading) => true,
            (LoadingState::Loaded, LoadingState::Loaded) => true,
            (LoadingState::Error(a), LoadingState::Error(b)) => a@ == b@,
            _ => false,
        }
    }
}

impl Eq for LoadingState {

}

/// Latest retrieval status and result lines, shared between the background
/// poller (its only writer) and the render path (a reader taking snapshots).
/// The exclusive/shared access discipline itself lives with the caller; this
/// type pins down what each update and each snapshot means.
pub struct SharedResultState {
    pub status: LoadingState,
    pub lines: Vec<String>,
}

impl SharedResultState {
    pub fn new() -> (r: SharedResultState)
        ensures
            r.status is Idle,
            r.lines@ =~= Seq::<String>::empty(),
    {
        SharedResultState { status: LoadingState::Idle, lines: Vec::new() }
    }

    /// One atomic update by the poller: both fields are replaced together.
    pub fn publish(&mut self, status: LoadingState, lines: Vec<String>)
        ensures
            final(self).status == status,
            final(self).lines == lines,
    {
        self.status = status;
        self.lines = lines;
    }

    /// Drop the lines but keep the status; used when a group is deselected.
    pub fn clear_lines(&mut self)
        ensures
            final(self).status == old(self).status,
            final(self).lines@ =~= Seq::<String>::empty(),
    {
        self.lines = Vec::new();
    }

    /// One snapshot by the render path: a copy of both fields, so the lock
    /// can be released before the copy is used.
    pub fn snapshot(&self) -> (r: (LoadingState, Vec<String>))
        ensures
            r.0 == self.status,
            r.1@ == self.lines@,
    {
        let status = self.status.duplicate();
        let mut lines: Vec<String> = Vec::new();
        let n = self.lines.len();
        let mut i: usize = 0;
        while i < n
            invariant
                i <= n,
                n == self.lines@.len(),
                lines@ =~= self.lines@.take(i as int),
            decreases n - i,
        {
            lines.push(self.lines[i].clone());
            i = i + 1;
        }
        proof {
            assert(lines@ =~= self.lines@);
        }
        (status, lines)
    }
}

} // verus!
