use vstd::prelude::*;

use crate::insertion::{insertion_run, insertion_tick, InsertionStep};
use crate::merge::{merge_run, merge_tick, MergeState, MergeStep};
use crate::order::sorted;
use crate::schrodinger::{schrodinger_tick, shuffle};
use crate::selection::{selection_run, selection_tick, SelectionStep};

verus! {

/// The algorithm that the engine runs; `Validation` is the sweep that follows
/// a completed sort.
#[derive(Clone, Copy, Debug, PartialEq, Eq, Structural)]
pub enum Algorithm {
    Insertion,
    Selection,
    Merge,
    Schrodinger,
    Validation,
}

/// Whether the budget per tick is the user's or the fixed maximum.
#[derive(Clone, Copy, Debug, PartialEq, Eq, Structural)]
pub enum Speed {
    Max,
    Limited,
}

/// The range that a limited budget may be chosen from.
#[derive(Clone, Copy, Debug, PartialEq, Eq, Structural)]
pub enum SpeedLimit {
    Low,
    High,
}

/// How a bar is drawn.
#[derive(Clone, Copy, Debug, PartialEq, Eq, Structural)]
pub enum Highlight {
    Neutral,
    Settled,
    Active,
    Candidate,
}

/// Where the validation sweep stands: its cursor, the budget to restore when
/// it ends, and the algorithm that has just finished.
#[derive(Clone, Copy, Debug, PartialEq, Eq, Structural)]
pub struct AnimationStep {
    pub cursor: usize,
    pub saved_operations: u32,
    pub finished: Algorithm,
}

/// The budget per tick at maximum speed.
pub const MAX_SPEED_OPERATIONS: u32 = 100000;

/// The largest budget per tick at low speed.
pub const LOW_SPEED_OPERATIONS: u32 = 100;

/// The largest delay per tick, in milliseconds, at low speed.
pub const MAX_DELAY_MS: u64 = 1000;

/// The number of elements at startup.
pub const DEFAULT_ITEMS: usize = 100;

/// The list `1, 2, ..., n`.
pub open spec fn ascending(n: nat) -> Seq<i32> {
    Seq::new(n, |i: int| (i + 1) as i32)
}

/// The engine: the list being sorted, the settings that the controls edit,
/// and one progress marker per algorithm.
pub struct Engine {
    pub list: Vec<i32>,
    pub selected: Algorithm,
    pub operations: u32,
    pub max_speed: Speed,
    pub speed_limit: SpeedLimit,
    pub delay: u64,
    /// A sort has been started and has not yet been stopped or validated.
    pub sorting: bool,
    /// A tick has been requested for the current frame.
    pub sort: bool,
    pub paused: bool,
    pub observed: bool,
    pub sound: bool,
    pub insertion_step: InsertionStep,
    pub selection_step: SelectionStep,
    pub merge_step: MergeStep,
    pub animation_step: AnimationStep,
}

impl Engine {
    /// The markers of all algorithms are in their initial shape.
    pub open spec fn markers_initial(&self) -> bool {
        &&& self.insertion_step == InsertionStep::initial()
        &&& self.selection_step == SelectionStep::initial()
        &&& self.merge_step@ == MergeState::initial()
        &&& self.animation_step.cursor == 0
    }

    /// The list is not empty and its length fits the values `1..=n`; each
    /// marker fits the list, and only the marker of the running algorithm
    /// may differ from its initial shape; ticks and pauses happen only while
    /// a sort runs.
    pub open spec fn wf(&self) -> bool {
        &&& 1 <= self.list@.len() <= i32::MAX
        &&& self.insertion_step.wf()
        &&& self.selection_step.wf(self.list@.len())
        &&& self.merge_step@.wf(self.list@.len())
        &&& self.insertion_step != InsertionStep::initial() ==> self.sorting && self.selected == Algorithm::Insertion
        &&& self.selection_step != SelectionStep::initial() ==> self.sorting && self.selected == Algorithm::Selection
        &&& self.merge_step@ != MergeState::initial() ==> self.sorting && self.selected == Algorithm::Merge
        &&& self.animation_step.cursor != 0 ==> self.selected == Algorithm::Validation
        &&& self.selected == Algorithm::Validation ==> self.sorting
        &&& self.sort ==> self.sorting
        &&& self.paused ==> self.sorting
        &&& self.animation_step.finished != Algorithm::Validation
    }

    /// The settings that a tick of a sorting algorithm leaves alone.
    pub open spec fn same_settings(&self, prev: &Engine) -> bool {
        &&& self.operations == prev.operations
        &&& self.max_speed == prev.max_speed
        &&& self.speed_limit == prev.speed_limit
        &&& self.delay == prev.delay
        &&& self.sorting == prev.sorting
        &&& self.paused == prev.paused
        &&& self.observed == prev.observed
        &&& self.sound == prev.sound
    }

    /// After a tick of `alg` that signalled `done`: on completion the
    /// validation sweep takes over and remembers `alg`; otherwise `alg` stays.
    pub open spec fn handed_over(&self, prev: &Engine, done: bool, alg: Algorithm) -> bool {
        if done {
            &&& self.selected == Algorithm::Validation
            &&& self.animation_step == AnimationStep { finished: alg, ..prev.animation_step }
        } else {
            &&& self.selected == prev.selected
            &&& self.animation_step == prev.animation_step
        }
    }

    /// What a requested tick does, for each selected algorithm.
    pub open spec fn ticked(&self, prev: &Engine) -> bool {
        let budget = prev.operations as nat;
        let n = prev.list@.len();
        &&& !self.sort
        &&& match prev.selected {
            Algorithm::Insertion => {
                let r = insertion_run(prev.list@, prev.insertion_step, budget);
                &&& self.list@ == r.0
                &&& self.insertion_step == r.1
                &&& self.selection_step == prev.selection_step
                &&& self.merge_step@ == prev.merge_step@
                &&& self.same_settings(prev)
                &&& self.handed_over(prev, r.2, Algorithm::Insertion)
            },
            Algorithm::Selection => {
                let r = selection_run(prev.list@, prev.selection_step, budget);
                &&& self.list@ == r.0
                &&& self.selection_step == r.1
                &&& self.insertion_step == prev.insertion_step
                &&& self.merge_step@ == prev.merge_step@
                &&& self.same_settings(prev)
                &&& self.handed_over(prev, r.2, Algorithm::Selection)
            },
            Algorithm::Merge => {
                let r = merge_run(prev.list@, prev.merge_step@, budget);
                &&& self.list@ == r.0
                &&& self.merge_step@ == r.1
                &&& self.insertion_step == prev.insertion_step
                &&& self.selection_step == prev.selection_step
                &&& self.same_settings(prev)
                &&& self.handed_over(prev, r.2, Algorithm::Merge)
            },
            Algorithm::Schrodinger => {
                &&& self.list@.to_multiset() == prev.list@.to_multiset()
                &&& self.list@.len() == n
                &&& sorted(prev.list@) ==> self.list@ == prev.list@
                &&& budget == 0 ==> self.list@ == prev.list@
                &&& self.insertion_step == prev.insertion_step
                &&& self.selection_step == prev.selection_step
                &&& self.merge_step@ == prev.merge_step@
                &&& self.same_settings(prev)
                &&& (self.selected == Algorithm::Validation || self.selected == Algorithm::Schrodinger)
                &&& self.selected == Algorithm::Validation ==> prev.observed && sorted(self.list@)
                &&& (prev.observed && budget > 0 && sorted(prev.list@)) ==> self.selected == Algorithm::Validation
                &&& self.handed_over(prev, self.selected == Algorithm::Validation, Algorithm::Schrodinger)
            },
            Algorithm::Validation => {
                &&& self.list@ == prev.list@
                &&& self.insertion_step == prev.insertion_step
                &&& self.selection_step == prev.selection_step
                &&& self.merge_step@ == prev.merge_step@
                &&& self.max_speed == prev.max_speed
                &&& self.speed_limit == prev.speed_limit
                &&& self.delay == prev.delay
                &&& self.observed == prev.observed
                &&& self.sound == prev.sound
                &&& self.validated(prev)
            },
        }
    }

    /// One tick of the validation sweep: the first saves the budget and sets
    /// one of about `n / 100`; each later one moves the cursor by the budget;
    /// reaching the last element restores the budget, returns to the finished
    /// algorithm and ends the sort, which also ends a pause.
    pub open spec fn validated(&self, prev: &Engine) -> bool {
        let a = prev.animation_step;
        let ops = prev.operations;
        let n = prev.list@.len();
        if ops == 0 {
            &&& self.animation_step == a
            &&& self.operations == ops
            &&& self.selected == prev.selected
            &&& self.sorting == prev.sorting
            &&& self.paused == prev.paused
        } else if a.cursor == 0 {
            &&& self.animation_step == AnimationStep { cursor: 1, saved_operations: ops, finished: a.finished }
            &&& self.operations == 1 + n / 100
            &&& self.selected == prev.selected
            &&& self.sorting == prev.sorting
            &&& self.paused == prev.paused
        } else if a.cursor + ops >= n {
            &&& self.animation_step == AnimationStep { cursor: 0, ..a }
            &&& self.operations == a.saved_operations
            &&& self.selected == a.finished
            &&& !self.sorting
            &&& !self.paused
        } else {
            &&& self.animation_step == AnimationStep { cursor: (a.cursor + ops) as usize, ..a }
            &&& self.operations == ops
            &&& self.selected == prev.selected
            &&& self.sorting == prev.sorting
            &&& self.paused == prev.paused
        }
    }

    /// Runs the tick requested for this frame, if any, with the configured
    /// budget, on the selected algorithm.
    pub fn tick(&mut self)
        requires
            old(self).wf(),
        ensures
            final(self).wf(),
            !old(self).sort ==> *final(self) == *old(self),
            !old(self).sorting ==> *final(self) == *old(self),
            old(self).sort ==> final(self).ticked(old(self)),
    {
        if !self.sort {
            return;
        }
        let budget = self.operations;
        match self.selected {
            Algorithm::Insertion => {
                let done = insertion_tick(&mut self.list, &mut self.insertion_step, budget);
                if done {
                    self.finish(Algorithm::Insertion);
                }
            },
            Algorithm::Selection => {
                let done = selection_tick(&mut self.list, &mut self.selection_step, budget);
                if done {
                    self.finish(Algorithm::Selection);
                }
            },
            Algorithm::Merge => {
                let done = merge_tick(&mut self.list, &mut self.merge_step, budget);
                if done {
                    self.finish(Algorithm::Merge);
                }
            },
            Algorithm::Schrodinger => {
                let done = schrodinger_tick(&mut self.list, self.observed, budget);
                if done {
                    self.finish(Algorithm::Schrodinger);
                }
            },
            Algorithm::Validation => {
                self.validation_tick();
            },
        }
        self.sort = false;
    }

    /// Hands over to the validation sweep after `alg` completed.
    fn finish(&mut self, alg: Algorithm)
        ensures
            final(self).selected == Algorithm::Validation,
            final(self).animation_step == (AnimationStep { finished: alg, ..old(self).animation_step }),
            final(self).list == old(self).list,
            final(self).insertion_step == old(self).insertion_step,
            final(self).selection_step == old(self).selection_step,
            final(self).merge_step == old(self).merge_step,
            final(self).same_settings(old(self)),
            final(self).sort == old(self).sort,
    {
        self.animation_step.finished = alg;
        self.selected = Algorithm::Validation;
    }

    /// One tick of the validation sweep.
    fn validation_tick(&mut self)
        requires
            old(self).wf(),
            old(self).selected == Algorithm::Validation,
        ensures
            final(self).validated(old(self)),
            final(self).list == old(self).list,
            final(self).insertion_step == old(self).insertion_step,
            final(self).selection_step == old(self).selection_step,
            final(self).merge_step == old(self).merge_step,
            final(self).max_speed == old(self).max_speed,
            final(self).speed_limit == old(self).speed_limit,
            final(self).delay == old(self).delay,
            final(self).observed == old(self).observed,
            final(self).sound == old(self).sound,
            final(self).sort == old(self).sort,
    {
        let ops = self.operations;
        let n = self.list.len();
        let c = self.animation_step.cursor;
        if ops == 0 {
        } else if c == 0 {
            self.animation_step.saved_operations = ops;
            self.operations = 1 + (n / 100) as u32;
            self.animation_step.cursor = 1;
        } else if c >= n || ops as usize >= n - c {
            self.animation_step.cursor = 0;
            self.operations = self.animation_step.saved_operations;
            self.selected = self.animation_step.finished;
            self.sorting = false;
            self.paused = false;
        } else {
            self.animation_step.cursor = c + ops as usize;
        }
    }

    /// The engine at startup: the list `1..=100`, insertion sort selected,
    /// one action per tick, no sort running.
    pub fn new() -> (r: Engine)
        ensures
            r.wf(),
            r.list@ == ascending(DEFAULT_ITEMS as nat),
            r.selected == Algorithm::Insertion,
            r.operations == 1,
            !r.sorting,
            !r.sort,
            !r.paused,
            r.observed,
    {
        let list = ascending_list(DEFAULT_ITEMS);
        Engine {
            list,
            selected: Algorithm::Insertion,
            operations: 1,
            max_speed: Speed::Limited,
            speed_limit: SpeedLimit::Low,
            delay: 0,
            sorting: false,
            sort: false,
            paused: false,
            observed: true,
            sound: false,
            insertion_step: InsertionStep::new(),
            selection_step: SelectionStep::new(),
            merge_step: MergeStep::new(),
            animation_step: AnimationStep { cursor: 0, saved_operations: 0, finished: Algorithm::Insertion },
        }
    }
}

impl Engine {
    /// Everything but the list is as in `prev`.
    pub open spec fn same_but_list(&self, prev: &Engine) -> bool {
        &&& self.selected == prev.selected
        &&& self.same_settings(prev)
        &&& self.sort == prev.sort
        &&& self.insertion_step == prev.insertion_step
        &&& self.selection_step == prev.selection_step
        &&& self.merge_step@ == prev.merge_step@
        &&& self.animation_step == prev.animation_step
    }

    /// While no sort runs, replaces a list of another length by `1..=n`.
    pub fn resize(&mut self, n: usize)
        requires
            old(self).wf(),
            1 <= n <= i32::MAX,
        ensures
            final(self).wf(),
            final(self).same_but_list(old(self)),
            final(self).list@ == if !old(self).sorting && n != old(self).list@.len() {
                ascending(n as nat)
            } else {
                old(self).list@
            },
    {
        if !self.sorting && n != self.list.len() {
            self.list = ascending_list(n);
        }
    }

    /// While no sort runs, puts the list in a random order.
    pub fn shuffle(&mut self)
        requires
            old(self).wf(),
        ensures
            final(self).wf(),
            final(self).same_but_list(old(self)),
            final(self).list@.to_multiset() == old(self).list@.to_multiset(),
            final(self).list@.len() == old(self).list@.len(),
            old(self).sorting ==> final(self).list@ == old(self).list@,
    {
        if !self.sorting {
            shuffle(&mut self.list);
        }
    }

    /// While no sort runs, selects the algorithm to run next.
    pub fn select(&mut self, alg: Algorithm)
        requires
            old(self).wf(),
            alg != Algorithm::Validation,
        ensures
            final(self).wf(),
            final(self).selected == if old(self).sorting {
                old(self).selected
            } else {
                alg
            },
            final(self).list == old(self).list,
            final(self).same_settings(old(self)),
    {
        if !self.sorting {
            self.selected = alg;
        }
    }

    /// Sets the budget per tick, kept to the range of the current speed limit.
    pub fn set_operations(&mut self, ops: u32)
        requires
            old(self).wf(),
        ensures
            final(self).wf(),
            final(self).operations == if old(self).speed_limit == SpeedLimit::Low && ops > LOW_SPEED_OPERATIONS {
                LOW_SPEED_OPERATIONS
            } else if ops > MAX_SPEED_OPERATIONS {
                MAX_SPEED_OPERATIONS
            } else {
                ops
            },
            final(self).list == old(self).list,
            final(self).selected == old(self).selected,
            final(self).sorting == old(self).sorting,
    {
        if self.speed_limit == SpeedLimit::Low && ops > LOW_SPEED_OPERATIONS {
            self.operations = LOW_SPEED_OPERATIONS;
        } else if ops > MAX_SPEED_OPERATIONS {
            self.operations = MAX_SPEED_OPERATIONS;
        } else {
            self.operations = ops;
        }
    }

    /// Sets the delay before each tick; only low speed has one.
    pub fn set_delay(&mut self, ms: u64)
        requires
            old(self).wf(),
        ensures
            final(self).wf(),
            final(self).delay == if old(self).speed_limit == SpeedLimit::High {
                0
            } else if ms > MAX_DELAY_MS {
                MAX_DELAY_MS
            } else {
                ms
            },
            final(self).list == old(self).list,
            final(self).operations == old(self).operations,
    {
        if self.speed_limit == SpeedLimit::High {
            self.delay = 0;
        } else if ms > MAX_DELAY_MS {
            self.delay = MAX_DELAY_MS;
        } else {
            self.delay = ms;
        }
    }

    /// Chooses between the user's budget and maximum speed, and between the
    /// low and the high range; the budget and the delay are kept to the new
    /// range. Not available while the sort is validated.
    pub fn set_speed(&mut self, max_speed: Speed, limit: SpeedLimit)
        requires
            old(self).wf(),
        ensures
            final(self).wf(),
            old(self).selected == Algorithm::Validation ==> final(self).max_speed == old(self).max_speed
                && final(self).speed_limit == old(self).speed_limit && final(self).operations == old(self).operations
                && final(self).delay == old(self).delay,
            old(self).selected != Algorithm::Validation ==> {
                &&& final(self).max_speed == max_speed
                &&& final(self).speed_limit == limit
                &&& final(self).operations == if max_speed == Speed::Limited && limit == SpeedLimit::Low
                    && old(self).operations > LOW_SPEED_OPERATIONS {
                    LOW_SPEED_OPERATIONS
                } else {
                    old(self).operations
                }
                &&& final(self).delay == if max_speed == Speed::Limited && limit == SpeedLimit::High {
                    0
                } else {
                    old(self).delay
                }
            },
            final(self).list == old(self).list,
    {
        if self.selected == Algorithm::Validation {
            return;
        }
        self.max_speed = max_speed;
        self.speed_limit = limit;
        if max_speed == Speed::Limited {
            if limit == SpeedLimit::Low {
                if self.operations > LOW_SPEED_OPERATIONS {
                    self.operations = LOW_SPEED_OPERATIONS;
                }
            } else {
                self.delay = 0;
            }
        }
    }

    /// Starts the selected algorithm; the probabilistic one starts unobserved.
    pub fn start(&mut self)
        requires
            old(self).wf(),
        ensures
            final(self).wf(),
            final(self).sorting,
            old(self).sorting ==> final(self).paused == old(self).paused && final(self).observed == old(self).observed,
            !old(self).sorting ==> !final(self).paused && final(self).observed == (old(self).observed
                && old(self).selected != Algorithm::Schrodinger),
            final(self).list == old(self).list,
            final(self).selected == old(self).selected,
            final(self).operations == old(self).operations,
            final(self).sort == old(self).sort,
    {
        if !self.sorting {
            self.sorting = true;
            self.paused = false;
            if self.selected == Algorithm::Schrodinger {
                self.observed = false;
            }
        }
    }

    /// Stops the running algorithm without completing it and resets its
    /// marker. Not available during validation or while the list is unobserved.
    pub fn stop(&mut self)
        requires
            old(self).wf(),
        ensures
            final(self).wf(),
            final(self).list == old(self).list,
            final(self).selected == old(self).selected,
            (old(self).sorting && old(self).observed && old(self).selected != Algorithm::Validation) ==> {
                &&& !final(self).sorting
                &&& !final(self).paused
                &&& final(self).markers_initial()
            },
            !(old(self).sorting && old(self).observed && old(self).selected != Algorithm::Validation)
                ==> final(self).sorting == old(self).sorting && final(self).markers_initial() == old(self).markers_initial(),
    {
        if self.sorting && self.observed && self.selected != Algorithm::Validation {
            self.sorting = false;
            self.paused = false;
            self.sort = false;
            match self.selected {
                Algorithm::Insertion => self.insertion_step = InsertionStep::new(),
                Algorithm::Selection => self.selection_step = SelectionStep::new(),
                Algorithm::Merge => self.merge_step = MergeStep::new(),
                _ => {},
            }
        }
    }

    /// Pauses or resumes a running sort.
    pub fn set_paused(&mut self, paused: bool)
        requires
            old(self).wf(),
        ensures
            final(self).wf(),
            final(self).paused == (old(self).sorting && paused),
            final(self).list == old(self).list,
            final(self).sorting == old(self).sorting,
    {
        self.paused = self.sorting && paused;
    }

    /// While paused, requests a single tick.
    pub fn step_once(&mut self)
        requires
            old(self).wf(),
        ensures
            final(self).wf(),
            final(self).sort == (old(self).sort || old(self).paused),
            final(self).list == old(self).list,
    {
        if self.paused {
            self.sort = true;
        }
    }

    /// Reveals the list to the probabilistic sort, or hides it again.
    pub fn set_observed(&mut self, observed: bool)
        requires
            old(self).wf(),
        ensures
            final(self).wf(),
            final(self).observed == observed,
            final(self).list == old(self).list,
            final(self).selected == old(self).selected,
            final(self).sorting == old(self).sorting,
    {
        self.observed = observed;
    }

    /// Decides, once per frame, whether a tick runs: while a sort runs and is
    /// not paused, requests one and returns the delay in milliseconds to wait
    /// before it. Maximum speed waits for nothing and uses the largest budget.
    pub fn schedule(&mut self) -> (r: Option<u64>)
        requires
            old(self).wf(),
        ensures
            final(self).wf(),
            final(self).list == old(self).list,
            final(self).selected == old(self).selected,
            !(old(self).sorting && !old(self).paused) ==> r is None && final(self).sort == old(self).sort
                && final(self).operations == old(self).operations,
            (old(self).sorting && !old(self).paused) ==> final(self).sort,
            (old(self).sorting && !old(self).paused && old(self).selected != Algorithm::Validation
                && old(self).max_speed == Speed::Max) ==> r == Some(0u64) && final(self).operations == MAX_SPEED_OPERATIONS,
            (old(self).sorting && !old(self).paused && !(old(self).selected != Algorithm::Validation
                && old(self).max_speed == Speed::Max)) ==> r == Some(old(self).delay) && final(self).operations
                == old(self).operations,
    {
        if self.sorting && !self.paused {
            self.sort = true;
            if self.selected != Algorithm::Validation && self.max_speed == Speed::Max {
                self.operations = MAX_SPEED_OPERATIONS;
                Some(0)
            } else {
                Some(self.delay)
            }
        } else {
            None
        }
    }
}

impl Engine {
    /// How the bar at index `i` is drawn, read off the running algorithm's
    /// marker; bars are neutral while no sort runs.
    pub open spec fn highlight_of(&self, i: int) -> Highlight {
        if !self.sorting {
            Highlight::Neutral
        } else {
            match self.selected {
                Algorithm::Insertion => if i == self.insertion_step.cursor {
                    Highlight::Active
                } else if i <= self.insertion_step.boundary {
                    Highlight::Settled
                } else {
                    Highlight::Neutral
                },
                Algorithm::Selection => if i < self.selection_step.boundary {
                    Highlight::Settled
                } else if i == self.selection_step.scan {
                    Highlight::Active
                } else if i == self.selection_step.best {
                    Highlight::Candidate
                } else {
                    Highlight::Neutral
                },
                Algorithm::Merge => {
                    let m = self.merge_step@;
                    if m.start() <= i < m.write_pos() {
                        Highlight::Settled
                    } else {
                        Highlight::Neutral
                    }
                },
                Algorithm::Schrodinger => Highlight::Neutral,
                Algorithm::Validation => if i <= self.animation_step.cursor {
                    Highlight::Settled
                } else {
                    Highlight::Neutral
                },
            }
        }
    }

    /// The bars are hidden while the probabilistic sort runs unobserved.
    pub open spec fn hidden(&self) -> bool {
        self.sorting && self.selected == Algorithm::Schrodinger && !self.observed
    }

    /// One highlight per element of the list, or none while the list is hidden.
    pub fn highlights(&self) -> (r: Vec<Highlight>)
        requires
            self.wf(),
        ensures
            self.hidden() ==> r@.len() == 0,
            !self.hidden() ==> r@.len() == self.list@.len(),
            !self.hidden() ==> forall|i: int| 0 <= i < r@.len() ==> r@[i] == self.highlight_of(i),
    {
        let mut r: Vec<Highlight> = Vec::new();
        if self.hidden_now() {
            return r;
        }
        let n = self.list.len();
        let m = &self.merge_step;
        let lo: Option<usize> = match m.run_size.checked_mul(m.run_index) {
            Some(x) => x.checked_mul(2),
            None => None,
        };
        proof {
            assert(m.run_size * m.run_index * 2 == 2 * m.run_size * m.run_index) by (nonlinear_arith);
        }
        let mut i: usize = 0;
        while i < n
            invariant
                i <= n == self.list@.len(),
                !self.hidden(),
                r@.len() == i,
                lo is Some ==> lo->0 == self.merge_step@.start(),
                lo is None ==> self.merge_step@.start() > usize::MAX,
                forall|j: int| 0 <= j < i ==> r@[j] == self.highlight_of(j),
            decreases n - i,
        {
            let h = if !self.sorting {
                Highlight::Neutral
            } else {
                match self.selected {
                    Algorithm::Insertion => if i == self.insertion_step.cursor {
                        Highlight::Active
                    } else if i <= self.insertion_step.boundary {
                        Highlight::Settled
                    } else {
                        Highlight::Neutral
                    },
                    Algorithm::Selection => if i < self.selection_step.boundary {
                        Highlight::Settled
                    } else if i == self.selection_step.scan {
                        Highlight::Active
                    } else if i == self.selection_step.best {
                        Highlight::Candidate
                    } else {
                        Highlight::Neutral
                    },
                    Algorithm::Merge => match lo {
                        Some(start) => if i >= start && (i - start < self.merge_step.left_pos || i - start
                            - self.merge_step.left_pos < self.merge_step.right_pos) {
                            Highlight::Settled
                        } else {
                            Highlight::Neutral
                        },
                        None => Highlight::Neutral,
                    },
                    Algorithm::Schrodinger => Highlight::Neutral,
                    Algorithm::Validation => if i <= self.animation_step.cursor {
                        Highlight::Settled
                    } else {
                        Highlight::Neutral
                    },
                }
            };
            assert(h == self.highlight_of(i as int));
            r.push(h);
            i += 1;
        }
        r
    }

    fn hidden_now(&self) -> (r: bool)
        ensures
            r == self.hidden(),
    {
        self.sorting && self.selected == Algorithm::Schrodinger && !self.observed
    }
}

impl Engine {
    /// How far the running algorithm has come, as a position in the list,
    /// for the tone that accompanies each tick: the insertion cursor, the
    /// selection scan, the merge write position, the first value for the
    /// probabilistic sort (negative values count as zero), and the
    /// validation cursor. Merge positions past the end count as the end.
    pub open spec fn tone_position_of(&self) -> int {
        let n = self.list@.len() as int;
        match self.selected {
            Algorithm::Insertion => self.insertion_step.cursor as int,
            Algorithm::Selection => self.selection_step.scan as int,
            Algorithm::Merge => if self.merge_step@.write_pos() < n {
                self.merge_step@.write_pos()
            } else {
                n
            },
            Algorithm::Schrodinger => if self.list@[0] < 0 {
                0
            } else {
                self.list@[0] as int
            },
            Algorithm::Validation => self.animation_step.cursor as int,
        }
    }

    /// The position that the tone of the next tick is taken from.
    pub fn tone_position(&self) -> (r: usize)
        requires
            self.wf(),
        ensures
            r == self.tone_position_of(),
    {
        let n = self.list.len();
        match self.selected {
            Algorithm::Insertion => self.insertion_step.cursor,
            Algorithm::Selection => self.selection_step.scan,
            Algorithm::Merge => {
                let m = &self.merge_step;
                proof {
                    assert(m.run_size * m.run_index * 2 == 2 * m.run_size * m.run_index) by (nonlinear_arith);
                }
                let pos = match m.run_size.checked_mul(m.run_index) {
                    Some(x) => match x.checked_mul(2) {
                        Some(y) => match y.checked_add(m.left_pos) {
                            Some(z) => z.checked_add(m.right_pos),
                            None => None,
                        },
                        None => None,
                    },
                    None => None,
                };
                match pos {
                    Some(p) => if p < n {
                        p
                    } else {
                        n
                    },
                    None => n,
                }
            },
            Algorithm::Schrodinger => {
                let first = self.list[0];
                if first < 0 {
                    0
                } else {
                    first as usize
                }
            },
            Algorithm::Validation => self.animation_step.cursor,
        }
    }
}

/// The list `1, 2, ..., n`.
pub fn ascending_list(n: usize) -> (r: Vec<i32>)
    requires
        n <= i32::MAX,
    ensures
        r@ == ascending(n as nat),
{
    let mut r: Vec<i32> = Vec::new();
    let mut i: usize = 0;
    while i < n
        invariant
            i <= n <= i32::MAX,
            r@ == Seq::new(i as nat, |j: int| (j + 1) as i32),
        decreases n - i,
    {
        r.push((i + 1) as i32);
        i += 1;
        assert(r@ =~= Seq::new(i as nat, |j: int| (j + 1) as i32));
    }
    r
}

} // verus!
