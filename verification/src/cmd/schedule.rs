//! Which module starts when: level by level, and only so many at a time.
//!
//! A schedule is told of every task that ended, and says what to do next.

use vstd::prelude::*;

verus! {

/// What is to be done next.
#[derive(Debug, Clone, Copy, PartialEq, Eq, Structural)]
pub enum Step {
    /// Start the task of a module. The slot is its place in its level.
    Dispatch { slot: usize, module: usize },
    /// Wait until a task ends.
    Wait,
    /// Nothing is left to do.
    Done,
}

/// How far a run is.
#[derive(Debug)]
pub struct Schedule {
    /// The level that runs.
    pub level: usize,
    /// How many modules of the level were started.
    pub started: usize,
    /// The slots of the tasks that have not ended.
    pub running: Vec<usize>,
    /// Whether a task ended so that no further level starts.
    pub stopped: bool,
}

/// How far a run is, as plain values.
pub struct Progress {
    pub level: int,
    pub started: int,
    pub running: Seq<usize>,
    pub stopped: bool,
}

impl View for Schedule {
    type V = Progress;

    open spec fn view(&self) -> Progress {
        Progress {
            level: self.level as int,
            started: self.started as int,
            running: self.running@,
            stopped: self.stopped,
        }
    }
}

/// A run that has started nothing.
pub open spec fn fresh() -> Progress {
    Progress { level: 0, started: 0, running: Seq::empty(), stopped: false }
}

/// How many tasks may run at a time: as many as asked for, but at least one.
pub open spec fn permits(budget: usize) -> nat {
    if budget == 0 {
        1
    } else {
        budget as nat
    }
}

/// `s` without `x`.
pub open spec fn without(s: Seq<usize>, x: usize) -> Seq<usize>
    decreases s.len(),
{
    if s.len() == 0 {
        s
    } else if s.last() == x {
        without(s.drop_last(), x)
    } else {
        without(s.drop_last(), x).push(s.last())
    }
}

/// A run after the task of a slot ended; `stops` says whether no further level is to start.
/// A task that does not run cannot end.
pub open spec fn heard(p: Progress, slot: usize, stops: bool) -> Progress {
    if p.running.contains(slot) {
        Progress { running: without(p.running, slot), stopped: p.stopped || stops, ..p }
    } else {
        p
    }
}

/// The first level from `k` on that has a module, or the number of levels.
pub open spec fn next_level(levels: Seq<Vec<usize>>, k: int) -> int
    decreases levels.len() - k,
{
    if k >= levels.len() {
        levels.len() as int
    } else if levels[k]@.len() == 0 {
        next_level(levels, k + 1)
    } else {
        k
    }
}

/// A run after the module of a slot was started.
pub open spec fn dispatched(levels: Seq<Vec<usize>>, p: Progress) -> (Progress, Step) {
    (
        Progress { started: p.started + 1, running: p.running.push(p.started as usize), ..p },
        Step::Dispatch { slot: p.started as usize, module: levels[p.level]@[p.started] },
    )
}

/// What is done next, and how far the run is then: the modules of a level start in their
/// order, as many at a time as are permitted; when all of them ended the next level starts,
/// unless one of them stopped the run.
pub open spec fn stepped(levels: Seq<Vec<usize>>, at_most: nat, p: Progress) -> (Progress, Step) {
    if p.level >= levels.len() {
        (p, Step::Done)
    } else if p.started < levels[p.level]@.len() {
        if p.running.len() < at_most {
            dispatched(levels, p)
        } else {
            (p, Step::Wait)
        }
    } else if p.running.len() > 0 {
        (p, Step::Wait)
    } else if p.stopped {
        (p, Step::Done)
    } else {
        let k = next_level(levels, p.level + 1);
        let q = Progress { level: k, started: 0, ..p };
        if k < levels.len() {
            dispatched(levels, q)
        } else {
            (q, Step::Done)
        }
    }
}

/// A run after it was told of an end, or of none.
pub open spec fn told(p: Progress, end: Option<(usize, bool)>) -> Progress {
    match end {
        Some((slot, stops)) => heard(p, slot, stops),
        None => p,
    }
}

/// Whether a state can occur: only modules that were started run, and none twice.
pub open spec fn is_sound(levels: Seq<Vec<usize>>, p: Progress) -> bool {
    &&& 0 <= p.level <= levels.len()
    &&& p.level < levels.len() ==> 0 <= p.started <= levels[p.level]@.len()
    &&& p.level == levels.len() ==> p.running.len() == 0
    &&& p.running.no_duplicates()
    &&& forall|s: usize| #[trigger] p.running.contains(s) ==> s < p.started
}

/// How many modules run at a time: as many as asked for, but at least one.
pub fn worker_permits(budget: usize) -> (r: usize)
    ensures
        r == permits(budget),
{
    if budget == 0 {
        1
    } else {
        budget
    }
}

proof fn without_removes(s: Seq<usize>, x: usize)
    ensures
        !without(s, x).contains(x),
        forall|y: usize| y != x ==> (#[trigger] without(s, x).contains(y) == s.contains(y)),
        without(s, x).len() <= s.len(),
        s.contains(x) ==> without(s, x).len() < s.len(),
        s.no_duplicates() ==> without(s, x).no_duplicates(),
    decreases s.len(),
{
    if s.len() > 0 {
        let rest = s.drop_last();
        without_removes(rest, x);
        assert forall|y: usize| s.contains(y) == (rest.contains(y) || s.last() == y) by {
            if s.contains(y) {
                let i = choose|i: int| 0 <= i < s.len() && s[i] == y;
                if i < rest.len() {
                    assert(rest[i] == y);
                }
            }
            if rest.contains(y) {
                let i = choose|i: int| 0 <= i < rest.len() && rest[i] == y;
                assert(s[i] == y);
            }
        }
        if s.last() != x {
            let w = without(rest, x);
            let v = w.push(s.last());
            assert(v == without(s, x));
            assert forall|y: usize| v.contains(y) == (w.contains(y) || s.last() == y) by {
                if v.contains(y) {
                    let i = choose|i: int| 0 <= i < v.len() && v[i] == y;
                    if i < w.len() {
                        assert(w[i] == y);
                    }
                }
                if w.contains(y) {
                    let i = choose|i: int| 0 <= i < w.len() && w[i] == y;
                    assert(v[i] == y);
                }
                if s.last() == y {
                    assert(v[w.len() as int] == y);
                }
            }
            if s.no_duplicates() {
                assert(!w.contains(s.last())) by {
                    if w.contains(s.last()) {
                        assert(rest.contains(s.last()));
                        let i = choose|i: int| 0 <= i < rest.len() && rest[i] == s.last();
                        assert(s[i] == s[s.len() - 1]);
                    }
                }
                assert forall|i: int, j: int| 0 <= i < j < v.len() implies v[i] != v[j] by {
                    assert(w.no_duplicates());
                    if j == w.len() {
                        assert(w.contains(w[i]));
                    }
                }
            }
        }
    }
}

impl Schedule {
    /// A run that has started nothing.
    pub fn new() -> (r: Schedule)
        ensures
            r@ == fresh(),
    {
        let r = Schedule { level: 0, started: 0, running: Vec::new(), stopped: false };
        assert(r.running@ =~= Seq::empty());
        r
    }

    /// Whether the task of a slot runs.
    pub fn runs(&self, slot: usize) -> (r: bool)
        ensures
            r == self@.running.contains(slot),
    {
        let mut i: usize = 0;
        while i < self.running.len()
            invariant
                i <= self.running@.len(),
                forall|j: int| 0 <= j < i ==> self.running@[j] != slot,
            decreases self.running@.len() - i,
        {
            if self.running[i] == slot {
                assert(self.running@[i as int] == slot);
                return true;
            }
            i = i + 1;
        }
        false
    }

    /// Takes the end of the task of a slot.
    pub fn hear(&mut self, slot: usize, stops: bool)
        ensures
            final(self)@ == heard(old(self)@, slot, stops),
    {
        if !self.runs(slot) {
            return;
        }
        let mut rest: Vec<usize> = Vec::new();
        let mut i: usize = 0;
        let ghost all = self.running@;
        assert(all.take(0) =~= Seq::empty());
        while i < self.running.len()
            invariant
                i <= self.running@.len(),
                self.running@ == all,
                rest@ == without(all.take(i as int), slot),
            decreases self.running@.len() - i,
        {
            let s: usize = self.running[i];
            assert(all.take(i + 1).drop_last() =~= all.take(i as int));
            if s != slot {
                rest.push(s);
            }
            i = i + 1;
        }
        assert(all.take(i as int) =~= all);
        self.running = rest;
        if stops {
            self.stopped = true;
        }
    }

    /// Starts the next module, where one may start, and says so.
    pub fn step(&mut self, levels: &Vec<Vec<usize>>, budget: usize) -> (r: Step)
        ensures
            (final(self)@, r) == stepped(levels@, permits(budget), old(self)@),
    {
        if self.level >= levels.len() {
            return Step::Done;
        }
        if self.started < levels[self.level].len() {
            if self.running.len() < worker_permits(budget) {
                return self.dispatch(levels);
            }
            return Step::Wait;
        }
        if self.running.len() > 0 {
            return Step::Wait;
        }
        if self.stopped {
            return Step::Done;
        }
        let ghost first = self.level + 1;
        self.level = self.level + 1;
        self.started = 0;
        while self.level < levels.len() && levels[self.level].len() == 0
            invariant
                first <= self.level <= levels@.len(),
                next_level(levels@, first) == next_level(levels@, self.level as int),
                self.started == 0,
                self.running@ == old(self).running@,
                self.stopped == old(self).stopped,
            decreases levels@.len() - self.level,
        {
            self.level = self.level + 1;
        }
        if self.level < levels.len() {
            self.dispatch(levels)
        } else {
            Step::Done
        }
    }

    /// Starts the next module of the level.
    fn dispatch(&mut self, levels: &Vec<Vec<usize>>) -> (r: Step)
        requires
            old(self).level < levels@.len(),
            old(self).started < levels@[old(self).level as int]@.len(),
        ensures
            (final(self)@, r) == dispatched(levels@, old(self)@),
    {
        let slot: usize = self.started;
        let module: usize = levels[self.level][slot];
        self.running.push(slot);
        assert(slot < levels[self.level as int].len());
        self.started = self.started + 1;
        Step::Dispatch { slot, module }
    }
}

// ---------------------------------------------------------------------------
// Laws
// ---------------------------------------------------------------------------

/// Whether `states` are those of one run from its start: it was told of `ends` in turn, each
/// time of one or of none, and then took `steps`.
pub open spec fn is_course(
    levels: Seq<Vec<usize>>,
    at_most: nat,
    states: Seq<Progress>,
    ends: Seq<Option<(usize, bool)>>,
    steps: Seq<Step>,
) -> bool {
    &&& states.len() == steps.len() + 1
    &&& ends.len() == steps.len()
    &&& states[0] == fresh()
    &&& forall|k: int|
        0 <= k < steps.len() ==> (states[k + 1], #[trigger] steps[k]) == stepped(
            levels,
            at_most,
            told(states[k], ends[k]),
        )
}

/// Whether step `k` starts the module in a slot of a level.
pub open spec fn starts(
    states: Seq<Progress>,
    steps: Seq<Step>,
    k: int,
    level: int,
    slot: usize,
) -> bool {
    &&& 0 <= k < steps.len()
    &&& steps[k] matches Step::Dispatch { slot: s, .. } && s == slot
    &&& states[k + 1].level == level
}

/// Whether the task of a slot of a level ended with one of the ends from `low` up to `high`.
pub open spec fn ends_within(
    states: Seq<Progress>,
    ends: Seq<Option<(usize, bool)>>,
    level: int,
    slot: usize,
    low: int,
    high: int,
) -> bool {
    exists|i: int|
        low <= i < high && states[i].level == level && states[i].running.contains(slot) && (
        #[trigger] ends[i] matches Some((s, _)) && s == slot)
}

/// Whether no module stands in the levels twice.
pub open spec fn distinct(levels: Seq<Vec<usize>>) -> bool {
    forall|k: int, m: int, a: int, b: int|
        0 <= k < levels.len() && 0 <= m < levels.len() && 0 <= a < levels[k]@.len() && 0 <= b
            < levels[m]@.len() && #[trigger] levels[k]@[a] == #[trigger] levels[m]@[b] ==> k == m
            && a == b
}

proof fn next_level_is_ahead(levels: Seq<Vec<usize>>, k: int)
    requires
        0 <= k <= levels.len(),
    ensures
        k <= next_level(levels, k) <= levels.len(),
        next_level(levels, k) < levels.len() ==> levels[next_level(levels, k)]@.len() > 0,
        forall|m: int| k <= m < next_level(levels, k) ==> (#[trigger] levels[m])@.len() == 0,
    decreases levels.len() - k,
{
    if k < levels.len() && levels[k]@.len() == 0 {
        next_level_is_ahead(levels, k + 1);
    }
}

/// Whatever a run is told, its state stays sound and within the permits, and it never goes
/// back.
pub proof fn step_is_sound(
    levels: Seq<Vec<usize>>,
    at_most: nat,
    p: Progress,
    end: Option<(usize, bool)>,
)
    requires
        is_sound(levels, p),
    ensures
        ({
            let h = told(p, end);
            let (q, step) = stepped(levels, at_most, h);
            &&& is_sound(levels, h)
            &&& is_sound(levels, q)
            &&& at_most >= 1 && p.running.len() <= at_most ==> q.running.len() <= at_most
            &&& p.level < q.level || (p.level == q.level && p.started <= q.started)
            &&& step matches Step::Dispatch { slot, module } ==> {
                &&& q.level < levels.len()
                &&& q.started == slot + 1
                &&& slot < levels[q.level]@.len()
                &&& module == levels[q.level]@[slot as int]
                &&& q.running.contains(slot)
                &&& q.level == p.level ==> slot == p.started
                &&& q.level > p.level ==> slot == 0
            }
            &&& !(step is Dispatch) ==> q.level == levels.len() || (q.level == p.level && q.started
                == p.started)
            &&& q.level > p.level ==> {
                &&& h.running.len() == 0
                &&& !h.stopped
                &&& p.started == levels[p.level]@.len()
                &&& forall|m: int| p.level < m < q.level ==> (#[trigger] levels[m])@.len() == 0
            }
            &&& q.level == p.level ==> forall|s: usize| #[trigger]
                h.running.contains(s) ==> q.running.contains(s)
            &&& q.level == p.level ==> forall|s: usize| #[trigger]
                q.running.contains(s) ==> h.running.contains(s) || s >= p.started
            &&& q.stopped == h.stopped
            &&& step is Done ==> q.running.len() == 0 && (q.level == levels.len() || (q.stopped
                && q.started == levels[q.level]@.len()))
            &&& at_most >= 1 && step is Wait ==> q.running.len() > 0
        }),
{
    let h = told(p, end);
    if let Some((slot, stops)) = end {
        without_removes(p.running, slot);
        assert forall|s: usize| #[trigger] h.running.contains(s) implies s < h.started by {
            if p.running.contains(slot) && s != slot {
                assert(without(p.running, slot).contains(s));
            }
            assert(p.running.contains(s));
        }
    }
    if p.level < levels.len() {
        next_level_is_ahead(levels, p.level + 1);
    }
    let (q, step) = stepped(levels, at_most, h);
    if let Step::Dispatch { slot, .. } = step {
        assert(p.level < levels.len());
        let before = if q.level == p.level {
            h.running
        } else {
            Seq::<usize>::empty()
        };
        assert(before.len() == h.running.len());
        assert(before =~= h.running);
        assert(levels[q.level]@.len() == levels[q.level].len());
        assert(slot == (if q.level == p.level { p.started } else { 0 }));
        assert(q.running == before.push(slot));
        assert(q.running[before.len() as int] == slot);
        assert forall|s: usize| #[trigger] q.running.contains(s) implies s < q.started by {
            let i = choose|i: int| 0 <= i < q.running.len() && q.running[i] == s;
            if i < before.len() {
                assert(before[i] == s);
                assert(h.running.contains(s));
            }
        }
        assert forall|s: usize| q.level == p.level && #[trigger] q.running.contains(
            s,
        ) implies h.running.contains(s) || s >= p.started by {
            let i = choose|i: int| 0 <= i < q.running.len() && q.running[i] == s;
            if i < before.len() {
                assert(h.running[i] == s);
            }
        }
        assert forall|i: int, j: int| 0 <= i < j < q.running.len() implies q.running[i]
            != q.running[j] by {
            if j == before.len() {
                assert(h.running.contains(before[i]));
            }
        }
        assert forall|s: usize| #[trigger] h.running.contains(s) implies q.running.contains(s) by {
            let i = choose|i: int| 0 <= i < h.running.len() && h.running[i] == s;
            assert(q.running[i] == s);
        }
    }
}

/// The states of a run are sound, and never are more tasks in flight than are permitted.
pub proof fn permits_are_kept(
    levels: Seq<Vec<usize>>,
    at_most: nat,
    states: Seq<Progress>,
    ends: Seq<Option<(usize, bool)>>,
    steps: Seq<Step>,
    k: int,
)
    requires
        is_course(levels, at_most, states, ends, steps),
        at_most >= 1,
        0 <= k < states.len(),
    ensures
        is_sound(levels, states[k]),
        states[k].running.len() <= at_most,
    decreases k,
{
    if k > 0 {
        permits_are_kept(levels, at_most, states, ends, steps, k - 1);
        let step = steps[k - 1];
        step_is_sound(levels, at_most, states[k - 1], ends[k - 1]);
    }
}

/// A run never goes back: neither to an earlier level, nor to an earlier module of its level.
proof fn never_back(
    levels: Seq<Vec<usize>>,
    at_most: nat,
    states: Seq<Progress>,
    ends: Seq<Option<(usize, bool)>>,
    steps: Seq<Step>,
    k: int,
    j: int,
)
    requires
        is_course(levels, at_most, states, ends, steps),
        at_most >= 1,
        0 <= k <= j < states.len(),
    ensures
        states[k].level < states[j].level || (states[k].level == states[j].level
            && states[k].started <= states[j].started),
    decreases j - k,
{
    if k < j {
        never_back(levels, at_most, states, ends, steps, k, j - 1);
        permits_are_kept(levels, at_most, states, ends, steps, j - 1);
        let step = steps[j - 1];
        step_is_sound(levels, at_most, states[j - 1], ends[j - 1]);
    }
}

/// A task that was started is in flight until its end is heard. So the tasks in flight are
/// all those that were started and have not ended.
pub proof fn task_runs_until_its_end(
    levels: Seq<Vec<usize>>,
    at_most: nat,
    states: Seq<Progress>,
    ends: Seq<Option<(usize, bool)>>,
    steps: Seq<Step>,
    k: int,
    level: int,
    slot: usize,
    j: int,
)
    requires
        is_course(levels, at_most, states, ends, steps),
        at_most >= 1,
        starts(states, steps, k, level, slot),
        k < j < states.len(),
    ensures
        (states[j].level == level && states[j].running.contains(slot)) || ends_within(
            states,
            ends,
            level,
            slot,
            k + 1,
            j,
        ),
    decreases j,
{
    permits_are_kept(levels, at_most, states, ends, steps, j - 1);
    step_is_sound(levels, at_most, states[j - 1], ends[j - 1]);
    let step = steps[j - 1];
    if j > k + 1 {
        task_runs_until_its_end(levels, at_most, states, ends, steps, k, level, slot, j - 1);
        if ends_within(states, ends, level, slot, k + 1, j - 1) {
            let i = choose|i: int|
                k + 1 <= i < j - 1 && states[i].level == level && states[i].running.contains(slot)
                    && (#[trigger] ends[i] matches Some((s, _)) && s == slot);
            assert(ends_within(states, ends, level, slot, k + 1, j));
        } else {
            let p = states[j - 1];
            let end = ends[j - 1];
            let h = told(p, end);
            if let Some((s, _)) = end {
                if s == slot {
                    assert(ends_within(states, ends, level, slot, k + 1, j));
                } else {
                    without_removes(p.running, s);
                    assert(without(p.running, s).contains(slot));
                    assert(h.running.contains(slot));
                }
            }
            if !ends_within(states, ends, level, slot, k + 1, j) {
                assert(h.running.contains(slot));
            }
        }
    }
}

/// A task that ended does not run again.
pub proof fn ended_task_stays_ended(
    levels: Seq<Vec<usize>>,
    at_most: nat,
    states: Seq<Progress>,
    ends: Seq<Option<(usize, bool)>>,
    steps: Seq<Step>,
    i: int,
    slot: usize,
    j: int,
)
    requires
        is_course(levels, at_most, states, ends, steps),
        at_most >= 1,
        0 <= i < j < states.len(),
        ends[i] matches Some((s, _)) && s == slot && states[i].running.contains(slot),
    ensures
        states[j].level > states[i].level || (states[j].level == states[i].level
            && !states[j].running.contains(slot) && states[j].started > slot),
    decreases j,
{
    permits_are_kept(levels, at_most, states, ends, steps, j - 1);
    step_is_sound(levels, at_most, states[j - 1], ends[j - 1]);
    let step = steps[j - 1];
    let p = states[j - 1];
    if i < j - 1 {
        ended_task_stays_ended(levels, at_most, states, ends, steps, i, slot, j - 1);
        if let Some((s, _)) = ends[j - 1] {
            without_removes(p.running, s);
            if s != slot {
                assert(without(p.running, s).contains(slot) == p.running.contains(slot));
            }
        }
    } else {
        without_removes(p.running, slot);
    }
    assert(!told(p, ends[j - 1]).running.contains(slot) || states[j].level > states[i].level);
}

/// What a run has passed, it has started: every module of the levels before, and those of its
/// level as far as it is.
pub proof fn passed_is_started(
    levels: Seq<Vec<usize>>,
    at_most: nat,
    states: Seq<Progress>,
    ends: Seq<Option<(usize, bool)>>,
    steps: Seq<Step>,
    j: int,
    level: int,
    slot: usize,
) -> (k: int)
    requires
        is_course(levels, at_most, states, ends, steps),
        at_most >= 1,
        0 <= j < states.len(),
        0 <= level < levels.len(),
        level < states[j].level ==> slot < levels[level]@.len(),
        level == states[j].level ==> slot < states[j].started,
        level <= states[j].level,
    ensures
        0 <= k < j,
        starts(states, steps, k, level, slot),
        steps[k] == (Step::Dispatch { slot, module: levels[level]@[slot as int] }),
    decreases j,
{
    if j == 0 {
        assert(false);
        0
    } else {
        let p = states[j - 1];
        let q = states[j];
        let step = steps[j - 1];
        permits_are_kept(levels, at_most, states, ends, steps, j - 1);
        step_is_sound(levels, at_most, p, ends[j - 1]);
        if q.level == level && step is Dispatch && slot == q.started - 1 {
            j - 1
        } else {
            if level > p.level && level < q.level {
                assert(levels[level]@.len() == 0);
            }
            passed_is_started(levels, at_most, states, ends, steps, j - 1, level, slot)
        }
    }
}

/// Every module is started at most once.
pub proof fn started_at_most_once(
    levels: Seq<Vec<usize>>,
    at_most: nat,
    states: Seq<Progress>,
    ends: Seq<Option<(usize, bool)>>,
    steps: Seq<Step>,
    k: int,
    j: int,
)
    requires
        is_course(levels, at_most, states, ends, steps),
        at_most >= 1,
        distinct(levels),
        0 <= k < j < steps.len(),
        steps[k] is Dispatch,
        steps[j] is Dispatch,
    ensures
        steps[k]->module != steps[j]->module,
{
    permits_are_kept(levels, at_most, states, ends, steps, k);
    step_is_sound(levels, at_most, states[k], ends[k]);
    permits_are_kept(levels, at_most, states, ends, steps, j);
    step_is_sound(levels, at_most, states[j], ends[j]);
    never_back(levels, at_most, states, ends, steps, k + 1, j);
    let a = states[k + 1];
    let b = states[j + 1];
    let x = steps[k]->slot as int;
    let y = steps[j]->slot as int;
    assert(levels[a.level]@[x] == steps[k]->module);
    assert(levels[b.level]@[y] == steps[j]->module);
}

/// A level starts after all of the levels before ended: where a module of a later level is
/// started, every module of an earlier one was started before, and its end was heard.
pub proof fn levels_wait_for_each_other(
    levels: Seq<Vec<usize>>,
    at_most: nat,
    states: Seq<Progress>,
    ends: Seq<Option<(usize, bool)>>,
    steps: Seq<Step>,
    j: int,
    level: int,
    slot: usize,
) -> (k: int)
    requires
        is_course(levels, at_most, states, ends, steps),
        at_most >= 1,
        0 <= j < steps.len(),
        steps[j] is Dispatch,
        0 <= level < states[j + 1].level,
        level < levels.len(),
        slot < levels[level]@.len(),
    ensures
        0 <= k < j,
        starts(states, steps, k, level, slot),
        steps[k] == (Step::Dispatch { slot, module: levels[level]@[slot as int] }),
        ends_within(states, ends, level, slot, k + 1, j + 1),
{
    permits_are_kept(levels, at_most, states, ends, steps, j);
    step_is_sound(levels, at_most, states[j], ends[j]);
    let k = passed_is_started(levels, at_most, states, ends, steps, j + 1, level, slot);
    task_runs_until_its_end(levels, at_most, states, ends, steps, k, level, slot, j + 1);
    assert(states[j + 1].level != level);
    assert(k < j) by {
        if k == j {
            assert(states[k + 1].level == level);
        }
    }
    k
}

/// Once a task ended so that no further level starts, the level stays the last one; the rest
/// of it still starts, and the run is done when all of it ended.
pub proof fn stop_ends_with_its_level(
    levels: Seq<Vec<usize>>,
    at_most: nat,
    states: Seq<Progress>,
    ends: Seq<Option<(usize, bool)>>,
    steps: Seq<Step>,
    i: int,
    j: int,
)
    requires
        is_course(levels, at_most, states, ends, steps),
        at_most >= 1,
        0 <= i < j < states.len(),
        ends[i] matches Some((slot, stops)) && stops && states[i].running.contains(slot),
    ensures
        states[j].level == states[i].level,
        states[j].stopped,
        steps[j - 1] is Dispatch ==> levels[states[i].level]@.contains(steps[j - 1]->module),
        steps[j - 1] is Done ==> states[j].started == levels[states[i].level]@.len()
            && states[j].running.len() == 0,
    decreases j,
{
    permits_are_kept(levels, at_most, states, ends, steps, j - 1);
    step_is_sound(levels, at_most, states[j - 1], ends[j - 1]);
    let step = steps[j - 1];
    if i < j - 1 {
        stop_ends_with_its_level(levels, at_most, states, ends, steps, i, j - 1);
    }
    permits_are_kept(levels, at_most, states, ends, steps, i);
    if let Step::Dispatch { slot, module } = step {
        assert(levels[states[j].level]@[slot as int] == module);
    }
}

/// A run that is done and was not stopped has passed all levels.
pub proof fn unstopped_run_starts_all(
    levels: Seq<Vec<usize>>,
    at_most: nat,
    states: Seq<Progress>,
    ends: Seq<Option<(usize, bool)>>,
    steps: Seq<Step>,
    level: int,
    slot: usize,
) -> (k: int)
    requires
        is_course(levels, at_most, states, ends, steps),
        at_most >= 1,
        steps.len() > 0,
        steps.last() is Done,
        !states.last().stopped,
        0 <= level < levels.len(),
        slot < levels[level]@.len(),
    ensures
        0 <= k < steps.len(),
        starts(states, steps, k, level, slot),
        steps[k] == (Step::Dispatch { slot, module: levels[level]@[slot as int] }),
        ends_within(states, ends, level, slot, k + 1, ends.len() as int),
{
    let n = steps.len() as int;
    permits_are_kept(levels, at_most, states, ends, steps, n - 1);
    step_is_sound(levels, at_most, states[n - 1], ends[n - 1]);
    let step = steps[n - 1];
    let k = passed_is_started(levels, at_most, states, ends, steps, n, level, slot);
    task_runs_until_its_end(levels, at_most, states, ends, steps, k, level, slot, n);
    k
}

/// Workers are neither idle nor overcommitted: while a module of the level waits to be started,
/// as many tasks run as there are workers, and never more; there is always at least one.
pub proof fn workers_are_kept_busy(
    levels: Seq<Vec<usize>>,
    budget: usize,
    states: Seq<Progress>,
    ends: Seq<Option<(usize, bool)>>,
    steps: Seq<Step>,
    k: int,
)
    requires
        is_course(levels, permits(budget), states, ends, steps),
        0 <= k < steps.len(),
    ensures
        states[k + 1].running.len() <= budget || states[k + 1].running.len() <= 1,
        steps[k] is Wait && states[k + 1].started < levels[states[k + 1].level]@.len()
            ==> states[k + 1].running.len() == (if budget == 0 {
            1
        } else {
            budget as int
        }),
        steps[k] is Wait ==> states[k + 1].running.len() > 0,
{
    permits_are_kept(levels, permits(budget), states, ends, steps, k);
    permits_are_kept(levels, permits(budget), states, ends, steps, k + 1);
    step_is_sound(levels, permits(budget), states[k], ends[k]);
    let h = told(states[k], ends[k]);
    assert((states[k + 1], steps[k]) == stepped(levels, permits(budget), h));
}

/// The modules of a level are started in the order of the level, each in its own slot.
pub proof fn modules_start_in_their_order(
    levels: Seq<Vec<usize>>,
    at_most: nat,
    states: Seq<Progress>,
    ends: Seq<Option<(usize, bool)>>,
    steps: Seq<Step>,
    k: int,
)
    requires
        is_course(levels, at_most, states, ends, steps),
        at_most >= 1,
        0 <= k < steps.len(),
        steps[k] is Dispatch,
    ensures
        states[k + 1].level < levels.len(),
        steps[k]->slot == states[k + 1].started - 1,
        steps[k]->module == levels[states[k + 1].level]@[steps[k]->slot as int],
        states[k + 1].running.contains(steps[k]->slot),
{
    permits_are_kept(levels, at_most, states, ends, steps, k);
    step_is_sound(levels, at_most, states[k], ends[k]);
    assert((states[k + 1], steps[k]) == stepped(levels, at_most, told(states[k], ends[k])));
}

/// As many tasks run at a time as were asked for, and one where none were.
pub proof fn at_least_one_task_runs(budget: usize)
    ensures
        permits(budget) >= 1,
        budget >= 1 ==> permits(budget) == budget,
        budget == 0 ==> permits(budget) == 1,
{
}

} // verus!
