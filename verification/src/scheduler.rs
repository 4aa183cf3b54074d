//! How many hosts are examined at once: the rule by which examinations are
//! begun, and the count of those under way.

use vstd::prelude::*;

verus! {

/// The numbers that a schedule keeps.
pub struct Load {
    /// How many hosts there are.
    pub total: nat,
    /// How many examinations may be under way at once.
    pub limit: nat,
    /// How many examinations have been begun.
    pub started: nat,
    /// How many of those have ended.
    pub finished: nat,
}

/// What a schedule says to do next.
#[derive(Clone, Copy, Debug, PartialEq, Eq, Structural)]
pub enum Dispatch {
    /// Begin the examination of the host with this index.
    Start(usize),
    /// Wait until one of the examinations under way has ended.
    Wait,
    /// Every host has been examined.
    Done,
    /// Nothing can ever be begun: the limit is zero.
    Stalled,
}

impl Load {
    /// The load before anything was begun.
    pub open spec fn initial(total: nat, limit: nat) -> Load {
        Load { total, limit, started: 0, finished: 0 }
    }

    /// How many examinations are under way.
    pub open spec fn active(self) -> int {
        self.started - self.finished
    }

    /// What holds of every load that a schedule reaches: no more ended than
    /// begun, no more begun than there are hosts, and no more under way
    /// than the limit allows.
    pub open spec fn sound(self) -> bool {
        self.finished <= self.started <= self.total && self.active() <= self.limit
    }

    /// What is to be done next: with a limit of zero nothing, ever; else
    /// begin the next host while one is left and the limit allows it; else
    /// wait while an examination is under way; and after that there is
    /// nothing left to do.
    pub open spec fn decision(self) -> Dispatch {
        if self.limit == 0 {
            Dispatch::Stalled
        } else if self.started < self.total && self.active() < self.limit {
            Dispatch::Start(self.started as usize)
        } else if self.active() > 0 {
            Dispatch::Wait
        } else {
            Dispatch::Done
        }
    }

    /// The load after the decision was asked for: a host that is to be
    /// begun counts as begun.
    pub open spec fn polled(self) -> Load {
        if self.decision() is Start {
            Load { started: self.started + 1, ..self }
        } else {
            self
        }
    }

    /// The load after an examination was reported as ended. Where none is
    /// under way the report changes nothing.
    pub open spec fn completed(self) -> Load {
        if self.active() > 0 {
            Load { finished: self.finished + 1, ..self }
        } else {
            self
        }
    }
}

/// What can happen to a schedule.
pub enum Tick {
    /// The decision is asked for.
    Poll,
    /// An examination is reported as ended.
    Complete,
}

/// The load that `load` becomes when `ticks` happen to it in order.
pub open spec fn run(load: Load, ticks: Seq<Tick>) -> Load
    decreases ticks.len(),
{
    if ticks.len() == 0 {
        load
    } else {
        let before = run(load, ticks.drop_last());
        match ticks.last() {
            Tick::Poll => before.polled(),
            Tick::Complete => before.completed(),
        }
    }
}

/// Whatever happens to a schedule, and in whatever order, there are never
/// more examinations under way than its limit allows.
pub proof fn lemma_never_over_limit(total: nat, limit: nat, ticks: Seq<Tick>)
    ensures
        run(Load::initial(total, limit), ticks).sound(),
        run(Load::initial(total, limit), ticks).active() <= limit,
        run(Load::initial(total, limit), ticks).total == total,
        run(Load::initial(total, limit), ticks).limit == limit,
    decreases ticks.len(),
{
    if ticks.len() > 0 {
        lemma_never_over_limit(total, limit, ticks.drop_last());
    }
}

/// The hosts are begun in their order, each once: the host that is to be
/// begun is the one after those that were begun before.
pub proof fn lemma_hosts_begun_in_order(load: Load, index: usize)
    requires
        load.sound(),
        load.total <= usize::MAX,
        load.decision() == Dispatch::Start(index),
    ensures
        index == load.started,
        index < load.total,
        load.polled().started == index + 1,
        load.polled().sound(),
{
}

/// A schedule is done only when every host has been examined to the end.
pub proof fn lemma_done_means_all_examined(load: Load)
    requires
        load.sound(),
        load.decision() == Dispatch::Done,
    ensures
        load.started == load.total,
        load.finished == load.total,
{
}

/// A schedule for the examination of a number of hosts, of which only so
/// many may be under way at once.
#[derive(Clone, Copy, Debug)]
pub struct Scheduler {
    total: usize,
    limit: usize,
    started: usize,
    finished: usize,
}

impl View for Scheduler {
    type V = Load;

    closed spec fn view(&self) -> Load {
        Load {
            total: self.total as nat,
            limit: self.limit as nat,
            started: self.started as nat,
            finished: self.finished as nat,
        }
    }
}

impl Scheduler {
    #[verifier::type_invariant]
    spec fn sound(self) -> bool {
        self@.sound()
    }

    /// A schedule for `total` hosts, of which `limit` may be examined at
    /// once.
    pub fn new(total: usize, limit: usize) -> (r: Scheduler)
        ensures
            r@ == Load::initial(total as nat, limit as nat),
    {
        Scheduler { total, limit, started: 0, finished: 0 }
    }

    /// How many examinations are under way: never more than the limit.
    pub fn in_flight(&self) -> (r: usize)
        ensures
            r == self@.active(),
            r <= self@.limit,
            self@.sound(),
    {
        proof {
            use_type_invariant(self);
        }
        self.started - self.finished
    }

    /// How many examinations have ended.
    pub fn finished(&self) -> (r: usize)
        ensures
            r == self@.finished,
    {
        self.finished
    }

    /// Says what to do next. A host that is to be begun counts as begun
    /// from this call on.
    pub fn poll(&mut self) -> (r: Dispatch)
        ensures
            r == old(self)@.decision(),
            final(self)@ == old(self)@.polled(),
            final(self)@.sound(),
    {
        proof {
            use_type_invariant(&*self);
        }
        if self.limit == 0 {
            Dispatch::Stalled
        } else if self.started < self.total && self.started - self.finished < self.limit {
            let index = self.started;
            self.started = self.started + 1;
            Dispatch::Start(index)
        } else if self.started - self.finished > 0 {
            Dispatch::Wait
        } else {
            Dispatch::Done
        }
    }

    /// Takes the report that an examination has ended. The answer is
    /// whether one was under way; if none was, nothing changes.
    pub fn complete(&mut self) -> (r: bool)
        ensures
            r == (old(self)@.active() > 0),
            final(self)@ == old(self)@.completed(),
            final(self)@.sound(),
    {
        proof {
            use_type_invariant(&*self);
        }
        if self.started - self.finished > 0 {
            self.finished = self.finished + 1;
            true
        } else {
            false
        }
    }
}

} // verus!
