//! The worker: an ordered list of replay units served round-robin, forever.
//! Each worker turn gives exactly one unit one replay turn, whatever that
//! turn's outcome is, and then the turn passes to the next unit in list
//! order, wrapping around.

use vstd::prelude::*;

use crate::replay::ReplayModel;
use crate::replay::ReplayUnit;
use crate::replay::run_model;
use crate::replay::turn_model;
use crate::round_robin::lemma_round_robin_step;
use crate::round_robin::round_robin_count;
use crate::strategy::WrapStrategy;

verus! {

/// The mathematical state of one worker: its units' states, in the fixed
/// list order, and the index of the unit whose turn is next.
#[verifier::ext_equal]
pub struct WorkerModel {
    pub units: Seq<ReplayModel>,
    pub next: nat,
}

impl WorkerModel {
    /// A worker owns at least one unit, stands on one of them, and every
    /// unit is well formed.
    pub open spec fn wf(self) -> bool {
        &&& self.units.len() > 0
        &&& self.next < self.units.len()
        &&& forall|i: int| 0 <= i < self.units.len() ==> #[trigger] self.units[i].wf()
    }
}

/// One worker turn: the unit whose turn it is takes one replay turn, then
/// the turn passes to the next unit in list order, wrapping around.
pub open spec fn worker_turn(w: WorkerModel, s: WrapStrategy) -> WorkerModel {
    WorkerModel {
        units: w.units.update(w.next as int, turn_model(w.units[w.next as int], s)),
        next: ((w.next + 1) % w.units.len()) as nat,
    }
}

/// The worker's state after `t` worker turns.
pub open spec fn run_worker(w: WorkerModel, s: WrapStrategy, t: nat) -> WorkerModel
    decreases t,
{
    if t == 0 {
        w
    } else {
        worker_turn(run_worker(w, s, (t - 1) as nat), s)
    }
}

/// Round-robin fairness: after `t` worker turns from the head of the list,
/// worker turn number `t` stands at unit `t % n`, and each unit `i` has
/// taken exactly `round_robin_count(t, n, i)` replay turns — one turn in
/// every window of `n` worker turns, regardless of each turn's outcome.
/// Each unit's state is exactly a solo run of that many replay turns: units
/// sharing a worker never touch each other.
pub proof fn lemma_worker_fair(w: WorkerModel, s: WrapStrategy, t: nat)
    requires
        w.wf(),
        w.next == 0,
    ensures
        ({
            let r = run_worker(w, s, t);
            let n = w.units.len();
            &&& r.units.len() == n
            &&& r.next == t % n
            &&& forall|i: int|
                0 <= i < n ==> r.units[i] == run_model(
                    w.units[i],
                    s,
                    round_robin_count(t, n, i as nat),
                )
        }),
    decreases t,
{
    let n = w.units.len();
    if t == 0 {
        vstd::arithmetic::div_mod::lemma_small_mod(0, n);
        assert(forall|i: int|
            0 <= i < n ==> run_worker(w, s, 0).units[i] == run_model(
                w.units[i],
                s,
                round_robin_count(0, n, i as nat),
            ));
    } else {
        let t0 = (t - 1) as nat;
        lemma_worker_fair(w, s, t0);
        let r0 = run_worker(w, s, t0);
        let served = t0 % n;
        vstd::arithmetic::div_mod::lemma_mod_bound(t0 as int, n as int);
        assert forall|i: int|
            0 <= i < n implies run_worker(w, s, t).units[i] == run_model(
            w.units[i],
            s,
            round_robin_count(t, n, i as nat),
        ) by {
            lemma_round_robin_step(t0, n, i as nat);
        }
        lemma_round_robin_step(t0, n, served);
        assert(round_robin_count(t, n, served) == round_robin_count(t0, n, served) + 1);
        lemma_turn_index_step(t0, n);
    }
}

/// The next-unit index after one more worker turn.
proof fn lemma_turn_index_step(t: nat, n: nat)
    requires
        n > 0,
    ensures
        (t % n + 1) % n == (t + 1) % n,
{
    let d = n as int;
    let q = t as int / d;
    let r = t as int % d;
    vstd::arithmetic::div_mod::lemma_mod_bound(t as int, d);
    vstd::arithmetic::div_mod::lemma_fundamental_div_mod(t as int, d);
    if r + 1 < d {
        vstd::arithmetic::div_mod::lemma_small_mod((r + 1) as nat, n);
        vstd::arithmetic::div_mod::lemma_fundamental_div_mod_converse(t as int + 1, d, q, r + 1);
    } else {
        assert((q + 1) * d == q * d + d) by (nonlinear_arith);
        vstd::arithmetic::div_mod::lemma_fundamental_div_mod_converse(t as int + 1, d, q + 1, 0);
        vstd::arithmetic::div_mod::lemma_fundamental_div_mod_converse(d, d, 1, 0);
    }
}

/// A worker: an ordered, exclusively owned list of replay units, served
/// round-robin in list order for the process lifetime. The caller sleeps
/// for the configured interval after every `tick`.
#[derive(Debug)]
pub struct Worker {
    /// The units assigned to this worker, in discovery order.
    pub units: Vec<ReplayUnit>,
    /// Index of the unit whose turn is next.
    pub next: usize,
}

impl View for Worker {
    type V = WorkerModel;

    open spec fn view(&self) -> WorkerModel {
        WorkerModel {
            units: Seq::new(self.units@.len(), |i: int| self.units@[i]@),
            next: self.next as nat,
        }
    }
}

impl Worker {
    pub open spec fn wf(self) -> bool {
        self@.wf()
    }

    /// A worker over `units`, serving them from the first.
    pub fn new(units: Vec<ReplayUnit>) -> (w: Worker)
        requires
            units@.len() > 0,
            forall|i: int| 0 <= i < units@.len() ==> (#[trigger] units@[i])@.wf(),
        ensures
            w@ == (WorkerModel {
                units: Seq::new(units@.len(), |i: int| units@[i]@),
                next: 0nat,
            }),
            w.wf(),
    {
        Worker { units, next: 0 }
    }

    /// One worker turn: one replay turn for the unit whose turn it is, then
    /// the turn passes on.
    pub fn tick(&mut self, strategy: WrapStrategy)
        requires
            old(self).wf(),
        ensures
            final(self)@ == worker_turn(old(self)@, strategy),
            final(self).wf(),
    {
        let n = self.units.len();
        proof {
            assert(old(self)@.units[old(self).next as int].wf());
            assert(old(self)@.units[old(self).next as int] == old(self).units@[old(
                self,
            ).next as int]@);
        }
        let unit = &mut self.units[self.next];
        unit.step(strategy);
        self.next = self.next + 1;
        if self.next == n {
            self.next = 0;
        }
        proof {
            let m = old(self)@;
            if m.next + 1 < n {
                vstd::arithmetic::div_mod::lemma_small_mod((m.next + 1) as nat, n as nat);
            } else {
                vstd::arithmetic::div_mod::lemma_fundamental_div_mod_converse(
                    n as int,
                    n as int,
                    1,
                    0,
                );
            }
            assert(self@ =~= worker_turn(m, strategy));
        }
    }

    /// Runs `t` worker turns in a row.
    pub fn run_ticks(&mut self, strategy: WrapStrategy, t: usize)
        requires
            old(self).wf(),
        ensures
            final(self)@ == run_worker(old(self)@, strategy, t as nat),
            final(self).wf(),
    {
        let mut i: usize = 0;
        while i < t
            invariant
                i <= t,
                self.wf(),
                self@ == run_worker(old(self)@, strategy, i as nat),
            decreases t - i,
        {
            self.tick(strategy);
            i = i + 1;
        }
    }
}

} // verus!
