//! The per-file replay cycle: one input file's lines flow, one line per
//! turn, into one output file; at end of input the wrap strategy decides
//! what becomes of the output before the cursor goes back to the start.

use vstd::prelude::*;

use crate::strategy::WrapStrategy;

verus! {

/// The mathematical state of one replay unit: the fixed lines of its input
/// file, the read cursor, and the lines now in the output file and in the
/// rotated file, if one exists.
#[verifier::ext_equal]
pub struct ReplayModel {
    /// The input file's lines, each with its terminator, fixed for the run.
    pub lines: Seq<Seq<char>>,
    /// Index of the next unread input line; `lines.len()` means end of input.
    pub cursor: nat,
    /// The lines now in the output file.
    pub out: Seq<Seq<char>>,
    /// The lines in the rotated output file, if one exists.
    pub rotated: Option<Seq<Seq<char>>>,
}

impl ReplayModel {
    /// The cursor stands on a line of the input, or just past the last one.
    pub open spec fn wf(self) -> bool {
        self.cursor <= self.lines.len()
    }
}

/// One turn of the replay cycle on a unit's state: before end of input, the
/// line under the cursor is emitted; at end of input the wrap strategy is
/// applied to the output and the cursor goes back to the start.
pub open spec fn turn_model(m: ReplayModel, s: WrapStrategy) -> ReplayModel {
    if m.cursor < m.lines.len() {
        ReplayModel { cursor: m.cursor + 1, out: m.out.push(m.lines[m.cursor as int]), ..m }
    } else {
        match s {
            WrapStrategy::Append => ReplayModel { cursor: 0, ..m },
            WrapStrategy::Truncate => ReplayModel { cursor: 0, out: Seq::empty(), ..m },
            WrapStrategy::Rotate => ReplayModel {
                cursor: 0,
                out: Seq::empty(),
                rotated: Some(m.out),
                ..m
            },
        }
    }
}

/// The state after `t` turns.
pub open spec fn run_model(m: ReplayModel, s: WrapStrategy, t: nat) -> ReplayModel
    decreases t,
{
    if t == 0 {
        m
    } else {
        turn_model(run_model(m, s, (t - 1) as nat), s)
    }
}

/// `lines` concatenated to itself `n` times.
pub open spec fn repeat_lines(lines: Seq<Seq<char>>, n: nat) -> Seq<Seq<char>>
    decreases n,
{
    if n == 0 {
        Seq::empty()
    } else {
        repeat_lines(lines, (n - 1) as nat) + lines
    }
}

/// A full cycle over an input of `k` lines takes `k + 1` turns: `k` emitting
/// turns, then one wrap turn. This relates the quotient and remainder of `t`
/// and `t + 1` by the cycle length.
proof fn lemma_cycle_step(k: nat, t: nat)
    ensures
        t % (k + 1) <= k,
        t % (k + 1) < k ==> (t + 1) % (k + 1) == t % (k + 1) + 1 && (t + 1) / (k + 1) == t / (
        k + 1),
        t % (k + 1) == k ==> (t + 1) % (k + 1) == 0 && (t + 1) / (k + 1) == t / (k + 1) + 1,
{
    let d = (k + 1) as int;
    let q = t as int / d;
    let r = t as int % d;
    vstd::arithmetic::div_mod::lemma_mod_bound(t as int, d);
    vstd::arithmetic::div_mod::lemma_fundamental_div_mod(t as int, d);
    if r < k {
        vstd::arithmetic::div_mod::lemma_fundamental_div_mod_converse(t as int + 1, d, q, r + 1);
    } else {
        assert((q + 1) * d == q * d + d) by (nonlinear_arith);
        vstd::arithmetic::div_mod::lemma_fundamental_div_mod_converse(t as int + 1, d, q + 1, 0);
    }
}

/// Under Append, after `t` turns from a fresh cursor the output has grown by
/// the whole input once for every completed cycle of `K + 1` turns, plus the
/// first `t % (K + 1)` lines of the current pass; nothing else changes.
pub proof fn lemma_append_run(m: ReplayModel, t: nat)
    requires
        m.wf(),
        m.cursor == 0,
    ensures
        ({
            let k = m.lines.len();
            let r = run_model(m, WrapStrategy::Append, t);
            &&& r.lines == m.lines
            &&& r.rotated == m.rotated
            &&& r.cursor == t % (k + 1)
            &&& r.out == m.out + repeat_lines(m.lines, t / (k + 1)) + m.lines.take(
                (t % (k + 1)) as int,
            )
        }),
    decreases t,
{
    let k = m.lines.len();
    let s = WrapStrategy::Append;
    if t == 0 {
        vstd::arithmetic::div_mod::lemma_small_mod(0, k + 1);
        vstd::arithmetic::div_mod::lemma_fundamental_div_mod_converse(0, (k + 1) as int, 0, 0);
        assert(m.out =~= m.out + repeat_lines(m.lines, 0) + m.lines.take(0));
    } else {
        let t0 = (t - 1) as nat;
        lemma_append_run(m, t0);
        lemma_cycle_step(k, t0);
        let q = t0 / (k + 1);
        let rem = t0 % (k + 1);
        if rem < k {
            assert(m.lines.take(rem as int).push(m.lines[rem as int]) =~= m.lines.take(
                rem as int + 1,
            ));
            assert((m.out + repeat_lines(m.lines, q) + m.lines.take(rem as int)).push(
                m.lines[rem as int],
            ) =~= m.out + repeat_lines(m.lines, q) + m.lines.take(rem as int + 1));
        } else {
            assert(m.lines.take(k as int) =~= m.lines);
            assert(repeat_lines(m.lines, q + 1) == repeat_lines(m.lines, q) + m.lines);
            assert(m.out + repeat_lines(m.lines, q) + m.lines =~= m.out + repeat_lines(
                m.lines,
                q + 1,
            ) + m.lines.take(0));
        }
    }
}

/// Under Truncate, after `t` turns from a fresh cursor the output holds the
/// part of the current pass emitted since the last wrap; the first wrap (at
/// turn `K + 1`) discards whatever the output held before.
pub proof fn lemma_truncate_run(m: ReplayModel, t: nat)
    requires
        m.wf(),
        m.cursor == 0,
    ensures
        ({
            let k = m.lines.len();
            let r = run_model(m, WrapStrategy::Truncate, t);
            &&& r.lines == m.lines
            &&& r.rotated == m.rotated
            &&& r.cursor == t % (k + 1)
            &&& t <= k ==> r.out == m.out + m.lines.take(t as int)
            &&& t > k ==> r.out == m.lines.take((t % (k + 1)) as int)
        }),
    decreases t,
{
    let k = m.lines.len();
    let s = WrapStrategy::Truncate;
    if t == 0 {
        vstd::arithmetic::div_mod::lemma_small_mod(0, k + 1);
        assert(m.out =~= m.out + m.lines.take(0));
    } else {
        let t0 = (t - 1) as nat;
        lemma_truncate_run(m, t0);
        lemma_cycle_step(k, t0);
        let rem = t0 % (k + 1);
        if t0 <= k {
            vstd::arithmetic::div_mod::lemma_small_mod(t0, k + 1);
        }
        if rem < k {
            assert(m.lines.take(rem as int).push(m.lines[rem as int]) =~= m.lines.take(
                rem as int + 1,
            ));
            if t0 <= k {
                assert((m.out + m.lines.take(t0 as int)).push(m.lines[t0 as int]) =~= m.out
                    + m.lines.take(t0 as int + 1));
            }
        } else {
            assert(run_model(m, s, t).out =~= m.lines.take(0));
        }
    }
}

/// Under Rotate from a fresh start, the output holds the part of the current
/// pass emitted since the last wrap; once a pass has completed (from turn
/// `K + 1` on), the rotated file holds exactly one copy of the input, each
/// later wrap overwriting it with the same content.
pub proof fn lemma_rotate_run(m: ReplayModel, t: nat)
    requires
        m.wf(),
        m.cursor == 0,
        m.out == Seq::<Seq<char>>::empty(),
    ensures
        ({
            let k = m.lines.len();
            let r = run_model(m, WrapStrategy::Rotate, t);
            &&& r.lines == m.lines
            &&& r.cursor == t % (k + 1)
            &&& r.out == m.lines.take((t % (k + 1)) as int)
            &&& t <= k ==> r.rotated == m.rotated
            &&& t > k ==> r.rotated == Some(m.lines)
        }),
    decreases t,
{
    let k = m.lines.len();
    let s = WrapStrategy::Rotate;
    if t == 0 {
        vstd::arithmetic::div_mod::lemma_small_mod(0, k + 1);
        assert(m.out =~= m.lines.take(0));
    } else {
        let t0 = (t - 1) as nat;
        lemma_rotate_run(m, t0);
        lemma_cycle_step(k, t0);
        let rem = t0 % (k + 1);
        if t0 <= k {
            vstd::arithmetic::div_mod::lemma_small_mod(t0, k + 1);
        }
        if rem < k {
            assert(m.lines.take(rem as int).push(m.lines[rem as int]) =~= m.lines.take(
                rem as int + 1,
            ));
        } else {
            assert(m.lines.take(k as int) =~= m.lines);
            assert(run_model(m, s, t).out =~= m.lines.take(0));
        }
    }
}

/// An empty input file never produces a line, under any strategy, though the
/// wrap transition still fires every turn: under Rotate every turn
/// overwrites the rotated file with an empty one.
pub proof fn lemma_empty_input_run(m: ReplayModel, s: WrapStrategy, t: nat)
    requires
        m.lines.len() == 0,
        m.cursor == 0,
        m.out == Seq::<Seq<char>>::empty(),
    ensures
        ({
            let r = run_model(m, s, t);
            &&& r.lines == m.lines
            &&& r.cursor == 0
            &&& r.out == m.out
            &&& s is Rotate && t >= 1 ==> r.rotated == Some(Seq::<Seq<char>>::empty())
            &&& !(s is Rotate) ==> r.rotated == m.rotated
            &&& t == 0 ==> r.rotated == m.rotated
        }),
    decreases t,
{
    if t > 0 {
        lemma_empty_input_run(m, s, (t - 1) as nat);
    }
}

/// After exactly `K` turns under Append — one emitting turn per input line —
/// the output has grown by exactly one copy of the input.
pub proof fn lemma_append_first_pass(m: ReplayModel)
    requires
        m.wf(),
        m.cursor == 0,
    ensures
        run_model(m, WrapStrategy::Append, m.lines.len()).out == m.out + m.lines,
{
    let k = m.lines.len();
    lemma_append_run(m, k);
    vstd::arithmetic::div_mod::lemma_small_mod(k, k + 1);
    vstd::arithmetic::div_mod::lemma_fundamental_div_mod_converse(k as int, (k + 1) as int, 0, k as int);
    assert(m.lines.take(k as int) =~= m.lines);
    assert(m.out + repeat_lines(m.lines, 0) + m.lines =~= m.out + m.lines);
}

/// After `n` full cycles under Append — each `K + 1` turns: `K` emits and
/// one wrap — the output has grown by exactly `n` copies of the input.
pub proof fn lemma_append_full_cycles(m: ReplayModel, n: nat)
    requires
        m.wf(),
        m.cursor == 0,
    ensures
        run_model(m, WrapStrategy::Append, n * (m.lines.len() + 1)).out == m.out + repeat_lines(
            m.lines,
            n,
        ),
        run_model(m, WrapStrategy::Append, n * (m.lines.len() + 1)).cursor == 0,
{
    let k = m.lines.len();
    let t = n * (k + 1);
    lemma_append_run(m, t);
    vstd::arithmetic::div_mod::lemma_fundamental_div_mod_converse(
        t as int,
        (k + 1) as int,
        n as int,
        0,
    );
    assert(m.out + repeat_lines(m.lines, n) + m.lines.take(0) =~= m.out + repeat_lines(m.lines, n));
}

/// Under Truncate from a fresh start, the output never exceeds one copy of
/// the input, and at every end-of-input boundary it holds the input exactly
/// once.
pub proof fn lemma_truncate_bounded(m: ReplayModel, t: nat)
    requires
        m.wf(),
        m.cursor == 0,
        m.out == Seq::<Seq<char>>::empty(),
    ensures
        run_model(m, WrapStrategy::Truncate, t).out.len() <= m.lines.len(),
        run_model(m, WrapStrategy::Truncate, t).cursor == m.lines.len() ==> run_model(
            m,
            WrapStrategy::Truncate,
            t,
        ).out == m.lines,
{
    let k = m.lines.len();
    lemma_truncate_run(m, t);
    lemma_cycle_step(k, t);
    if t <= k {
        vstd::arithmetic::div_mod::lemma_small_mod(t, k + 1);
        assert(m.out + m.lines.take(t as int) =~= m.lines.take(t as int));
    }
    if run_model(m, WrapStrategy::Truncate, t).cursor == k {
        assert(m.lines.take(k as int) =~= m.lines);
    }
}

/// After each full pass under Rotate — `K + 1` turns — the rotated file
/// holds exactly one copy of the input and the output file is empty again.
/// A later pass overwrites the rotated file with identical content: the
/// earlier rotated copy is not preserved, and nothing of it remains.
pub proof fn lemma_rotate_pass(m: ReplayModel, n: nat)
    requires
        m.wf(),
        m.cursor == 0,
        m.out == Seq::<Seq<char>>::empty(),
        n >= 1,
    ensures
        ({
            let r = run_model(m, WrapStrategy::Rotate, n * (m.lines.len() + 1));
            &&& r.rotated == Some(m.lines)
            &&& r.out == m.out
            &&& r.cursor == 0
        }),
{
    let k = m.lines.len();
    let t = n * (k + 1);
    lemma_rotate_run(m, t);
    vstd::arithmetic::div_mod::lemma_fundamental_div_mod_converse(
        t as int,
        (k + 1) as int,
        n as int,
        0,
    );
    vstd::arithmetic::mul::lemma_mul_inequality(1, n as int, (k + 1) as int);
    assert(m.lines.take(0) =~= m.out);
}

/// One input/output file pair under replay, as plain values: the input's
/// lines, the read cursor, and the lines written so far. A caller that
/// replays real files keeps this state in its handles and mirrors every
/// `step` onto them.
#[derive(Debug)]
pub struct ReplayUnit {
    /// The input file's lines, each with its terminator.
    pub lines: Vec<String>,
    /// Index of the next unread input line.
    pub cursor: usize,
    /// The lines now in the output file.
    pub out: Vec<String>,
    /// The lines in the rotated output file, if one exists.
    pub rotated: Option<Vec<String>>,
}

impl View for ReplayUnit {
    type V = ReplayModel;

    open spec fn view(&self) -> ReplayModel {
        ReplayModel {
            lines: self.lines.deep_view(),
            cursor: self.cursor as nat,
            out: self.out.deep_view(),
            rotated: match self.rotated {
                Some(r) => Some(r.deep_view()),
                None => None,
            },
        }
    }
}

impl ReplayUnit {
    pub open spec fn wf(self) -> bool {
        self@.wf()
    }

    /// A fresh unit on `lines`: cursor at the start, empty output, no
    /// rotated file.
    pub fn new(lines: Vec<String>) -> (u: ReplayUnit)
        ensures
            u@.lines == lines.deep_view(),
            u@.cursor == 0,
            u@.out == Seq::<Seq<char>>::empty(),
            u@.rotated is None,
            u.wf(),
    {
        let u = ReplayUnit { lines, cursor: 0, out: Vec::new(), rotated: None };
        proof {
            assert(u@.out =~= Seq::<Seq<char>>::empty());
        }
        u
    }

    /// One turn: emit the line under the cursor, or at end of input apply
    /// the wrap strategy to the output and reset the cursor.
    pub fn step(&mut self, strategy: WrapStrategy)
        requires
            old(self).wf(),
        ensures
            final(self)@ == turn_model(old(self)@, strategy),
            final(self).wf(),
    {
        if self.cursor < self.lines.len() {
            let line = self.lines[self.cursor].clone();
            self.out.push(line);
            self.cursor = self.cursor + 1;
            proof {
                assert(self@ =~= turn_model(old(self)@, strategy));
            }
        } else {
            match strategy {
                WrapStrategy::Append => {},
                WrapStrategy::Truncate => {
                    self.out = Vec::new();
                },
                WrapStrategy::Rotate => {
                    let mut taken: Vec<String> = Vec::new();
                    core::mem::swap(&mut self.out, &mut taken);
                    self.rotated = Some(taken);
                },
            }
            self.cursor = 0;
            proof {
                assert(self@ =~= turn_model(old(self)@, strategy));
            }
        }
    }

    /// Runs `t` turns in a row.
    pub fn run_turns(&mut self, strategy: WrapStrategy, t: usize)
        requires
            old(self).wf(),
        ensures
            final(self)@ == run_model(old(self)@, strategy, t as nat),
            final(self).wf(),
    {
        let mut i: usize = 0;
        while i < t
            invariant
                i <= t,
                self.wf(),
                self@ == run_model(old(self)@, strategy, i as nat),
            decreases t - i,
        {
            self.step(strategy);
            i = i + 1;
        }
    }
}

} // verus!
