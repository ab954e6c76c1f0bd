//! The cadence policies and the scheduler that decides, each tick, which
//! systems run.
use vstd::arithmetic::div_mod::{lemma_fundamental_div_mod, lemma_fundamental_div_mod_converse};
use vstd::prelude::*;

use crate::system::SystemInterface;

verus! {

/// How often a system runs.
#[derive(Debug, Clone, Copy, PartialEq, Eq, Structural)]
pub enum ExecutionPolicy {
    /// On every tick.
    EveryTick,
    /// On the ticks whose number is a multiple of `n`; never when `n` is 0.
    EveryNTicks(u32),
    /// Only when the engine starts, never through the scheduler.
    OnInitOnly,
    /// Never.
    DontExecute,
    /// Only when events call for it, never through the scheduler.
    EventOnly,
}

/// A coarse hint of how long a system takes to run.
#[derive(Debug, Clone, Copy, PartialEq, Eq, Structural)]
pub enum ExecutionTime {
    VeryShort,
    Short,
    Average,
    Long,
    VeryLong,
}

/// What the scheduler saw of one system on a tick: the policy it reported
/// and whether it ran.
#[derive(Debug, Clone, Copy, PartialEq, Eq, Structural)]
pub struct SystemRun {
    pub policy: ExecutionPolicy,
    pub ran: bool,
}

/// Whether a system with `policy` runs through the scheduler on tick number
/// `tick`.
pub open spec fn runs_on(policy: ExecutionPolicy, tick: u128) -> bool {
    match policy {
        ExecutionPolicy::EveryTick => true,
        ExecutionPolicy::EveryNTicks(n) => n != 0 && tick % (n as u128) == 0,
        _ => false,
    }
}

/// Whether a system with `policy` runs on tick number `tick`.
pub fn should_run(policy: ExecutionPolicy, tick: u128) -> (r: bool)
    ensures
        r == runs_on(policy, tick),
{
    match policy {
        ExecutionPolicy::EveryTick => true,
        ExecutionPolicy::EveryNTicks(n) => n != 0 && tick % (n as u128) == 0,
        ExecutionPolicy::OnInitOnly => false,
        ExecutionPolicy::DontExecute => false,
        ExecutionPolicy::EventOnly => false,
    }
}

/// Runs, each tick, the systems that are due.
pub trait Scheduler<W, S: SystemInterface<W>> {
    /// Advances one tick and runs the systems due on it, in list order;
    /// returns, for each system, the policy it reported and whether it ran.
    fn dispatch(&mut self, world: &mut W, systems: &mut Vec<S>) -> Vec<SystemRun>;
}

/// The sequential scheduler: one tick counter, systems run in list order.
pub struct DefaultScheduler {
    tick_nonce: u128,
}

impl DefaultScheduler {
    /// A scheduler before its first tick.
    pub fn new() -> (r: DefaultScheduler)
        ensures
            r.tick() == 0,
    {
        DefaultScheduler { tick_nonce: 0 }
    }

    /// The number of the last tick dispatched.
    pub closed spec fn tick(&self) -> u128 {
        self.tick_nonce
    }

    pub fn tick_nonce(&self) -> (r: u128)
        ensures
            r == self.tick(),
    {
        self.tick_nonce
    }

    /// Advances the tick counter by one (wrapping) and runs, in list order,
    /// each system whose policy makes it due on the new tick; returns, for
    /// each system, its policy and whether it ran. A system that ran was run
    /// once; one that did not is left as it was. The execution time of a
    /// system plays no part.
    pub fn dispatch<W, S: SystemInterface<W>>(&mut self, world: &mut W, systems: &mut Vec<S>) -> (runs: Vec<SystemRun>)
        ensures
            final(self).tick() == old(self).tick().wrapping_add(1),
            final(self).tick() == tick_after(old(self).tick(), 1),
            final(systems)@.len() == old(systems)@.len(),
            runs@.len() == old(systems)@.len(),
            forall|i: int| 0 <= i < runs@.len() ==> (#[trigger] runs@[i]).policy == old(systems)@[i].policy(),
            forall|i: int|
                0 <= i < runs@.len() ==> (#[trigger] runs@[i]).ran == runs_on(runs@[i].policy, final(self).tick()),
            forall|i: int|
                0 <= i < runs@.len() && (#[trigger] runs@[i]).ran ==> old(systems)@[i].ran(&final(systems)@[i]),
            forall|i: int|
                0 <= i < runs@.len() && !(#[trigger] runs@[i]).ran ==> final(systems)@[i] == old(systems)@[i],
    {
        self.tick_nonce = self.tick_nonce.wrapping_add(1);
        let tick = self.tick_nonce;
        let mut runs: Vec<SystemRun> = Vec::new();
        let mut i: usize = 0;
        while i < systems.len()
            invariant
                tick == self.tick(),
                self.tick() == old(self).tick().wrapping_add(1),
                i <= systems@.len(),
                systems@.len() == old(systems)@.len(),
                runs@.len() == i,
                forall|j: int| i <= j < systems@.len() ==> #[trigger] systems@[j] == old(systems)@[j],
                forall|j: int| 0 <= j < i ==> (#[trigger] runs@[j]).policy == old(systems)@[j].policy(),
                forall|j: int| 0 <= j < i ==> (#[trigger] runs@[j]).ran == runs_on(runs@[j].policy, tick),
                forall|j: int| 0 <= j < i && (#[trigger] runs@[j]).ran ==> old(systems)@[j].ran(&systems@[j]),
                forall|j: int| 0 <= j < i && !(#[trigger] runs@[j]).ran ==> systems@[j] == old(systems)@[j],
            decreases old(systems)@.len() - i,
        {
            let policy = systems[i].execution_policy();
            let due = should_run(policy, tick);
            if due {
                systems[i].run_on_world(world);
            }
            runs.push(SystemRun { policy, ran: due });
            i = i + 1;
        }
        runs
    }
}

impl Default for DefaultScheduler {
    fn default() -> (r: DefaultScheduler)
        ensures
            r.tick() == 0,
    {
        DefaultScheduler::new()
    }
}

impl<W, S: SystemInterface<W>> Scheduler<W, S> for DefaultScheduler {
    fn dispatch(&mut self, world: &mut W, systems: &mut Vec<S>) -> Vec<SystemRun> {
        DefaultScheduler::dispatch(self, world, systems)
    }
}

/// The tick number after `j` dispatches from tick `start`, wrapping.
pub open spec fn tick_after(start: u128, j: nat) -> u128 {
    ((start + j) % (u128::MAX as int + 1)) as u128
}

/// How many times a system with `policy` runs over the `k` dispatches that
/// follow tick `start`.
pub open spec fn runs_over(policy: ExecutionPolicy, start: u128, k: nat) -> nat
    decreases k,
{
    if k == 0 {
        0
    } else {
        runs_over(policy, start, (k - 1) as nat) + if runs_on(policy, tick_after(start, k)) {
            1nat
        } else {
            0nat
        }
    }
}

/// Over any number of dispatches, from any tick, a system that must not
/// execute never runs, and one that runs every tick runs once per dispatch.
pub proof fn lemma_cadence_extremes(start: u128, k: nat)
    ensures
        runs_over(ExecutionPolicy::DontExecute, start, k) == 0,
        runs_over(ExecutionPolicy::EveryTick, start, k) == k,
    decreases k,
{
    if k > 0 {
        lemma_cadence_extremes(start, (k - 1) as nat);
    }
}

/// From the first tick on, a system that runs every `n` ticks runs `k / n`
/// times over `k` dispatches: once on each multiple of `n`.
pub proof fn lemma_every_n_ticks_count(n: u32, k: nat)
    requires
        n > 0,
        k <= u128::MAX,
    ensures
        runs_over(ExecutionPolicy::EveryNTicks(n), 0, k) == k / (n as nat),
    decreases k,
{
    if k > 0 {
        lemma_every_n_ticks_count(n, (k - 1) as nat);
        let d = n as int;
        let x = k - 1;
        let q = x / d;
        let r = x % d;
        lemma_fundamental_div_mod(x, d);
        assert(0 <= r < d);
        assert(x == q * d + r) by (nonlinear_arith)
            requires
                x == d * q + r,
        ;
        assert(tick_after(0, k) == k);
        if r == d - 1 {
            assert((q + 1) * d == q * d + d) by (nonlinear_arith);
            lemma_fundamental_div_mod_converse(k as int, d, q + 1, 0);
        } else {
            lemma_fundamental_div_mod_converse(k as int, d, q, r + 1);
        }
    }
}

} // verus!
