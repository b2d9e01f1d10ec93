//! The coordinator: gathers one reading from each cell, combines the three
//! and keeps the result until the next recompute.

use vstd::prelude::*;
use crate::cell::{accepts_all, single_valued, CellView, Role, Unavailable, ValueCell};
use crate::gather::{all_running, gather_from, is_gathered};

verus! {

/// The owner of the derived value.
#[derive(Clone, Copy, Debug)]
pub struct Coordinator {
    cached: u64,
    computed: bool,
    running: bool,
}

/// A coordinator, mathematically.
pub struct CoordinatorView {
    /// The value that a read of the cache hands out.
    pub cached: u64,
    /// Whether `cached` came from a recompute; until then it is the value
    /// that the coordinator was made with.
    pub computed: bool,
    /// False once the coordinator has been torn down.
    pub running: bool,
}

/// A function of three scalars that accepts every triple.
pub open spec fn accepts_all_triples<F: Fn(u64, u64, u64) -> u64>(f: F) -> bool {
    forall|p: u64, v: u64, t: u64| call_requires(f, (p, v, t))
}

/// A function of three scalars that gives one result for one triple.
pub open spec fn single_valued_on_triples<F: Fn(u64, u64, u64) -> u64>(f: F) -> bool {
    forall|p: u64, v: u64, t: u64, a: u64, b: u64|
        call_ensures(f, (p, v, t), a) && call_ensures(f, (p, v, t), b) ==> a == b
}

/// `outcome` is a possible outcome of a recompute by a coordinator that is
/// running or not, over the three cells: a result of `combine` on a triple
/// of readings if the coordinator and all three cells are running, and
/// `Unavailable` if one of the four is not.
pub open spec fn is_recomputed<T: Fn(u64) -> u64, F: Fn(u64, u64, u64) -> u64>(
    running: bool,
    pressure: CellView,
    volume: CellView,
    temperature: CellView,
    transform: T,
    combine: F,
    outcome: Result<u64, Unavailable>,
) -> bool {
    if running && all_running(pressure, volume, temperature) {
        &&& outcome is Ok
        &&& exists|p: u64, v: u64, t: u64|
            {
                &&& is_gathered(pressure, volume, temperature, transform, Ok((p, v, t)))
                &&& #[trigger] call_ensures(combine, (p, v, t), outcome->Ok_0)
            }
    } else {
        outcome == Err::<u64, Unavailable>(Unavailable)
    }
}

impl CoordinatorView {
    /// A running coordinator that has computed nothing and holds `initial`.
    pub open spec fn fresh(initial: u64) -> CoordinatorView {
        CoordinatorView { cached: initial, computed: false, running: true }
    }

    /// What a coordinator answers when a recompute has come to `outcome`:
    /// the outcome itself while it runs, `Unavailable` once it was torn down.
    pub open spec fn answer(self, outcome: Result<u64, Unavailable>) -> Result<u64, Unavailable> {
        if self.running {
            outcome
        } else {
            Err(Unavailable)
        }
    }

    /// The coordinator after a recompute has ended with `outcome`: a value
    /// that it answers with replaces the cache, anything else leaves the
    /// coordinator as it was.
    pub open spec fn settled(self, outcome: Result<u64, Unavailable>) -> CoordinatorView {
        match self.answer(outcome) {
            Ok(value) => CoordinatorView { cached: value, computed: true, ..self },
            Err(_) => self,
        }
    }
}

/// The first recompute after startup: with cells made to store `p`, `v` and
/// `t` in the roles pressure, volume and temperature, it succeeds, and its
/// value is a result of `combine` on `p`, `v` and a result of `transform` on
/// `t`. The coordinator then holds that value as computed, whatever it was
/// made with.
pub proof fn lemma_first_recompute<T: Fn(u64) -> u64, F: Fn(u64, u64, u64) -> u64>(
    p: u64,
    v: u64,
    t: u64,
    initial: u64,
    transform: T,
    combine: F,
    outcome: Result<u64, Unavailable>,
)
    requires
        is_recomputed(
            true,
            CellView::fresh(Role::Pressure, p),
            CellView::fresh(Role::Volume, v),
            CellView::fresh(Role::Temperature, t),
            transform,
            combine,
            outcome,
        ),
    ensures
        outcome is Ok,
        exists|read: u64|
            call_ensures(transform, (t,), read) && #[trigger] call_ensures(
                combine,
                (p, v, read),
                outcome->Ok_0,
            ),
        CoordinatorView::fresh(initial).settled(outcome) == (CoordinatorView {
            cached: outcome->Ok_0,
            computed: true,
            running: true,
        }),
{
}

/// A recompute is idempotent: where the transform and the combination are
/// functions, two recomputes over the same cells with no write in between
/// end alike, bit for bit, and the second leaves the coordinator as the
/// first left it.
pub proof fn lemma_recompute_is_idempotent<T: Fn(u64) -> u64, F: Fn(u64, u64, u64) -> u64>(
    coordinator: CoordinatorView,
    pressure: CellView,
    volume: CellView,
    temperature: CellView,
    transform: T,
    combine: F,
    first: Result<u64, Unavailable>,
    second: Result<u64, Unavailable>,
)
    requires
        single_valued(transform),
        single_valued_on_triples(combine),
        is_recomputed(
            coordinator.running,
            pressure,
            volume,
            temperature,
            transform,
            combine,
            first,
        ),
        is_recomputed(
            coordinator.settled(first).running,
            pressure,
            volume,
            temperature,
            transform,
            combine,
            second,
        ),
    ensures
        first == second,
        coordinator.settled(first).settled(second) == coordinator.settled(first),
{
}

/// The three cells after a write of `value` to the one in slot `written`.
pub open spec fn after_write(
    pressure: CellView,
    volume: CellView,
    temperature: CellView,
    written: Role,
    value: u64,
) -> (CellView, CellView, CellView) {
    match written {
        Role::Pressure => (pressure.after_set(value), volume, temperature),
        Role::Volume => (pressure, volume.after_set(value), temperature),
        Role::Temperature => (pressure, volume, temperature.after_set(value)),
    }
}

/// A recompute after a write reflects it: with the coordinator and all three
/// cells running, the value is a result of `combine` on three readings, of
/// which the one of the cell that was written is a reading of the new value,
/// and the other two are readings of what those cells stored before the
/// write.
pub proof fn lemma_recompute_reflects_write<T: Fn(u64) -> u64, F: Fn(u64, u64, u64) -> u64>(
    pressure: CellView,
    volume: CellView,
    temperature: CellView,
    written: Role,
    value: u64,
    transform: T,
    combine: F,
    outcome: Result<u64, Unavailable>,
)
    requires
        all_running(pressure, volume, temperature),
        ({
            let cells = after_write(pressure, volume, temperature, written, value);
            is_recomputed(true, cells.0, cells.1, cells.2, transform, combine, outcome)
        }),
    ensures
        outcome is Ok,
        exists|p: u64, v: u64, t: u64|
            {
                &&& #[trigger] call_ensures(combine, (p, v, t), outcome->Ok_0)
                &&& (if written == Role::Pressure {
                    CellView { raw: value, ..pressure }
                } else {
                    pressure
                }).is_reading(transform, p)
                &&& (if written == Role::Volume {
                    CellView { raw: value, ..volume }
                } else {
                    volume
                }).is_reading(transform, v)
                &&& (if written == Role::Temperature {
                    CellView { raw: value, ..temperature }
                } else {
                    temperature
                }).is_reading(transform, t)
            },
{
}

/// A recompute over cells of which one has been torn down fails, and the
/// value that the cache handed out before it is still there after it.
pub proof fn lemma_failed_recompute_keeps_cache<T: Fn(u64) -> u64, F: Fn(u64, u64, u64) -> u64>(
    coordinator: CoordinatorView,
    pressure: CellView,
    volume: CellView,
    temperature: CellView,
    transform: T,
    combine: F,
    outcome: Result<u64, Unavailable>,
)
    requires
        !all_running(pressure, volume, temperature),
        is_recomputed(
            coordinator.running,
            pressure,
            volume,
            temperature,
            transform,
            combine,
            outcome,
        ),
    ensures
        outcome == Err::<u64, Unavailable>(Unavailable),
        coordinator.settled(outcome) == coordinator,
{
}

impl View for Coordinator {
    type V = CoordinatorView;

    closed spec fn view(&self) -> CoordinatorView {
        CoordinatorView { cached: self.cached, computed: self.computed, running: self.running }
    }
}

impl Coordinator {
    /// A coordinator that has computed nothing yet and hands out `initial`
    /// until it has.
    pub fn new(initial: u64) -> (coordinator: Coordinator)
        ensures
            coordinator@ == CoordinatorView::fresh(initial),
    {
        Coordinator { cached: initial, computed: false, running: true }
    }

    /// The cached value, without a gather.
    pub fn read_cached(&self) -> (value: u64)
        ensures
            value == self@.cached,
    {
        self.cached
    }

    /// Whether a recompute has succeeded since the coordinator was made.
    pub fn has_computed(&self) -> (computed: bool)
        ensures
            computed == self@.computed,
    {
        self.computed
    }

    /// Whether the coordinator still serves requests.
    pub fn is_running(&self) -> (running: bool)
        ensures
            running == self@.running,
    {
        self.running
    }

    /// Tears the coordinator down. The cache stays readable, and every later
    /// recompute is answered with `Unavailable`.
    pub fn stop(&mut self)
        ensures
            final(self)@ == (CoordinatorView { running: false, ..old(self)@ }),
    {
        self.running = false;
    }

    /// Ends a recompute that has come to `outcome` and hands back the
    /// answer: a running coordinator stores a value as the new cache and
    /// passes a failure on with the cache untouched; one that was torn down
    /// stores nothing and answers `Unavailable`.
    pub fn settle(&mut self, outcome: Result<u64, Unavailable>) -> (answer: Result<
        u64,
        Unavailable,
    >)
        ensures
            answer == old(self)@.answer(outcome),
            final(self)@ == old(self)@.settled(outcome),
    {
        if !self.running {
            return Err(Unavailable);
        }
        if let Ok(value) = outcome {
            self.cached = value;
            self.computed = true;
        }
        outcome
    }

    /// Gathers a reading from each of the three cells, applies `combine` to
    /// the readings of the pressure, volume and temperature cells in this
    /// order, stores the result as the new cache and hands it back. If one of
    /// the cells or the coordinator itself has been torn down, nothing is
    /// combined, the cache stays as it was and the answer is `Unavailable`.
    pub fn recompute<T: Fn(u64) -> u64, F: Fn(u64, u64, u64) -> u64>(
        &mut self,
        pressure: &ValueCell,
        volume: &ValueCell,
        temperature: &ValueCell,
        transform: &T,
        combine: &F,
    ) -> (outcome: Result<u64, Unavailable>)
        requires
            accepts_all(*transform),
            accepts_all_triples(*combine),
        ensures
            is_recomputed(
                old(self)@.running,
                pressure@,
                volume@,
                temperature@,
                *transform,
                *combine,
                outcome,
            ),
            final(self)@ == old(self)@.settled(outcome),
    {
        if !self.running {
            return Err(Unavailable);
        }
        match gather_from(pressure, volume, temperature, transform) {
            Ok((p, v, t)) => {
                let value = combine(p, v, t);
                self.settle(Ok(value))
            },
            Err(_) => self.settle(Err(Unavailable)),
        }
    }
}

} // verus!
