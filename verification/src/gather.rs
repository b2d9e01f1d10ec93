//! The gather: one reading from each of the three cells, collected before
//! anything is computed from them.
//!
//! A `Gather` holds no cell and makes no call. Its driver asks it what to do
//! next, performs the request by whatever means it has, and records the
//! reply. Replies of different cells may be recorded in any order.

use vstd::prelude::*;
use crate::cell::{accepts_all, CellView, Role, Unavailable, ValueCell};

verus! {

/// What is known of one cell's reading.
#[derive(Clone, Copy, Debug, PartialEq, Eq, Structural)]
pub enum Slot {
    /// No reply was recorded yet.
    Pending,
    /// The cell answered with this reading.
    Ready(u64),
    /// The request failed: the cell is unavailable.
    Failed,
}

/// What the driver of a gather has to do next.
#[derive(Clone, Copy, Debug, PartialEq, Eq, Structural)]
pub enum Step {
    /// Read the cell in this role and record its reply.
    Ask(Role),
    /// All three cells have answered: combine the readings of the pressure,
    /// volume and temperature cells, in this order.
    Combine(u64, u64, u64),
    /// A request has failed: give up with `Unavailable`.
    Abort,
}

/// The progress of one gather.
#[derive(Clone, Copy, Debug)]
pub struct Gather {
    pressure: Slot,
    volume: Slot,
    temperature: Slot,
}

/// A gather, mathematically: one slot for each role.
pub struct GatherView {
    pub pressure: Slot,
    pub volume: Slot,
    pub temperature: Slot,
}

/// `actix::MailboxError`, the failure of a request that never reached its
/// actor or never came back. Nothing is claimed of it: the library only
/// tells a delivery that failed from one that did not.
#[verifier::external_type_specification]
#[verifier::external_body]
pub struct ExMailboxError(actix::MailboxError);

/// What a request sent through a mailbox comes to: the cell's own reply if
/// the request was delivered and answered, and `Unavailable` if the mailbox
/// failed, whether it was closed or the request timed out.
pub open spec fn reply_of(
    delivery: Result<Result<u64, Unavailable>, actix::MailboxError>,
) -> Result<u64, Unavailable> {
    match delivery {
        Ok(reply) => reply,
        Err(_) => Err(Unavailable),
    }
}

/// Turns the outcome of a request sent through a mailbox into the reply that
/// a gather records: a mailbox failure counts as the cell being unavailable.
pub fn delivered(delivery: Result<Result<u64, Unavailable>, actix::MailboxError>) -> (reply: Result<
    u64,
    Unavailable,
>)
    ensures
        reply == reply_of(delivery),
{
    match delivery {
        Ok(reply) => reply,
        Err(_) => Err(Unavailable),
    }
}

/// The slot that a reply fills.
pub open spec fn slot_of(reply: Result<u64, Unavailable>) -> Slot {
    match reply {
        Ok(reading) => Slot::Ready(reading),
        Err(_) => Slot::Failed,
    }
}

impl GatherView {
    /// The gather in which nothing was recorded.
    pub open spec fn empty() -> GatherView {
        GatherView { pressure: Slot::Pending, volume: Slot::Pending, temperature: Slot::Pending }
    }

    /// The slot of the cell in the given role.
    pub open spec fn slot(self, role: Role) -> Slot {
        match role {
            Role::Pressure => self.pressure,
            Role::Volume => self.volume,
            Role::Temperature => self.temperature,
        }
    }

    /// This gather with the slot of `role` replaced.
    pub open spec fn put(self, role: Role, slot: Slot) -> GatherView {
        match role {
            Role::Pressure => GatherView { pressure: slot, ..self },
            Role::Volume => GatherView { volume: slot, ..self },
            Role::Temperature => GatherView { temperature: slot, ..self },
        }
    }

    /// This gather after a reply of the cell in `role` was recorded. The
    /// first reply of a cell counts; a later one changes nothing.
    pub open spec fn record(self, role: Role, reply: Result<u64, Unavailable>) -> GatherView {
        if self.slot(role) is Pending {
            self.put(role, slot_of(reply))
        } else {
            self
        }
    }

    /// Whether some request has failed.
    pub open spec fn failed(self) -> bool {
        self.pressure is Failed || self.volume is Failed || self.temperature is Failed
    }

    /// How many cells have not answered yet.
    pub open spec fn outstanding(self) -> nat {
        let p: nat = if self.pressure is Pending { 1 } else { 0 };
        let v: nat = if self.volume is Pending { 1 } else { 0 };
        let t: nat = if self.temperature is Pending { 1 } else { 0 };
        p + v + t
    }

    /// What the driver has to do next: give up as soon as one request has
    /// failed; else ask the first cell, in the order pressure, volume,
    /// temperature, that has not answered; else combine the three readings.
    pub open spec fn next(self) -> Step {
        if self.failed() {
            Step::Abort
        } else if self.pressure is Pending {
            Step::Ask(Role::Pressure)
        } else if self.volume is Pending {
            Step::Ask(Role::Volume)
        } else if self.temperature is Pending {
            Step::Ask(Role::Temperature)
        } else {
            Step::Combine(self.pressure->Ready_0, self.volume->Ready_0, self.temperature->Ready_0)
        }
    }
}

/// Replies of different cells may be recorded in either order: the gather
/// ends up the same.
pub proof fn lemma_replies_commute(
    gather: GatherView,
    one: Role,
    reply_one: Result<u64, Unavailable>,
    other: Role,
    reply_other: Result<u64, Unavailable>,
)
    requires
        one != other,
    ensures
        gather.record(one, reply_one).record(other, reply_other) == gather.record(
            other,
            reply_other,
        ).record(one, reply_one),
{
}

/// Of one cell the first reply counts: a second one changes nothing.
pub proof fn lemma_first_reply_stays(
    gather: GatherView,
    role: Role,
    first: Result<u64, Unavailable>,
    second: Result<u64, Unavailable>,
)
    ensures
        gather.record(role, first).record(role, second) == gather.record(role, first),
{
}

/// The readings are combined only when all three cells have answered, and
/// then they are the recorded readings, in the order pressure, volume,
/// temperature.
pub proof fn lemma_combine_needs_all(gather: GatherView, p: u64, v: u64, t: u64)
    ensures
        gather.next() == Step::Combine(p, v, t) <==> gather == (GatherView {
            pressure: Slot::Ready(p),
            volume: Slot::Ready(v),
            temperature: Slot::Ready(t),
        }),
{
}

/// A gather in which all three cells have replied ends in one of two ways:
/// it combines the three readings if every reply was a reading, and gives up
/// if one was a failure. Nothing is combined from fewer than three readings.
pub proof fn lemma_gather_ends(
    pressure: Result<u64, Unavailable>,
    volume: Result<u64, Unavailable>,
    temperature: Result<u64, Unavailable>,
)
    ensures
        GatherView::empty().record(Role::Pressure, pressure).record(Role::Volume, volume).record(
            Role::Temperature,
            temperature,
        ).next() == (if pressure is Ok && volume is Ok && temperature is Ok {
            Step::Combine(pressure->Ok_0, volume->Ok_0, temperature->Ok_0)
        } else {
            Step::Abort
        }),
{
}

/// One failed request ends the gather for good: whatever is recorded after
/// it, the next step is to give up, and no reading is combined.
pub proof fn lemma_failure_is_final(
    gather: GatherView,
    role: Role,
    reply: Result<u64, Unavailable>,
)
    requires
        gather.failed(),
    ensures
        gather.next() == Step::Abort,
        gather.record(role, reply).failed(),
{
}

/// Recording a reply that counts leaves one cell fewer to wait for, and a
/// cell is asked only while it has not answered.
pub proof fn lemma_ask_makes_progress(
    gather: GatherView,
    role: Role,
    reply: Result<u64, Unavailable>,
)
    requires
        gather.next() == Step::Ask(role),
    ensures
        gather.slot(role) is Pending,
        gather.record(role, reply).outstanding() + 1 == gather.outstanding(),
{
}

impl View for Gather {
    type V = GatherView;

    closed spec fn view(&self) -> GatherView {
        GatherView { pressure: self.pressure, volume: self.volume, temperature: self.temperature }
    }
}

impl Gather {
    /// A gather in which no cell has answered.
    pub fn new() -> (gather: Gather)
        ensures
            gather@ == GatherView::empty(),
    {
        Gather { pressure: Slot::Pending, volume: Slot::Pending, temperature: Slot::Pending }
    }

    /// The slot of the cell in the given role.
    pub fn slot(&self, role: Role) -> (slot: Slot)
        ensures
            slot == self@.slot(role),
    {
        match role {
            Role::Pressure => self.pressure,
            Role::Volume => self.volume,
            Role::Temperature => self.temperature,
        }
    }

    /// Records the reply of the cell in `role` and tells whether it counted:
    /// it does if that cell had not answered before, else nothing changes.
    pub fn record(&mut self, role: Role, reply: Result<u64, Unavailable>) -> (counted: bool)
        ensures
            counted == (old(self)@.slot(role) is Pending),
            final(self)@ == old(self)@.record(role, reply),
    {
        let slot = match reply {
            Ok(reading) => Slot::Ready(reading),
            Err(_) => Slot::Failed,
        };
        match role {
            Role::Pressure => {
                if let Slot::Pending = self.pressure {
                    self.pressure = slot;
                    true
                } else {
                    false
                }
            },
            Role::Volume => {
                if let Slot::Pending = self.volume {
                    self.volume = slot;
                    true
                } else {
                    false
                }
            },
            Role::Temperature => {
                if let Slot::Pending = self.temperature {
                    self.temperature = slot;
                    true
                } else {
                    false
                }
            },
        }
    }

    /// What the driver has to do next.
    pub fn next(&self) -> (step: Step)
        ensures
            step == self@.next(),
    {
        match (self.pressure, self.volume, self.temperature) {
            (Slot::Failed, _, _) | (_, Slot::Failed, _) | (_, _, Slot::Failed) => Step::Abort,
            (Slot::Pending, _, _) => Step::Ask(Role::Pressure),
            (_, Slot::Pending, _) => Step::Ask(Role::Volume),
            (_, _, Slot::Pending) => Step::Ask(Role::Temperature),
            (Slot::Ready(p), Slot::Ready(v), Slot::Ready(t)) => Step::Combine(p, v, t),
        }
    }
}

/// The three cells are all running.
pub open spec fn all_running(pressure: CellView, volume: CellView, temperature: CellView) -> bool {
    pressure.running && volume.running && temperature.running
}

/// `outcome` is a possible outcome of a gather over the three cells: a triple
/// of readings, one of each cell in the order given, if all three are
/// running, and `Unavailable` if one is not.
pub open spec fn is_gathered<T: Fn(u64) -> u64>(
    pressure: CellView,
    volume: CellView,
    temperature: CellView,
    transform: T,
    outcome: Result<(u64, u64, u64), Unavailable>,
) -> bool {
    if all_running(pressure, volume, temperature) {
        &&& outcome is Ok
        &&& pressure.is_reading(transform, outcome->Ok_0.0)
        &&& volume.is_reading(transform, outcome->Ok_0.1)
        &&& temperature.is_reading(transform, outcome->Ok_0.2)
    } else {
        outcome == Err::<(u64, u64, u64), Unavailable>(Unavailable)
    }
}

/// What a gather that has recorded only replies of these cells can hold in
/// the slot of one of them.
spec fn slot_agrees<T: Fn(u64) -> u64>(slot: Slot, cell: CellView, transform: T) -> bool {
    match slot {
        Slot::Pending => true,
        Slot::Ready(reading) => cell.running && cell.is_reading(transform, reading),
        Slot::Failed => !cell.running,
    }
}

/// Reads the three cells in the order pressure, volume, temperature, and
/// hands back the three readings in that order. Gives up with `Unavailable`
/// if one of the cells has been torn down.
pub fn gather_from<T: Fn(u64) -> u64>(
    pressure: &ValueCell,
    volume: &ValueCell,
    temperature: &ValueCell,
    transform: &T,
) -> (outcome: Result<(u64, u64, u64), Unavailable>)
    requires
        accepts_all(*transform),
    ensures
        is_gathered(pressure@, volume@, temperature@, *transform, outcome),
{
    let mut progress = Gather::new();
    loop
        invariant
            accepts_all(*transform),
            slot_agrees(progress@.pressure, pressure@, *transform),
            slot_agrees(progress@.volume, volume@, *transform),
            slot_agrees(progress@.temperature, temperature@, *transform),
        decreases progress@.outstanding(),
    {
        match progress.next() {
            Step::Ask(role) => {
                let reply = match role {
                    Role::Pressure => pressure.get(transform),
                    Role::Volume => volume.get(transform),
                    Role::Temperature => temperature.get(transform),
                };
                progress.record(role, reply);
            },
            Step::Combine(p, v, t) => {
                return Ok((p, v, t));
            },
            Step::Abort => {
                return Err(Unavailable);
            },
        }
    }
}

} // verus!
