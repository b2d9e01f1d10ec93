//! A value cell: one mutable scalar with serialized access.
//!
//! A cell stores the raw value it was last given. What a read hands out
//! depends on the cell's role: pressure and volume cells hand out the stored
//! value verbatim, the temperature cell hands it out through a read transform
//! that the caller supplies. Writes always store the raw value.

use vstd::prelude::*;

verus! {

/// The part a cell plays in the system.
#[derive(Clone, Copy, Debug, PartialEq, Eq, Structural)]
pub enum Role {
    Pressure,
    Volume,
    Temperature,
}

/// The only failure there is: the cell or coordinator that was addressed has
/// been torn down and takes no more requests.
#[derive(Clone, Copy, Debug, PartialEq, Eq, Structural)]
pub struct Unavailable;

/// A request that a cell serves.
#[derive(Clone, Copy, Debug, PartialEq, Eq, Structural)]
pub enum CellRequest {
    /// Read the current value.
    Get,
    /// Replace the current value with the given one.
    Store(u64),
}

/// A request on its way to the cell in one of the three roles.
#[derive(Clone, Copy, Debug, PartialEq, Eq, Structural)]
pub struct Addressed {
    pub to: Role,
    pub request: CellRequest,
}

/// One independently owned scalar.
#[derive(Clone, Copy, Debug)]
pub struct ValueCell {
    role: Role,
    raw: u64,
    running: bool,
}

/// What a cell is, mathematically.
pub struct CellView {
    pub role: Role,
    /// The value as it was last stored, never transformed.
    pub raw: u64,
    /// False once the cell has been torn down.
    pub running: bool,
}

/// A function of one scalar that accepts every argument.
pub open spec fn accepts_all<T: Fn(u64) -> u64>(f: T) -> bool {
    forall|x: u64| call_requires(f, (x,))
}

/// A function of one scalar that gives one result for one argument.
pub open spec fn single_valued<T: Fn(u64) -> u64>(f: T) -> bool {
    forall|x: u64, a: u64, b: u64| call_ensures(f, (x,), a) && call_ensures(f, (x,), b) ==> a == b
}

impl Role {
    /// Whether a read of a cell in this role hands out the stored value
    /// through the read transform instead of verbatim.
    pub open spec fn reads_transformed(self) -> bool {
        self == Role::Temperature
    }

    /// Tells whether reads in this role are transformed: true of the
    /// temperature role alone.
    pub fn is_transformed(self) -> (b: bool)
        ensures
            b == self.reads_transformed(),
    {
        match self {
            Role::Temperature => true,
            _ => false,
        }
    }
}

impl CellView {
    /// A running cell in the given role that stores `initial`.
    pub open spec fn fresh(role: Role, initial: u64) -> CellView {
        CellView { role, raw: initial, running: true }
    }

    /// `r` is a value that a read of this cell may hand out: the stored value
    /// itself, or for a transformed role a result of `transform` on it.
    pub open spec fn is_reading<T: Fn(u64) -> u64>(self, transform: T, r: u64) -> bool {
        if self.role.reads_transformed() {
            call_ensures(transform, (self.raw,), r)
        } else {
            r == self.raw
        }
    }

    /// `reply` is an answer that this cell may give to `request`: a cell that
    /// was torn down answers `Unavailable`; a running cell answers a read
    /// with a reading and a write with the value written.
    pub open spec fn is_reply<T: Fn(u64) -> u64>(
        self,
        transform: T,
        request: CellRequest,
        reply: Result<u64, Unavailable>,
    ) -> bool {
        if !self.running {
            reply == Err::<u64, Unavailable>(Unavailable)
        } else {
            match request {
                CellRequest::Get => reply is Ok && self.is_reading(transform, reply->Ok_0),
                CellRequest::Store(v) => reply == Ok::<u64, Unavailable>(v),
            }
        }
    }

    /// The cell after a write of `v`: a running cell stores `v`, a cell that
    /// was torn down stays as it is.
    pub open spec fn after_set(self, v: u64) -> CellView {
        if self.running {
            CellView { raw: v, ..self }
        } else {
            self
        }
    }

    /// The cell after it has served one request.
    pub open spec fn step(self, request: CellRequest) -> CellView {
        match request {
            CellRequest::Get => self,
            CellRequest::Store(v) => self.after_set(v),
        }
    }

    /// The cell after it has served `requests` one at a time, in order.
    pub open spec fn run(self, requests: Seq<CellRequest>) -> CellView
        decreases requests.len(),
    {
        if requests.len() == 0 {
            self
        } else {
            self.run(requests.drop_last()).step(requests.last())
        }
    }
}

/// The value of the last write among `requests`, if there is a write.
pub open spec fn last_written(requests: Seq<CellRequest>) -> Option<u64>
    decreases requests.len(),
{
    if requests.len() == 0 {
        None
    } else {
        match requests.last() {
            CellRequest::Store(v) => Some(v),
            CellRequest::Get => last_written(requests.drop_last()),
        }
    }
}

/// The queue of the cell in role `to`: the requests among `arrivals` that are
/// addressed to it, in their order of arrival.
pub open spec fn queue_of(arrivals: Seq<Addressed>, to: Role) -> Seq<CellRequest>
    decreases arrivals.len(),
{
    if arrivals.len() == 0 {
        Seq::empty()
    } else if arrivals.last().to == to {
        queue_of(arrivals.drop_last(), to).push(arrivals.last().request)
    } else {
        queue_of(arrivals.drop_last(), to)
    }
}

/// Requests change nothing of a cell but the value it stores: its role and
/// whether it runs stay, and a cell that was torn down keeps its value.
pub proof fn lemma_run_keeps_identity(cell: CellView, requests: Seq<CellRequest>)
    ensures
        cell.run(requests).role == cell.role,
        cell.run(requests).running == cell.running,
        !cell.running ==> cell.run(requests) == cell,
    decreases requests.len(),
{
    if requests.len() > 0 {
        lemma_run_keeps_identity(cell, requests.drop_last());
    }
}

/// After any sequence of requests a running cell stores the value of the
/// last write, whole, and its first value if nothing was written: reads in
/// between change nothing, and no earlier write shows through.
pub proof fn lemma_run_stores_last_write(cell: CellView, requests: Seq<CellRequest>)
    requires
        cell.running,
    ensures
        cell.run(requests).raw == match last_written(requests) {
            Some(v) => v,
            None => cell.raw,
        },
    decreases requests.len(),
{
    if requests.len() > 0 {
        lemma_run_keeps_identity(cell, requests.drop_last());
        lemma_run_stores_last_write(cell, requests.drop_last());
    }
}

/// Whatever requests a cell has served, and in whatever order they arrived,
/// the value it stores is one that it was given whole: the value it was made
/// with, or the value of one of the writes.
pub proof fn lemma_stored_value_was_given(cell: CellView, requests: Seq<CellRequest>)
    ensures
        cell.run(requests).raw == cell.raw || exists|i: int|
            0 <= i < requests.len() && #[trigger] requests[i] == CellRequest::Store(
                cell.run(requests).raw,
            ),
    decreases requests.len(),
{
    if requests.len() > 0 {
        lemma_stored_value_was_given(cell, requests.drop_last());
    }
}

/// However the requests to the three cells interleave, a cell that serves
/// its own queue stores a value that was addressed to it whole: the value it
/// was made with, or the value of one of the writes sent to it. A write to
/// another cell never shows in it.
pub proof fn lemma_interleaving_never_tears(cell: CellView, arrivals: Seq<Addressed>)
    ensures
        ({
            let stored = cell.run(queue_of(arrivals, cell.role)).raw;
            stored == cell.raw || exists|i: int|
                0 <= i < arrivals.len() && #[trigger] arrivals[i] == (Addressed {
                    to: cell.role,
                    request: CellRequest::Store(stored),
                })
        }),
    decreases arrivals.len(),
{
    if arrivals.len() > 0 {
        let earlier = arrivals.drop_last();
        lemma_interleaving_never_tears(cell, earlier);
        if arrivals.last().to == cell.role {
            assert(queue_of(arrivals, cell.role).drop_last() =~= queue_of(earlier, cell.role));
        }
    }
}

impl View for ValueCell {
    type V = CellView;

    closed spec fn view(&self) -> CellView {
        CellView { role: self.role, raw: self.raw, running: self.running }
    }
}

impl ValueCell {
    /// A running cell in the given role that stores `initial`.
    pub fn new(role: Role, initial: u64) -> (cell: ValueCell)
        ensures
            cell@ == CellView::fresh(role, initial),
    {
        ValueCell { role, raw: initial, running: true }
    }

    /// The cell's role.
    pub fn role(&self) -> (role: Role)
        ensures
            role == self@.role,
    {
        self.role
    }

    /// Whether the cell still serves requests.
    pub fn is_running(&self) -> (running: bool)
        ensures
            running == self@.running,
    {
        self.running
    }

    /// Tears the cell down. The stored value stays, and every later request
    /// is answered with `Unavailable`.
    pub fn stop(&mut self)
        ensures
            final(self)@ == (CellView { running: false, ..old(self)@ }),
    {
        self.running = false;
    }

    /// Reads the cell without changing it. A running cell answers with the
    /// stored value, passed through `transform` where the role asks for it;
    /// a cell that was torn down answers `Unavailable`.
    pub fn get<T: Fn(u64) -> u64>(&self, transform: &T) -> (reply: Result<u64, Unavailable>)
        requires
            accepts_all(*transform),
        ensures
            self@.running ==> reply is Ok && self@.is_reading(*transform, reply->Ok_0),
            !self@.running ==> reply == Err::<u64, Unavailable>(Unavailable),
    {
        if !self.running {
            Err(Unavailable)
        } else if self.role.is_transformed() {
            Ok(transform(self.raw))
        } else {
            Ok(self.raw)
        }
    }

    /// Stores `value` as it is given, whatever the role, and acknowledges
    /// with the value now stored. A cell that was torn down stays unchanged
    /// and answers `Unavailable`.
    pub fn set(&mut self, value: u64) -> (reply: Result<u64, Unavailable>)
        ensures
            final(self)@ == old(self)@.after_set(value),
            old(self)@.running ==> reply == Ok::<u64, Unavailable>(value),
            !old(self)@.running ==> reply == Err::<u64, Unavailable>(Unavailable),
    {
        if self.running {
            self.raw = value;
            Ok(value)
        } else {
            Err(Unavailable)
        }
    }

    /// Serves one request: a read or a write.
    pub fn handle<T: Fn(u64) -> u64>(&mut self, request: CellRequest, transform: &T) -> (reply:
        Result<u64, Unavailable>)
        requires
            accepts_all(*transform),
        ensures
            final(self)@ == old(self)@.step(request),
            old(self)@.is_reply(*transform, request, reply),
    {
        match request {
            CellRequest::Get => self.get(transform),
            CellRequest::Store(v) => self.set(v),
        }
    }

    /// Serves a queue of requests one at a time, in the order of the queue,
    /// and hands back the replies in the same order: each request is
    /// answered by the cell as the requests before it have left it.
    pub fn serve<T: Fn(u64) -> u64>(&mut self, requests: &Vec<CellRequest>, transform: &T) -> (replies:
        Vec<Result<u64, Unavailable>>)
        requires
            accepts_all(*transform),
        ensures
            final(self)@ == old(self)@.run(requests@),
            replies@.len() == requests@.len(),
            forall|i: int|
                0 <= i < requests@.len() ==> old(self)@.run(requests@.take(i)).is_reply(
                    *transform,
                    requests@[i],
                    #[trigger] replies@[i],
                ),
    {
        let mut replies: Vec<Result<u64, Unavailable>> = Vec::new();
        let mut served: usize = 0;
        while served < requests.len()
            invariant
                accepts_all(*transform),
                served <= requests@.len(),
                replies@.len() == served,
                self@ == old(self)@.run(requests@.take(served as int)),
                forall|i: int|
                    0 <= i < served ==> old(self)@.run(requests@.take(i)).is_reply(
                        *transform,
                        requests@[i],
                        #[trigger] replies@[i],
                    ),
            decreases requests@.len() - served,
        {
            let reply = self.handle(requests[served], transform);
            replies.push(reply);
            proof {
                assert(requests@.take(served + 1).drop_last() =~= requests@.take(served as int));
            }
            served = served + 1;
        }
        proof {
            assert(requests@.take(requests@.len() as int) =~= requests@);
        }
        replies
    }
}

} // verus!
