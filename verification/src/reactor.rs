//! The two reactors, as what each decides when a completion arrives.
//!
//! A reactor's loop waits on its ring, takes the completions that are there,
//! and pushes what the reactor answers. Waiting, taking and pushing belong to
//! whoever owns the ring; the answers are given here.

use crate::echo::{Connection, ConnectionView};
use crate::sqe::{accept_multi_entry, Operation, Sqe, NO_TOKEN};
use crate::uring::{decode, encode, Completion, UringHandle, UringMsg};
use vstd::prelude::*;

verus! {

/// What the echo reactor does about one completion, as plain values.
pub enum Outcome {
    /// Submit `op` under `token`: the connection in slot `token` is the
    /// kernel's again.
    Submit { token: u64, op: Operation },
    /// The connection in slot `token` is closed and gone; nothing to submit.
    Retired { token: u64 },
    /// The completion names no connection that the kernel holds; nothing
    /// happened.
    Unclaimed,
}

/// The echo reactor's answer to one completion.
pub enum Dispatch {
    /// Push this.
    Submit(Sqe),
    /// The connection under this token is closed and gone.
    Retired(u64),
    /// The completion names no connection that the kernel holds.
    Unclaimed,
}

impl Dispatch {
    /// The answer without the entry.
    pub open spec fn outcome(self) -> Outcome {
        match self {
            Dispatch::Submit(sqe) => Outcome::Submit { token: sqe.token, op: sqe.op },
            Dispatch::Retired(token) => Outcome::Retired { token },
            Dispatch::Unclaimed => Outcome::Unclaimed,
        }
    }
}

/// The echo reactor as a mathematical value: a table of slots, each empty or
/// holding the connection whose token is the slot's index.
#[verifier::ext_equal]
pub struct EchoView {
    pub slots: Seq<Option<ConnectionView>>,
}

impl EchoView {
    /// Every connection in the table is well-formed.
    pub open spec fn wf(self) -> bool {
        forall|i: int|
            0 <= i < self.slots.len() ==> (#[trigger] self.slots[i] matches Some(c) ==> c.wf())
    }

    /// A table without connections.
    pub open spec fn empty() -> EchoView {
        EchoView { slots: Seq::empty() }
    }

    /// `token` is that of a connection in the table. Between two calls of the
    /// reactor these are the connections with an operation in the kernel.
    pub open spec fn live(self, token: u64) -> bool {
        token < self.slots.len() && self.slots[token as int] is Some
    }

    /// The connection under `token`.
    pub open spec fn connection(self, token: u64) -> ConnectionView
        recommends
            self.live(token),
    {
        self.slots[token as int]->0
    }

    /// The first empty slot at or after `from`; the table's length if there
    /// is none.
    pub open spec fn free_from(self, from: int) -> int
        decreases self.slots.len() - from,
    {
        if from < 0 || from >= self.slots.len() {
            self.slots.len() as int
        } else if self.slots[from] is None {
            from
        } else {
            self.free_from(from + 1)
        }
    }

    /// The slot that the next connection gets: the lowest empty one.
    pub open spec fn free_slot(self) -> int {
        self.free_from(0)
    }

    /// The table with `conn` in slot `index`, which is an empty slot or the
    /// one past the end.
    pub open spec fn place(self, index: int, conn: ConnectionView) -> EchoView {
        if index < self.slots.len() {
            EchoView { slots: self.slots.update(index, Some(conn)) }
        } else {
            EchoView { slots: self.slots.push(Some(conn)) }
        }
    }

    /// The table after the reactor handled `cqe`.
    ///
    /// A message puts a fresh connection into the lowest empty slot. Any
    /// other completion goes to the connection that its token names: the
    /// connection moves on, or, if the completion was that of its close,
    /// leaves the table. A completion whose token names no connection changes
    /// nothing.
    pub open spec fn step(self, cqe: Completion) -> EchoView {
        match decode(cqe) {
            Some(UringMsg::NewConnection(fd)) => self.place(
                self.free_slot(),
                ConnectionView::fresh(fd, ConnectionView::blank()),
            ),
            None => if self.live(cqe.user_data) {
                let conn = self.connection(cqe.user_data);
                if conn.state is Closing {
                    EchoView { slots: self.slots.update(cqe.user_data as int, None) }
                } else {
                    EchoView {
                        slots: self.slots.update(cqe.user_data as int, Some(conn.step(cqe.result))),
                    }
                }
            } else {
                self
            },
        }
    }

    /// The table after the reactor handled every completion of `batch`, in
    /// order.
    pub open spec fn run(self, batch: Seq<Completion>) -> EchoView
        decreases batch.len(),
    {
        if batch.len() == 0 {
            self
        } else {
            self.run(batch.drop_last()).step(batch.last())
        }
    }

    /// What the reactor submits while it handles `batch`: token and
    /// operation, in the order of the completions that caused them.
    pub open spec fn submitted(self, batch: Seq<Completion>) -> Seq<(u64, Operation)>
        decreases batch.len(),
    {
        if batch.len() == 0 {
            Seq::empty()
        } else {
            let earlier = self.submitted(batch.drop_last());
            match self.run(batch.drop_last()).outcome(batch.last()) {
                Outcome::Submit { token, op } => earlier.push((token, op)),
                _ => earlier,
            }
        }
    }

    /// The table with `data` in the buffer of the connection under `token`,
    /// where its outstanding read puts what it gets; the table itself if
    /// there is no such connection.
    pub open spec fn with_deposit(self, token: u64, data: Seq<u8>) -> EchoView {
        if self.live(token) {
            EchoView {
                slots: self.slots.update(
                    token as int,
                    Some(self.connection(token).with_deposit(data)),
                ),
            }
        } else {
            self
        }
    }

    /// What the reactor answers to `cqe`.
    pub open spec fn outcome(self, cqe: Completion) -> Outcome {
        match decode(cqe) {
            Some(UringMsg::NewConnection(fd)) => Outcome::Submit {
                token: self.free_slot() as u64,
                op: ConnectionView::fresh(fd, ConnectionView::blank()).next_operation(),
            },
            None => if self.live(cqe.user_data) {
                let conn = self.connection(cqe.user_data);
                if conn.state is Closing {
                    Outcome::Retired { token: cqe.user_data }
                } else {
                    Outcome::Submit {
                        token: cqe.user_data,
                        op: conn.step(cqe.result).next_operation(),
                    }
                }
            } else {
                Outcome::Unclaimed
            },
        }
    }
}

/// The view of one slot.
pub open spec fn slot_view(slot: Option<Connection>) -> Option<ConnectionView> {
    match slot {
        Some(conn) => Some(conn@),
        None => None,
    }
}

/// The view of a table of slots.
pub open spec fn table_view(slots: Seq<Option<Connection>>) -> EchoView {
    EchoView { slots: Seq::new(slots.len(), |i: int| slot_view(slots[i])) }
}

/// `free_from` finds an empty slot, and the lowest from where it starts.
pub proof fn lemma_free_from(table: EchoView, from: int)
    requires
        0 <= from <= table.slots.len(),
    ensures
        from <= table.free_from(from) <= table.slots.len(),
        table.free_from(from) < table.slots.len() ==> table.slots[table.free_from(from)] is None,
        forall|j: int| from <= j < table.free_from(from) ==> (#[trigger] table.slots[j]) is Some,
    decreases table.slots.len() - from,
{
    if from < table.slots.len() && table.slots[from] is Some {
        lemma_free_from(table, from + 1);
    }
}

/// The lowest empty slot of `slots`, or its length.
fn first_free(slots: &Vec<Option<Connection>>) -> (index: usize)
    ensures
        index == table_view(slots@).free_slot(),
        index <= slots@.len(),
{
    let ghost table = table_view(slots@);
    let mut index: usize = 0;
    while index < slots.len()
        invariant
            index <= slots@.len(),
            table == table_view(slots@),
            table.free_from(index as int) == table.free_slot(),
        decreases slots@.len() - index,
    {
        if slots[index].is_none() {
            return index;
        }
        index += 1;
    }
    index
}

/// The reactor that echoes: it holds every connection between its
/// completions, in the slot that the connection's token names.
pub struct EchoReactor {
    slots: Vec<Option<Connection>>,
}

impl View for EchoReactor {
    type V = EchoView;

    closed spec fn view(&self) -> EchoView {
        table_view(self.slots@)
    }
}

impl EchoReactor {
    #[verifier::type_invariant]
    spec fn inv(self) -> bool {
        table_view(self.slots@).wf()
    }

    /// A reactor without connections.
    pub fn new() -> (reactor: EchoReactor)
        ensures
            reactor@ == EchoView::empty(),
    {
        let reactor = EchoReactor { slots: Vec::new() };
        assert(reactor@.slots =~= Seq::empty());
        reactor
    }

    /// Handles one completion from the echo ring.
    pub fn dispatch(&mut self, cqe: &Completion) -> (action: Dispatch)
        ensures
            old(self)@.wf(),
            final(self)@.wf(),
            final(self)@ == old(self)@.step(*cqe),
            action.outcome() == old(self)@.outcome(*cqe),
            action matches Dispatch::Submit(sqe) ==> sqe.describes(sqe.op, sqe.token),
    {
        proof {
            use_type_invariant(&*self);
        }
        let mut slots: Vec<Option<Connection>> = Vec::new();
        std::mem::swap(&mut slots, &mut self.slots);
        let action = match UringMsg::try_from_cqe(cqe) {
            Some(UringMsg::NewConnection(fd)) => install(&mut slots, fd),
            None => resume(&mut slots, cqe),
        };
        self.slots = slots;
        action
    }

    /// Handles the completions of `batch` in order, and returns what is to be
    /// pushed for them, in the same order.
    pub fn drain(&mut self, batch: &[Completion]) -> (sqes: Vec<Sqe>)
        ensures
            final(self)@.wf(),
            final(self)@ == old(self)@.run(batch@),
            sqes@.len() == old(self)@.submitted(batch@).len(),
            forall|i: int|
                0 <= i < sqes@.len() ==> (#[trigger] sqes@[i]).describes(
                    old(self)@.submitted(batch@)[i].1,
                    old(self)@.submitted(batch@)[i].0,
                ),
    {
        proof {
            use_type_invariant(&*self);
        }
        let ghost start = self@;
        let mut sqes: Vec<Sqe> = Vec::new();
        let mut done: usize = 0;
        while done < batch.len()
            invariant
                done <= batch@.len(),
                self@.wf(),
                self@ == start.run(batch@.take(done as int)),
                sqes@.len() == start.submitted(batch@.take(done as int)).len(),
                forall|i: int|
                    0 <= i < sqes@.len() ==> (#[trigger] sqes@[i]).describes(
                        start.submitted(batch@.take(done as int))[i].1,
                        start.submitted(batch@.take(done as int))[i].0,
                    ),
            decreases batch@.len() - done,
        {
            proof {
                assert(batch@.take(done + 1).drop_last() =~= batch@.take(done as int));
            }
            match self.dispatch(&batch[done]) {
                Dispatch::Submit(sqe) => {
                    sqes.push(sqe);
                },
                _ => {},
            }
            done += 1;
        }
        proof {
            assert(batch@.take(done as int) =~= batch@);
        }
        sqes
    }

    /// Whether `token` is that of a connection with an operation in the
    /// kernel.
    pub fn live(&self, token: u64) -> (live: bool)
        ensures
            live == self@.live(token),
    {
        token < self.slots.len() as u64 && self.slots[token as usize].is_some()
    }

    /// The connection under `token`, if there is one.
    pub fn connection(&self, token: u64) -> (conn: Option<&Connection>)
        ensures
            conn is Some <==> self@.live(token),
            conn matches Some(c) ==> c@ == self@.connection(token) && c@.wf(),
    {
        proof {
            use_type_invariant(self);
        }
        if token < self.slots.len() as u64 {
            self.slots[token as usize].as_ref()
        } else {
            None
        }
    }

    /// Puts the front of `data` into the buffer of the connection under
    /// `token` where its outstanding read puts what it gets, and says how
    /// many bytes that was: none where there is no such connection or no read
    /// outstanding. This is the kernel's part, for a driver that has the
    /// bytes in hand instead.
    pub fn deposit(&mut self, token: u64, data: &[u8]) -> (count: u32)
        ensures
            final(self)@.wf(),
            count == (if old(self)@.live(token) {
                old(self)@.connection(token).room_for(data@.len())
            } else {
                0
            }),
            final(self)@ == old(self)@.with_deposit(token, data@.take(count as int)),
    {
        proof {
            use_type_invariant(&*self);
        }
        if token >= self.slots.len() as u64 {
            return 0;
        }
        let index = token as usize;
        let mut slots: Vec<Option<Connection>> = Vec::new();
        std::mem::swap(&mut slots, &mut self.slots);
        let ghost before = table_view(slots@);
        let count = match slots[index].take() {
            None => {
                assert(table_view(slots@).slots =~= before.slots);
                0
            },
            Some(conn) => {
                let mut conn = conn;
                let count = conn.deposit(data);
                slots[index] = Some(conn);
                assert(table_view(slots@).slots =~= before.with_deposit(
                    token,
                    data@.take(count as int),
                ).slots);
                count
            },
        };
        self.slots = slots;
        count
    }
}

/// Puts a fresh connection on `fd` into the lowest empty slot and arms it.
fn install(slots: &mut Vec<Option<Connection>>, fd: i32) -> (action: Dispatch)
    requires
        table_view(old(slots)@).wf(),
    ensures
        table_view(final(slots)@).wf(),
        table_view(final(slots)@) == table_view(old(slots)@).place(
            table_view(old(slots)@).free_slot(),
            ConnectionView::fresh(fd, ConnectionView::blank()),
        ),
        action matches Dispatch::Submit(sqe) && sqe.describes(
            ConnectionView::fresh(fd, ConnectionView::blank()).next_operation(),
            table_view(old(slots)@).free_slot() as u64,
        ),
{
    let mut conn = Connection::new(fd);
    let index = first_free(slots);
    let sqe = conn.register(index as u64);
    if index < slots.len() {
        slots[index] = Some(conn);
    } else {
        slots.push(Some(conn));
    }
    assert(table_view(slots@).slots =~= table_view(old(slots)@).place(
        index as int,
        ConnectionView::fresh(fd, ConnectionView::blank()),
    ).slots);
    Dispatch::Submit(sqe)
}

/// Hands `cqe` to the connection that its token names, if there is one.
fn resume(slots: &mut Vec<Option<Connection>>, cqe: &Completion) -> (action: Dispatch)
    requires
        table_view(old(slots)@).wf(),
        decode(*cqe) is None,
    ensures
        table_view(final(slots)@).wf(),
        table_view(final(slots)@) == table_view(old(slots)@).step(*cqe),
        action.outcome() == table_view(old(slots)@).outcome(*cqe),
        action matches Dispatch::Submit(sqe) ==> sqe.describes(sqe.op, sqe.token),
{
    let token = cqe.user_data;
    if token >= slots.len() as u64 {
        return Dispatch::Unclaimed;
    }
    let index = token as usize;
    let slot = slots[index].take();
    match slot {
        None => {
            assert(table_view(slots@).slots =~= table_view(old(slots)@).slots);
            Dispatch::Unclaimed
        },
        Some(conn) => {
            let mut conn = conn;
            match conn.process_cqe(cqe) {
                Some(sqe) => {
                    slots[index] = Some(conn);
                    assert(table_view(slots@).slots =~= table_view(old(slots)@).step(*cqe).slots);
                    Dispatch::Submit(sqe)
                },
                None => {
                    assert(table_view(slots@).slots =~= table_view(old(slots)@).step(*cqe).slots);
                    Dispatch::Retired(token)
                },
            }
        },
    }
}

/// The accept reactor as a mathematical value.
pub struct AcceptView {
    /// The listening socket.
    pub listener_fd: i32,
    /// The ring of the reactor that gets the connections.
    pub echo_ring_fd: i32,
}

impl AcceptView {
    /// The one operation that the accept reactor starts with: it stays in the
    /// kernel and completes once for every connection.
    pub open spec fn arm(self) -> Operation {
        Operation::AcceptMulti { fd: self.listener_fd }
    }

    /// What the accept reactor answers to `cqe`: the message that hands the
    /// completion's result, as a descriptor, to the echo reactor.
    pub open spec fn answer(self, cqe: Completion) -> Operation {
        encode(self.echo_ring_fd, UringMsg::NewConnection(cqe.result))
    }
}

/// The reactor that accepts: it owns the listening socket and turns each
/// connection into a message for the echo reactor.
pub struct AcceptReactor {
    listener_fd: i32,
    echo: UringHandle,
}

impl View for AcceptReactor {
    type V = AcceptView;

    closed spec fn view(&self) -> AcceptView {
        AcceptView { listener_fd: self.listener_fd, echo_ring_fd: self.echo@ }
    }
}

impl AcceptReactor {
    /// A reactor for the listening socket `listener_fd` that sends to `echo`.
    pub fn new(listener_fd: i32, echo: UringHandle) -> (reactor: AcceptReactor)
        ensures
            reactor@ == (AcceptView { listener_fd, echo_ring_fd: echo@ }),
    {
        AcceptReactor { listener_fd, echo }
    }

    /// The operation to push before the loop starts.
    pub fn arm(&self) -> (sqe: Sqe)
        ensures
            sqe.describes(self@.arm(), NO_TOKEN),
    {
        let entry = accept_multi_entry(self.listener_fd);
        Sqe { token: NO_TOKEN, op: Operation::AcceptMulti { fd: self.listener_fd }, entry }
    }

    /// Handles one completion from the accept ring: what is to be pushed for
    /// it.
    pub fn dispatch(&self, cqe: &Completion) -> (sqe: Sqe)
        ensures
            sqe.describes(self@.answer(*cqe), NO_TOKEN),
    {
        self.echo.create_send_sqe(UringMsg::NewConnection(cqe.result))
    }

    /// Handles the completions of `batch`, and returns what is to be pushed
    /// for them: one message each, in the same order.
    pub fn drain(&self, batch: &[Completion]) -> (sqes: Vec<Sqe>)
        ensures
            sqes@.len() == batch@.len(),
            forall|i: int|
                0 <= i < batch@.len() ==> (#[trigger] sqes@[i]).describes(
                    self@.answer(batch@[i]),
                    NO_TOKEN,
                ),
    {
        let mut sqes: Vec<Sqe> = Vec::new();
        let mut done: usize = 0;
        while done < batch.len()
            invariant
                done <= batch@.len(),
                sqes@.len() == done,
                forall|i: int|
                    0 <= i < done ==> (#[trigger] sqes@[i]).describes(
                        self@.answer(batch@[i]),
                        NO_TOKEN,
                    ),
            decreases batch@.len() - done,
        {
            let sqe = self.dispatch(&batch[done]);
            sqes.push(sqe);
            done += 1;
        }
        sqes
    }
}

/// What a reactor's loop has just seen.
#[derive(Clone, Copy, Debug, PartialEq, Eq)]
pub enum LoopEvent {
    /// The wait returned: there may be completions.
    Woken,
    /// The wait was interrupted by a signal.
    Interrupted,
    /// The wait failed for another reason.
    WaitFailed,
    /// A pass over the completion queue took this many completions.
    Drained(usize),
    /// Both queues were published.
    Published,
}

/// What a reactor's loop does next.
#[derive(Clone, Copy, Debug, PartialEq, Eq)]
pub enum LoopStep {
    /// Block until a completion is there.
    Wait,
    /// Take the completions that are there, and push the answers.
    Drain,
    /// Publish both queues.
    Publish,
}

/// The loop that both reactors run.
///
/// An interrupted wait is waited again. Any other return of the wait, a
/// failure too, is followed by a pass over the completion queue. A pass that
/// took completions is followed by publishing both queues and by another
/// pass, since more may have come in the meantime; a pass that took none is
/// followed by the next wait.
pub open spec fn loop_step(event: LoopEvent) -> LoopStep {
    match event {
        LoopEvent::Woken => LoopStep::Drain,
        LoopEvent::Interrupted => LoopStep::Wait,
        LoopEvent::WaitFailed => LoopStep::Drain,
        LoopEvent::Drained(taken) => if taken == 0 {
            LoopStep::Wait
        } else {
            LoopStep::Publish
        },
        LoopEvent::Published => LoopStep::Drain,
    }
}

/// What the loop does after `event`.
pub fn next_step(event: LoopEvent) -> (step: LoopStep)
    ensures
        step == loop_step(event),
{
    match event {
        LoopEvent::Woken => LoopStep::Drain,
        LoopEvent::Interrupted => LoopStep::Wait,
        LoopEvent::WaitFailed => LoopStep::Drain,
        LoopEvent::Drained(taken) => if taken == 0 {
            LoopStep::Wait
        } else {
            LoopStep::Publish
        },
        LoopEvent::Published => LoopStep::Drain,
    }
}

} // verus!
