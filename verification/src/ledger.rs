//! The books on tokens: which the kernel holds, which the echo reactor's
//! table holds a connection for, and why the two never part.

use crate::echo::ConnectionView;
use crate::reactor::{AcceptView, EchoView, Outcome};
use crate::reactor::lemma_free_from;
use crate::sqe::Operation;
use crate::uring::{decode, delivered, payload_fd, Completion, RING_MSG_NEW_CONN};
use vstd::multiset::Multiset;
use vstd::prelude::*;

verus! {

/// The tokens that the kernel holds after the reactor handled `cqe` with
/// `outcome`, given those it held before: a completion that reports an
/// operation gives that operation's token back, and a submission hands the
/// submitted token over.
pub open spec fn held_after(held: Multiset<u64>, cqe: Completion, outcome: Outcome) -> Multiset<
    u64,
> {
    let returned = if decode(cqe) is None {
        held.remove(cqe.user_data)
    } else {
        held
    };
    match outcome {
        Outcome::Submit { token, .. } => returned.insert(token),
        _ => returned,
    }
}

/// The tokens that the kernel holds after the reactor handled `batch`.
pub open spec fn held_after_all(table: EchoView, held: Multiset<u64>, batch: Seq<Completion>)
    -> Multiset<u64>
    decreases batch.len(),
{
    if batch.len() == 0 {
        held
    } else {
        let before = table.run(batch.drop_last());
        held_after(
            held_after_all(table, held, batch.drop_last()),
            batch.last(),
            before.outcome(batch.last()),
        )
    }
}

impl EchoView {
    /// The kernel holds the token of every connection in the table exactly
    /// once, and no other token.
    pub open spec fn balanced(self, held: Multiset<u64>) -> bool {
        forall|token: u64|
            #[trigger] held.count(token) == (if self.live(token) {
                1nat
            } else {
                0nat
            })
    }
}

/// The slot that a new connection gets is inside the table or just past its
/// end, is empty, and is the lowest such.
pub proof fn lemma_free_slot(table: EchoView)
    ensures
        0 <= table.free_slot() <= table.slots.len(),
        table.free_slot() < table.slots.len() ==> table.slots[table.free_slot()] is None,
        forall|j: int| 0 <= j < table.free_slot() ==> (#[trigger] table.slots[j]) is Some,
{
    lemma_free_from(table, 0);
}

/// One completion leaves a well-formed table well-formed.
pub proof fn lemma_step_keeps_table(table: EchoView, cqe: Completion)
    requires
        table.wf(),
    ensures
        table.step(cqe).wf(),
        table.slots.len() <= table.step(cqe).slots.len() <= table.slots.len() + 1,
{
    lemma_free_slot(table);
    let after = table.step(cqe);
    assert forall|i: int| 0 <= i < after.slots.len() implies (#[trigger] after.slots[i] matches Some(
        c,
    ) ==> c.wf()) by {
        if i < table.slots.len() {
            assert(table.slots[i] matches Some(c) ==> c.wf());
        }
    }
}

/// A completion with the marker opens a connection and does nothing else: it
/// is answered by the first read of a new connection on the descriptor in
/// its payload, under a token that no connection had, and every connection
/// that was in the table is still there, exactly as it was.
pub proof fn lemma_message_opens_connection(table: EchoView, cqe: Completion)
    requires
        cqe.result == RING_MSG_NEW_CONN,
        table.slots.len() <= u64::MAX,
    ensures
        table.outcome(cqe) == (Outcome::Submit {
            token: table.free_slot() as u64,
            op: Operation::Read { fd: payload_fd(cqe.user_data), offset: 0, len: 4096 },
        }),
        !table.live(table.free_slot() as u64),
        table.step(cqe).live(table.free_slot() as u64),
        table.step(cqe).connection(table.free_slot() as u64) == ConnectionView::fresh(
            payload_fd(cqe.user_data),
            ConnectionView::blank(),
        ),
        forall|token: u64| #[trigger]
            table.live(token) ==> table.step(cqe).live(token) && table.step(cqe).connection(token)
                == table.connection(token),
{
    lemma_free_slot(table);
}

/// A completion that reports an operation touches the connection that its
/// token names and no other.
pub proof fn lemma_completion_touches_one(table: EchoView, cqe: Completion, other: u64)
    requires
        cqe.result != RING_MSG_NEW_CONN,
        other != cqe.user_data,
    ensures
        table.step(cqe).live(other) == table.live(other),
        table.live(other) ==> table.step(cqe).connection(other) == table.connection(other),
{
}

/// The completion of a connection's close takes the connection out of the
/// table, and is the only completion that does. From then on a completion
/// that carries its token is answered by nothing, until the slot is given to
/// a new connection.
pub proof fn lemma_retired_is_silent(table: EchoView, cqe: Completion, later: Completion)
    requires
        cqe.result != RING_MSG_NEW_CONN,
        later.result != RING_MSG_NEW_CONN,
        later.user_data == cqe.user_data,
    ensures
        table.outcome(cqe) is Retired <==> table.live(cqe.user_data) && table.connection(
            cqe.user_data,
        ).state is Closing,
        table.outcome(cqe) is Retired ==> {
            &&& table.outcome(cqe) == (Outcome::Retired { token: cqe.user_data })
            &&& !table.step(cqe).live(cqe.user_data)
            &&& table.step(cqe).outcome(later) is Unclaimed
            &&& table.step(cqe).step(later) == table.step(cqe)
        },
        table.live(cqe.user_data) <==> !(table.outcome(cqe) is Unclaimed),
{
}

/// Token accounting over one completion. If the kernel holds exactly the
/// tokens of the connections in the table, each once, then it does so again
/// after the reactor handled a completion: no token is in the kernel twice,
/// and no connection is in the table without its token in the kernel.
pub proof fn lemma_dispatch_keeps_balance(table: EchoView, held: Multiset<u64>, cqe: Completion)
    requires
        table.balanced(held),
        table.slots.len() <= u64::MAX,
    ensures
        table.step(cqe).balanced(held_after(held, cqe, table.outcome(cqe))),
{
    lemma_free_slot(table);
    let after = table.step(cqe);
    let held2 = held_after(held, cqe, table.outcome(cqe));
    assert forall|token: u64|
        #[trigger] held2.count(token) == (if after.live(token) {
            1nat
        } else {
            0nat
        }) by {
        assert(held.count(token) == (if table.live(token) {
            1nat
        } else {
            0nat
        }));
        assert(held.count(cqe.user_data) == (if table.live(cqe.user_data) {
            1nat
        } else {
            0nat
        }));
        let fresh = table.free_slot() as u64;
        assert(held.count(fresh) == (if table.live(fresh) {
            1nat
        } else {
            0nat
        }));
    }
}

/// Token accounting over a whole run. From a table that the kernel's tokens
/// match, and so from the empty table and a kernel that holds none, every
/// batch of completions leaves a table that the kernel's tokens match: for
/// each token the kernel holds it once if a connection is in the table under
/// it, and not at all if none is.
pub proof fn lemma_tokens_stay_balanced(table: EchoView, held: Multiset<u64>, batch: Seq<Completion>)
    requires
        table.balanced(held),
        table.slots.len() + batch.len() <= u64::MAX,
    ensures
        table.run(batch).balanced(held_after_all(table, held, batch)),
        table.run(batch).slots.len() <= table.slots.len() + batch.len(),
        forall|token: u64| #[trigger] held_after_all(table, held, batch).count(token) <= 1,
        forall|token: u64|
            table.run(batch).live(token) <==> #[trigger] held_after_all(table, held, batch).count(
                token,
            ) == 1,
    decreases batch.len(),
{
    if batch.len() > 0 {
        lemma_tokens_stay_balanced(table, held, batch.drop_last());
        let before = table.run(batch.drop_last());
        lemma_free_slot(before);
        lemma_dispatch_keeps_balance(
            before,
            held_after_all(table, held, batch.drop_last()),
            batch.last(),
        );
    }
    let end = table.run(batch);
    let held2 = held_after_all(table, held, batch);
    assert forall|token: u64| #[trigger] held2.count(token) <= 1 by {
        assert(held2.count(token) == (if end.live(token) {
            1nat
        } else {
            0nat
        }));
    }
    assert forall|token: u64| end.live(token) <==> #[trigger] held2.count(token) == 1 by {
        assert(held2.count(token) == (if end.live(token) {
            1nat
        } else {
            0nat
        }));
    }
}

/// A well-formed table stays well-formed over every batch.
pub proof fn lemma_run_keeps_table(table: EchoView, batch: Seq<Completion>)
    requires
        table.wf(),
    ensures
        table.run(batch).wf(),
    decreases batch.len(),
{
    if batch.len() > 0 {
        lemma_run_keeps_table(table, batch.drop_last());
        lemma_step_keeps_table(table.run(batch.drop_last()), batch.last());
    }
}

/// The hand-over from one reactor to the other. What the accept reactor
/// answers to a completion, once delivered to the echo reactor, opens a
/// connection on the descriptor that the completion reported, and is
/// answered by that connection's first read.
pub proof fn lemma_accepted_is_read(accept: AcceptView, table: EchoView, cqe: Completion)
    requires
        table.slots.len() <= u64::MAX,
    ensures
        table.outcome(delivered(accept.answer(cqe))) == (Outcome::Submit {
            token: table.free_slot() as u64,
            op: Operation::Read { fd: cqe.result, offset: 0, len: 4096 },
        }),
{
    let fd = cqe.result;
    assert((fd as u64) as i32 == fd) by (bit_vector);
    lemma_message_opens_connection(table, delivered(accept.answer(cqe)));
}

} // verus!
