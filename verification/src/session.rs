//! A session from its first read to its end: what holds of a connection
//! whatever results the kernel reports, and in whatever order.

use crate::echo::{ConnectionView, BUFFER_CAPACITY};
use crate::sqe::Operation;
use vstd::prelude::*;

verus! {

/// What the kernel did for one outstanding operation that moved bytes.
pub enum Transfer {
    /// The read put these bytes into the buffer, at the place it was given.
    Received(Seq<u8>),
    /// The write took this many bytes from the place it was given and sent
    /// them to the client.
    Sent(nat),
}

impl Transfer {
    /// The bytes that this transfer brought in from the client.
    pub open spec fn brings(self) -> Seq<u8> {
        match self {
            Transfer::Received(data) => data,
            Transfer::Sent(_) => Seq::empty(),
        }
    }
}

/// The bytes that `trace` brought in from the client, in order.
pub open spec fn received(trace: Seq<Transfer>) -> Seq<u8>
    decreases trace.len(),
{
    if trace.len() == 0 {
        Seq::empty()
    } else {
        received(trace.drop_last()) + trace.last().brings()
    }
}

impl ConnectionView {
    /// The connection after it processed `results`, one after the other.
    pub open spec fn run(self, results: Seq<i32>) -> ConnectionView
        decreases results.len(),
    {
        if results.len() == 0 {
            self
        } else {
            self.run(results.drop_last()).step(results.last())
        }
    }

    /// The operations that the connection issued while it processed
    /// `results`: one for each result that did not find it closing.
    pub open spec fn issued(self, results: Seq<i32>) -> Seq<Operation>
        decreases results.len(),
    {
        if results.len() == 0 {
            Seq::empty()
        } else {
            let before = self.run(results.drop_last());
            let earlier = self.issued(results.drop_last());
            if before.state is Closing {
                earlier
            } else {
                earlier.push(before.step(results.last()).next_operation())
            }
        }
    }

    /// The bytes that were read and not yet written back.
    pub open spec fn unsent(self) -> Seq<u8> {
        self.buf.subrange(self.data_off as int, self.fill())
    }

    /// The kernel can have done `transfer` for the operation that is
    /// outstanding.
    pub open spec fn admits(self, transfer: Transfer) -> bool {
        match transfer {
            Transfer::Received(data) => self.state is Reading && 1 <= data.len()
                <= self.requested(),
            Transfer::Sent(count) => self.state is Writing && 1 <= count <= self.requested(),
        }
    }

    /// The bytes that `transfer` hands to the client.
    pub open spec fn sends(self, transfer: Transfer) -> Seq<u8> {
        match transfer {
            Transfer::Received(_) => Seq::empty(),
            Transfer::Sent(count) => self.buf.subrange(
                self.data_off as int,
                self.data_off + count,
            ),
        }
    }

    /// The connection after the kernel did `transfer` and the completion that
    /// reports it was processed.
    pub open spec fn after(self, transfer: Transfer) -> ConnectionView {
        match transfer {
            Transfer::Received(data) => self.with_deposit(data).step(data.len() as i32),
            Transfer::Sent(count) => self.step(count as i32),
        }
    }

    /// The connection after every transfer of `trace`, in order.
    pub open spec fn after_all(self, trace: Seq<Transfer>) -> ConnectionView
        decreases trace.len(),
    {
        if trace.len() == 0 {
            self
        } else {
            self.after_all(trace.drop_last()).after(trace.last())
        }
    }

    /// Each transfer of `trace` is one that the kernel can have done where it
    /// stands.
    pub open spec fn admits_all(self, trace: Seq<Transfer>) -> bool
        decreases trace.len(),
    {
        trace.len() > 0 ==> self.admits_all(trace.drop_last()) && self.after_all(
            trace.drop_last(),
        ).admits(trace.last())
    }

    /// The bytes that `trace` handed to the client, in order.
    pub open spec fn echoed(self, trace: Seq<Transfer>) -> Seq<u8>
        decreases trace.len(),
    {
        if trace.len() == 0 {
            Seq::empty()
        } else {
            self.echoed(trace.drop_last()) + self.after_all(trace.drop_last()).sends(trace.last())
        }
    }
}

/// One completion leaves a well-formed connection well-formed, whatever its
/// result.
pub proof fn lemma_step_keeps_cursors(conn: ConnectionView, result: i32)
    requires
        conn.wf(),
    ensures
        conn.step(result).wf(),
        0 <= conn.step(result).data_off,
        0 <= conn.step(result).data_len,
        conn.step(result).data_off + conn.step(result).data_len <= BUFFER_CAPACITY,
        conn.step(result).fd == conn.fd,
        conn.step(result).buf == conn.buf,
{
}

/// Whatever results arrive, in whatever order, the cursors stay inside the
/// buffer after each of them.
pub proof fn lemma_cursors_stay_in_bounds(start: ConnectionView, results: Seq<i32>)
    requires
        start.wf(),
    ensures
        forall|k: int|
            0 <= k <= results.len() ==> {
                let conn = #[trigger] start.run(results.take(k));
                &&& conn.wf()
                &&& conn.data_off + conn.data_len <= BUFFER_CAPACITY
            },
{
    assert forall|k: int| 0 <= k <= results.len() implies (#[trigger] start.run(
        results.take(k),
    )).wf() by {
        lemma_run_keeps_wf(start, results.take(k));
    }
}

/// A run from a well-formed connection ends in a well-formed connection, on
/// the same descriptor and with the same bytes in its buffer.
pub proof fn lemma_run_keeps_wf(start: ConnectionView, results: Seq<i32>)
    requires
        start.wf(),
    ensures
        start.run(results).wf(),
        start.run(results).fd == start.fd,
        start.run(results).buf == start.buf,
    decreases results.len(),
{
    if results.len() > 0 {
        lemma_run_keeps_wf(start, results.drop_last());
        lemma_step_keeps_cursors(start.run(results.drop_last()), results.last());
    }
}

/// A read or write that reports no transfer is answered by the close of the
/// connection's descriptor, and by nothing else.
pub proof fn lemma_failure_closes(conn: ConnectionView, result: i32)
    requires
        !(conn.state is Closing),
        result < 1,
    ensures
        conn.step(result).state is Closing,
        conn.step(result).next_operation() == (Operation::Close { fd: conn.fd }),
{
}

/// A connection that is closing stays so, and has nothing more to issue.
pub proof fn lemma_closing_is_final(conn: ConnectionView, results: Seq<i32>)
    requires
        conn.state is Closing,
    ensures
        conn.run(results) == conn,
        conn.issued(results) == Seq::<Operation>::empty(),
    decreases results.len(),
{
    if results.len() > 0 {
        lemma_closing_is_final(conn, results.drop_last());
    }
}

/// Over a whole session a close is issued at most once, and when it is, it is
/// the last operation that the connection ever issues: it is there exactly
/// when the session has come to its closing state.
pub proof fn lemma_closes_once(start: ConnectionView, results: Seq<i32>)
    requires
        !(start.state is Closing),
    ensures
        forall|i: int|
            0 <= i < start.issued(results).len() ==> (#[trigger] start.issued(results)[i] is Close
                <==> i == start.issued(results).len() - 1 && start.run(results).state is Closing),
        start.run(results).state is Closing ==> start.issued(results).len() > 0,
    decreases results.len(),
{
    if results.len() > 0 {
        lemma_closes_once(start, results.drop_last());
    }
}

/// One transfer moves bytes from the client to the buffer or from the buffer
/// to the client, and loses and invents none: what was unsent and what came
/// in is what went out and what is unsent now.
pub proof fn lemma_transfer_keeps_bytes(conn: ConnectionView, transfer: Transfer)
    requires
        conn.wf(),
        conn.admits(transfer),
    ensures
        conn.after(transfer).wf(),
        !(conn.after(transfer).state is Closing),
        conn.unsent() + transfer.brings() == conn.sends(transfer) + conn.after(transfer).unsent(),
{
    match transfer {
        Transfer::Received(data) => {
            assert(conn.unsent() =~= Seq::<u8>::empty());
            assert(conn.after(transfer).unsent() =~= data);
            assert(conn.unsent() + data =~= Seq::<u8>::empty() + data);
        },
        Transfer::Sent(count) => {
            assert(conn.unsent() + Seq::<u8>::empty() =~= conn.sends(transfer) + conn.after(
                transfer,
            ).unsent());
        },
    }
}

/// Echo fidelity. Over any trace of transfers on a session that is not
/// closed on the way, the bytes that went back to the client, followed by
/// those still unsent, are the bytes that were unsent at the start followed
/// by those that came in: none dropped, none twice, none out of order.
pub proof fn lemma_echo_fidelity(start: ConnectionView, trace: Seq<Transfer>)
    requires
        start.wf(),
        start.admits_all(trace),
    ensures
        start.after_all(trace).wf(),
        start.unsent() + received(trace) == start.echoed(trace) + start.after_all(trace).unsent(),
    decreases trace.len(),
{
    if trace.len() == 0 {
        assert(start.unsent() + received(trace) =~= start.echoed(trace) + start.after_all(
            trace,
        ).unsent());
    } else {
        let earlier = trace.drop_last();
        let last = trace.last();
        let mid = start.after_all(earlier);
        lemma_echo_fidelity(start, earlier);
        lemma_transfer_keeps_bytes(mid, last);
        let before = start.unsent() + received(earlier);
        assert(before == start.echoed(earlier) + mid.unsent());
        assert(start.unsent() + received(trace) =~= before + last.brings());
        assert(before + last.brings() =~= start.echoed(earlier) + (mid.unsent() + last.brings()));
        assert(start.echoed(trace) + start.after_all(trace).unsent() =~= start.echoed(earlier) + (
        mid.sends(last) + mid.after(last).unsent()));
    }
}

/// What the client sent is what the client got. A session that starts on a
/// new connection, takes in the bytes `received(trace)` and has written out
/// all it took in, has handed exactly those bytes back.
pub proof fn lemma_echo_returns_what_came(fd: i32, buf: Seq<u8>, trace: Seq<Transfer>)
    requires
        buf.len() == BUFFER_CAPACITY,
        ConnectionView::fresh(fd, buf).admits_all(trace),
        ConnectionView::fresh(fd, buf).after_all(trace).state is Reading,
    ensures
        ConnectionView::fresh(fd, buf).echoed(trace) == received(trace),
{
    let start = ConnectionView::fresh(fd, buf);
    lemma_echo_fidelity(start, trace);
    assert(start.unsent() =~= Seq::<u8>::empty());
    assert(start.after_all(trace).unsent() =~= Seq::<u8>::empty());
    assert(start.echoed(trace) =~= start.echoed(trace) + start.after_all(trace).unsent());
    assert(received(trace) =~= start.unsent() + received(trace));
}

} // verus!
