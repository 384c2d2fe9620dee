//! What travels over a ring: completions, and the messages that one reactor
//! sends another by way of them.

use crate::sqe::{msg_ring_entry, Operation, Sqe, NO_TOKEN};
use vstd::prelude::*;

verus! {

/// The result that marks a completion as a message rather than the outcome of
/// an operation.
pub const RING_MSG_NEW_CONN: i32 = -2147483647;

/// Results of operations are transfer sizes, zero, or an error number
/// negated; error numbers end here.
pub const MAX_ERRNO: i32 = 4095;

/// One record taken from a completion queue.
#[derive(Clone, Copy, Debug, PartialEq, Eq)]
pub struct Completion {
    /// Outcome of the operation, or the marker of a message.
    pub result: i32,
    /// Token of the operation, or the payload of a message.
    pub user_data: u64,
}

/// A message from one reactor to another.
#[derive(Clone, Copy, Debug, PartialEq, Eq)]
pub enum UringMsg {
    /// A connection was accepted; here is its descriptor.
    NewConnection(i32),
}

/// The descriptor that a payload stands for: its low 32 bits.
pub open spec fn payload_fd(payload: u64) -> i32 {
    payload as i32
}

/// The payload that stands for a descriptor: the descriptor extended to 64
/// bits, sign included.
pub open spec fn fd_payload(fd: i32) -> u64 {
    fd as u64
}

/// The message that a completion carries, if it is one. Only the result
/// decides that; the payload is never looked at to tell.
pub open spec fn decode(cqe: Completion) -> Option<UringMsg> {
    if cqe.result == RING_MSG_NEW_CONN {
        Some(UringMsg::NewConnection(payload_fd(cqe.user_data)))
    } else {
        None
    }
}

/// The operation that delivers `msg` to the ring `ring_fd`.
pub open spec fn encode(ring_fd: i32, msg: UringMsg) -> Operation {
    match msg {
        UringMsg::NewConnection(fd) => Operation::MsgRing {
            ring_fd,
            result: RING_MSG_NEW_CONN,
            payload: fd_payload(fd),
        },
    }
}

impl UringMsg {
    /// Reads `cqe` as a message, or says that it is none.
    pub fn try_from_cqe(cqe: &Completion) -> (msg: Option<UringMsg>)
        ensures
            msg == decode(*cqe),
            msg is Some <==> cqe.result == RING_MSG_NEW_CONN,
    {
        if cqe.result == RING_MSG_NEW_CONN {
            Some(UringMsg::NewConnection(cqe.user_data as i32))
        } else {
            None
        }
    }
}

/// The address of a ring, for those who send to it.
#[derive(Clone, Copy, Debug)]
pub struct UringHandle {
    ring_fd: i32,
}

impl View for UringHandle {
    type V = i32;

    /// The ring's descriptor.
    closed spec fn view(&self) -> i32 {
        self.ring_fd
    }
}

impl UringHandle {
    /// A handle to the ring with descriptor `ring_fd`.
    pub fn new(ring_fd: i32) -> (handle: UringHandle)
        ensures
            handle@ == ring_fd,
    {
        UringHandle { ring_fd }
    }

    /// The ring's descriptor.
    pub fn ring_fd(&self) -> (fd: i32)
        ensures
            fd == self@,
    {
        self.ring_fd
    }

    /// The operation that, submitted on any ring, makes `msg` arrive on this
    /// one.
    pub fn create_send_sqe(&self, msg: UringMsg) -> (sqe: Sqe)
        ensures
            sqe.describes(encode(self@, msg), NO_TOKEN),
    {
        match msg {
            UringMsg::NewConnection(conn_fd) => {
                let payload = conn_fd as u64;
                let entry = msg_ring_entry(self.ring_fd, RING_MSG_NEW_CONN, payload);
                Sqe {
                    token: NO_TOKEN,
                    op: Operation::MsgRing { ring_fd: self.ring_fd, result: RING_MSG_NEW_CONN, payload },
                    entry,
                }
            },
        }
    }
}

/// The completion that the target ring shows for a message operation: the
/// operation's result and payload, unchanged.
pub open spec fn delivered(op: Operation) -> Completion
    recommends
        op is MsgRing,
{
    Completion { result: op->result, user_data: op->payload }
}

/// A message that is encoded, delivered and decoded comes out as it went in,
/// whatever descriptor it carries and whichever ring it is sent to.
pub proof fn lemma_message_round_trip(ring_fd: i32, msg: UringMsg)
    ensures
        decode(delivered(encode(ring_fd, msg))) == Some(msg),
{
    let UringMsg::NewConnection(fd) = msg;
    assert((fd as u64) as i32 == fd) by (bit_vector);
}

/// The payload of a descriptor that is not negative is the descriptor.
pub proof fn lemma_payload_of_descriptor(fd: i32)
    requires
        fd >= 0,
    ensures
        fd_payload(fd) == fd,
{
}

/// A completion with the marker is a message for every payload, and one
/// without it is none for every payload.
pub proof fn lemma_marker_decides(cqe: Completion)
    ensures
        cqe.result == RING_MSG_NEW_CONN ==> decode(cqe) == Some(
            UringMsg::NewConnection(payload_fd(cqe.user_data)),
        ),
        cqe.result != RING_MSG_NEW_CONN ==> decode(cqe) is None,
{
}

/// No outcome of an operation is the marker: a transfer size is positive, and
/// an error is no further from zero than `MAX_ERRNO`.
pub proof fn lemma_marker_is_no_outcome(cqe: Completion)
    requires
        -MAX_ERRNO <= cqe.result,
    ensures
        cqe.result != RING_MSG_NEW_CONN,
        decode(cqe) is None,
{
}

} // verus!
