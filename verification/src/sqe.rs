//! Submission-queue entries.
//!
//! The reactors decide in plain values which operation comes next
//! ([`Operation`]); the entry that the ring takes is built from it by
//! `io_uring`'s own builders. Those builders are called here, and only here:
//! each stands behind one function whose contract is believed, not proved.

use io_uring::opcode;
use io_uring::squeue::Entry;
use io_uring::types::Fd;
use vstd::prelude::*;

verus! {

/// The kernel's number for a multi-shot accept.
pub const OP_ACCEPT: u32 = 13;

/// The kernel's number for closing a descriptor.
pub const OP_CLOSE: u32 = 19;

/// The kernel's number for a read into a buffer.
pub const OP_READ: u32 = 22;

/// The kernel's number for a write from a buffer.
pub const OP_WRITE: u32 = 23;

/// The kernel's number for a message to another ring.
pub const OP_MSG_RING: u32 = 40;

/// The token of an entry on which none was set.
pub const NO_TOKEN: u64 = 0;

/// An operation for the ring, as the values that determine it.
///
/// `offset` and `len` of a read or write are positions in the buffer of the
/// connection that issues it.
#[derive(Clone, Copy, Debug, PartialEq, Eq)]
pub enum Operation {
    /// Read up to `len` bytes from `fd` into the buffer, starting at `offset`.
    Read { fd: i32, offset: u32, len: u32 },
    /// Write `len` bytes of the buffer, starting at `offset`, to `fd`.
    Write { fd: i32, offset: u32, len: u32 },
    /// Close `fd`.
    Close { fd: i32 },
    /// Accept on the listening socket `fd`, one completion per connection.
    AcceptMulti { fd: i32 },
    /// Post a completion with `result` and `payload` on the ring `ring_fd`.
    MsgRing { ring_fd: i32, result: i32, payload: u64 },
}

impl Operation {
    /// The kernel's number for this kind of operation.
    pub open spec fn code(self) -> u32 {
        match self {
            Operation::Read { .. } => OP_READ,
            Operation::Write { .. } => OP_WRITE,
            Operation::Close { .. } => OP_CLOSE,
            Operation::AcceptMulti { .. } => OP_ACCEPT,
            Operation::MsgRing { .. } => OP_MSG_RING,
        }
    }

    /// The kernel's number for this kind of operation.
    pub fn opcode(&self) -> (code: u32)
        ensures
            code == self.code(),
    {
        match self {
            Operation::Read { .. } => OP_READ,
            Operation::Write { .. } => OP_WRITE,
            Operation::Close { .. } => OP_CLOSE,
            Operation::AcceptMulti { .. } => OP_ACCEPT,
            Operation::MsgRing { .. } => OP_MSG_RING,
        }
    }
}

/// An operation ready for the submission queue: what it is, the token its
/// completion will carry, and the entry to push.
#[derive(Debug)]
pub struct Sqe {
    pub token: u64,
    pub op: Operation,
    pub entry: Entry,
}

impl Sqe {
    /// This is the operation `op` under `token`, and the entry says so as far
    /// as an entry can be asked.
    pub open spec fn describes(self, op: Operation, token: u64) -> bool {
        &&& self.op == op
        &&& self.token == token
        &&& entry_opcode(self.entry) == op.code()
        &&& entry_user_data(self.entry) == token
    }
}

// ---------------------------------------------------------------------------
// Trusted: io_uring's entry builders.
// ---------------------------------------------------------------------------

#[verifier::external_type_specification]
#[verifier::external_body]
pub struct ExEntry(Entry);

/// What `Entry::get_opcode` returns on `entry`.
pub uninterp spec fn entry_opcode(entry: Entry) -> u32;

/// What `Entry::get_user_data` returns on `entry`.
pub uninterp spec fn entry_user_data(entry: Entry) -> u64;

/// `opcode::Read::new(..).build().user_data(..)`, on the part of `buf` from
/// `offset` on.
///
/// Believed: the entry has `Read`'s opcode and carries `token`; the buffer's
/// bytes are not touched by building it.
#[verifier::external_body]
pub(crate) fn read_entry(fd: i32, buf: &mut [u8; 4096], offset: u32, len: u32, token: u64) -> (entry:
    Entry)
    requires
        offset + len <= 4096,
    ensures
        final(buf)@ == old(buf)@,
        entry_opcode(entry) == OP_READ,
        entry_user_data(entry) == token,
    no_unwind
{
    opcode::Read::new(Fd(fd), buf[offset as usize..].as_mut_ptr(), len).build().user_data(token)
}

/// `opcode::Write::new(..).build().user_data(..)`, on the part of `buf` from
/// `offset` on.
///
/// Believed: the entry has `Write`'s opcode and carries `token`.
#[verifier::external_body]
pub(crate) fn write_entry(fd: i32, buf: &[u8; 4096], offset: u32, len: u32, token: u64) -> (entry:
    Entry)
    requires
        offset + len <= 4096,
    ensures
        entry_opcode(entry) == OP_WRITE,
        entry_user_data(entry) == token,
{
    opcode::Write::new(Fd(fd), buf[offset as usize..].as_ptr(), len).build().user_data(token)
}

/// `opcode::Close::new(..).build().user_data(..)`.
///
/// Believed: the entry has `Close`'s opcode and carries `token`.
#[verifier::external_body]
pub(crate) fn close_entry(fd: i32, token: u64) -> (entry: Entry)
    ensures
        entry_opcode(entry) == OP_CLOSE,
        entry_user_data(entry) == token,
{
    opcode::Close::new(Fd(fd)).build().user_data(token)
}

/// `opcode::AcceptMulti::new(..).build()`.
///
/// Believed: the entry has `AcceptMulti`'s opcode, and the token of an entry
/// that was given none.
#[verifier::external_body]
pub(crate) fn accept_multi_entry(fd: i32) -> (entry: Entry)
    ensures
        entry_opcode(entry) == OP_ACCEPT,
        entry_user_data(entry) == NO_TOKEN,
{
    opcode::AcceptMulti::new(Fd(fd)).build()
}

/// `opcode::MsgRingData::new(.., None).build()`.
///
/// Believed: the entry has `MsgRingData`'s opcode, and the token of an entry
/// that was given none.
#[verifier::external_body]
pub(crate) fn msg_ring_entry(ring_fd: i32, result: i32, payload: u64) -> (entry: Entry)
    ensures
        entry_opcode(entry) == OP_MSG_RING,
        entry_user_data(entry) == NO_TOKEN,
{
    opcode::MsgRingData::new(Fd(ring_fd), result, payload, None).build()
}

} // verus!
