//! One echo session: a socket, a fixed buffer, and the cursors that say which
//! part of the buffer still has to go back to the client.

use crate::sqe::{close_entry, read_entry, write_entry, Operation, Sqe};
use crate::uring::Completion;
use vstd::prelude::*;

verus! {

/// Size of a connection's buffer, in bytes. It never changes.
pub const BUFFER_CAPACITY: u32 = 4096;

/// Where a connection stands.
#[derive(Clone, Copy, Debug, PartialEq, Eq)]
pub enum ConnectionState {
    /// A read into the buffer is outstanding.
    Reading,
    /// A write of the unsent bytes is outstanding.
    Writing,
    /// The close of the descriptor is outstanding.
    Closing,
}

/// `buf` with `data` written over it from index `at` on.
pub open spec fn deposit(buf: Seq<u8>, at: int, data: Seq<u8>) -> Seq<u8> {
    Seq::new(
        buf.len(),
        |i: int|
            if at <= i < at + data.len() {
                data[i - at]
            } else {
                buf[i]
            },
    )
}

/// A connection as a mathematical value.
#[verifier::ext_equal]
pub struct ConnectionView {
    pub fd: i32,
    pub state: ConnectionState,
    /// Index of the first byte that was read and not yet written back.
    pub data_off: u32,
    /// Number of bytes that were read and not yet written back.
    pub data_len: u32,
    pub buf: Seq<u8>,
}

impl ConnectionView {
    /// What holds of every connection at every moment: the cursors stay
    /// inside the buffer, nothing is unsent while a read is outstanding, and
    /// something is unsent while a write is.
    pub open spec fn wf(self) -> bool {
        &&& self.buf.len() == BUFFER_CAPACITY
        &&& self.data_off + self.data_len <= BUFFER_CAPACITY
        &&& self.state is Reading ==> self.data_off == 0 && self.data_len == 0
        &&& self.state is Writing ==> self.data_len >= 1
    }

    /// The bytes of a buffer that nothing was read into yet.
    pub open spec fn blank() -> Seq<u8> {
        Seq::new(BUFFER_CAPACITY as nat, |i: int| 0u8)
    }

    /// A connection that has just been accepted on `fd`.
    pub open spec fn fresh(fd: i32, buf: Seq<u8>) -> ConnectionView {
        ConnectionView { fd, state: ConnectionState::Reading, data_off: 0, data_len: 0, buf }
    }

    /// End of the unsent bytes, which is where a read puts what it gets.
    pub open spec fn fill(self) -> int {
        self.data_off + self.data_len
    }

    /// The operation that is outstanding in this state.
    pub open spec fn next_operation(self) -> Operation {
        match self.state {
            ConnectionState::Reading => Operation::Read {
                fd: self.fd,
                offset: self.fill() as u32,
                len: (BUFFER_CAPACITY - self.fill()) as u32,
            },
            ConnectionState::Writing => Operation::Write {
                fd: self.fd,
                offset: self.data_off,
                len: self.data_len,
            },
            ConnectionState::Closing => Operation::Close { fd: self.fd },
        }
    }

    /// The number of bytes that the outstanding operation may move at most.
    pub open spec fn requested(self) -> int {
        match self.state {
            ConnectionState::Reading => BUFFER_CAPACITY - self.fill(),
            ConnectionState::Writing => self.data_len as int,
            ConnectionState::Closing => 0,
        }
    }

    /// How many of `offered` bytes the outstanding operation can take: as
    /// many as it asked for and no more; none if it is not a read.
    pub open spec fn room_for(self, offered: nat) -> nat {
        if !(self.state is Reading) {
            0
        } else if offered <= self.requested() {
            offered
        } else {
            self.requested() as nat
        }
    }

    /// The connection with `data` in its buffer, where an outstanding read
    /// puts what it gets. The cursors do not move: they do when the
    /// completion is processed.
    pub open spec fn with_deposit(self, data: Seq<u8>) -> ConnectionView {
        ConnectionView { buf: deposit(self.buf, self.fill(), data), ..self }
    }

    /// `result` reports a transfer: at least one byte, and no more than the
    /// outstanding operation asked for.
    pub open spec fn transfers(self, result: i32) -> bool {
        1 <= result <= self.requested()
    }

    /// The state after the outstanding operation completed with `result`.
    ///
    /// A read or write that moved nothing, failed, or claims more than was
    /// asked for ends the session: the close comes next. A read that moved
    /// bytes is followed by the write of them; a write that left bytes unsent
    /// is followed by the write of the rest, and one that left none by the
    /// next read, from the start of the buffer.
    pub open spec fn step(self, result: i32) -> ConnectionView {
        match self.state {
            ConnectionState::Reading => if self.transfers(result) {
                ConnectionView {
                    state: ConnectionState::Writing,
                    data_len: (self.data_len + result) as u32,
                    ..self
                }
            } else {
                ConnectionView { state: ConnectionState::Closing, ..self }
            },
            ConnectionState::Writing => if !self.transfers(result) {
                ConnectionView { state: ConnectionState::Closing, ..self }
            } else if result == self.data_len {
                ConnectionView {
                    state: ConnectionState::Reading,
                    data_off: 0,
                    data_len: 0,
                    ..self
                }
            } else {
                ConnectionView {
                    data_off: (self.data_off + result) as u32,
                    data_len: (self.data_len - result) as u32,
                    ..self
                }
            },
            ConnectionState::Closing => self,
        }
    }
}

/// State and cursors, kept together so that they change together.
#[derive(Clone, Copy)]
struct Cursor {
    state: ConnectionState,
    data_off: u32,
    data_len: u32,
}

impl Cursor {
    #[verifier::type_invariant]
    spec fn inv(self) -> bool {
        &&& self.data_off + self.data_len <= BUFFER_CAPACITY
        &&& self.state is Reading ==> self.data_off == 0 && self.data_len == 0
        &&& self.state is Writing ==> self.data_len >= 1
    }
}

/// One accepted socket and its echo session.
pub struct Connection {
    fd: i32,
    cursor: Cursor,
    buf: Box<[u8; 4096]>,
}

impl View for Connection {
    type V = ConnectionView;

    closed spec fn view(&self) -> ConnectionView {
        ConnectionView {
            fd: self.fd,
            state: self.cursor.state,
            data_off: self.cursor.data_off,
            data_len: self.cursor.data_len,
            buf: self.buf@,
        }
    }
}

impl Connection {
    /// A session on the accepted socket `fd`, about to read.
    pub fn new(fd: i32) -> (conn: Connection)
        ensures
            conn@ == ConnectionView::fresh(fd, ConnectionView::blank()),
            conn@.wf(),
    {
        let conn = Connection {
            fd,
            cursor: Cursor { state: ConnectionState::Reading, data_off: 0, data_len: 0 },
            buf: Box::new([0u8; 4096]),
        };
        assert(conn.buf@ =~= ConnectionView::blank());
        conn
    }

    /// The first operation of the session, under `token`. The connection is
    /// the kernel's from here until the completion that carries `token`.
    pub fn register(&mut self, token: u64) -> (sqe: Sqe)
        ensures
            final(self)@ == old(self)@,
            final(self)@.wf(),
            sqe.describes(old(self)@.next_operation(), token),
    {
        self.next_sqe(token)
    }

    /// Takes the completion of the outstanding operation and moves on.
    ///
    /// Returns the operation to submit next, under the token that the
    /// completion carried; or nothing when the completion was that of the
    /// close, after which the connection is to be dropped.
    pub fn process_cqe(&mut self, cqe: &Completion) -> (next: Option<Sqe>)
        ensures
            old(self)@.wf(),
            final(self)@.wf(),
            final(self)@ == old(self)@.step(cqe.result),
            next is None <==> old(self)@.state is Closing,
            next matches Some(sqe) ==> sqe.describes(final(self)@.next_operation(), cqe.user_data),
    {
        proof {
            use_type_invariant(&self.cursor);
        }
        let result = cqe.result;
        let Cursor { state, data_off, data_len } = self.cursor;
        match state {
            ConnectionState::Reading => {
                if result < 1 || result as u32 > BUFFER_CAPACITY - (data_off + data_len) {
                    self.cursor = Cursor { state: ConnectionState::Closing, data_off, data_len };
                } else {
                    self.cursor = Cursor {
                        state: ConnectionState::Writing,
                        data_off,
                        data_len: data_len + result as u32,
                    };
                }
                Some(self.next_sqe(cqe.user_data))
            },
            ConnectionState::Writing => {
                if result < 1 || result as u32 > data_len {
                    self.cursor = Cursor { state: ConnectionState::Closing, data_off, data_len };
                } else if result as u32 == data_len {
                    self.cursor = Cursor {
                        state: ConnectionState::Reading,
                        data_off: 0,
                        data_len: 0,
                    };
                } else {
                    self.cursor = Cursor {
                        state: ConnectionState::Writing,
                        data_off: data_off + result as u32,
                        data_len: data_len - result as u32,
                    };
                }
                Some(self.next_sqe(cqe.user_data))
            },
            ConnectionState::Closing => None,
        }
    }

    /// The outstanding operation, as plain values.
    pub fn next_operation(&self) -> (op: Operation)
        ensures
            self@.wf(),
            op == self@.next_operation(),
    {
        proof {
            use_type_invariant(&self.cursor);
        }
        let Cursor { state, data_off, data_len } = self.cursor;
        match state {
            ConnectionState::Reading => Operation::Read {
                fd: self.fd,
                offset: data_off + data_len,
                len: BUFFER_CAPACITY - (data_off + data_len),
            },
            ConnectionState::Writing => Operation::Write {
                fd: self.fd,
                offset: data_off,
                len: data_len,
            },
            ConnectionState::Closing => Operation::Close { fd: self.fd },
        }
    }

    /// The socket's descriptor.
    pub fn fd(&self) -> (fd: i32)
        ensures
            fd == self@.fd,
    {
        self.fd
    }

    /// Where the session stands.
    pub fn state(&self) -> (state: ConnectionState)
        ensures
            state == self@.state,
    {
        self.cursor.state
    }

    /// Index of the first unsent byte.
    pub fn data_offset(&self) -> (offset: u32)
        ensures
            offset == self@.data_off,
            offset + self@.data_len <= BUFFER_CAPACITY,
    {
        proof {
            use_type_invariant(&self.cursor);
        }
        self.cursor.data_off
    }

    /// Number of unsent bytes.
    pub fn data_length(&self) -> (len: u32)
        ensures
            len == self@.data_len,
            self@.data_off + len <= BUFFER_CAPACITY,
    {
        proof {
            use_type_invariant(&self.cursor);
        }
        self.cursor.data_len
    }

    /// The buffer, all of it.
    pub fn buffer(&self) -> (buf: &[u8; 4096])
        ensures
            buf@ == self@.buf,
    {
        &*self.buf
    }

    /// Puts the front of `data` into the buffer where the outstanding read
    /// puts what it gets, as far as the read asked for, and says how many
    /// bytes that was. This is the kernel's part, for a driver that has the
    /// bytes in hand instead: the completion that reports them is still to be
    /// processed, and the cursors move only then.
    pub fn deposit(&mut self, data: &[u8]) -> (count: u32)
        ensures
            old(self)@.wf(),
            final(self)@.wf(),
            count == old(self)@.room_for(data@.len()),
            final(self)@ == old(self)@.with_deposit(data@.take(count as int)),
    {
        proof {
            use_type_invariant(&self.cursor);
        }
        let Cursor { state, data_off, data_len } = self.cursor;
        let at = data_off + data_len;
        let room = match state {
            ConnectionState::Reading => BUFFER_CAPACITY - at,
            _ => 0,
        };
        let count = if data.len() < room as usize {
            data.len() as u32
        } else {
            room
        };
        let mut done: u32 = 0;
        while done < count
            invariant
                done <= count <= data@.len(),
                at + count <= BUFFER_CAPACITY,
                self.fd == old(self).fd,
                self.cursor == old(self).cursor,
                self.buf@ == deposit(old(self).buf@, at as int, data@.take(done as int)),
            decreases count - done,
        {
            self.buf[(at + done) as usize] = data[done as usize];
            done += 1;
            assert(self.buf@ =~= deposit(old(self).buf@, at as int, data@.take(done as int)));
        }
        assert(self.buf@ =~= deposit(old(self).buf@, at as int, data@.take(count as int)));
        count
    }

    /// The outstanding operation under `token`, ready for the ring.
    fn next_sqe(&mut self, token: u64) -> (sqe: Sqe)
        ensures
            final(self)@ == old(self)@,
            final(self)@.wf(),
            sqe.describes(old(self)@.next_operation(), token),
    {
        proof {
            use_type_invariant(&self.cursor);
        }
        let Cursor { state, data_off, data_len } = self.cursor;
        match state {
            ConnectionState::Reading => {
                let offset = data_off + data_len;
                let len = BUFFER_CAPACITY - offset;
                let entry = read_entry(self.fd, &mut *self.buf, offset, len, token);
                Sqe { token, op: Operation::Read { fd: self.fd, offset, len }, entry }
            },
            ConnectionState::Writing => {
                let entry = write_entry(self.fd, &*self.buf, data_off, data_len, token);
                Sqe {
                    token,
                    op: Operation::Write { fd: self.fd, offset: data_off, len: data_len },
                    entry,
                }
            },
            ConnectionState::Closing => {
                let entry = close_entry(self.fd, token);
                Sqe { token, op: Operation::Close { fd: self.fd }, entry }
            },
        }
    }
}

} // verus!
