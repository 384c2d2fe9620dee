use io_uring::opcode;
use uring_echo::echo::ConnectionState;
use uring_echo::reactor::{
    next_step, AcceptReactor, Dispatch, EchoReactor, LoopEvent, LoopStep,
};
use uring_echo::sqe::{
    Operation, Sqe, NO_TOKEN, OP_ACCEPT, OP_CLOSE, OP_MSG_RING, OP_READ, OP_WRITE,
};
use uring_echo::uring::{Completion, UringHandle, UringMsg, MAX_ERRNO, RING_MSG_NEW_CONN};

fn io(result: i32, token: u64) -> Completion {
    Completion { result, user_data: token }
}

fn hello(fd: i32) -> Completion {
    Completion { result: RING_MSG_NEW_CONN, user_data: fd as u64 }
}

fn submitted(action: Dispatch) -> Sqe {
    match action {
        Dispatch::Submit(sqe) => sqe,
        Dispatch::Retired(token) => panic!("retired {}", token),
        Dispatch::Unclaimed => panic!("unclaimed"),
    }
}

#[test]
fn opcode_numbers_are_those_of_the_ring() {
    assert_eq!(OP_READ, opcode::Read::CODE as u32);
    assert_eq!(OP_WRITE, opcode::Write::CODE as u32);
    assert_eq!(OP_CLOSE, opcode::Close::CODE as u32);
    assert_eq!(OP_ACCEPT, opcode::AcceptMulti::CODE as u32);
    assert_eq!(OP_MSG_RING, opcode::MsgRingData::CODE as u32);
    assert_eq!(Operation::Close { fd: 1 }.opcode(), OP_CLOSE);
    assert_eq!(Operation::Read { fd: 1, offset: 0, len: 1 }.opcode(), OP_READ);
    assert_eq!(Operation::Write { fd: 1, offset: 0, len: 1 }.opcode(), OP_WRITE);
    assert_eq!(Operation::AcceptMulti { fd: 1 }.opcode(), OP_ACCEPT);
    assert_eq!(Operation::MsgRing { ring_fd: 1, result: 0, payload: 0 }.opcode(), OP_MSG_RING);
}

#[test]
fn marker_is_the_reserved_value() {
    assert_eq!(RING_MSG_NEW_CONN, i32::MIN + 1);
    assert!(RING_MSG_NEW_CONN < -MAX_ERRNO);
}

#[test]
fn decode_goes_by_the_result_alone() {
    for payload in [0u64, 1, 7, 0xffff_ffff, u64::MAX, 1 << 40] {
        let msg = UringMsg::try_from_cqe(&Completion { result: RING_MSG_NEW_CONN, user_data: payload });
        assert_eq!(msg, Some(UringMsg::NewConnection(payload as i32)));
        for result in [0, 1, -1, 4096, i32::MIN, i32::MAX, RING_MSG_NEW_CONN + 1] {
            assert_eq!(UringMsg::try_from_cqe(&Completion { result, user_data: payload }), None);
        }
    }
}

#[test]
fn message_round_trip() {
    let handle = UringHandle::new(11);
    assert_eq!(handle.ring_fd(), 11);
    for fd in [0, 1, 5, 1023, i32::MAX, -1, -9, i32::MIN] {
        let sqe = handle.create_send_sqe(UringMsg::NewConnection(fd));
        assert_eq!(sqe.token, NO_TOKEN);
        assert_eq!(sqe.entry.get_opcode(), OP_MSG_RING);
        assert_eq!(sqe.entry.get_user_data(), 0);
        match sqe.op {
            Operation::MsgRing { ring_fd, result, payload } => {
                assert_eq!(ring_fd, 11);
                assert_eq!(result, RING_MSG_NEW_CONN);
                let back = UringMsg::try_from_cqe(&Completion { result, user_data: payload });
                assert_eq!(back, Some(UringMsg::NewConnection(fd)));
            }
            other => panic!("unexpected operation {:?}", other),
        }
    }
    let sqe = handle.create_send_sqe(UringMsg::NewConnection(5));
    assert_eq!(sqe.op, Operation::MsgRing { ring_fd: 11, result: RING_MSG_NEW_CONN, payload: 5 });
    let sqe = handle.create_send_sqe(UringMsg::NewConnection(-1));
    assert_eq!(
        sqe.op,
        Operation::MsgRing { ring_fd: 11, result: RING_MSG_NEW_CONN, payload: u64::MAX }
    );
}

#[test]
fn accept_reactor_arms_and_forwards() {
    let accept = AcceptReactor::new(3, UringHandle::new(12));
    let arm = accept.arm();
    assert_eq!(arm.op, Operation::AcceptMulti { fd: 3 });
    assert_eq!(arm.token, NO_TOKEN);
    assert_eq!(arm.entry.get_opcode(), OP_ACCEPT);
    assert_eq!(arm.entry.get_user_data(), 0);
    let sqe = accept.dispatch(&io(20, 0));
    assert_eq!(sqe.op, Operation::MsgRing { ring_fd: 12, result: RING_MSG_NEW_CONN, payload: 20 });
    assert_eq!(sqe.entry.get_opcode(), OP_MSG_RING);
    let batch = [io(20, 0), io(21, 0), io(22, 0)];
    let sqes = accept.drain(&batch);
    assert_eq!(sqes.len(), 3);
    for (i, sqe) in sqes.iter().enumerate() {
        assert_eq!(
            sqe.op,
            Operation::MsgRing { ring_fd: 12, result: RING_MSG_NEW_CONN, payload: 20 + i as u64 }
        );
    }
    assert!(accept.drain(&[]).is_empty());
}

#[test]
fn accepted_connection_reaches_the_echo_reactor() {
    let accept = AcceptReactor::new(3, UringHandle::new(12));
    let mut echo = EchoReactor::new();
    let sqe = accept.dispatch(&io(33, 0));
    let delivered = match sqe.op {
        Operation::MsgRing { result, payload, .. } => Completion { result, user_data: payload },
        other => panic!("unexpected operation {:?}", other),
    };
    let first = submitted(echo.dispatch(&delivered));
    assert_eq!(first.op, Operation::Read { fd: 33, offset: 0, len: 4096 });
    assert_eq!(first.token, 0);
    assert_eq!(first.entry.get_opcode(), OP_READ);
    assert_eq!(first.entry.get_user_data(), 0);
    assert!(echo.live(0));
}

#[test]
fn tokens_are_the_lowest_free_slots() {
    let mut echo = EchoReactor::new();
    assert!(!echo.live(0));
    assert_eq!(submitted(echo.dispatch(&hello(10))).token, 0);
    assert_eq!(submitted(echo.dispatch(&hello(11))).token, 1);
    assert_eq!(submitted(echo.dispatch(&hello(12))).token, 2);
    // the connection in slot 1 fails and is closed
    let close = submitted(echo.dispatch(&io(-1, 1)));
    assert_eq!(close.op, Operation::Close { fd: 11 });
    assert!(echo.live(1));
    assert!(matches!(echo.dispatch(&io(0, 1)), Dispatch::Retired(1)));
    assert!(!echo.live(1));
    assert!(echo.live(0) && echo.live(2));
    // its slot goes to the next connection
    let next = submitted(echo.dispatch(&hello(13)));
    assert_eq!(next.token, 1);
    assert_eq!(next.op, Operation::Read { fd: 13, offset: 0, len: 4096 });
    assert_eq!(submitted(echo.dispatch(&hello(14))).token, 3);
    assert_eq!(echo.connection(1).unwrap().fd(), 13);
    assert_eq!(echo.connection(3).unwrap().fd(), 14);
    assert!(echo.connection(4).is_none());
}

#[test]
fn unknown_tokens_are_left_alone() {
    let mut echo = EchoReactor::new();
    assert!(matches!(echo.dispatch(&io(5, 0)), Dispatch::Unclaimed));
    assert!(matches!(echo.dispatch(&io(5, u64::MAX)), Dispatch::Unclaimed));
    submitted(echo.dispatch(&hello(10)));
    assert!(matches!(echo.dispatch(&io(5, 1)), Dispatch::Unclaimed));
    assert!(matches!(echo.dispatch(&io(5, 1 << 40)), Dispatch::Unclaimed));
    assert_eq!(echo.connection(0).unwrap().state(), ConnectionState::Reading);
    assert_eq!(echo.deposit(1, b"abc"), 0);
}

#[test]
fn a_retired_token_issues_nothing_more() {
    let mut echo = EchoReactor::new();
    submitted(echo.dispatch(&hello(10)));
    let close = submitted(echo.dispatch(&io(0, 0)));
    assert_eq!(close.op, Operation::Close { fd: 10 });
    assert_eq!(close.token, 0);
    assert!(matches!(echo.dispatch(&io(0, 0)), Dispatch::Retired(0)));
    for r in [0, 1, -1, 4096] {
        assert!(matches!(echo.dispatch(&io(r, 0)), Dispatch::Unclaimed));
    }
    assert!(!echo.live(0));
}

#[test]
fn a_message_never_reaches_a_connection() {
    let mut echo = EchoReactor::new();
    submitted(echo.dispatch(&hello(10)));
    echo.deposit(0, b"abc");
    submitted(echo.dispatch(&io(3, 0)));
    // the payload names the token of the live connection; it is a descriptor all the same
    let opened = submitted(echo.dispatch(&Completion { result: RING_MSG_NEW_CONN, user_data: 0 }));
    assert_eq!(opened.token, 1);
    assert_eq!(opened.op, Operation::Read { fd: 0, offset: 0, len: 4096 });
    let conn = echo.connection(0).unwrap();
    assert_eq!(conn.state(), ConnectionState::Writing);
    assert_eq!(conn.data_length(), 3);
    assert_eq!(conn.fd(), 10);
}

#[test]
fn two_clients_get_their_own_bytes() {
    let mut echo = EchoReactor::new();
    let a = submitted(echo.dispatch(&hello(100))).token;
    let b = submitted(echo.dispatch(&hello(200))).token;
    assert_ne!(a, b);
    let mut out_a: Vec<u8> = Vec::new();
    let mut out_b: Vec<u8> = Vec::new();
    let in_a: [&[u8]; 3] = [b"alpha", b"-", b"one"];
    let in_b: [&[u8]; 3] = [b"BRAVO!", b"TWO", b"??"];
    for round in 0..3 {
        let na = echo.deposit(a, in_a[round]);
        let nb = echo.deposit(b, in_b[round]);
        // completions arrive interleaved, b first
        let wb = submitted(echo.dispatch(&io(nb as i32, b)));
        let wa = submitted(echo.dispatch(&io(na as i32, a)));
        assert_eq!(wa.token, a);
        assert_eq!(wb.token, b);
        match wa.op {
            Operation::Write { fd, offset, len } => {
                assert_eq!(fd, 100);
                let buf = echo.connection(a).unwrap().buffer();
                out_a.extend_from_slice(&buf[offset as usize..(offset + len) as usize]);
                let r = submitted(echo.dispatch(&io(len as i32, a)));
                assert_eq!(r.op, Operation::Read { fd: 100, offset: 0, len: 4096 });
            }
            other => panic!("unexpected operation {:?}", other),
        }
        match wb.op {
            Operation::Write { fd, offset, len } => {
                assert_eq!(fd, 200);
                let buf = echo.connection(b).unwrap().buffer();
                out_b.extend_from_slice(&buf[offset as usize..(offset + len) as usize]);
                let r = submitted(echo.dispatch(&io(len as i32, b)));
                assert_eq!(r.op, Operation::Read { fd: 200, offset: 0, len: 4096 });
            }
            other => panic!("unexpected operation {:?}", other),
        }
    }
    assert_eq!(out_a, b"alpha-one");
    assert_eq!(out_b, b"BRAVO!TWO??");
}

#[test]
fn drain_answers_a_batch_in_order() {
    let mut echo = EchoReactor::new();
    let batch = [
        hello(10),
        hello(11),
        io(4, 0),
        io(9, 7),
        io(0, 1),
        io(0, 1),
        io(4, 0),
        hello(12),
    ];
    let sqes = echo.drain(&batch);
    let ops: Vec<(u64, Operation)> = sqes.iter().map(|s| (s.token, s.op)).collect();
    assert_eq!(
        ops,
        vec![
            (0, Operation::Read { fd: 10, offset: 0, len: 4096 }),
            (1, Operation::Read { fd: 11, offset: 0, len: 4096 }),
            (0, Operation::Write { fd: 10, offset: 0, len: 4 }),
            (1, Operation::Close { fd: 11 }),
            (0, Operation::Read { fd: 10, offset: 0, len: 4096 }),
            (1, Operation::Read { fd: 12, offset: 0, len: 4096 }),
        ]
    );
    for sqe in &sqes {
        assert_eq!(sqe.entry.get_user_data(), sqe.token);
        assert_eq!(sqe.entry.get_opcode(), sqe.op.opcode());
    }
    assert!(echo.live(0) && echo.live(1) && !echo.live(2));
    assert!(echo.drain(&[]).is_empty());
}

#[test]
fn every_live_connection_has_one_token_in_the_kernel() {
    // the kernel's side of the books, kept by hand
    let mut held: Vec<u64> = Vec::new();
    let mut echo = EchoReactor::new();
    let script = [
        hello(5), hello(6), io(3, 0), io(3, 0), io(-1, 1), hello(7), io(0, 1), io(2, 2),
        io(0, 0), io(0, 0), hello(8), io(1, 2), io(0, 1), io(0, 3), io(0, 3),
    ];
    let mut pending: Vec<Completion> = script.to_vec();
    pending.reverse();
    while let Some(cqe) = pending.pop() {
        if cqe.result != RING_MSG_NEW_CONN {
            if let Some(at) = held.iter().position(|t| *t == cqe.user_data) {
                held.remove(at);
            } else {
                // the kernel has no such operation: the reactor must not answer
                assert!(matches!(echo.dispatch(&cqe), Dispatch::Unclaimed));
                continue;
            }
        }
        match echo.dispatch(&cqe) {
            Dispatch::Submit(sqe) => held.push(sqe.token),
            Dispatch::Retired(token) => assert!(!echo.live(token)),
            Dispatch::Unclaimed => panic!("a token of the kernel was not claimed"),
        }
        for token in 0..8u64 {
            let count = held.iter().filter(|t| **t == token).count();
            assert_eq!(count, if echo.live(token) { 1 } else { 0 });
        }
    }
}

#[test]
fn loop_policy() {
    assert_eq!(next_step(LoopEvent::Woken), LoopStep::Drain);
    assert_eq!(next_step(LoopEvent::Interrupted), LoopStep::Wait);
    assert_eq!(next_step(LoopEvent::WaitFailed), LoopStep::Drain);
    assert_eq!(next_step(LoopEvent::Drained(0)), LoopStep::Wait);
    assert_eq!(next_step(LoopEvent::Drained(1)), LoopStep::Publish);
    assert_eq!(next_step(LoopEvent::Drained(usize::MAX)), LoopStep::Publish);
    assert_eq!(next_step(LoopEvent::Published), LoopStep::Drain);
}
