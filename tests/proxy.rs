use std::cell::RefCell;

use vsock_tcp::packet::{PacketHeader, HDR_SIZE, VSOCK_OP_RW, VSOCK_TYPE_STREAM};
use vsock_tcp::proxy::{
    classify, EventSet, RecvPkt, PeerName, ProxyStatus, RecvOutcome, ShutdownHow, TcpProxy, TsiAcceptReq,
    TsiListenReq, EAGAIN, ECONNREFUSED, EINPROGRESS, EINVAL,
};
use vsock_tcp::queue::{RxDescriptor, StreamQueue};
use vsock_tcp::rxq::{MuxerRx, MuxerRxQ};

const ID: u64 = 7;
const CID: u64 = 3;
const FD: i32 = 42;
const LOCAL: u32 = 1100;
const PEER: u32 = 2200;
const CONTROL: u32 = 3300;

fn proxy(buf: u32) -> TcpProxy {
    TcpProxy::new(ID, CID, LOCAL, PEER, CONTROL, FD, buf)
}

fn hdr(src_port: u32, dst_port: u32) -> PacketHeader {
    PacketHeader {
        src_cid: CID,
        dst_cid: 2,
        src_port,
        dst_port,
        len: 0,
        type_: VSOCK_TYPE_STREAM,
        op: 0,
        flags: 0,
        buf_alloc: 0,
        fwd_cnt: 0,
    }
}

fn credit(buf_alloc: u32, fwd_cnt: u32) -> PacketHeader {
    PacketHeader { buf_alloc, fwd_cnt, ..hdr(PEER, LOCAL) }
}

fn rxq() -> MuxerRxQ {
    MuxerRxQ::new(16)
}

fn descs(lens: &[u32]) -> StreamQueue {
    StreamQueue::new(
        lens.iter().enumerate().map(|(i, l)| RxDescriptor { index: i as u16, len: *l }).collect(),
    )
}

fn drain(q: &mut MuxerRxQ) -> Vec<MuxerRx> {
    let mut out = Vec::new();
    while let Some(r) = q.pop() {
        out.push(r);
    }
    out
}

fn no_accept() -> Result<i32, u16> {
    Err(EAGAIN)
}

/// A mocked socket that hands out `data` in order.
struct Source {
    data: RefCell<Vec<u8>>,
    eof: bool,
}

impl Source {
    fn new(data: Vec<u8>) -> Source {
        Source { data: RefCell::new(data), eof: false }
    }

    fn recv(&self, max: usize) -> RecvOutcome {
        let mut d = self.data.borrow_mut();
        if d.is_empty() {
            if self.eof {
                RecvOutcome::Eof
            } else {
                RecvOutcome::Failed(EAGAIN)
            }
        } else {
            let n = max.min(d.len());
            RecvOutcome::Data(d.drain(..n).collect())
        }
    }
}

fn connected(buf: u32, alloc: u32, fwd: u32) -> TcpProxy {
    let mut p = proxy(buf);
    let mut dgram = rxq();
    p.connect(Ok(()), &mut dgram);
    p.update_peer_credit(&credit(alloc, fwd));
    assert_eq!(p.status(), ProxyStatus::Connected);
    p
}

#[test]
fn forward_connect_success() {
    let mut p = proxy(65536);
    let mut dgram = rxq();
    let u = p.connect(Ok(()), &mut dgram);
    assert_eq!(
        drain(&mut dgram),
        vec![MuxerRx::ConnResponse { local_port: 1025, peer_port: CONTROL, result: 0 }]
    );
    assert_eq!(u.polling, Some((ID, FD, EventSet::input())));
    assert!(u.make_blocking);
    assert_eq!(p.status(), ProxyStatus::Connected);
}

#[test]
fn forward_connect_in_progress_then_complete() {
    let mut p = proxy(65536);
    let (mut q, mut stream, mut dgram) = (descs(&[]), rxq(), rxq());
    let u = p.connect(Err(EINPROGRESS), &mut dgram);
    assert_eq!(u.polling, Some((ID, FD, EventSet::input_output())));
    assert!(dgram.is_empty());
    assert_eq!(p.status(), ProxyStatus::Connecting);
    let src = Source::new(vec![]);
    let out = EventSet { readable: false, writable: true, hang_up: false };
    let u = p.process_event(out, &mut q, &mut stream, &mut dgram, &|m| src.recv(m), &no_accept);
    assert_eq!(
        drain(&mut dgram),
        vec![MuxerRx::ConnResponse { local_port: 1025, peer_port: CONTROL, result: 0 }]
    );
    assert_eq!(u.polling, Some((ID, FD, EventSet::input())));
    assert_eq!(p.status(), ProxyStatus::Connected);
    assert!(u.signal_queue);
    assert!(stream.is_empty());
}

#[test]
fn connect_failure_reports_errno() {
    let mut p = proxy(65536);
    let mut dgram = rxq();
    let u = p.connect(Err(ECONNREFUSED), &mut dgram);
    assert_eq!(
        drain(&mut dgram),
        vec![MuxerRx::ConnResponse { local_port: 1025, peer_port: CONTROL, result: -111 }]
    );
    assert_eq!(u.polling, None);
    assert_eq!(p.status(), ProxyStatus::Idle);
}

#[test]
fn credit_stall_and_recovery() {
    let mut p = connected(65536, 100, 0);
    let (mut stream, mut dgram) = (rxq(), rxq());
    let src = Source::new((0..200u32).map(|i| i as u8).collect());
    let mut q = descs(&[HDR_SIZE as u32 + 256]);
    let u = p.process_event(EventSet::input(), &mut q, &mut stream, &mut dgram, &|m| src.recv(m), &no_accept);
    assert_eq!(q.used_len(), 1);
    assert_eq!(q.used_at(0).payload.len(), 100);
    assert_eq!(q.used_at(0).len, HDR_SIZE as u32 + 100);
    assert_eq!(p.rx_cnt(), 100);
    assert!(u.signal_queue);
    assert_eq!(p.status(), ProxyStatus::Connected);

    let mut q = descs(&[HDR_SIZE as u32 + 256]);
    let u = p.process_event(EventSet::input(), &mut q, &mut stream, &mut dgram, &|m| src.recv(m), &no_accept);
    assert_eq!(p.status(), ProxyStatus::WaitingCreditUpdate);
    assert_eq!(u.polling, Some((ID, FD, EventSet::empty())));
    assert_eq!(
        u.push_credit_req,
        Some(MuxerRx::CreditRequest { local_port: LOCAL, peer_port: PEER, fwd_cnt: p.tx_cnt() })
    );
    assert_eq!(q.used_len(), 0);
    assert_eq!(q.pending_len(), 1);

    let u = p.update_peer_credit(&credit(100, 100));
    assert_eq!(p.status(), ProxyStatus::Connected);
    assert_eq!(u.polling, Some((ID, FD, EventSet::input())));
    let u = p.process_event(EventSet::input(), &mut q, &mut stream, &mut dgram, &|m| src.recv(m), &no_accept);
    assert!(u.signal_queue);
    assert_eq!(q.used_len(), 1);
    assert_eq!(q.used_at(0).payload, (100..200u32).map(|i| i as u8).collect::<Vec<u8>>());
    assert_eq!(p.rx_cnt(), 200);
}

#[test]
fn send_side_credit_update() {
    // A 16384-byte buffer puts the threshold at 8192: the first send of
    // 10000 bytes already crosses it; the next 5000 do not cross it again.
    let mut p = connected(16384, 65536, 0);
    let mut stream = rxq();
    let pkt = hdr(PEER, LOCAL);
    let u = p.sendmsg(&pkt, Some(Ok(10000)), &mut stream);
    assert!(u.signal_queue);
    assert_eq!(
        drain(&mut stream),
        vec![MuxerRx::CreditUpdate { local_port: LOCAL, peer_port: PEER, fwd_cnt: 10000 }]
    );
    assert_eq!(p.last_tx_cnt_sent(), 10000);
    let u = p.sendmsg(&pkt, Some(Ok(5000)), &mut stream);
    assert!(!u.signal_queue);
    assert!(stream.is_empty());
    assert_eq!(p.tx_cnt(), 15000);
    assert_eq!(p.last_tx_cnt_sent(), 10000);
}

#[test]
fn credit_update_only_on_second_send() {
    // With a 24576-byte buffer the threshold, 12288, lies between the two
    // running totals, so only the second send pushes an update.
    let mut p = connected(24576, 65536, 0);
    let mut stream = rxq();
    let pkt = hdr(PEER, LOCAL);
    let u = p.sendmsg(&pkt, Some(Ok(10000)), &mut stream);
    assert!(!u.signal_queue);
    assert!(stream.is_empty());
    let u = p.sendmsg(&pkt, Some(Ok(5000)), &mut stream);
    assert!(u.signal_queue);
    assert_eq!(
        drain(&mut stream),
        vec![MuxerRx::CreditUpdate { local_port: LOCAL, peer_port: PEER, fwd_cnt: 15000 }]
    );
    assert_eq!(p.last_tx_cnt_sent(), 15000);
    assert_eq!(p.tx_cnt(), 15000);
}

#[test]
fn failed_receive_keeps_connection() {
    let mut p = connected(65536, 1000, 0);
    let (mut stream, mut dgram) = (rxq(), rxq());
    let src = Source::new(vec![]);
    let mut q = descs(&[HDR_SIZE as u32 + 64]);
    let u = p.process_event(EventSet::input(), &mut q, &mut stream, &mut dgram, &|m| src.recv(m), &no_accept);
    assert_eq!(p.status(), ProxyStatus::Connected);
    assert_eq!(q.used_len(), 0);
    assert_eq!(q.pending_len(), 1);
    assert_eq!(p.rx_cnt(), 0);
    assert!(!u.signal_queue);
    assert!(u.polling.is_none());
    assert!(stream.is_empty());
}

#[test]
fn classify_outcomes() {
    assert!(matches!(classify(RecvOutcome::Data(vec![1, 2]), 2), RecvPkt::Read(d) if d == vec![1, 2]));
    assert!(matches!(classify(RecvOutcome::Data(vec![1, 2, 3]), 2), RecvPkt::Error));
    assert!(matches!(classify(RecvOutcome::Data(vec![]), 2), RecvPkt::Close));
    assert!(matches!(classify(RecvOutcome::Eof, 2), RecvPkt::Close));
    assert!(matches!(classify(RecvOutcome::Failed(11), 2), RecvPkt::Error));
}

#[test]
fn credit_update_threshold_is_half_the_buffer() {
    let mut p = connected(16384, 65536, 0);
    let mut stream = rxq();
    let pkt = hdr(PEER, LOCAL);
    let u = p.sendmsg(&pkt, Some(Ok(8191)), &mut stream);
    assert!(!u.signal_queue);
    let u = p.sendmsg(&pkt, Some(Ok(1)), &mut stream);
    assert!(u.signal_queue);
    assert_eq!(p.last_tx_cnt_sent(), 8192);
    let u = p.sendmsg(&pkt, Some(Ok(8191)), &mut stream);
    assert!(!u.signal_queue);
    assert_eq!(stream.len(), 1);
}

#[test]
fn failed_or_empty_send_changes_nothing() {
    let mut p = connected(16384, 65536, 0);
    let mut stream = rxq();
    let pkt = hdr(PEER, LOCAL);
    let u = p.sendmsg(&pkt, Some(Err(EINVAL)), &mut stream);
    assert!(!u.signal_queue);
    let u = p.sendmsg(&pkt, None, &mut stream);
    assert!(!u.signal_queue);
    assert_eq!(p.tx_cnt(), 0);
    assert_eq!(p.status(), ProxyStatus::Connected);
}

#[test]
fn listen_accept_reverse_handshake() {
    let mut p = proxy(65536);
    let (mut q, mut stream, mut dgram) = (descs(&[]), rxq(), rxq());
    let req = TsiListenReq { addr: 0x7f00_0001, port: 8080, vm_port: 5000, backlog: 5 };
    let pkt = hdr(CONTROL, 1029);
    let u = p.listen(&pkt, req, |_, _, _| Ok(()), &mut dgram);
    assert_eq!(
        drain(&mut dgram),
        vec![MuxerRx::ListenResponse { local_port: 1029, peer_port: CONTROL, result: 0 }]
    );
    assert_eq!(u.polling, Some((ID, FD, EventSet::input())));
    assert_eq!(p.status(), ProxyStatus::Listening);

    let src = Source::new(vec![]);
    let u = p.process_event(EventSet::input(), &mut q, &mut stream, &mut dgram, &|m| src.recv(m), &|| Ok(99));
    assert_eq!(u.new_proxy, Some((5000, 99)));
    assert!(u.signal_queue);

    let mut child = TcpProxy::new_reverse(8, CID, ID, 6000, 5000, 99, 65536);
    assert_eq!(child.status(), ProxyStatus::ReverseInit);
    child.push_op_request(&mut dgram);
    assert_eq!(drain(&mut dgram), vec![MuxerRx::OpRequest { local_port: 6000, peer_port: 5000 }]);
    let u = child.process_op_response(&credit(4096, 0));
    assert_eq!(child.status(), ProxyStatus::Connected);
    assert_eq!(u.push_accept, Some((8, ID)));
    assert_eq!(u.polling, Some((8, 99, EventSet::input())));
    assert_eq!(child.peer_buf_alloc(), 4096);
    p.push_accept_rsp(0, &mut dgram);
    assert_eq!(
        drain(&mut dgram),
        vec![MuxerRx::AcceptResponse { local_port: 1030, peer_port: CONTROL, result: 0 }]
    );
}

#[test]
fn remote_close() {
    let mut p = connected(65536, 1000, 0);
    let (mut stream, mut dgram) = (rxq(), rxq());
    let src = Source { data: RefCell::new(vec![]), eof: true };
    let mut q = descs(&[HDR_SIZE as u32 + 64]);
    let u = p.process_event(EventSet::input(), &mut q, &mut stream, &mut dgram, &|m| src.recv(m), &no_accept);
    assert_eq!(p.status(), ProxyStatus::Closed);
    assert_eq!(drain(&mut stream), vec![MuxerRx::Reset { local_port: LOCAL, peer_port: PEER }]);
    assert_eq!(u.polling, Some((ID, FD, EventSet::empty())));
    assert!(u.remove_proxy);
    assert!(u.signal_queue);
    assert_eq!(q.pending_len(), 1);
    assert_eq!(q.used_len(), 0);
}

#[test]
fn listen_twice_is_idempotent() {
    let mut p = proxy(65536);
    let mut dgram = rxq();
    let req = TsiListenReq { addr: 0, port: 8080, vm_port: 5000, backlog: 5 };
    let pkt = hdr(CONTROL, 1029);
    let u1 = p.listen(&pkt, req, |_, _, _| Ok(()), &mut dgram);
    let u2 = p.listen(&pkt, req, |_, _, _| Err(98), &mut dgram);
    assert_eq!(u1.polling, u2.polling);
    assert_eq!(p.status(), ProxyStatus::Listening);
    let rsp = MuxerRx::ListenResponse { local_port: 1029, peer_port: CONTROL, result: 0 };
    assert_eq!(drain(&mut dgram), vec![rsp, rsp]);
}

#[test]
fn listen_failure_reports_errno() {
    let mut p = proxy(65536);
    let mut dgram = rxq();
    let req = TsiListenReq { addr: 0, port: 80, vm_port: 5000, backlog: 5 };
    let u = p.listen(&hdr(CONTROL, 1029), req, |_, _, _| Err(13), &mut dgram);
    assert_eq!(u.polling, None);
    assert_eq!(p.status(), ProxyStatus::Idle);
    assert_eq!(
        drain(&mut dgram),
        vec![MuxerRx::ListenResponse { local_port: 1029, peer_port: CONTROL, result: -13 }]
    );
}

#[test]
fn peer_credit_wraps() {
    let p = connected(65536, 100, u32::MAX - 9);
    assert_eq!(p.peer_avail_credit(), 100u32.wrapping_sub(0u32.wrapping_sub(u32::MAX - 9)));
    assert_eq!(p.peer_avail_credit(), 90);
    let mut p = connected(65536, 100, u32::MAX - 49);
    let (mut stream, mut dgram) = (rxq(), rxq());
    let src = Source::new(vec![1u8; 80]);
    let mut q = descs(&[HDR_SIZE as u32 + 80]);
    p.process_event(EventSet::input(), &mut q, &mut stream, &mut dgram, &|m| src.recv(m), &no_accept);
    assert_eq!(q.used_at(0).payload.len(), 50);
    assert_eq!(p.rx_cnt(), 50);
    assert_eq!(p.peer_avail_credit(), 0);
}

#[test]
fn empty_descriptor_is_put_back() {
    let mut p = connected(65536, 1000, 0);
    let (mut stream, mut dgram) = (rxq(), rxq());
    let src = Source::new(vec![1u8; 10]);
    let mut q = descs(&[HDR_SIZE as u32, HDR_SIZE as u32 + 100]);
    let u = p.process_event(EventSet::input(), &mut q, &mut stream, &mut dgram, &|m| src.recv(m), &no_accept);
    assert_eq!(q.used_len(), 0);
    assert_eq!(q.pending_len(), 2);
    assert!(!u.signal_queue);
    assert_eq!(p.status(), ProxyStatus::Connected);
    assert!(u.push_credit_req.is_none());
    assert!(u.polling.is_none());
    assert_eq!(p.rx_cnt(), 0);
    let mut q = descs(&[0, HDR_SIZE as u32 + 100]);
    let u = p.process_event(EventSet::input(), &mut q, &mut stream, &mut dgram, &|m| src.recv(m), &no_accept);
    assert_eq!(q.used_len(), 0);
    assert_eq!(q.pending_len(), 2);
    assert!(!u.signal_queue);
    assert_eq!(p.status(), ProxyStatus::Connected);
}

#[test]
fn hang_up_while_connecting_refuses() {
    let mut p = proxy(65536);
    let (mut q, mut stream, mut dgram) = (descs(&[]), rxq(), rxq());
    p.connect(Err(EINPROGRESS), &mut dgram);
    let src = Source::new(vec![]);
    let hup = EventSet { readable: false, writable: false, hang_up: true };
    let u = p.process_event(hup, &mut q, &mut stream, &mut dgram, &|m| src.recv(m), &no_accept);
    assert_eq!(
        drain(&mut dgram),
        vec![MuxerRx::ConnResponse { local_port: 1025, peer_port: CONTROL, result: -111 }]
    );
    assert!(stream.is_empty());
    assert_eq!(p.status(), ProxyStatus::Closed);
    assert!(u.remove_proxy);
    assert!(u.signal_queue);
    assert_eq!(u.polling, Some((ID, FD, EventSet::empty())));
}

#[test]
fn hang_up_while_connected_resets() {
    let mut p = connected(65536, 1000, 0);
    let (mut q, mut stream, mut dgram) = (descs(&[]), rxq(), rxq());
    let src = Source::new(vec![]);
    let hup = EventSet { readable: true, writable: false, hang_up: true };
    p.process_event(hup, &mut q, &mut stream, &mut dgram, &|m| src.recv(m), &no_accept);
    assert_eq!(drain(&mut stream), vec![MuxerRx::Reset { local_port: LOCAL, peer_port: PEER }]);
    assert!(dgram.is_empty());
    assert_eq!(p.status(), ProxyStatus::Closed);
}

#[test]
fn stalled_proxy_requests_credit_once() {
    let mut p = connected(65536, 0, 0);
    let (mut stream, mut dgram) = (rxq(), rxq());
    let src = Source::new(vec![5u8; 10]);
    let mut q = descs(&[HDR_SIZE as u32 + 100]);
    let u = p.process_event(EventSet::input(), &mut q, &mut stream, &mut dgram, &|m| src.recv(m), &no_accept);
    assert_eq!(p.status(), ProxyStatus::WaitingCreditUpdate);
    assert!(u.push_credit_req.is_some());
    let u = p.process_event(EventSet::input(), &mut q, &mut stream, &mut dgram, &|m| src.recv(m), &no_accept);
    assert!(u.push_credit_req.is_none());
    assert_eq!(p.status(), ProxyStatus::WaitingCreditUpdate);
}

#[test]
fn bytes_arrive_in_order_across_descriptors() {
    let mut p = connected(65536, 100000, 0);
    let (mut stream, mut dgram) = (rxq(), rxq());
    let data: Vec<u8> = (0..250u32).map(|i| (i * 7) as u8).collect();
    let src = Source::new(data.clone());
    let mut q = descs(&[HDR_SIZE as u32 + 100, HDR_SIZE as u32 + 60, HDR_SIZE as u32 + 200, HDR_SIZE as u32 + 10]);
    p.process_event(EventSet::input(), &mut q, &mut stream, &mut dgram, &|m| src.recv(m), &no_accept);
    assert_eq!(q.used_len(), 3);
    let mut got = Vec::new();
    for i in 0..q.used_len() {
        let u = q.used_at(i);
        assert_eq!(u.index, i as u16);
        assert_eq!(u.hdr.op, VSOCK_OP_RW);
        assert_eq!(u.hdr.src_port, LOCAL);
        assert_eq!(u.hdr.dst_port, PEER);
        assert_eq!(u.hdr.dst_cid, CID);
        assert_eq!(u.hdr.len as usize, u.payload.len());
        got.extend_from_slice(&u.payload);
    }
    assert_eq!(got, data);
    assert_eq!(p.rx_cnt(), 250);
    assert_eq!(p.push_cnt(), 250 + 3 * HDR_SIZE as u32);
    assert_eq!(q.pending_len(), 1);
}

#[test]
fn closed_is_absorbing() {
    let mut p = connected(65536, 1000, 0);
    let (mut q, mut stream, mut dgram) = (descs(&[]), rxq(), rxq());
    let src = Source::new(vec![]);
    let hup = EventSet { readable: false, writable: false, hang_up: true };
    p.process_event(hup, &mut q, &mut stream, &mut dgram, &|m| src.recv(m), &no_accept);
    p.update_peer_credit(&credit(10, 0));
    assert_eq!(p.status(), ProxyStatus::Closed);
    p.process_op_response(&credit(10, 0));
    assert_eq!(p.status(), ProxyStatus::Closed);
    let u = p.connect(Ok(()), &mut dgram);
    assert_eq!(u.polling, None);
    assert_eq!(p.status(), ProxyStatus::Closed);
    let req = TsiListenReq { addr: 0, port: 80, vm_port: 1, backlog: 1 };
    p.listen(&hdr(CONTROL, 1029), req, |_, _, _| Ok(()), &mut dgram);
    assert_eq!(p.status(), ProxyStatus::Closed);
    let out = EventSet { readable: true, writable: true, hang_up: false };
    p.process_event(out, &mut q, &mut stream, &mut dgram, &|m| src.recv(m), &no_accept);
    assert_eq!(p.status(), ProxyStatus::Closed);
}

#[test]
fn accept_outcomes() {
    let mut p = proxy(65536);
    let mut dgram = rxq();
    let pkt = hdr(CONTROL, 1030);
    let req = TsiAcceptReq { peer_port: 5000, flags: 0 };
    let u = p.accept(&pkt, req, Err(EAGAIN), &mut dgram);
    assert!(dgram.is_empty());
    assert_eq!(u.new_proxy, None);
    let u = p.accept(&pkt, req, Ok(17), &mut dgram);
    assert_eq!(u.new_proxy, Some((PEER, 17)));
    let u = p.accept(&pkt, req, Err(EINVAL), &mut dgram);
    assert_eq!(u.new_proxy, None);
    assert_eq!(
        drain(&mut dgram),
        vec![
            MuxerRx::AcceptResponse { local_port: 1030, peer_port: CONTROL, result: 0 },
            MuxerRx::AcceptResponse { local_port: 1030, peer_port: CONTROL, result: -22 },
        ]
    );
}

#[test]
fn confirm_connect_rebinds_ports() {
    let mut p = TcpProxy::new_reverse(8, CID, ID, 6000, 5000, 99, 65536);
    let mut stream = rxq();
    let pkt = PacketHeader { buf_alloc: 777, fwd_cnt: 3, ..hdr(5001, 6001) };
    p.confirm_connect(&pkt, &mut stream);
    assert_eq!(p.local_port(), 6001);
    assert_eq!(p.peer_port(), 5001);
    assert_eq!(p.peer_buf_alloc(), 777);
    assert_eq!(p.peer_fwd_cnt(), 3);
    assert_eq!(drain(&mut stream), vec![MuxerRx::OpResponse { local_port: 6001, peer_port: 5001 }]);
}

#[test]
fn getpeername_answers() {
    let mut p = proxy(65536);
    let mut dgram = rxq();
    let pkt = hdr(CONTROL, 1031);
    p.getpeername(&pkt, PeerName::V4 { addr: 0x7f00_0001, port: 7 }, &mut dgram);
    p.getpeername(&pkt, PeerName::NotV4, &mut dgram);
    p.getpeername(&pkt, PeerName::Failed(107), &mut dgram);
    assert_eq!(
        drain(&mut dgram),
        vec![
            MuxerRx::GetnameResponse { local_port: 1031, peer_port: CONTROL, addr: 0x7f00_0001, port: 7, result: 0 },
            MuxerRx::GetnameResponse { local_port: 1031, peer_port: CONTROL, addr: 0, port: 0, result: -22 },
            MuxerRx::GetnameResponse { local_port: 1031, peer_port: CONTROL, addr: 0, port: 0, result: -107 },
        ]
    );
}

#[test]
fn shutdown_directions() {
    let p = proxy(65536);
    let with = |flags: u32| PacketHeader { flags, ..hdr(PEER, LOCAL) };
    assert_eq!(p.shutdown(&with(3)), ShutdownHow::Both);
    assert_eq!(p.shutdown(&with(1)), ShutdownHow::Read);
    assert_eq!(p.shutdown(&with(2)), ShutdownHow::Write);
    assert_eq!(p.shutdown(&with(0)), ShutdownHow::Write);
}

#[test]
fn release_and_sendto() {
    let mut p = proxy(65536);
    assert!(p.release().remove_proxy);
    let u = p.sendto_addr();
    assert!(!u.remove_proxy && u.polling.is_none());
    assert_eq!(p.id(), ID);
    assert_eq!(p.as_raw_fd(), FD);
}

#[test]
fn reverse_proxy_starts_in_reverse_init() {
    let p = TcpProxy::new_reverse(8, CID, ID, 6000, 5000, 99, 65536);
    assert_eq!(p.status(), ProxyStatus::ReverseInit);
    assert_eq!(p.parent_id(), ID);
    assert_eq!(p.control_port(), 0);
    assert_eq!(p.rx_cnt(), 0);
}

#[test]
fn listen_binds_the_requested_address() {
    let mut p = proxy(65536);
    let mut dgram = rxq();
    let req = TsiListenReq { addr: 0x7f00_0001, port: 8080, vm_port: 5000, backlog: 7 };
    let seen = RefCell::new(None);
    p.listen(&hdr(CONTROL, 1029), req, |a, port, b| {
        *seen.borrow_mut() = Some((a, port, b));
        Ok(())
    }, &mut dgram);
    assert_eq!(*seen.borrow(), Some((0x7f00_0001, 8080, 7)));
    assert_eq!(p.peer_port(), 5000);
}

#[test]
fn header_only_descriptor_without_credit_waits() {
    let mut p = connected(65536, 0, 0);
    let (mut stream, mut dgram) = (rxq(), rxq());
    let src = Source::new(vec![1u8; 10]);
    let mut q = descs(&[HDR_SIZE as u32]);
    let u = p.process_event(EventSet::input(), &mut q, &mut stream, &mut dgram, &|m| src.recv(m), &no_accept);
    assert_eq!(p.status(), ProxyStatus::WaitingCreditUpdate);
    assert!(u.push_credit_req.is_some());
    assert_eq!(q.pending_len(), 1);
}
