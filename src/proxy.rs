use vstd::prelude::*;

use crate::packet::{
    PacketHeader, HDR_SIZE, VSOCK_FLAGS_SHUTDOWN_RCV, VSOCK_FLAGS_SHUTDOWN_SEND, VSOCK_HOST_CID,
    VSOCK_OP_RW, VSOCK_TYPE_STREAM,
};
use crate::queue::{payload_bytes, RxDescriptor, StreamQueue, UsedElem};
use crate::rxq::{enqueued, MuxerRx, MuxerRxQ};

verus! {

/// Stream buffer capacity advertised to the guest unless configured otherwise.
pub const CONN_TX_BUF_SIZE: u32 = 65536;

/// Guest datagram port that connect responses are addressed from.
pub const CONNECT_RSP_PORT: u32 = 1025;

/// Guest datagram port that deferred accept responses are addressed from.
pub const ACCEPT_RSP_PORT: u32 = 1030;

/// Resource temporarily unavailable.
pub const EAGAIN: u16 = 11;

/// Invalid argument.
pub const EINVAL: u16 = 22;

/// Connection refused.
pub const ECONNREFUSED: u16 = 111;

/// Operation now in progress.
pub const EINPROGRESS: u16 = 115;

/// Lifecycle state of a proxy.
#[derive(Clone, Copy, Debug, PartialEq, Eq, Structural)]
pub enum ProxyStatus {
    Idle,
    Connecting,
    Connected,
    Listening,
    ReverseInit,
    WaitingCreditUpdate,
    Closed,
}

/// Readiness conditions on the host socket, as reported by or registered
/// with the event loop.
#[derive(Clone, Copy, Debug, PartialEq, Eq, Structural)]
pub struct EventSet {
    pub readable: bool,
    pub writable: bool,
    pub hang_up: bool,
}

impl EventSet {
    pub fn empty() -> (r: EventSet)
        ensures
            r == (EventSet { readable: false, writable: false, hang_up: false }),
    {
        EventSet { readable: false, writable: false, hang_up: false }
    }

    pub fn input() -> (r: EventSet)
        ensures
            r == (EventSet { readable: true, writable: false, hang_up: false }),
    {
        EventSet { readable: true, writable: false, hang_up: false }
    }

    pub fn input_output() -> (r: EventSet)
        ensures
            r == (EventSet { readable: true, writable: true, hang_up: false }),
    {
        EventSet { readable: true, writable: true, hang_up: false }
    }
}

pub open spec fn no_events() -> EventSet {
    EventSet { readable: false, writable: false, hang_up: false }
}

pub open spec fn in_events() -> EventSet {
    EventSet { readable: true, writable: false, hang_up: false }
}

pub open spec fn in_out_events() -> EventSet {
    EventSet { readable: true, writable: true, hang_up: false }
}

/// Side effects that the caller must enact after a proxy operation.
#[derive(Debug)]
pub struct ProxyUpdate {
    /// Desired event registration for the socket; an empty set deregisters it.
    pub polling: Option<(u64, i32, EventSet)>,
    /// The proxy is finished and must be destroyed.
    pub remove_proxy: bool,
    /// Descriptors were handed to the guest, which must be notified.
    pub signal_queue: bool,
    /// An accepted socket, with the guest port it is for, to wrap in a new proxy.
    pub new_proxy: Option<(u32, i32)>,
    /// A deferred accept response: this proxy's id and its parent's.
    pub push_accept: Option<(u64, u64)>,
    /// A credit request to enqueue on the stream queue.
    pub push_credit_req: Option<MuxerRx>,
    /// The socket must now be put in blocking mode.
    pub make_blocking: bool,
}

/// An update that asks for nothing.
pub open spec fn quiet(u: ProxyUpdate) -> bool {
    u.polling is None && !u.remove_proxy && !u.signal_queue && u.new_proxy is None
        && u.push_accept is None && u.push_credit_req is None && !u.make_blocking
}

impl ProxyUpdate {
    pub fn none() -> (r: ProxyUpdate)
        ensures
            quiet(r),
    {
        ProxyUpdate {
            polling: None,
            remove_proxy: false,
            signal_queue: false,
            new_proxy: None,
            push_accept: None,
            push_credit_req: None,
            make_blocking: false,
        }
    }
}

/// Why a proxy could not be created.
#[derive(Clone, Copy, Debug, PartialEq, Eq, Structural)]
pub enum ProxyError {
    CreatingSocket(u16),
    SettingReusePort(u16),
}

/// What a single non-blocking receive on the socket gave.
#[derive(Debug)]
pub enum RecvOutcome {
    Data(Vec<u8>),
    Eof,
    Failed(u16),
}

/// What filling one receive descriptor came to.
#[derive(Debug)]
pub enum RecvPkt {
    WaitForCredit,
    Read(Vec<u8>),
    Close,
    Error,
}

/// The peer address of the socket, as the host reported it.
#[derive(Clone, Copy, Debug, PartialEq, Eq, Structural)]
pub enum PeerName {
    V4 { addr: u32, port: u16 },
    NotV4,
    Failed(u16),
}

/// Which directions of the socket to shut down.
#[derive(Clone, Copy, Debug, PartialEq, Eq, Structural)]
pub enum ShutdownHow {
    Read,
    Write,
    Both,
}

/// A guest request to listen on a host address.
#[derive(Clone, Copy, Debug, PartialEq, Eq, Structural)]
pub struct TsiListenReq {
    pub addr: u32,
    pub port: u16,
    pub vm_port: u32,
    pub backlog: i32,
}

/// A guest request to accept a connection.
#[derive(Clone, Copy, Debug, PartialEq, Eq, Structural)]
pub struct TsiAcceptReq {
    pub peer_port: u32,
    pub flags: u32,
}

/// `x + y` modulo 2^32.
pub open spec fn wrap_add(x: u32, y: u32) -> u32 {
    if x + y > u32::MAX {
        (x + y - 0x1_0000_0000) as u32
    } else {
        (x + y) as u32
    }
}

/// `x - y` modulo 2^32.
pub open spec fn wrap_sub(x: u32, y: u32) -> u32 {
    if x - y < 0 {
        (x - y + 0x1_0000_0000) as u32
    } else {
        (x - y) as u32
    }
}

/// Everything a proxy knows, as plain values.
pub struct ProxyView {
    pub id: u64,
    pub cid: u64,
    pub parent_id: u64,
    pub local_port: u32,
    pub peer_port: u32,
    pub control_port: u32,
    pub fd: i32,
    pub status: ProxyStatus,
    pub rx_cnt: u32,
    pub tx_cnt: u32,
    pub last_tx_cnt_sent: u32,
    pub peer_buf_alloc: u32,
    pub peer_fwd_cnt: u32,
    pub push_cnt: u32,
    pub tx_buf_size: u32,
}

/// Bytes sent toward the guest that it has not yet forwarded.
pub open spec fn in_flight(v: ProxyView) -> u32 {
    wrap_sub(v.rx_cnt, v.peer_fwd_cnt)
}

/// How many more bytes the guest can take.
pub open spec fn avail_credit(v: ProxyView) -> u32 {
    wrap_sub(v.peer_buf_alloc, in_flight(v))
}

/// The header of a data packet carrying `len` bytes from this connection.
pub open spec fn data_header(v: ProxyView, len: u32) -> PacketHeader {
    PacketHeader {
        src_cid: VSOCK_HOST_CID,
        dst_cid: v.cid,
        src_port: v.local_port,
        dst_port: v.peer_port,
        len,
        type_: VSOCK_TYPE_STREAM,
        op: VSOCK_OP_RW,
        flags: 0,
        buf_alloc: v.tx_buf_size,
        fwd_cnt: v.tx_cnt,
    }
}

/// Room for payload in a receive descriptor, after the header; zero when it
/// cannot hold the header.
pub open spec fn buf_room(d: RxDescriptor) -> nat {
    if d.len >= HDR_SIZE {
        (d.len - HDR_SIZE) as nat
    } else {
        0
    }
}

/// Used element `u` was filled from descriptor `d` with a data packet of
/// connection `v`.
pub open spec fn filled_one(d: RxDescriptor, u: UsedElem, v: ProxyView) -> bool {
    &&& u.index == d.index
    &&& 0 < u.payload@.len() <= buf_room(d)
    &&& u.hdr == data_header(v, u.payload@.len() as u32)
    &&& u.len == HDR_SIZE + u.payload@.len()
}

/// What draining the stream queue did: descriptors were taken in ring order
/// and each filled with a data packet, the bytes were counted in `rx_cnt`,
/// and the bytes in flight stay within the guest's buffer if they were.
pub open spec fn drained(q0: StreamQueue, q1: StreamQueue, v0: ProxyView, v1: ProxyView) -> bool {
    &&& q1.wf()
    &&& q1.avail() == q0.avail()
    &&& q1.used().len() >= q0.used().len()
    &&& q1.used().subrange(0, q0.used().len() as int) == q0.used()
    &&& q1.next() == q0.next() + q1.used().len() - q0.used().len()
    &&& forall|k: int|
        q0.used().len() <= k < q1.used().len() ==> filled_one(
            q1.avail()[q0.next() - q0.used().len() + k],
            #[trigger] q1.used()[k],
            v1,
        )
    &&& same_identity(v1, v0)
    &&& v1.local_port == v0.local_port
    &&& v1.peer_port == v0.peer_port
    &&& v1.tx_cnt == v0.tx_cnt
    &&& v1.last_tx_cnt_sent == v0.last_tx_cnt_sent
    &&& v1.peer_buf_alloc == v0.peer_buf_alloc
    &&& v1.peer_fwd_cnt == v0.peer_fwd_cnt
    &&& v1.rx_cnt == (v0.rx_cnt + payload_bytes(q1.used()).len() - payload_bytes(q0.used()).len())
        % 0x1_0000_0000
    &&& payload_bytes(q0.used()).is_prefix_of(payload_bytes(q1.used()))
    &&& (in_flight(v0) <= v0.peer_buf_alloc ==> in_flight(v1) <= v1.peer_buf_alloc)
}

/// The identity and addressing fields agree.
pub open spec fn same_identity(a: ProxyView, b: ProxyView) -> bool {
    a.id == b.id && a.cid == b.cid && a.parent_id == b.parent_id && a.fd == b.fd
        && a.control_port == b.control_port && a.tx_buf_size == b.tx_buf_size
}

/// Everything but the status agrees.
pub open spec fn same_but_status(a: ProxyView, b: ProxyView) -> bool {
    same_identity(a, b) && a.local_port == b.local_port && a.peer_port == b.peer_port
        && a.rx_cnt == b.rx_cnt && a.tx_cnt == b.tx_cnt && a.last_tx_cnt_sent
        == b.last_tx_cnt_sent && a.peer_buf_alloc == b.peer_buf_alloc && a.peer_fwd_cnt
        == b.peer_fwd_cnt && a.push_cnt == b.push_cnt
}

/// The state only moves out of `Closed` to stay `Closed`.
pub open spec fn keeps_closed(a: ProxyView, b: ProxyView) -> bool {
    a.status == ProxyStatus::Closed ==> b.status == ProxyStatus::Closed
}

/// The host side of one proxied TCP connection.
pub struct TcpProxy {
    id: u64,
    cid: u64,
    parent_id: u64,
    local_port: u32,
    peer_port: u32,
    control_port: u32,
    fd: i32,
    status: ProxyStatus,
    rx_cnt: u32,
    tx_cnt: u32,
    last_tx_cnt_sent: u32,
    peer_buf_alloc: u32,
    peer_fwd_cnt: u32,
    push_cnt: u32,
    tx_buf_size: u32,
}

impl View for TcpProxy {
    type V = ProxyView;

    closed spec fn view(&self) -> ProxyView {
        ProxyView {
            id: self.id,
            cid: self.cid,
            parent_id: self.parent_id,
            local_port: self.local_port,
            peer_port: self.peer_port,
            control_port: self.control_port,
            fd: self.fd,
            status: self.status,
            rx_cnt: self.rx_cnt,
            tx_cnt: self.tx_cnt,
            last_tx_cnt_sent: self.last_tx_cnt_sent,
            peer_buf_alloc: self.peer_buf_alloc,
            peer_fwd_cnt: self.peer_fwd_cnt,
            push_cnt: self.push_cnt,
            tx_buf_size: self.tx_buf_size,
        }
    }
}

impl TcpProxy {
    /// A forward proxy over a freshly created socket `fd`, waiting for the
    /// guest to connect or listen.
    pub fn new(
        id: u64,
        cid: u64,
        local_port: u32,
        peer_port: u32,
        control_port: u32,
        fd: i32,
        tx_buf_size: u32,
    ) -> (r: TcpProxy)
        ensures
            r@ == (ProxyView {
                id,
                cid,
                parent_id: 0,
                local_port,
                peer_port,
                control_port,
                fd,
                status: ProxyStatus::Idle,
                rx_cnt: 0,
                tx_cnt: 0,
                last_tx_cnt_sent: 0,
                peer_buf_alloc: 0,
                peer_fwd_cnt: 0,
                push_cnt: 0,
                tx_buf_size,
            }),
    {
        TcpProxy {
            id,
            cid,
            parent_id: 0,
            local_port,
            peer_port,
            control_port,
            fd,
            status: ProxyStatus::Idle,
            rx_cnt: 0,
            tx_cnt: 0,
            last_tx_cnt_sent: 0,
            peer_buf_alloc: 0,
            peer_fwd_cnt: 0,
            push_cnt: 0,
            tx_buf_size,
        }
    }

    /// A proxy over a socket accepted by the listening proxy `parent_id`,
    /// waiting for the guest to answer its operation request.
    pub fn new_reverse(
        id: u64,
        cid: u64,
        parent_id: u64,
        local_port: u32,
        peer_port: u32,
        fd: i32,
        tx_buf_size: u32,
    ) -> (r: TcpProxy)
        ensures
            r@ == (ProxyView {
                id,
                cid,
                parent_id,
                local_port,
                peer_port,
                control_port: 0,
                fd,
                status: ProxyStatus::ReverseInit,
                rx_cnt: 0,
                tx_cnt: 0,
                last_tx_cnt_sent: 0,
                peer_buf_alloc: 0,
                peer_fwd_cnt: 0,
                push_cnt: 0,
                tx_buf_size,
            }),
    {
        TcpProxy {
            id,
            cid,
            parent_id,
            local_port,
            peer_port,
            control_port: 0,
            fd,
            status: ProxyStatus::ReverseInit,
            rx_cnt: 0,
            tx_cnt: 0,
            last_tx_cnt_sent: 0,
            peer_buf_alloc: 0,
            peer_fwd_cnt: 0,
            push_cnt: 0,
            tx_buf_size,
        }
    }

    pub fn id(&self) -> (r: u64)
        ensures
            r == self@.id,
    {
        self.id
    }

    pub fn status(&self) -> (r: ProxyStatus)
        ensures
            r == self@.status,
    {
        self.status
    }

    pub fn as_raw_fd(&self) -> (r: i32)
        ensures
            r == self@.fd,
    {
        self.fd
    }

    pub fn local_port(&self) -> (r: u32)
        ensures
            r == self@.local_port,
    {
        self.local_port
    }

    pub fn peer_port(&self) -> (r: u32)
        ensures
            r == self@.peer_port,
    {
        self.peer_port
    }

    pub fn control_port(&self) -> (r: u32)
        ensures
            r == self@.control_port,
    {
        self.control_port
    }

    pub fn parent_id(&self) -> (r: u64)
        ensures
            r == self@.parent_id,
    {
        self.parent_id
    }

    pub fn rx_cnt(&self) -> (r: u32)
        ensures
            r == self@.rx_cnt,
    {
        self.rx_cnt
    }

    pub fn tx_cnt(&self) -> (r: u32)
        ensures
            r == self@.tx_cnt,
    {
        self.tx_cnt
    }

    pub fn last_tx_cnt_sent(&self) -> (r: u32)
        ensures
            r == self@.last_tx_cnt_sent,
    {
        self.last_tx_cnt_sent
    }

    pub fn peer_buf_alloc(&self) -> (r: u32)
        ensures
            r == self@.peer_buf_alloc,
    {
        self.peer_buf_alloc
    }

    pub fn peer_fwd_cnt(&self) -> (r: u32)
        ensures
            r == self@.peer_fwd_cnt,
    {
        self.peer_fwd_cnt
    }

    pub fn push_cnt(&self) -> (r: u32)
        ensures
            r == self@.push_cnt,
    {
        self.push_cnt
    }

    /// Header for a data packet of `len` payload bytes from this connection.
    fn init_data_pkt(&self, len: u32) -> (r: PacketHeader)
        ensures
            r == data_header(self@, len),
    {
        PacketHeader {
            src_cid: VSOCK_HOST_CID,
            dst_cid: self.cid,
            src_port: self.local_port,
            dst_port: self.peer_port,
            len,
            type_: VSOCK_TYPE_STREAM,
            op: VSOCK_OP_RW,
            flags: 0,
            buf_alloc: self.tx_buf_size,
            fwd_cnt: self.tx_cnt,
        }
    }

    /// How many more bytes the guest can take, by wrapped 32-bit subtraction.
    pub fn peer_avail_credit(&self) -> (r: u32)
        ensures
            r == avail_credit(self@),
    {
        self.peer_buf_alloc.wrapping_sub(self.rx_cnt.wrapping_sub(self.peer_fwd_cnt))
    }

    /// Enters `Connected`; the socket is to be made blocking.
    fn switch_to_connected(&mut self)
        ensures
            final(self)@ == (ProxyView { status: ProxyStatus::Connected, ..old(self)@ }),
    {
        self.status = ProxyStatus::Connected;
    }
}


/// Credit soundness: while the bytes in flight fit in the guest's buffer,
/// receiving at most the available credit keeps them within it, all
/// counters taken modulo 2^32.
pub proof fn lemma_credit_soundness(rx_cnt: u32, peer_fwd_cnt: u32, peer_buf_alloc: u32, n: u32)
    requires
        wrap_sub(rx_cnt, peer_fwd_cnt) <= peer_buf_alloc,
        n <= wrap_sub(peer_buf_alloc, wrap_sub(rx_cnt, peer_fwd_cnt)),
    ensures
        wrap_sub(wrap_add(rx_cnt, n), peer_fwd_cnt) == wrap_sub(rx_cnt, peer_fwd_cnt) + n,
        wrap_sub(wrap_add(rx_cnt, n), peer_fwd_cnt) <= peer_buf_alloc,
{
}

/// Bytes asked of the socket for a descriptor with `room` bytes of payload
/// room while the guest has `credit` bytes of credit.
pub open spec fn recv_len(room: nat, credit: u32) -> nat {
    if room < credit {
        room
    } else {
        credit as nat
    }
}

/// What one receive of at most `max_len` bytes comes to.
pub open spec fn classify_spec(o: RecvOutcome, max_len: usize) -> RecvPkt {
    match o {
        RecvOutcome::Data(d) => if d@.len() == 0 {
            RecvPkt::Close
        } else if d@.len() <= max_len {
            RecvPkt::Read(d)
        } else {
            RecvPkt::Error
        },
        RecvOutcome::Eof => RecvPkt::Close,
        RecvOutcome::Failed(_) => RecvPkt::Error,
    }
}

/// The credit the guest had when used element `k` was filled: that of
/// `v0`, less the bytes of the elements filled after `u0` and before `k`.
pub open spec fn credit_at(v0: ProxyView, u0: Seq<UsedElem>, used: Seq<UsedElem>, k: int) -> u32 {
    avail_credit(ProxyView { rx_cnt: rx_at(v0, u0, used, k), ..v0 })
}

/// `rx_cnt` once the used elements before `k` have been filled, starting
/// from `v0` with the elements `u0`.
pub open spec fn rx_at(v0: ProxyView, u0: Seq<UsedElem>, used: Seq<UsedElem>, k: int) -> u32 {
    ((v0.rx_cnt + payload_bytes(used.take(k)).len() - payload_bytes(u0).len()) % 0x1_0000_0000) as u32
}

proof fn lemma_wrap_add_mod(x: u32, y: u32)
    ensures
        wrap_add(x, y) == (x + y) % 0x1_0000_0000,
{
    let m: int = 0x1_0000_0000;
    if x + y > u32::MAX {
        vstd::arithmetic::div_mod::lemma_mod_add_multiples_vanish(x + y - m, m);
        vstd::arithmetic::div_mod::lemma_small_mod((x + y - m) as nat, m as nat);
    } else {
        vstd::arithmetic::div_mod::lemma_small_mod((x + y) as nat, m as nat);
    }
}

proof fn lemma_rx_at_step(v0: ProxyView, u0: Seq<UsedElem>, used: Seq<UsedElem>, k: int)
    requires
        0 < k <= used.len(),
        used[k - 1].payload@.len() <= u32::MAX,
    ensures
        rx_at(v0, u0, used, k) == wrap_add(
            rx_at(v0, u0, used, k - 1),
            used[k - 1].payload@.len() as u32,
        ),
{
    let n = used[k - 1].payload@.len();
    assert(used.take(k).drop_last() =~= used.take(k - 1));
    assert(payload_bytes(used.take(k)) == payload_bytes(used.take(k - 1)) + used[k - 1].payload@);
    let a = v0.rx_cnt + payload_bytes(used.take(k - 1)).len() - payload_bytes(u0).len();
    lemma_mod_shift(a, n as int);
    lemma_wrap_add_mod(rx_at(v0, u0, used, k - 1), n as u32);
}

/// Credit soundness at every write: when the bytes in flight fit in the
/// guest's buffer before draining, and each used element took at most the
/// credit the guest had when it was filled, they still fit after each
/// element is written.
pub proof fn lemma_drain_within_credit(v0: ProxyView, u0: Seq<UsedElem>, used: Seq<UsedElem>, k: int)
    requires
        in_flight(v0) <= v0.peer_buf_alloc,
        used.take(u0.len() as int) == u0,
        u0.len() <= k <= used.len(),
        forall|j: int|
            #![trigger used[j]]
            u0.len() <= j < k ==> used[j].payload@.len() <= credit_at(v0, u0, used, j),
    ensures
        wrap_sub(rx_at(v0, u0, used, k), v0.peer_fwd_cnt) <= v0.peer_buf_alloc,
    decreases k - u0.len(),
{
    let m: int = 0x1_0000_0000;
    if k == u0.len() {
        vstd::arithmetic::div_mod::lemma_small_mod(v0.rx_cnt as nat, m as nat);
    } else {
        lemma_drain_within_credit(v0, u0, used, k - 1);
        let prev = rx_at(v0, u0, used, k - 1);
        let n = used[k - 1].payload@.len();
        assert(n <= credit_at(v0, u0, used, k - 1));
        lemma_rx_at_step(v0, u0, used, k);
        lemma_credit_soundness(prev, v0.peer_fwd_cnt, v0.peer_buf_alloc, n as u32);
    }
}

/// Bytes asked of the socket for the first pending descriptor of `q`.
pub open spec fn stop_len(q: StreamQueue, v: ProxyView) -> usize {
    recv_len(buf_room(q.pending()[0]), avail_credit(v)) as usize
}

proof fn lemma_mod_shift(a: int, b: int)
    ensures
        ((a % 0x1_0000_0000) + b) % 0x1_0000_0000 == (a + b) % 0x1_0000_0000,
{
    let m: int = 0x1_0000_0000;
    vstd::arithmetic::div_mod::lemma_add_mod_noop(a, b, m);
    vstd::arithmetic::div_mod::lemma_add_mod_noop(a % m, b, m);
    vstd::arithmetic::div_mod::lemma_small_mod((a % m) as nat, m as nat);
}

proof fn lemma_credit_at_start(v0: ProxyView, u0: Seq<UsedElem>, used: Seq<UsedElem>)
    requires
        used.take(u0.len() as int) == u0,
    ensures
        credit_at(v0, u0, used, u0.len() as int) == avail_credit(v0),
{
    vstd::arithmetic::div_mod::lemma_small_mod(v0.rx_cnt as nat, 0x1_0000_0000);
    assert((ProxyView { rx_cnt: v0.rx_cnt, ..v0 }) == v0);
}

proof fn lemma_credit_at_shift(
    v0: ProxyView,
    v1: ProxyView,
    u0: Seq<UsedElem>,
    u1: Seq<UsedElem>,
    used: Seq<UsedElem>,
    k: int,
    n: nat,
)
    requires
        v1.rx_cnt == (v0.rx_cnt + n) % 0x1_0000_0000,
        v1.peer_buf_alloc == v0.peer_buf_alloc,
        v1.peer_fwd_cnt == v0.peer_fwd_cnt,
        payload_bytes(u1).len() == payload_bytes(u0).len() + n,
    ensures
        credit_at(v1, u1, used, k) == credit_at(v0, u0, used, k),
{
    lemma_mod_shift(
        v0.rx_cnt + n,
        payload_bytes(used.take(k)).len() - payload_bytes(u1).len(),
    );
}

proof fn lemma_drained_step(
    q0: StreamQueue,
    q1: StreamQueue,
    q2: StreamQueue,
    v0: ProxyView,
    v1: ProxyView,
    v2: ProxyView,
    n: nat,
)
    requires
        q0.wf(),
        q0.next() < q0.avail().len(),
        q1.avail() == q0.avail(),
        q1.next() == q0.next() + 1,
        q1.used().len() == q0.used().len() + 1,
        q1.used().drop_last() == q0.used(),
        q1.used().last().payload@.len() == n,
        filled_one(q0.avail()[q0.next() as int], q1.used().last(), v1),
        same_identity(v1, v0),
        v1.local_port == v0.local_port,
        v1.peer_port == v0.peer_port,
        v1.tx_cnt == v0.tx_cnt,
        v1.last_tx_cnt_sent == v0.last_tx_cnt_sent,
        v1.peer_buf_alloc == v0.peer_buf_alloc,
        v1.peer_fwd_cnt == v0.peer_fwd_cnt,
        v1.rx_cnt == (v0.rx_cnt + n) % 0x1_0000_0000,
        in_flight(v0) <= v0.peer_buf_alloc ==> in_flight(v1) <= v1.peer_buf_alloc,
        drained(q1, q2, v1, v2),
    ensures
        drained(q0, q2, v0, v2),
        q2.used().take(q0.used().len() as int) == q0.used(),
        q2.used()[q0.used().len() as int] == q1.used().last(),
{
    let l0 = q0.used().len();
    assert(payload_bytes(q1.used()) == payload_bytes(q0.used()) + q1.used().last().payload@);
    assert forall|i: int| 0 <= i < l0 implies q2.used()[i] == q0.used()[i] by {
        assert(q2.used().subrange(0, q1.used().len() as int)[i] == q1.used()[i]);
        assert(q1.used().drop_last()[i] == q1.used()[i]);
    }
    assert(q2.used().subrange(0, l0 as int) =~= q0.used());
    assert(q2.used().take(l0 as int) =~= q0.used());
    assert(q2.used()[l0 as int] == q1.used()[l0 as int]) by {
        assert(q2.used().subrange(0, q1.used().len() as int)[l0 as int] == q1.used()[l0 as int]);
    }
    lemma_mod_shift(
        v0.rx_cnt + n,
        payload_bytes(q2.used()).len() - payload_bytes(q1.used()).len(),
    );
    let pb0 = payload_bytes(q0.used());
    let pb1 = payload_bytes(q1.used());
    let pb2 = payload_bytes(q2.used());
    assert(pb0.is_prefix_of(pb2)) by {
        assert forall|i: int| 0 <= i < pb0.len() implies pb2[i] == pb0[i] by {
            assert(pb2[i] == pb1[i]);
        }
    }
    assert forall|k: int|
        #![trigger q2.used()[k]]
        l0 <= k < q2.used().len() implies filled_one(q2.avail()[q0.next() - l0 + k], q2.used()[k], v2) by {
    }
}

proof fn lemma_drained_still(q0: StreamQueue, q1: StreamQueue, v0: ProxyView, v1: ProxyView)
    requires
        q0.wf(),
        q1.avail() == q0.avail(),
        q1.used() == q0.used(),
        q1.next() == q0.next(),
        same_but_status(v1, v0),
    ensures
        drained(q0, q1, v0, v1),
{
    assert(q1.used().subrange(0, q0.used().len() as int) =~= q0.used());
    vstd::arithmetic::div_mod::lemma_small_mod(v0.rx_cnt as nat, 0x1_0000_0000);
    assert(payload_bytes(q0.used()).is_prefix_of(payload_bytes(q1.used())));
}

/// Sorts the outcome of one receive of at most `max_len` bytes: data within
/// the limit is read, end of stream or no data closes, anything else is an
/// error.
pub fn classify(o: RecvOutcome, max_len: usize) -> (r: RecvPkt)
    ensures
        r == classify_spec(o, max_len),
{
    match o {
        RecvOutcome::Data(d) => {
            if d.len() == 0 {
                RecvPkt::Close
            } else if d.len() <= max_len {
                RecvPkt::Read(d)
            } else {
                RecvPkt::Error
            }
        },
        RecvOutcome::Eof => RecvPkt::Close,
        RecvOutcome::Failed(_) => RecvPkt::Error,
    }
}

impl TcpProxy {
    /// Receives into a buffer of `buf_len` bytes with one call of `recv`,
    /// asking for as many bytes as fit and the guest has credit for. Without
    /// credit it waits for some; a buffer with no room is an error.
    fn recv_to_pkt<F: Fn(usize) -> RecvOutcome>(&self, buf_len: usize, recv: &F) -> (r: RecvPkt)
        requires
            forall|n: usize| recv.requires((n,)),
        ensures
            r is WaitForCredit <==> avail_credit(self@) == 0,
            avail_credit(self@) > 0 && buf_len == 0 ==> r is Error,
            recv_len(buf_len as nat, avail_credit(self@)) > 0 ==> exists|o: RecvOutcome|
                #[trigger] recv.ensures((recv_len(buf_len as nat, avail_credit(self@)) as usize,), o)
                    && r == classify_spec(o, recv_len(buf_len as nat, avail_credit(self@)) as usize),
    {
        let credit = self.peer_avail_credit() as usize;
        let max_len = if buf_len < credit {
            buf_len
        } else {
            credit
        };
        if credit == 0 {
            return RecvPkt::WaitForCredit;
        }
        if max_len == 0 {
            return RecvPkt::Error;
        }
        let out = recv(max_len);
        let ghost got = out;
        let r = classify(out, max_len);
        assert(max_len == recv_len(buf_len as nat, avail_credit(self@)) as usize);
        assert(recv.ensures((max_len,), got) && r == classify_spec(got, max_len));
        r
    }

    /// Fills the available stream descriptors from the socket, one receive
    /// per descriptor, until one cannot be filled; that one is put back.
    /// Returns whether any descriptor was used and whether draining stopped
    /// for want of credit (and only for that: a descriptor with no room for
    /// payload stops draining without asking for credit).
    #[verifier::rlimit(100)]
    #[verifier::spinoff_prover]
    fn recv_pkt<F: Fn(usize) -> RecvOutcome>(&mut self, queue: &mut StreamQueue, recv: &F) -> (r: (
        bool,
        bool,
    ))
        requires
            old(queue).wf(),
            forall|n: usize| recv.requires((n,)),
            old(self)@.status == ProxyStatus::Connected,
        ensures
            drained(*old(queue), *final(queue), old(self)@, final(self)@),
            forall|k: int|
                #![trigger final(queue).used()[k]]
                old(queue).used().len() <= k < final(queue).used().len() ==> recv.ensures(
                    (recv_len(
                        buf_room(final(queue).avail()[old(queue).next() - old(queue).used().len() + k]),
                        credit_at(old(self)@, old(queue).used(), final(queue).used(), k),
                    ) as usize,),
                    RecvOutcome::Data(final(queue).used()[k].payload),
                ) && final(queue).used()[k].payload@.len() <= credit_at(
                    old(self)@,
                    old(queue).used(),
                    final(queue).used(),
                    k,
                ),
            final(self)@.status == ProxyStatus::Connected || final(self)@.status == ProxyStatus::Closed,
            r.0 == (final(queue).used().len() > old(queue).used().len()),
            final(queue).pending().len() == 0 ==> !r.1 && final(self)@.status == ProxyStatus::Connected,
            final(queue).pending().len() > 0 && final(queue).pending()[0].len < HDR_SIZE ==> !r.1
                && final(self)@.status == ProxyStatus::Connected,
            final(queue).pending().len() > 0 && final(queue).pending()[0].len >= HDR_SIZE
                && avail_credit(final(self)@) == 0 ==> r.1 && final(self)@.status
                == ProxyStatus::Connected,
            final(queue).pending().len() > 0 && final(queue).pending()[0].len >= HDR_SIZE
                && buf_room(final(queue).pending()[0]) == 0 && avail_credit(final(self)@) > 0 ==> !r.1
                && final(self)@.status == ProxyStatus::Connected,
            final(queue).pending().len() > 0 && final(queue).pending()[0].len >= HDR_SIZE
                && stop_len(*final(queue), final(self)@) > 0 ==> !r.1 && exists|o: RecvOutcome|
                #[trigger] recv.ensures((stop_len(*final(queue), final(self)@),), o) && !(classify_spec(
                    o,
                    stop_len(*final(queue), final(self)@),
                ) is Read) && (final(self)@.status == ProxyStatus::Closed <==> classify_spec(
                    o,
                    stop_len(*final(queue), final(self)@),
                ) is Close),
            stalled(*old(queue), old(self)@) ==> r.1 && final(self)@ == old(self)@ && final(queue).used()
                == old(queue).used() && final(queue).next() == old(queue).next(),
        decreases old(queue).pending().len(),
    {
        let ghost q0 = *queue;
        let ghost v0 = self@;
        match queue.pop() {
            None => {
                proof {
                    lemma_drained_still(q0, *queue, v0, self@);
                }
                (false, false)
            },
            Some(desc) => {
                if desc.len < HDR_SIZE as u32 {
                    queue.undo_pop();
                    proof {
                        lemma_drained_still(q0, *queue, v0, self@);
                        assert(queue.pending() =~= q0.pending());
                    }
                    return (false, false);
                }
                let room = (desc.len - HDR_SIZE as u32) as usize;
                match self.recv_to_pkt(room, recv) {
                    RecvPkt::Read(data) => {
                        let ghost m0 = recv_len(room as nat, avail_credit(v0)) as usize;
                        let ghost o0 = choose|o: RecvOutcome|
                            #[trigger] recv.ensures((m0,), o) && RecvPkt::Read(data) == classify_spec(o, m0);
                        assert(o0 == RecvOutcome::Data(data));
                        assert(data@.len() <= m0 && m0 <= avail_credit(v0) && m0 <= room);
                        let n = data.len();
                        proof {
                            if in_flight(self@) <= self@.peer_buf_alloc {
                                lemma_credit_soundness(
                                    self.rx_cnt,
                                    self.peer_fwd_cnt,
                                    self.peer_buf_alloc,
                                    n as u32,
                                );
                            }
                        }
                        self.rx_cnt = self.rx_cnt.wrapping_add(n as u32);
                        let hdr = self.init_data_pkt(n as u32);
                        let total = HDR_SIZE as u32 + n as u32;
                        self.push_cnt = self.push_cnt.wrapping_add(total);
                        queue.add_used(desc.index, total, hdr, data);
                        let ghost q1 = *queue;
                        let ghost v1 = self@;
                        proof {
                            assert(q1.used().last().index == desc.index);
                            assert(q1.used().last().len == total);
                            assert(q1.used().last().hdr == hdr);
                            assert(filled_one(q0.avail()[q0.next() as int], q1.used().last(), v1));
                            assert(q1.used().drop_last() == q0.used());
                            assert(payload_bytes(q1.used()) == payload_bytes(q0.used()) + data@);
                            assert(v1.rx_cnt == (v0.rx_cnt + n) % 0x1_0000_0000);
                        }
                        let (_, wait_credit) = self.recv_pkt(queue, recv);
                        proof {
                            let q2 = *queue;
                            let v2 = self@;
                            let l0 = q0.used().len();
                            let pb1 = payload_bytes(q1.used());
                            lemma_drained_step(q0, q1, q2, v0, v1, v2, n as nat);
                            assert forall|k: int|
                                #![trigger q2.used()[k]]
                                l0 <= k < q2.used().len() implies recv.ensures(
                                    (recv_len(
                                        buf_room(q2.avail()[q0.next() - l0 + k]),
                                        credit_at(v0, q0.used(), q2.used(), k),
                                    ) as usize,),
                                    RecvOutcome::Data(q2.used()[k].payload),
                                ) && q2.used()[k].payload@.len() <= credit_at(v0, q0.used(), q2.used(), k) by {
                                if k == l0 {
                                    assert(q2.used()[k].payload == data);
                                    lemma_credit_at_start(v0, q0.used(), q2.used());
                                } else {
                                    lemma_credit_at_shift(v0, v1, q0.used(), q1.used(), q2.used(), k, n as nat);
                                }
                            }
                        }
                        (true, wait_credit)
                    },
                    RecvPkt::WaitForCredit => {
                        queue.undo_pop();
                        proof {
                            lemma_drained_still(q0, *queue, v0, self@);
                            assert(queue.pending() =~= q0.pending());
                        }
                        (false, true)
                    },
                    RecvPkt::Close => {
                        self.status = ProxyStatus::Closed;
                        queue.undo_pop();
                        proof {
                            lemma_drained_still(q0, *queue, v0, self@);
                            assert(queue.pending() =~= q0.pending());
                        }
                        (false, false)
                    },
                    RecvPkt::Error => {
                        queue.undo_pop();
                        proof {
                            lemma_drained_still(q0, *queue, v0, self@);
                            assert(queue.pending() =~= q0.pending());
                        }
                        (false, false)
                    },
                }
            },
        }
    }
}

/// `-e` as a result code.
pub open spec fn neg(e: u16) -> i32 {
    (-(e as int)) as i32
}

/// An update that asks only for `polling`, `signal_queue` and `remove_proxy`.
pub open spec fn plain_update(
    polling: Option<(u64, i32, EventSet)>,
    signal_queue: bool,
    remove_proxy: bool,
) -> ProxyUpdate {
    ProxyUpdate {
        polling,
        remove_proxy,
        signal_queue,
        new_proxy: None,
        push_accept: None,
        push_credit_req: None,
        make_blocking: false,
    }
}

/// The update that follows a completed connection: poll for input and make
/// the socket blocking.
pub open spec fn connected_update(v: ProxyView, signal_queue: bool) -> ProxyUpdate {
    ProxyUpdate {
        polling: Some((v.id, v.fd, in_events())),
        remove_proxy: false,
        signal_queue,
        new_proxy: None,
        push_accept: None,
        push_credit_req: None,
        make_blocking: true,
    }
}

/// The result code that a connect attempt reports to the guest.
pub open spec fn connect_result(result: Result<(), u16>) -> i32 {
    match result {
        Ok(()) => 0,
        Err(e) => neg(e),
    }
}

/// The result code that a listen request reports to the guest.
pub open spec fn listen_result(status: ProxyStatus, bound: Result<(), u16>) -> i32 {
    if status == ProxyStatus::Listening {
        0
    } else {
        connect_result(bound)
    }
}

/// What a listen request does to proxy `v` when binding and listening gives
/// `bound`: the new state, the result code for the guest, and the polling
/// asked for.
pub open spec fn listen_effect(v: ProxyView, req: TsiListenReq, bound: Result<(), u16>) -> (
    ProxyView,
    i32,
    Option<(u64, i32, EventSet)>,
) {
    let result = listen_result(v.status, bound);
    if result == 0 && v.status != ProxyStatus::Closed {
        (
            ProxyView { peer_port: req.vm_port, status: ProxyStatus::Listening, ..v },
            0,
            Some((v.id, v.fd, in_events())),
        )
    } else {
        (v, result, None)
    }
}

/// Listening twice with the same request: once the first succeeded, the
/// second answers `0` whatever binding would give, and leaves the state and
/// the polling as the first left them.
pub proof fn lemma_listen_idempotent(
    v: ProxyView,
    req: TsiListenReq,
    first: Result<(), u16>,
    second: Result<(), u16>,
)
    requires
        listen_effect(v, req, first).1 == 0,
        v.status != ProxyStatus::Closed,
    ensures
        ({
            let (v1, r1, poll1) = listen_effect(v, req, first);
            let (v2, r2, poll2) = listen_effect(v1, req, second);
            r2 == 0 && v2 == v1 && poll2 == poll1
        }),
{
}

impl TcpProxy {
    fn push_connect_rsp(&self, result: i32, dgram: &mut MuxerRxQ)
        requires
            old(dgram).wf(),
        ensures
            final(dgram).wf(),
            final(dgram).cap() == old(dgram).cap(),
            final(dgram)@ == enqueued(
                old(dgram)@,
                old(dgram).cap(),
                MuxerRx::ConnResponse { local_port: CONNECT_RSP_PORT, peer_port: self@.control_port, result },
            ),
    {
        let rx = MuxerRx::ConnResponse {
            local_port: CONNECT_RSP_PORT,
            peer_port: self.control_port,
            result,
        };
        dgram.push(rx);
    }

    fn push_reset(&self, stream: &mut MuxerRxQ)
        requires
            old(stream).wf(),
        ensures
            final(stream).wf(),
            final(stream).cap() == old(stream).cap(),
            final(stream)@ == enqueued(
                old(stream)@,
                old(stream).cap(),
                MuxerRx::Reset { local_port: self@.local_port, peer_port: self@.peer_port },
            ),
    {
        let rx = MuxerRx::Reset { local_port: self.local_port, peer_port: self.peer_port };
        stream.push(rx);
    }

    /// Acts on the outcome of connecting the socket to the address the guest
    /// asked for.
    pub fn connect(&mut self, result: Result<(), u16>, dgram: &mut MuxerRxQ) -> (r: ProxyUpdate)
        requires
            old(dgram).wf(),
        ensures
            final(dgram).wf(),
            final(dgram).cap() == old(dgram).cap(),
            keeps_closed(old(self)@, final(self)@),
            same_but_status(final(self)@, old(self)@),
            ({
                let v = old(self)@;
                let rsp = MuxerRx::ConnResponse {
                    local_port: CONNECT_RSP_PORT,
                    peer_port: v.control_port,
                    result: connect_result(result),
                };
                if v.status != ProxyStatus::Closed && result is Ok {
                    &&& final(self)@.status == ProxyStatus::Connected
                    &&& final(dgram)@ == enqueued(old(dgram)@, old(dgram).cap(), rsp)
                    &&& r == connected_update(v, false)
                } else if v.status != ProxyStatus::Closed && result == Err::<(), u16>(EINPROGRESS) {
                    &&& final(self)@.status == ProxyStatus::Connecting
                    &&& final(dgram)@ == old(dgram)@
                    &&& r == plain_update(Some((v.id, v.fd, in_out_events())), false, false)
                } else {
                    &&& final(self)@.status == v.status
                    &&& final(dgram)@ == enqueued(old(dgram)@, old(dgram).cap(), rsp)
                    &&& r == plain_update(None, false, false)
                }
            }),
    {
        let closed = self.status == ProxyStatus::Closed;
        let in_progress = match result {
            Ok(()) => false,
            Err(e) => e == EINPROGRESS,
        };
        if !closed && result.is_ok() {
            self.switch_to_connected();
            self.push_connect_rsp(0, dgram);
            let mut update = ProxyUpdate::none();
            update.polling = Some((self.id, self.fd, EventSet::input()));
            update.make_blocking = true;
            update
        } else if !closed && in_progress {
            self.status = ProxyStatus::Connecting;
            let mut update = ProxyUpdate::none();
            update.polling = Some((self.id, self.fd, EventSet::input_output()));
            update
        } else {
            let code: i32 = match result {
                Ok(()) => 0,
                Err(e) => -(e as i32),
            };
            self.push_connect_rsp(code, dgram);
            ProxyUpdate::none()
        }
    }

    /// Completes the handshake of an accepted connection: takes the guest's
    /// credit and addressing from its reply and answers on the stream.
    pub fn confirm_connect(&mut self, pkt: &PacketHeader, stream: &mut MuxerRxQ)
        requires
            old(stream).wf(),
        ensures
            final(stream).wf(),
            final(stream).cap() == old(stream).cap(),
            final(self)@ == (ProxyView {
                peer_buf_alloc: pkt.buf_alloc,
                peer_fwd_cnt: pkt.fwd_cnt,
                local_port: pkt.dst_port,
                peer_port: pkt.src_port,
                ..old(self)@
            }),
            final(stream)@ == enqueued(
                old(stream)@,
                old(stream).cap(),
                MuxerRx::OpResponse { local_port: pkt.dst_port, peer_port: pkt.src_port },
            ),
    {
        self.peer_buf_alloc = pkt.buf_alloc;
        self.peer_fwd_cnt = pkt.fwd_cnt;
        self.local_port = pkt.dst_port;
        self.peer_port = pkt.src_port;
        let rx = MuxerRx::OpResponse { local_port: pkt.dst_port, peer_port: pkt.src_port };
        stream.push(rx);
    }

    /// Answers a peer-name request with the address the host reported.
    pub fn getpeername(&mut self, pkt: &PacketHeader, name: PeerName, dgram: &mut MuxerRxQ)
        requires
            old(dgram).wf(),
        ensures
            final(dgram).wf(),
            final(dgram).cap() == old(dgram).cap(),
            final(self)@ == old(self)@,
            final(dgram)@ == enqueued(
                old(dgram)@,
                old(dgram).cap(),
                match name {
                    PeerName::V4 { addr, port } => MuxerRx::GetnameResponse {
                        local_port: pkt.dst_port,
                        peer_port: pkt.src_port,
                        addr,
                        port,
                        result: 0,
                    },
                    PeerName::NotV4 => MuxerRx::GetnameResponse {
                        local_port: pkt.dst_port,
                        peer_port: pkt.src_port,
                        addr: 0,
                        port: 0,
                        result: neg(EINVAL),
                    },
                    PeerName::Failed(e) => MuxerRx::GetnameResponse {
                        local_port: pkt.dst_port,
                        peer_port: pkt.src_port,
                        addr: 0,
                        port: 0,
                        result: neg(e),
                    },
                },
            ),
    {
        let (result, addr, port): (i32, u32, u16) = match name {
            PeerName::V4 { addr, port } => (0, addr, port),
            PeerName::NotV4 => (-(EINVAL as i32), 0, 0),
            PeerName::Failed(e) => (-(e as i32), 0, 0),
        };
        let rx = MuxerRx::GetnameResponse {
            local_port: pkt.dst_port,
            peer_port: pkt.src_port,
            addr,
            port,
            result,
        };
        dgram.push(rx);
    }

    /// Accounts for a guest payload written to the socket: `sent` is `None`
    /// when the packet carried no payload, else what the write returned.
    /// Once half the buffer has been consumed since the last credit update,
    /// a new one goes to the guest.
    pub fn sendmsg(
        &mut self,
        pkt: &PacketHeader,
        sent: Option<Result<usize, u16>>,
        stream: &mut MuxerRxQ,
    ) -> (r: ProxyUpdate)
        requires
            old(stream).wf(),
        ensures
            final(stream).wf(),
            final(stream).cap() == old(stream).cap(),
            ({
                let v = old(self)@;
                let n: usize = match sent {
                    Some(Ok(n)) => n,
                    _ => 0,
                };
                let tx = wrap_add(v.tx_cnt, n as u32);
                let due = n > 0 && wrap_sub(tx, v.last_tx_cnt_sent) >= v.tx_buf_size / 2;
                &&& final(self)@ == (ProxyView {
                    tx_cnt: tx,
                    last_tx_cnt_sent: if due {
                        tx
                    } else {
                        v.last_tx_cnt_sent
                    },
                    ..v
                })
                &&& final(stream)@ == if due {
                    enqueued(
                        old(stream)@,
                        old(stream).cap(),
                        MuxerRx::CreditUpdate {
                            local_port: pkt.dst_port,
                            peer_port: pkt.src_port,
                            fwd_cnt: tx,
                        },
                    )
                } else {
                    old(stream)@
                }
                &&& r == plain_update(None, due, false)
            }),
    {
        let mut update = ProxyUpdate::none();
        let n: usize = match sent {
            Some(Ok(n)) => n,
            _ => 0,
        };
        self.tx_cnt = self.tx_cnt.wrapping_add(n as u32);
        if n > 0 && self.tx_cnt.wrapping_sub(self.last_tx_cnt_sent) >= self.tx_buf_size / 2 {
            self.last_tx_cnt_sent = self.tx_cnt;
            let rx = MuxerRx::CreditUpdate {
                local_port: pkt.dst_port,
                peer_port: pkt.src_port,
                fwd_cnt: self.tx_cnt,
            };
            stream.push(rx);
            update.signal_queue = true;
        }
        update
    }

    /// Datagram sends are not proxied here.
    pub fn sendto_addr(&mut self) -> (r: ProxyUpdate)
        ensures
            final(self)@ == old(self)@,
            quiet(r),
    {
        ProxyUpdate::none()
    }

    /// Starts listening, unless already listening; `bind_listen` binds the
    /// socket to the request's address and port and listens on it with the
    /// request's backlog. The guest is answered either way.
    pub fn listen<F: FnOnce(u32, u16, i32) -> Result<(), u16>>(
        &mut self,
        pkt: &PacketHeader,
        req: TsiListenReq,
        bind_listen: F,
        dgram: &mut MuxerRxQ,
    ) -> (r: ProxyUpdate)
        requires
            old(dgram).wf(),
            bind_listen.requires((req.addr, req.port, req.backlog)),
        ensures
            final(dgram).wf(),
            final(dgram).cap() == old(dgram).cap(),
            keeps_closed(old(self)@, final(self)@),
            exists|bound: Result<(), u16>|
                {
                    let e = #[trigger] listen_effect(old(self)@, req, bound);
                    &&& old(self)@.status != ProxyStatus::Listening ==> bind_listen.ensures(
                        (req.addr, req.port, req.backlog),
                        bound,
                    )
                    &&& final(dgram)@ == enqueued(
                        old(dgram)@,
                        old(dgram).cap(),
                        MuxerRx::ListenResponse {
                            local_port: pkt.dst_port,
                            peer_port: pkt.src_port,
                            result: e.1,
                        },
                    )
                    &&& final(self)@ == e.0
                    &&& r == plain_update(e.2, false, false)
                },
            old(self)@.status == ProxyStatus::Listening ==> final(self)@ == (ProxyView {
                peer_port: req.vm_port,
                ..old(self)@
            }),
    {
        let mut update = ProxyUpdate::none();
        let ghost mut bound: Result<(), u16> = Ok(());
        let result: i32 = if self.status == ProxyStatus::Listening {
            0
        } else {
            let b = bind_listen(req.addr, req.port, req.backlog);
            proof {
                bound = b;
            }
            match b {
                Ok(()) => 0,
                Err(e) => -(e as i32),
            }
        };
        assert(listen_effect(old(self)@, req, bound).1 == result);
        let rx = MuxerRx::ListenResponse {
            local_port: pkt.dst_port,
            peer_port: pkt.src_port,
            result,
        };
        dgram.push(rx);
        if result == 0 && self.status != ProxyStatus::Closed {
            self.peer_port = req.vm_port;
            self.status = ProxyStatus::Listening;
            update.polling = Some((self.id, self.fd, EventSet::input()));
        }
        update
    }

    /// Acts on the outcome of accepting a connection on the socket: a new
    /// socket is handed over for a child proxy. No answer goes to the guest
    /// when none was waiting; it retries when notified.
    pub fn accept(
        &mut self,
        pkt: &PacketHeader,
        req: TsiAcceptReq,
        accepted: Result<i32, u16>,
        dgram: &mut MuxerRxQ,
    ) -> (r: ProxyUpdate)
        requires
            old(dgram).wf(),
        ensures
            final(dgram).wf(),
            final(dgram).cap() == old(dgram).cap(),
            final(self)@ == old(self)@,
            r == (ProxyUpdate {
                new_proxy: match accepted {
                    Ok(fd) => Some((old(self)@.peer_port, fd)),
                    Err(_) => None,
                },
                ..plain_update(None, false, false)
            }),
            final(dgram)@ == match accepted {
                Err(e) if e == EAGAIN => old(dgram)@,
                _ => enqueued(
                    old(dgram)@,
                    old(dgram).cap(),
                    MuxerRx::AcceptResponse {
                        local_port: pkt.dst_port,
                        peer_port: pkt.src_port,
                        result: match accepted {
                            Ok(_) => 0,
                            Err(e) => neg(e),
                        },
                    },
                ),
            },
    {
        let mut update = ProxyUpdate::none();
        let result: i32 = match accepted {
            Ok(fd) => {
                update.new_proxy = Some((self.peer_port, fd));
                0
            },
            Err(e) => -(e as i32),
        };
        if result != -(EAGAIN as i32) {
            let rx = MuxerRx::AcceptResponse {
                local_port: pkt.dst_port,
                peer_port: pkt.src_port,
                result,
            };
            dgram.push(rx);
        }
        update
    }
}

/// The first pending descriptor can hold a header but the guest has no
/// credit for any byte.
pub open spec fn stalled(q: StreamQueue, v: ProxyView) -> bool {
    q.pending().len() > 0 && q.pending()[0].len >= HDR_SIZE && avail_credit(v) == 0
}

/// Which directions a shutdown packet with `flags` closes.
pub open spec fn shutdown_how(flags: u32) -> ShutdownHow {
    let rcv = flags & VSOCK_FLAGS_SHUTDOWN_RCV != 0;
    let snd = flags & VSOCK_FLAGS_SHUTDOWN_SEND != 0;
    if rcv && snd {
        ShutdownHow::Both
    } else if rcv {
        ShutdownHow::Read
    } else {
        ShutdownHow::Write
    }
}

impl TcpProxy {
    /// Takes fresh credit from the guest; a proxy waiting for it resumes.
    pub fn update_peer_credit(&mut self, pkt: &PacketHeader) -> (r: ProxyUpdate)
        ensures
            ({
                let v = old(self)@;
                let resumes = v.status == ProxyStatus::WaitingCreditUpdate || v.status
                    == ProxyStatus::Connected;
                &&& final(self)@ == (ProxyView {
                    peer_buf_alloc: pkt.buf_alloc,
                    peer_fwd_cnt: pkt.fwd_cnt,
                    status: if resumes {
                        ProxyStatus::Connected
                    } else {
                        v.status
                    },
                    ..v
                })
                &&& r == if resumes {
                    plain_update(Some((v.id, v.fd, in_events())), false, false)
                } else {
                    plain_update(None, false, false)
                }
            }),
            keeps_closed(old(self)@, final(self)@),
    {
        self.peer_buf_alloc = pkt.buf_alloc;
        self.peer_fwd_cnt = pkt.fwd_cnt;
        let mut update = ProxyUpdate::none();
        if self.status == ProxyStatus::WaitingCreditUpdate || self.status == ProxyStatus::Connected {
            self.status = ProxyStatus::Connected;
            update.polling = Some((self.id, self.fd, EventSet::input()));
        }
        update
    }

    /// Asks the guest to take up an accepted connection.
    pub fn push_op_request(&self, dgram: &mut MuxerRxQ)
        requires
            old(dgram).wf(),
        ensures
            final(dgram).wf(),
            final(dgram).cap() == old(dgram).cap(),
            final(dgram)@ == enqueued(
                old(dgram)@,
                old(dgram).cap(),
                MuxerRx::OpRequest { local_port: self@.local_port, peer_port: self@.peer_port },
            ),
    {
        let rx = MuxerRx::OpRequest { local_port: self.local_port, peer_port: self.peer_port };
        dgram.push(rx);
    }

    /// The guest took up an accepted connection: it is now connected, and
    /// the parent owes the guest its accept response.
    pub fn process_op_response(&mut self, pkt: &PacketHeader) -> (r: ProxyUpdate)
        ensures
            keeps_closed(old(self)@, final(self)@),
            ({
                let v = old(self)@;
                let w = ProxyView { peer_buf_alloc: pkt.buf_alloc, peer_fwd_cnt: pkt.fwd_cnt, ..v };
                if v.status == ProxyStatus::Closed {
                    final(self)@ == w && quiet(r)
                } else {
                    &&& final(self)@ == (ProxyView { status: ProxyStatus::Connected, ..w })
                    &&& r == (ProxyUpdate {
                        push_accept: Some((v.id, v.parent_id)),
                        ..connected_update(v, false)
                    })
                }
            }),
    {
        self.peer_buf_alloc = pkt.buf_alloc;
        self.peer_fwd_cnt = pkt.fwd_cnt;
        let mut update = ProxyUpdate::none();
        if self.status != ProxyStatus::Closed {
            self.switch_to_connected();
            update.polling = Some((self.id, self.fd, EventSet::input()));
            update.push_accept = Some((self.id, self.parent_id));
            update.make_blocking = true;
        }
        update
    }

    /// Answers the guest's accept request on behalf of a child that is now
    /// connected.
    pub fn push_accept_rsp(&self, result: i32, dgram: &mut MuxerRxQ)
        requires
            old(dgram).wf(),
        ensures
            final(dgram).wf(),
            final(dgram).cap() == old(dgram).cap(),
            final(dgram)@ == enqueued(
                old(dgram)@,
                old(dgram).cap(),
                MuxerRx::AcceptResponse { local_port: ACCEPT_RSP_PORT, peer_port: self@.control_port, result },
            ),
    {
        let rx = MuxerRx::AcceptResponse {
            local_port: ACCEPT_RSP_PORT,
            peer_port: self.control_port,
            result,
        };
        dgram.push(rx);
    }

    /// Which directions of the socket a guest shutdown packet closes.
    pub fn shutdown(&self, pkt: &PacketHeader) -> (r: ShutdownHow)
        ensures
            r == shutdown_how(pkt.flags),
    {
        let recv_off = pkt.flags & VSOCK_FLAGS_SHUTDOWN_RCV != 0;
        let send_off = pkt.flags & VSOCK_FLAGS_SHUTDOWN_SEND != 0;
        if recv_off && send_off {
            ShutdownHow::Both
        } else if recv_off {
            ShutdownHow::Read
        } else {
            ShutdownHow::Write
        }
    }

    /// The guest is done with the connection.
    pub fn release(&mut self) -> (r: ProxyUpdate)
        ensures
            final(self)@ == old(self)@,
            r == plain_update(None, false, true),
    {
        let mut update = ProxyUpdate::none();
        update.remove_proxy = true;
        update
    }

    /// Reacts to readiness of the socket. `recv` makes one non-blocking
    /// receive of at most the given number of bytes; `accept` accepts one
    /// pending connection.
    pub fn process_event<F: Fn(usize) -> RecvOutcome, G: Fn() -> Result<i32, u16>>(
        &mut self,
        evset: EventSet,
        queue: &mut StreamQueue,
        stream: &mut MuxerRxQ,
        dgram: &mut MuxerRxQ,
        recv: &F,
        accept: &G,
    ) -> (r: ProxyUpdate)
        requires
            old(queue).wf(),
            old(stream).wf(),
            old(dgram).wf(),
            forall|n: usize| recv.requires((n,)),
            accept.requires(()),
        ensures
            final(queue).wf(),
            final(stream).wf(),
            final(dgram).wf(),
            final(stream).cap() == old(stream).cap(),
            final(dgram).cap() == old(dgram).cap(),
            keeps_closed(old(self)@, final(self)@),
            ({
                let v = old(self)@;
                let w = final(self)@;
                let off = Some((v.id, v.fd, no_events()));
                if evset.hang_up {
                    &&& w == (ProxyView { status: ProxyStatus::Closed, ..v })
                    &&& r == plain_update(off, true, true)
                    &&& *final(queue) == *old(queue)
                    &&& if v.status == ProxyStatus::Connecting {
                        &&& final(dgram)@ == enqueued(
                            old(dgram)@,
                            old(dgram).cap(),
                            MuxerRx::ConnResponse {
                                local_port: CONNECT_RSP_PORT,
                                peer_port: v.control_port,
                                result: neg(ECONNREFUSED),
                            },
                        )
                        &&& final(stream)@ == old(stream)@
                    } else {
                        &&& final(dgram)@ == old(dgram)@
                        &&& final(stream)@ == enqueued(
                            old(stream)@,
                            old(stream).cap(),
                            MuxerRx::Reset { local_port: v.local_port, peer_port: v.peer_port },
                        )
                    }
                } else if evset.readable && v.status == ProxyStatus::Connected {
                    &&& drained(*old(queue), *final(queue), v, w)
                    &&& forall|k: int|
                        #![trigger final(queue).used()[k]]
                        old(queue).used().len() <= k < final(queue).used().len() ==> recv.ensures(
                            (recv_len(
                                buf_room(final(queue).avail()[old(queue).next() - old(queue).used().len() + k]),
                                credit_at(v, old(queue).used(), final(queue).used(), k),
                            ) as usize,),
                            RecvOutcome::Data(final(queue).used()[k].payload),
                        ) && final(queue).used()[k].payload@.len() <= credit_at(
                            v,
                            old(queue).used(),
                            final(queue).used(),
                            k,
                        )
                    &&& (final(queue).pending().len() == 0 || final(queue).pending()[0].len < HDR_SIZE
                        || (buf_room(final(queue).pending()[0]) == 0 && avail_credit(w) > 0)
                        ==> w.status == ProxyStatus::Connected)
                    &&& (final(queue).pending().len() > 0 && final(queue).pending()[0].len >= HDR_SIZE
                        && avail_credit(w) == 0 ==> w.status == ProxyStatus::WaitingCreditUpdate)
                    &&& (final(queue).pending().len() > 0 && final(queue).pending()[0].len >= HDR_SIZE
                        && stop_len(*final(queue), w) > 0 ==> exists|o: RecvOutcome|
                        #[trigger] recv.ensures((stop_len(*final(queue), w),), o) && !(classify_spec(
                            o,
                            stop_len(*final(queue), w),
                        ) is Read) && (w.status == ProxyStatus::Closed <==> classify_spec(
                            o,
                            stop_len(*final(queue), w),
                        ) is Close))
                    &&& (stalled(*old(queue), v) ==> w == (ProxyView {
                        status: ProxyStatus::WaitingCreditUpdate,
                        ..v
                    }) && final(queue).used() == old(queue).used() && final(queue).next() == old(queue).next())
                    &&& final(dgram)@ == old(dgram)@
                    &&& if w.status == ProxyStatus::Closed {
                        &&& final(stream)@ == enqueued(
                            old(stream)@,
                            old(stream).cap(),
                            MuxerRx::Reset { local_port: v.local_port, peer_port: v.peer_port },
                        )
                        &&& r == plain_update(off, true, true)
                    } else if w.status == ProxyStatus::WaitingCreditUpdate {
                        &&& final(stream)@ == old(stream)@
                        &&& final(queue).pending().len() > 0
                        &&& final(queue).pending()[0].len >= HDR_SIZE
                        &&& avail_credit(w) == 0
                        &&& r == (ProxyUpdate {
                            push_credit_req: Some(
                                MuxerRx::CreditRequest {
                                    local_port: v.local_port,
                                    peer_port: v.peer_port,
                                    fwd_cnt: v.tx_cnt,
                                },
                            ),
                            ..plain_update(
                                off,
                                final(queue).used().len() > old(queue).used().len(),
                                false,
                            )
                        })
                    } else {
                        &&& w.status == ProxyStatus::Connected
                        &&& final(stream)@ == old(stream)@
                        &&& r == plain_update(
                            None,
                            final(queue).used().len() > old(queue).used().len(),
                            false,
                        )
                    }
                } else if evset.readable && v.status == ProxyStatus::Listening {
                    &&& w == v
                    &&& *final(queue) == *old(queue)
                    &&& final(stream)@ == old(stream)@
                    &&& final(dgram)@ == old(dgram)@
                    &&& exists|a: Result<i32, u16>|
                        #![trigger accept.ensures((), a)]
                        accept.ensures((), a) && r == (ProxyUpdate {
                            new_proxy: match a {
                                Ok(fd) => Some((v.peer_port, fd)),
                                Err(_) => None,
                            },
                            ..plain_update(None, true, false)
                        })
                } else if evset.writable && v.status == ProxyStatus::Connecting {
                    &&& w == (ProxyView { status: ProxyStatus::Connected, ..v })
                    &&& *final(queue) == *old(queue)
                    &&& final(stream)@ == old(stream)@
                    &&& final(dgram)@ == enqueued(
                        old(dgram)@,
                        old(dgram).cap(),
                        MuxerRx::ConnResponse {
                            local_port: CONNECT_RSP_PORT,
                            peer_port: v.control_port,
                            result: 0,
                        },
                    )
                    &&& r == connected_update(v, true)
                } else {
                    &&& w == v
                    &&& *final(queue) == *old(queue)
                    &&& final(stream)@ == old(stream)@
                    &&& final(dgram)@ == old(dgram)@
                    &&& quiet(r)
                }
            }),
    {
        if evset.hang_up {
            if self.status == ProxyStatus::Connecting {
                self.push_connect_rsp(-(ECONNREFUSED as i32), dgram);
            } else {
                self.push_reset(stream);
            }
            self.status = ProxyStatus::Closed;
            let mut update = ProxyUpdate::none();
            update.polling = Some((self.id, self.fd, EventSet::empty()));
            update.signal_queue = true;
            update.remove_proxy = true;
            return update;
        }
        let mut update = ProxyUpdate::none();
        if evset.readable {
            if self.status == ProxyStatus::Connected {
                let (signal_queue, wait_credit) = self.recv_pkt(queue, recv);
                update.signal_queue = signal_queue;
                if wait_credit && self.status != ProxyStatus::WaitingCreditUpdate {
                    self.status = ProxyStatus::WaitingCreditUpdate;
                    let rx = MuxerRx::CreditRequest {
                        local_port: self.local_port,
                        peer_port: self.peer_port,
                        fwd_cnt: self.tx_cnt,
                    };
                    update.push_credit_req = Some(rx);
                }
                if self.status == ProxyStatus::Closed {
                    self.push_reset(stream);
                    update.signal_queue = true;
                    update.polling = Some((self.id, self.fd, EventSet::empty()));
                    update.remove_proxy = true;
                    return update;
                } else if self.status == ProxyStatus::WaitingCreditUpdate {
                    update.polling = Some((self.id, self.fd, EventSet::empty()));
                }
                return update;
            } else if self.status == ProxyStatus::Listening {
                let a = accept();
                match a {
                    Ok(fd) => {
                        update.new_proxy = Some((self.peer_port, fd));
                    },
                    Err(_) => {},
                }
                update.signal_queue = true;
                return update;
            }
        }
        if evset.writable && self.status == ProxyStatus::Connecting {
            self.switch_to_connected();
            self.push_connect_rsp(0, dgram);
            update.signal_queue = true;
            update.polling = Some((self.id, self.fd, EventSet::input()));
            update.make_blocking = true;
        }
        update
    }
}

} // verus!
