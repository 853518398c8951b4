use vstd::prelude::*;

verus! {

/// Size in bytes of an encoded packet header.
pub const HDR_SIZE: usize = 44;

/// The host's context id.
pub const VSOCK_HOST_CID: u64 = 2;

/// Packet type of a stream connection.
pub const VSOCK_TYPE_STREAM: u16 = 1;

pub const VSOCK_OP_INVALID: u16 = 0;
pub const VSOCK_OP_REQUEST: u16 = 1;
pub const VSOCK_OP_RESPONSE: u16 = 2;
pub const VSOCK_OP_RST: u16 = 3;
pub const VSOCK_OP_SHUTDOWN: u16 = 4;
pub const VSOCK_OP_RW: u16 = 5;
pub const VSOCK_OP_CREDIT_UPDATE: u16 = 6;
pub const VSOCK_OP_CREDIT_REQUEST: u16 = 7;

/// Shutdown flag: the peer will receive no more data.
pub const VSOCK_FLAGS_SHUTDOWN_RCV: u32 = 1;

/// Shutdown flag: the peer will send no more data.
pub const VSOCK_FLAGS_SHUTDOWN_SEND: u32 = 2;

/// The header of a vsock packet.
#[derive(Clone, Copy, Debug, PartialEq, Eq, Structural)]
pub struct PacketHeader {
    pub src_cid: u64,
    pub dst_cid: u64,
    pub src_port: u32,
    pub dst_port: u32,
    pub len: u32,
    pub type_: u16,
    pub op: u16,
    pub flags: u32,
    pub buf_alloc: u32,
    pub fwd_cnt: u32,
}

/// Why a packet could not be read from a descriptor chain.
#[derive(Clone, Copy, Debug, PartialEq, Eq, Structural)]
pub enum PacketError {
    /// The chain is too short to hold a header.
    InvalidDescriptorChain,
}

/// Little-endian bytes of a 64-bit value.
pub open spec fn le64(v: u64) -> Seq<u8> {
    seq![
        v as u8,
        (v >> 8) as u8,
        (v >> 16) as u8,
        (v >> 24) as u8,
        (v >> 32) as u8,
        (v >> 40) as u8,
        (v >> 48) as u8,
        (v >> 56) as u8,
    ]
}

/// Little-endian bytes of a 32-bit value.
pub open spec fn le32(v: u32) -> Seq<u8> {
    seq![v as u8, (v >> 8) as u8, (v >> 16) as u8, (v >> 24) as u8]
}

/// Little-endian bytes of a 16-bit value.
pub open spec fn le16(v: u16) -> Seq<u8> {
    seq![v as u8, (v >> 8) as u8]
}

/// The 64-bit value stored little-endian at `b[i..i + 8]`.
pub open spec fn get64(b: Seq<u8>, i: int) -> u64 {
    (b[i] as u64) | ((b[i + 1] as u64) << 8u64) | ((b[i + 2] as u64) << 16u64) | ((b[i + 3] as u64)
        << 24u64) | ((b[i + 4] as u64) << 32u64) | ((b[i + 5] as u64) << 40u64) | ((b[i + 6] as u64)
        << 48u64) | ((b[i + 7] as u64) << 56u64)
}

/// The 32-bit value stored little-endian at `b[i..i + 4]`.
pub open spec fn get32(b: Seq<u8>, i: int) -> u32 {
    (b[i] as u32) | ((b[i + 1] as u32) << 8u32) | ((b[i + 2] as u32) << 16u32) | ((b[i + 3] as u32)
        << 24u32)
}

/// The 16-bit value stored little-endian at `b[i..i + 2]`.
pub open spec fn get16(b: Seq<u8>, i: int) -> u16 {
    (b[i] as u16) | ((b[i + 1] as u16) << 8u16)
}

/// The wire form of a header.
pub open spec fn header_bytes(h: PacketHeader) -> Seq<u8> {
    le64(h.src_cid) + le64(h.dst_cid) + le32(h.src_port) + le32(h.dst_port) + le32(h.len) + le16(
        h.type_,
    ) + le16(h.op) + le32(h.flags) + le32(h.buf_alloc) + le32(h.fwd_cnt)
}

/// The header that bytes `b` start with, if they hold one.
pub open spec fn parse_header(b: Seq<u8>) -> Option<PacketHeader> {
    if b.len() < HDR_SIZE {
        None
    } else {
        Some(
            PacketHeader {
                src_cid: get64(b, 0),
                dst_cid: get64(b, 8),
                src_port: get32(b, 16),
                dst_port: get32(b, 20),
                len: get32(b, 24),
                type_: get16(b, 28),
                op: get16(b, 30),
                flags: get32(b, 32),
                buf_alloc: get32(b, 36),
                fwd_cnt: get32(b, 40),
            },
        )
    }
}

proof fn lemma_le64(v: u64)
    ensures
        get64(le64(v), 0) == v,
{
    let b = le64(v);
    assert(get64(b, 0) == (v as u8 as u64) | (((v >> 8) as u8 as u64) << 8u64) | (((v >> 16) as u8
        as u64) << 16u64) | (((v >> 24) as u8 as u64) << 24u64) | (((v >> 32) as u8 as u64)
        << 32u64) | (((v >> 40) as u8 as u64) << 40u64) | (((v >> 48) as u8 as u64) << 48u64) | (((v
        >> 56) as u8 as u64) << 56u64));
    assert((v as u8 as u64) | (((v >> 8) as u8 as u64) << 8u64) | (((v >> 16) as u8 as u64)
        << 16u64) | (((v >> 24) as u8 as u64) << 24u64) | (((v >> 32) as u8 as u64) << 32u64) | (((v
        >> 40) as u8 as u64) << 40u64) | (((v >> 48) as u8 as u64) << 48u64) | (((v >> 56) as u8
        as u64) << 56u64) == v) by (bit_vector);
}

proof fn lemma_le32(v: u32)
    ensures
        get32(le32(v), 0) == v,
{
    let b = le32(v);
    assert(get32(b, 0) == (v as u8 as u32) | (((v >> 8) as u8 as u32) << 8u32) | (((v >> 16) as u8
        as u32) << 16u32) | (((v >> 24) as u8 as u32) << 24u32));
    assert((v as u8 as u32) | (((v >> 8) as u8 as u32) << 8u32) | (((v >> 16) as u8 as u32)
        << 16u32) | (((v >> 24) as u8 as u32) << 24u32) == v) by (bit_vector);
}

proof fn lemma_le16(v: u16)
    ensures
        get16(le16(v), 0) == v,
{
    let b = le16(v);
    assert(get16(b, 0) == (v as u8 as u16) | (((v >> 8) as u8 as u16) << 8u16));
    assert((v as u8 as u16) | (((v >> 8) as u8 as u16) << 8u16) == v) by (bit_vector);
}

proof fn lemma_get64_at(a: Seq<u8>, b: Seq<u8>, c: Seq<u8>)
    requires
        b.len() == 8,
    ensures
        get64(a + b + c, a.len() as int) == get64(b, 0),
{
    let s = a + b + c;
    assert forall|j: int| 0 <= j < 8 implies s[a.len() + j] == b[j] by {}
}

proof fn lemma_get32_at(a: Seq<u8>, b: Seq<u8>, c: Seq<u8>)
    requires
        b.len() == 4,
    ensures
        get32(a + b + c, a.len() as int) == get32(b, 0),
{
    let s = a + b + c;
    assert forall|j: int| 0 <= j < 4 implies s[a.len() + j] == b[j] by {}
}

proof fn lemma_get16_at(a: Seq<u8>, b: Seq<u8>, c: Seq<u8>)
    requires
        b.len() == 2,
    ensures
        get16(a + b + c, a.len() as int) == get16(b, 0),
{
    let s = a + b + c;
    assert forall|j: int| 0 <= j < 2 implies s[a.len() + j] == b[j] by {}
}

/// Encoding a header and decoding the bytes gives the header back, every
/// field included.
pub proof fn lemma_header_round_trip(h: PacketHeader)
    ensures
        header_bytes(h).len() == HDR_SIZE,
        parse_header(header_bytes(h)) == Some(h),
{
    let f0 = le64(h.src_cid);
    let f1 = le64(h.dst_cid);
    let f2 = le32(h.src_port);
    let f3 = le32(h.dst_port);
    let f4 = le32(h.len);
    let f5 = le16(h.type_);
    let f6 = le16(h.op);
    let f7 = le32(h.flags);
    let f8 = le32(h.buf_alloc);
    let f9 = le32(h.fwd_cnt);
    let b = header_bytes(h);
    assert(b == f0 + f1 + f2 + f3 + f4 + f5 + f6 + f7 + f8 + f9);
    lemma_le64(h.src_cid);
    lemma_le64(h.dst_cid);
    lemma_le32(h.src_port);
    lemma_le32(h.dst_port);
    lemma_le32(h.len);
    lemma_le16(h.type_);
    lemma_le16(h.op);
    lemma_le32(h.flags);
    lemma_le32(h.buf_alloc);
    lemma_le32(h.fwd_cnt);
    let e = Seq::<u8>::empty();
    assert(b =~= e + f0 + (f1 + f2 + f3 + f4 + f5 + f6 + f7 + f8 + f9));
    lemma_get64_at(e, f0, f1 + f2 + f3 + f4 + f5 + f6 + f7 + f8 + f9);
    assert(b =~= f0 + f1 + (f2 + f3 + f4 + f5 + f6 + f7 + f8 + f9));
    lemma_get64_at(f0, f1, f2 + f3 + f4 + f5 + f6 + f7 + f8 + f9);
    assert(b =~= (f0 + f1) + f2 + (f3 + f4 + f5 + f6 + f7 + f8 + f9));
    lemma_get32_at(f0 + f1, f2, f3 + f4 + f5 + f6 + f7 + f8 + f9);
    assert(b =~= (f0 + f1 + f2) + f3 + (f4 + f5 + f6 + f7 + f8 + f9));
    lemma_get32_at(f0 + f1 + f2, f3, f4 + f5 + f6 + f7 + f8 + f9);
    assert(b =~= (f0 + f1 + f2 + f3) + f4 + (f5 + f6 + f7 + f8 + f9));
    lemma_get32_at(f0 + f1 + f2 + f3, f4, f5 + f6 + f7 + f8 + f9);
    assert(b =~= (f0 + f1 + f2 + f3 + f4) + f5 + (f6 + f7 + f8 + f9));
    lemma_get16_at(f0 + f1 + f2 + f3 + f4, f5, f6 + f7 + f8 + f9);
    assert(b =~= (f0 + f1 + f2 + f3 + f4 + f5) + f6 + (f7 + f8 + f9));
    lemma_get16_at(f0 + f1 + f2 + f3 + f4 + f5, f6, f7 + f8 + f9);
    assert(b =~= (f0 + f1 + f2 + f3 + f4 + f5 + f6) + f7 + (f8 + f9));
    lemma_get32_at(f0 + f1 + f2 + f3 + f4 + f5 + f6, f7, f8 + f9);
    assert(b =~= (f0 + f1 + f2 + f3 + f4 + f5 + f6 + f7) + f8 + f9);
    lemma_get32_at(f0 + f1 + f2 + f3 + f4 + f5 + f6 + f7, f8, f9);
    assert(b =~= (f0 + f1 + f2 + f3 + f4 + f5 + f6 + f7 + f8) + f9 + e);
    lemma_get32_at(f0 + f1 + f2 + f3 + f4 + f5 + f6 + f7 + f8, f9, e);
}

fn push_le64(buf: &mut Vec<u8>, v: u64)
    ensures
        final(buf)@ == old(buf)@ + le64(v),
{
    buf.push(v as u8);
    buf.push((v >> 8) as u8);
    buf.push((v >> 16) as u8);
    buf.push((v >> 24) as u8);
    buf.push((v >> 32) as u8);
    buf.push((v >> 40) as u8);
    buf.push((v >> 48) as u8);
    buf.push((v >> 56) as u8);
    proof {
        assert(buf@ =~= old(buf)@ + le64(v));
    }
}

fn push_le32(buf: &mut Vec<u8>, v: u32)
    ensures
        final(buf)@ == old(buf)@ + le32(v),
{
    buf.push(v as u8);
    buf.push((v >> 8) as u8);
    buf.push((v >> 16) as u8);
    buf.push((v >> 24) as u8);
    proof {
        assert(buf@ =~= old(buf)@ + le32(v));
    }
}

fn push_le16(buf: &mut Vec<u8>, v: u16)
    ensures
        final(buf)@ == old(buf)@ + le16(v),
{
    buf.push(v as u8);
    buf.push((v >> 8) as u8);
    proof {
        assert(buf@ =~= old(buf)@ + le16(v));
    }
}

fn read_le64(b: &[u8], i: usize) -> (r: u64)
    requires
        i + 8 <= b@.len(),
    ensures
        r == get64(b@, i as int),
{
    (b[i] as u64) | ((b[i + 1] as u64) << 8u64) | ((b[i + 2] as u64) << 16u64) | ((b[i + 3] as u64)
        << 24u64) | ((b[i + 4] as u64) << 32u64) | ((b[i + 5] as u64) << 40u64) | ((b[i + 6] as u64)
        << 48u64) | ((b[i + 7] as u64) << 56u64)
}

fn read_le32(b: &[u8], i: usize) -> (r: u32)
    requires
        i + 4 <= b@.len(),
    ensures
        r == get32(b@, i as int),
{
    (b[i] as u32) | ((b[i + 1] as u32) << 8u32) | ((b[i + 2] as u32) << 16u32) | ((b[i + 3] as u32)
        << 24u32)
}

fn read_le16(b: &[u8], i: usize) -> (r: u16)
    requires
        i + 2 <= b@.len(),
    ensures
        r == get16(b@, i as int),
{
    (b[i] as u16) | ((b[i + 1] as u16) << 8u16)
}

impl PacketHeader {
    /// The header's wire form, little-endian.
    pub fn to_bytes(&self) -> (r: Vec<u8>)
        ensures
            r@ == header_bytes(*self),
            r@.len() == HDR_SIZE,
    {
        let mut buf: Vec<u8> = Vec::new();
        push_le64(&mut buf, self.src_cid);
        push_le64(&mut buf, self.dst_cid);
        push_le32(&mut buf, self.src_port);
        push_le32(&mut buf, self.dst_port);
        push_le32(&mut buf, self.len);
        push_le16(&mut buf, self.type_);
        push_le16(&mut buf, self.op);
        push_le32(&mut buf, self.flags);
        push_le32(&mut buf, self.buf_alloc);
        push_le32(&mut buf, self.fwd_cnt);
        proof {
            assert(buf@ =~= header_bytes(*self));
        }
        buf
    }

    /// Reads the header that `b` starts with.
    pub fn from_bytes(b: &[u8]) -> (r: Result<PacketHeader, PacketError>)
        ensures
            match parse_header(b@) {
                Some(h) => r == Ok::<PacketHeader, PacketError>(h),
                None => r == Err::<PacketHeader, PacketError>(PacketError::InvalidDescriptorChain),
            },
    {
        if b.len() < HDR_SIZE {
            return Err(PacketError::InvalidDescriptorChain);
        }
        Ok(
            PacketHeader {
                src_cid: read_le64(b, 0),
                dst_cid: read_le64(b, 8),
                src_port: read_le32(b, 16),
                dst_port: read_le32(b, 20),
                len: read_le32(b, 24),
                type_: read_le16(b, 28),
                op: read_le16(b, 30),
                flags: read_le32(b, 32),
                buf_alloc: read_le32(b, 36),
                fwd_cnt: read_le32(b, 40),
            },
        )
    }
}

} // verus!
