use vsock_tcp::packet::{PacketError, PacketHeader, HDR_SIZE};
use vsock_tcp::rxq::{MuxerRx, MuxerRxQ};
use vsock_tcp::seccomp_filter::{
    add_seccomp_filter, create_default_seccomp_rule, default_allowed_syscalls, CmpOp, FilterAction,
    FilterRule,
};
use vsock_tcp::Gic;

#[test]
fn header_round_trip() {
    let h = PacketHeader {
        src_cid: 0x0102_0304_0506_0708,
        dst_cid: 3,
        src_port: 0xdead_beef,
        dst_port: 1025,
        len: 44,
        type_: 1,
        op: 5,
        flags: 3,
        buf_alloc: 262144,
        fwd_cnt: u32::MAX,
    };
    let b = h.to_bytes();
    assert_eq!(b.len(), HDR_SIZE);
    assert_eq!(&b[0..8], &[8, 7, 6, 5, 4, 3, 2, 1]);
    assert_eq!(&b[16..20], &[0xef, 0xbe, 0xad, 0xde]);
    assert_eq!(&b[28..32], &[1, 0, 5, 0]);
    assert_eq!(PacketHeader::from_bytes(&b), Ok(h));
}

#[test]
fn short_chain_is_invalid() {
    let b = vec![0u8; HDR_SIZE - 1];
    assert_eq!(PacketHeader::from_bytes(&b), Err(PacketError::InvalidDescriptorChain));
}

#[test]
fn rxq_drops_oldest_when_full() {
    let mut q = MuxerRxQ::new(2);
    let r = |p: u32| MuxerRx::Reset { local_port: p, peer_port: 0 };
    assert!(q.push(r(1)));
    assert!(q.push(r(2)));
    assert!(!q.push(r(3)));
    assert_eq!(q.len(), 2);
    assert_eq!(q.pop(), Some(r(2)));
    assert_eq!(q.pop(), Some(r(3)));
    assert_eq!(q.pop(), None);
}

#[test]
fn default_rule_allows_the_syscall() {
    let rule = create_default_seccomp_rule(39);
    assert_eq!(
        rule,
        FilterRule { syscall_nr: 39, arg: 0, op: CmpOp::Ge, datum: 0, action: FilterAction::Allow }
    );
}

#[test]
fn default_filter_resolves_every_name() {
    let f = add_seccomp_filter().unwrap();
    assert_eq!(f.default_action, FilterAction::KillProcess);
    assert_eq!(f.rules.len(), 41);
    assert_eq!(f.rules[0].syscall_nr, 221);
    assert_eq!(f.rules[26].syscall_nr, 0);
    assert_eq!(f.rules[27].syscall_nr, 1);
    assert!(f.rules.iter().all(|r| r.op == CmpOp::Ge && r.action == FilterAction::Allow));
}

#[test]
fn allowed_syscalls_list() {
    let names = default_allowed_syscalls();
    assert_eq!(names.len(), 41);
    assert_eq!(names[0], "fadvise64");
    assert_eq!(names[40], "fchownat");
}

#[test]
fn gic_set_irq_is_harmless() {
    let mut g = Gic {};
    g.set_irq(5);
}
