use vstd::prelude::*;

verus! {

/// How a syscall argument is compared with a datum.
#[derive(Clone, Copy, Debug, PartialEq, Eq, Structural)]
pub enum CmpOp {
    Ne,
    Lt,
    Le,
    Eq,
    Ge,
    Gt,
    MaskedEq,
}

/// What the kernel does with a syscall that a rule matches.
#[derive(Clone, Copy, Debug, PartialEq, Eq, Structural)]
pub enum FilterAction {
    Allow,
    Kill,
    KillProcess,
    Trap,
    Errno(i32),
    Trace(u32),
}

/// A filter rule: `action` applies to syscall `syscall_nr` when its
/// argument `arg` compares by `op` with `datum`.
#[derive(Clone, Copy, Debug, PartialEq, Eq, Structural)]
pub struct FilterRule {
    pub syscall_nr: usize,
    pub arg: u32,
    pub op: CmpOp,
    pub datum: u64,
    pub action: FilterAction,
}

/// A process filter: its rules, and the action for every syscall that none
/// of them matches.
#[derive(Debug)]
pub struct SeccompFilter {
    pub default_action: FilterAction,
    pub rules: Vec<FilterRule>,
}

/// Why the process filter could not be built.
#[derive(Clone, Copy, Debug, PartialEq, Eq, Structural)]
pub enum FilterError {
    /// A syscall name is unknown on this architecture.
    UnknownSyscall,
}

/// The rule that allows syscall `sysno` whenever its first argument is at
/// least zero.
pub open spec fn default_rule(sysno: usize) -> FilterRule {
    FilterRule { syscall_nr: sysno, arg: 0, op: CmpOp::Ge, datum: 0, action: FilterAction::Allow }
}

/// Relies on the `FromStr` of syscalls' `Sysno` and `Sysno::id`: the number
/// of the syscall named `name` on this architecture, if it has one. No name
/// is empty.
#[verifier::external_body]
fn syscall_number(name: &str) -> (r: Option<usize>)
    ensures
        name@.len() == 0 ==> r is None,
{
    name.parse::<syscalls::Sysno>().ok().map(|s| s.id() as usize)
}

/// A rule that allows syscall `sysno` whenever its first argument is at
/// least zero.
pub fn create_default_seccomp_rule(sysno: usize) -> (r: FilterRule)
    ensures
        r == default_rule(sysno),
{
    FilterRule { syscall_nr: sysno, arg: 0, op: CmpOp::Ge, datum: 0, action: FilterAction::Allow }
}

/// The syscalls that the process keeps once its filter is installed.
pub open spec fn default_allowed_syscalls_spec() -> Seq<&'static str> {
    seq![
            "fadvise64", "fallocate", "fdatasync", "fcntl", "fstat", "ftruncate", "preadv",
            "pwritev", "lseek", "fsync", "mkdirat", "linkat", "openat", "readlinkat", "unlinkat",
            "symlinkat", "getrandom", "utimensat", "renameat2", "socket", "connect", "recvfrom",
            "sendto", "shutdown", "getpeername", "futex", "read", "write", "epoll_wait",
            "epoll_ctl", "newfstatat", "umask", "brk", "close", "dup", "fgetxattr", "madvise",
            "exit_group", "getdents64", "ioctl", "fchownat",
        ]
}

/// The syscalls that the process keeps once its filter is installed.
pub fn default_allowed_syscalls() -> (r: Vec<&'static str>)
    ensures
        r@ == default_allowed_syscalls_spec(),
{
    vec![
        "fadvise64", "fallocate", "fdatasync", "fcntl", "fstat", "ftruncate", "preadv",
        "pwritev", "lseek", "fsync", "mkdirat", "linkat", "openat", "readlinkat", "unlinkat",
        "symlinkat", "getrandom", "utimensat", "renameat2", "socket", "connect", "recvfrom",
        "sendto", "shutdown", "getpeername", "futex", "read", "write", "epoll_wait",
        "epoll_ctl", "newfstatat", "umask", "brk", "close", "dup", "fgetxattr", "madvise",
        "exit_group", "getdents64", "ioctl", "fchownat",
    ]
}

/// The filter that kills the process on any syscall but those of
/// `default_allowed_syscalls`, each allowed by its default rule, in list
/// order.
pub fn add_seccomp_filter() -> (r: Result<SeccompFilter, FilterError>)
    ensures
        r matches Ok(f) ==> f.default_action == FilterAction::KillProcess && f.rules@.len()
            == default_allowed_syscalls_spec().len() && forall|i: int|
            0 <= i < f.rules@.len() ==> #[trigger] f.rules@[i] == default_rule(
                f.rules@[i].syscall_nr,
            ),
{
    let names = default_allowed_syscalls();
    let mut rules: Vec<FilterRule> = Vec::new();
    let mut i: usize = 0;
    while i < names.len()
        invariant
            i <= names@.len(),
            names@ == default_allowed_syscalls_spec(),
            rules@.len() == i,
            forall|k: int| 0 <= k < rules@.len() ==> #[trigger] rules@[k] == default_rule(rules@[k].syscall_nr),
        decreases names@.len() - i,
    {
        let nr = match syscall_number(names[i]) {
            Some(n) => n,
            None => return Err(FilterError::UnknownSyscall),
        };
        rules.push(create_default_seccomp_rule(nr));
        i = i + 1;
    }
    Ok(SeccompFilter { default_action: FilterAction::KillProcess, rules })
}

} // verus!
