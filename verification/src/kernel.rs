//! The kernel interface that the capability sets are reached through.
//!
//! The library makes no system call of its own. Whoever uses it brings a
//! [`Kernel`], and every call goes through a [`Session`], which keeps a
//! record of what was asked and what came back. The contracts of the
//! library say, over that record, which calls an operation makes and how
//! its result follows from the replies.

use vstd::prelude::*;
use crate::errors::{CapsError, ErrorView};
use crate::nr;

verus! {

/// The header of `capget(2)` and `capset(2)`.
#[derive(PartialEq, Eq, Structural, Debug, Clone, Copy)]
pub struct CapUserHeader {
    /// Linux capabilities version (runtime kernel support)
    pub version: u32,
    /// Process ID (thread)
    pub pid: i32,
}

/// The three POSIX sets of a thread, each split into a low word (`s0`,
/// capabilities 0 to 31) and a high word (`s1`, capabilities 32 to 63).
#[derive(PartialEq, Eq, Structural, Debug, Clone, Copy)]
pub struct CapUserData {
    pub effective_s0: u32,
    pub permitted_s0: u32,
    pub inheritable_s0: u32,
    pub effective_s1: u32,
    pub permitted_s1: u32,
    pub inheritable_s1: u32,
}

/// What a system call handed back: its return value, and the thread's
/// OS error code as it stood right after the call.
#[derive(PartialEq, Eq, Structural, Debug, Clone, Copy)]
pub struct SysReturn {
    pub value: i64,
    pub errno: i32,
}

/// The system calls that capabilities are read and written with.
///
/// An implementation performs the call and reports what the kernel said;
/// nothing is assumed of its answers.
pub trait Kernel {
    /// `capget(2)`: the sets of the thread that `header` names.
    fn capget(&mut self, header: &CapUserHeader) -> (SysReturn, CapUserData);

    /// `capset(2)`: replace the sets of the thread that `header` names.
    fn capset(&mut self, header: &CapUserHeader, data: &CapUserData) -> SysReturn;

    /// `prctl(2)` on the calling thread.
    fn prctl(&mut self, option: i32, arg2: u64, arg3: u64, arg4: u64, arg5: u64) -> SysReturn;
}

/// One system call, with its arguments and the kernel's reply.
pub ghost enum Exchange {
    Capget { header: CapUserHeader, ret: SysReturn, data: CapUserData },
    Capset { header: CapUserHeader, data: CapUserData, ret: SysReturn },
    Prctl { option: i32, arg2: u64, arg3: u64, arg4: u64, arg5: u64, ret: SysReturn },
}

/// A [`Kernel`] together with the record of the calls made through it.
pub struct Session<K: Kernel> {
    kernel: K,
    trace: Ghost<Seq<Exchange>>,
}

impl CapUserHeader {
    /// The header that addresses thread `tid` (0: the calling thread).
    pub open spec fn spec_new(tid: i32) -> CapUserHeader {
        CapUserHeader { version: nr::CAPS_V3, pid: tid }
    }

    /// The header that addresses thread `tid` (0: the calling thread).
    #[verifier::when_used_as_spec(spec_new)]
    pub fn new(tid: i32) -> (header: CapUserHeader)
        ensures
            header == Self::spec_new(tid),
    {
        CapUserHeader { version: nr::CAPS_V3, pid: tid }
    }
}

impl SysReturn {
    /// The kernel reports success with a return value of 0.
    pub open spec fn spec_is_ok(&self) -> bool {
        self.value == 0
    }

    /// `result` is what a call named `call` that only succeeds or fails
    /// comes to when the kernel returns `self`: `Ok` for 0, and for any
    /// other value a `SyscallError` with the OS error code.
    pub open spec fn gives(&self, call: Seq<char>, result: Result<(), CapsError>) -> bool {
        if self.value == 0 {
            result is Ok
        } else {
            &&& result matches Err(e)
            &&& e@ == ErrorView::syscall(call, self.errno)
        }
    }

    /// `result` is what a query named `call` comes to when the kernel
    /// returns `self`: `false` for 0, `true` for 1, and for any other
    /// value a `SyscallError` with the OS error code.
    pub open spec fn gives_flag(&self, call: Seq<char>, result: Result<bool, CapsError>) -> bool {
        if self.value == 0 {
            result == Ok::<bool, CapsError>(false)
        } else if self.value == 1 {
            result == Ok::<bool, CapsError>(true)
        } else {
            &&& result matches Err(e)
            &&& e@ == ErrorView::syscall(call, self.errno)
        }
    }

    /// The kernel reports success with a return value of 0.
    #[verifier::when_used_as_spec(spec_is_ok)]
    pub fn is_ok(&self) -> (ok: bool)
        ensures
            ok == self.spec_is_ok(),
    {
        self.value == 0
    }

    /// The result of a call named `call` that only succeeds or fails.
    pub fn done(&self, call: &str) -> (result: Result<(), CapsError>)
        ensures
            self.gives(call@, result),
    {
        if self.value == 0 {
            Ok(())
        } else {
            Err(CapsError::syscall(call, self.errno))
        }
    }

    /// The result of a query named `call` that the kernel answers with 0
    /// for no and 1 for yes.
    pub fn flag(&self, call: &str) -> (result: Result<bool, CapsError>)
        ensures
            self.gives_flag(call@, result),
    {
        if self.value == 0 {
            Ok(false)
        } else if self.value == 1 {
            Ok(true)
        } else {
            Err(CapsError::syscall(call, self.errno))
        }
    }
}

impl Exchange {
    /// What the kernel returned.
    pub open spec fn ret(self) -> SysReturn {
        match self {
            Exchange::Capget { ret, .. } => ret,
            Exchange::Capset { ret, .. } => ret,
            Exchange::Prctl { ret, .. } => ret,
        }
    }

    /// The sets that the kernel handed out (`capget`) or was handed
    /// (`capset`).
    pub open spec fn data(self) -> CapUserData {
        match self {
            Exchange::Capget { data, .. } => data,
            Exchange::Capset { data, .. } => data,
            Exchange::Prctl { .. } => CapUserData {
                effective_s0: 0,
                permitted_s0: 0,
                inheritable_s0: 0,
                effective_s1: 0,
                permitted_s1: 0,
                inheritable_s1: 0,
            },
        }
    }

    /// This is a `prctl` call with these first three arguments and 0 for
    /// the last two.
    pub open spec fn is_prctl(self, option: i32, arg2: u64, arg3: u64) -> bool {
        &&& self matches Exchange::Prctl { option: o, arg2: a2, arg3: a3, arg4: a4, arg5: a5, .. }
        &&& o == option
        &&& a2 == arg2
        &&& a3 == arg3
        &&& a4 == 0
        &&& a5 == 0
    }
}

impl<K: Kernel> Session<K> {
    /// Every exchange with the kernel so far, oldest first.
    pub closed spec fn trace(&self) -> Seq<Exchange> {
        self.trace@
    }

    /// The kernel that the calls go to.
    pub closed spec fn kernel(&self) -> K {
        self.kernel
    }

    /// Start a session on `kernel`.
    pub fn new(kernel: K) -> (session: Self)
        ensures
            session.trace() == Seq::<Exchange>::empty(),
            session.kernel() == kernel,
    {
        Session { kernel, trace: Ghost(Seq::empty()) }
    }

    /// End the session and give the kernel back.
    pub fn into_inner(self) -> (kernel: K)
        ensures
            kernel == self.kernel(),
    {
        self.kernel
    }

    /// Call `capget(2)`.
    pub fn capget(&mut self, header: &CapUserHeader) -> (reply: (SysReturn, CapUserData))
        ensures
            final(self).trace() == old(self).trace().push(
                Exchange::Capget { header: *header, ret: reply.0, data: reply.1 },
            ),
    {
        let reply = self.kernel.capget(header);
        proof {
            self.trace@ = self.trace@.push(
                Exchange::Capget { header: *header, ret: reply.0, data: reply.1 },
            );
        }
        reply
    }

    /// Call `capset(2)`.
    pub fn capset(&mut self, header: &CapUserHeader, data: &CapUserData) -> (ret: SysReturn)
        ensures
            final(self).trace() == old(self).trace().push(
                Exchange::Capset { header: *header, data: *data, ret },
            ),
    {
        let ret = self.kernel.capset(header, data);
        proof {
            self.trace@ = self.trace@.push(Exchange::Capset { header: *header, data: *data, ret });
        }
        ret
    }

    /// Call `prctl(2)`.
    pub fn prctl(
        &mut self,
        option: i32,
        arg2: u64,
        arg3: u64,
        arg4: u64,
        arg5: u64,
    ) -> (ret: SysReturn)
        ensures
            final(self).trace() == old(self).trace().push(
                Exchange::Prctl { option, arg2, arg3, arg4, arg5, ret },
            ),
    {
        let ret = self.kernel.prctl(option, arg2, arg3, arg4, arg5);
        proof {
            self.trace@ = self.trace@.push(Exchange::Prctl { option, arg2, arg3, arg4, arg5, ret });
        }
        ret
    }
}

/// The record `after` is the record `before` with calls added at its end.
pub open spec fn extends(before: Seq<Exchange>, after: Seq<Exchange>) -> bool {
    before.is_prefix_of(after)
}

/// The calls that the record `after` holds beyond the record `before`,
/// oldest first.
pub open spec fn calls(before: Seq<Exchange>, after: Seq<Exchange>) -> Seq<Exchange> {
    after.skip(before.len() as int)
}

/// A record that did not change holds no further call.
pub proof fn lemma_calls_none(record: Seq<Exchange>)
    ensures
        extends(record, record),
        calls(record, record) == Seq::<Exchange>::empty(),
{
    assert(calls(record, record) =~= Seq::<Exchange>::empty());
}

/// A record with one more exchange holds that call beyond the old one.
pub proof fn lemma_calls_one(record: Seq<Exchange>, exchange: Exchange)
    ensures
        extends(record, record.push(exchange)),
        calls(record, record.push(exchange)) == seq![exchange],
{
    assert(calls(record, record.push(exchange)) =~= seq![exchange]);
}

/// Calls made in two stretches are the calls of the first stretch, then
/// those of the second.
pub proof fn lemma_calls_chain(start: Seq<Exchange>, mid: Seq<Exchange>, end: Seq<Exchange>)
    requires
        extends(start, mid),
        extends(mid, end),
    ensures
        extends(start, end),
        calls(start, end) == calls(start, mid) + calls(mid, end),
{
    assert(calls(start, end) =~= calls(start, mid) + calls(mid, end));
}

} // verus!
