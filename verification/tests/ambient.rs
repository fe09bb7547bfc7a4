use caps::errors::ErrorKind;
use caps::kernel::{CapUserData, CapUserHeader, SysReturn};
use caps::{ambient, CapSet, Capability, CapsBitFlags, CapsHashSet, CapsList, Kernel, Session};

const EPERM: i32 = 1;
const ESRCH: i32 = 3;
const EINVAL: i32 = 22;

const ALL: u64 = (1 << 41) - 1;

/// One call as the kernel saw it.
#[derive(Debug, Clone, PartialEq, Eq)]
enum Call {
    Capget(u32, i32),
    Capset(u32, i32, CapUserData),
    Prctl(i32, u64, u64, u64, u64),
}

/// A stand-in for the kernel: the capability state of one thread, kept
/// by the rules of `capabilities(7)`, and a list of the calls it got.
struct FakeKernel {
    effective: u64,
    permitted: u64,
    inheritable: u64,
    bounding: u64,
    ambient: u64,
    keep_caps: bool,
    /// The highest capability that this kernel knows.
    last_cap: u64,
    /// Whether `capset` may add to the Permitted set.
    lenient: bool,
    /// Whether this kernel is too old to have the ambient set.
    no_ambient: bool,
    calls: Vec<Call>,
}

impl FakeKernel {
    /// A thread of root: everything permitted, nothing inheritable.
    fn root() -> FakeKernel {
        FakeKernel {
            effective: ALL,
            permitted: ALL,
            inheritable: 0,
            bounding: ALL,
            ambient: 0,
            keep_caps: false,
            last_cap: 40,
            lenient: false,
            no_ambient: false,
            calls: Vec::new(),
        }
    }

    fn ok(value: i64) -> SysReturn {
        SysReturn { value, errno: 0 }
    }

    fn fail(errno: i32) -> SysReturn {
        SysReturn { value: -1, errno }
    }

    fn words(mask: u64) -> (u32, u32) {
        ((mask & 0xffff_ffff) as u32, (mask >> 32) as u32)
    }

    fn mask(low: u32, high: u32) -> u64 {
        (u64::from(high) << 32) | u64::from(low)
    }
}

impl Kernel for FakeKernel {
    fn capget(&mut self, header: &CapUserHeader) -> (SysReturn, CapUserData) {
        self.calls.push(Call::Capget(header.version, header.pid));
        let zero = CapUserData {
            effective_s0: 0,
            permitted_s0: 0,
            inheritable_s0: 0,
            effective_s1: 0,
            permitted_s1: 0,
            inheritable_s1: 0,
        };
        if header.version != 0x20080522 || header.pid < 0 {
            return (FakeKernel::fail(EINVAL), zero);
        }
        if header.pid != 0 {
            return (FakeKernel::fail(ESRCH), zero);
        }
        let (eff_low, eff_high) = FakeKernel::words(self.effective);
        let (perm_low, perm_high) = FakeKernel::words(self.permitted);
        let (inh_low, inh_high) = FakeKernel::words(self.inheritable);
        let data = CapUserData {
            effective_s0: eff_low,
            permitted_s0: perm_low,
            inheritable_s0: inh_low,
            effective_s1: eff_high,
            permitted_s1: perm_high,
            inheritable_s1: inh_high,
        };
        (FakeKernel::ok(0), data)
    }

    fn capset(&mut self, header: &CapUserHeader, data: &CapUserData) -> SysReturn {
        self.calls.push(Call::Capset(header.version, header.pid, *data));
        if header.version != 0x20080522 {
            return FakeKernel::fail(EINVAL);
        }
        if header.pid != 0 {
            return FakeKernel::fail(EPERM);
        }
        let effective = FakeKernel::mask(data.effective_s0, data.effective_s1);
        let permitted = FakeKernel::mask(data.permitted_s0, data.permitted_s1);
        let inheritable = FakeKernel::mask(data.inheritable_s0, data.inheritable_s1);
        if !self.lenient && permitted & !self.permitted != 0 {
            return FakeKernel::fail(EPERM);
        }
        if effective & !permitted != 0 {
            return FakeKernel::fail(EPERM);
        }
        if inheritable & !(self.inheritable | self.bounding) != 0 {
            return FakeKernel::fail(EPERM);
        }
        self.effective = effective;
        self.permitted = permitted;
        self.inheritable = inheritable;
        self.ambient &= permitted & inheritable;
        FakeKernel::ok(0)
    }

    fn prctl(&mut self, option: i32, arg2: u64, arg3: u64, arg4: u64, arg5: u64) -> SysReturn {
        self.calls.push(Call::Prctl(option, arg2, arg3, arg4, arg5));
        match option {
            // PR_GET_KEEPCAPS, PR_SET_KEEPCAPS
            7 => FakeKernel::ok(i64::from(self.keep_caps)),
            8 => {
                if arg2 > 1 {
                    return FakeKernel::fail(EINVAL);
                }
                self.keep_caps = arg2 == 1;
                FakeKernel::ok(0)
            }
            // PR_CAPBSET_READ, PR_CAPBSET_DROP
            23 => {
                if arg2 > self.last_cap {
                    return FakeKernel::fail(EINVAL);
                }
                FakeKernel::ok(((self.bounding >> arg2) & 1) as i64)
            }
            24 => {
                if self.effective & (1 << 8) == 0 {
                    return FakeKernel::fail(EPERM);
                }
                if arg2 > self.last_cap {
                    return FakeKernel::fail(EINVAL);
                }
                self.bounding &= !(1 << arg2);
                FakeKernel::ok(0)
            }
            // PR_CAP_AMBIENT
            47 => {
                if self.no_ambient || arg4 != 0 || arg5 != 0 {
                    return FakeKernel::fail(EINVAL);
                }
                if arg2 == 4 {
                    if arg3 != 0 {
                        return FakeKernel::fail(EINVAL);
                    }
                    self.ambient = 0;
                    return FakeKernel::ok(0);
                }
                if arg3 > self.last_cap {
                    return FakeKernel::fail(EINVAL);
                }
                let bit = 1u64 << arg3;
                match arg2 {
                    1 => FakeKernel::ok(i64::from(self.ambient & bit != 0)),
                    2 => {
                        if self.permitted & self.inheritable & bit == 0 {
                            return FakeKernel::fail(EPERM);
                        }
                        self.ambient |= bit;
                        FakeKernel::ok(0)
                    }
                    3 => {
                        self.ambient &= !bit;
                        FakeKernel::ok(0)
                    }
                    _ => FakeKernel::fail(EINVAL),
                }
            }
            _ => FakeKernel::fail(EINVAL),
        }
    }
}

/// A session on a thread of root.
fn root_session() -> Session<FakeKernel> {
    Session::new(FakeKernel::root())
}

#[test]
fn test_ambient_has_cap() {
    let mut session = root_session();
    caps::has_cap(&mut session, None, CapSet::Ambient, Capability::CAP_CHOWN).unwrap();
}

#[test]
fn test_ambient_read() {
    let mut session = root_session();
    caps::read(&mut session, None, CapSet::Ambient).unwrap();
}

#[test]
fn test_ambient_clear() {
    let mut session = root_session();
    caps::clear(&mut session, None, CapSet::Ambient).unwrap();
    let empty = caps::read(&mut session, None, CapSet::Ambient).unwrap();
    assert_eq!(empty.len(), 0);
}

#[test]
fn test_ambient_drop() {
    let mut session = root_session();
    caps::drop(&mut session, None, CapSet::Ambient, Capability::CAP_CHOWN).unwrap();
    let no_cap = caps::has_cap(&mut session, None, CapSet::Ambient, Capability::CAP_CHOWN).unwrap();
    assert_eq!(no_cap, false);
}

#[test]
fn test_ambient_drop_other() {
    let mut session = root_session();
    assert!(caps::drop(&mut session, Some(1), CapSet::Ambient, Capability::CAP_CHOWN).is_err());
}

#[test]
fn test_ambient_raise() {
    let mut session = root_session();
    let r = caps::raise(&mut session, None, CapSet::Ambient, Capability::CAP_CHOWN);
    let perm = caps::has_cap(&mut session, None, CapSet::Permitted, Capability::CAP_CHOWN).unwrap();
    let inhe =
        caps::has_cap(&mut session, None, CapSet::Inheritable, Capability::CAP_CHOWN).unwrap();
    match (perm, inhe) {
        (false, _) => assert!(r.is_err()),
        (true, false) => {
            caps::raise(&mut session, None, CapSet::Inheritable, Capability::CAP_CHOWN).unwrap();
            caps::raise(&mut session, None, CapSet::Ambient, Capability::CAP_CHOWN).unwrap();
        }
        (true, true) => r.unwrap(),
    };
}

#[test]
fn test_ambient_set() {
    let mut session = root_session();
    let mut v = CapsHashSet::new();
    caps::set(&mut session, None, CapSet::Ambient, &v).unwrap();
    let empty = caps::read(&mut session, None, CapSet::Ambient).unwrap();
    assert_eq!(empty.len(), 0);
    v.insert(Capability::CAP_CHOWN);
    caps::drop(&mut session, None, CapSet::Ambient, Capability::CAP_CHOWN).unwrap();
    assert!(caps::set(&mut session, None, CapSet::Ambient, &v).is_err());
}

#[test]
fn ambient_raise_needs_permitted_and_inheritable() {
    let mut kernel = FakeKernel::root();
    kernel.permitted &= !Capability::CAP_CHOWN.bitmask();
    kernel.effective &= !Capability::CAP_CHOWN.bitmask();
    kernel.lenient = true;
    let mut session = Session::new(kernel);
    let cap = Capability::CAP_CHOWN;

    let refused = caps::raise(&mut session, None, CapSet::Ambient, cap).unwrap_err();
    assert_eq!(refused.kind(), ErrorKind::SyscallError);
    assert_eq!(refused.code(), Some(EPERM));
    assert_eq!(refused.detail, "PR_CAP_AMBIENT_RAISE");
    assert_eq!(caps::has_cap(&mut session, None, CapSet::Ambient, cap).unwrap(), false);

    caps::raise(&mut session, None, CapSet::Permitted, cap).unwrap();
    caps::raise(&mut session, None, CapSet::Inheritable, cap).unwrap();
    caps::raise(&mut session, None, CapSet::Ambient, cap).unwrap();
    assert_eq!(caps::has_cap(&mut session, None, CapSet::Ambient, cap).unwrap(), true);
}

#[test]
fn ambient_raise_is_not_helped_along() {
    // Permitted holds the capability, Inheritable does not: the refusal
    // comes back and Inheritable is left as it was.
    let mut session = root_session();
    let refused = ambient::raise(&mut session, Capability::CAP_NET_RAW).unwrap_err();
    assert_eq!(refused.code(), Some(EPERM));
    let kernel = session.into_inner();
    assert_eq!(kernel.inheritable, 0);
    assert_eq!(kernel.calls, vec![Call::Prctl(47, 2, 13, 0, 0)]);
}

#[test]
fn ambient_single_calls_are_one_prctl_each() {
    let mut session = root_session();
    assert_eq!(ambient::has_cap(&mut session, Capability::CAP_KILL).unwrap(), false);
    ambient::drop(&mut session, Capability::CAP_KILL).unwrap();
    ambient::clear(&mut session).unwrap();
    let kernel = session.into_inner();
    assert_eq!(
        kernel.calls,
        vec![Call::Prctl(47, 1, 5, 0, 0), Call::Prctl(47, 3, 5, 0, 0), Call::Prctl(47, 4, 0, 0, 0)]
    );
}

#[test]
fn ambient_clear_empties_the_set_in_one_call() {
    let mut kernel = FakeKernel::root();
    kernel.inheritable = ALL;
    kernel.ambient = 0b1011;
    let mut session = Session::new(kernel);
    ambient::clear(&mut session).unwrap();
    let kernel = session.into_inner();
    assert_eq!(kernel.ambient, 0);
    assert_eq!(kernel.calls.len(), 1);
}

#[test]
fn ambient_read_gives_what_is_raised() {
    let mut kernel = FakeKernel::root();
    kernel.inheritable = ALL;
    kernel.ambient = Capability::CAP_CHOWN.bitmask() | Capability::CAP_BPF.bitmask();
    let mut session = Session::new(kernel);
    let dense: CapsBitFlags = ambient::read(&mut session).unwrap();
    assert_eq!(dense.bits(), (1 << 0) | (1 << 39));
    let sparse: CapsHashSet = ambient::read(&mut session).unwrap();
    assert_eq!(sparse.len(), 2);
    assert!(sparse.contains(&Capability::CAP_CHOWN));
    assert!(sparse.contains(&Capability::CAP_BPF));
}

#[test]
fn ambient_read_asks_only_about_what_the_kernel_knows() {
    let mut kernel = FakeKernel::root();
    kernel.last_cap = 37;
    let mut session = Session::new(kernel);
    let set: CapsHashSet = ambient::read(&mut session).unwrap();
    assert!(set.is_empty());
    let kernel = session.into_inner();
    // 41 probes of the bounding set, then 38 queries of the ambient set.
    assert_eq!(kernel.calls.len(), 41 + 38);
    assert_eq!(kernel.calls[0], Call::Prctl(23, 0, 0, 0, 0));
    assert_eq!(kernel.calls[40], Call::Prctl(23, 40, 0, 0, 0));
    assert_eq!(kernel.calls[41], Call::Prctl(47, 1, 0, 0, 0));
    assert_eq!(kernel.calls[78], Call::Prctl(47, 1, 37, 0, 0));
}

#[test]
fn ambient_set_raises_and_lowers_what_differs() {
    let mut kernel = FakeKernel::root();
    kernel.inheritable = ALL;
    kernel.ambient = Capability::CAP_CHOWN.bitmask() | Capability::CAP_KILL.bitmask();
    let mut session = Session::new(kernel);
    let mut wanted = CapsBitFlags::empty();
    wanted.insert(CapsBitFlags::from(Capability::CAP_KILL));
    wanted.insert(CapsBitFlags::from(Capability::CAP_SETUID));
    ambient::set(&mut session, &wanted).unwrap();
    let kernel = session.into_inner();
    assert_eq!(kernel.ambient, (1 << 5) | (1 << 7));
    let after_probe: Vec<Call> = kernel.calls[41..].to_vec();
    // CAP_CHOWN is asked about and lowered, CAP_KILL is asked about and
    // left alone, CAP_SETUID is asked about and raised.
    assert_eq!(after_probe[0], Call::Prctl(47, 1, 0, 0, 0));
    assert_eq!(after_probe[1], Call::Prctl(47, 3, 0, 0, 0));
    assert_eq!(after_probe[2], Call::Prctl(47, 1, 1, 0, 0));
    assert_eq!(after_probe[6], Call::Prctl(47, 1, 5, 0, 0));
    assert_eq!(after_probe[7], Call::Prctl(47, 1, 6, 0, 0));
    assert_eq!(after_probe[8], Call::Prctl(47, 1, 7, 0, 0));
    assert_eq!(after_probe[9], Call::Prctl(47, 2, 7, 0, 0));
    assert_eq!(after_probe.len(), 41 + 2);
}

#[test]
fn ambient_set_stops_at_the_first_refusal() {
    let mut kernel = FakeKernel::root();
    // Only CAP_CHOWN can be raised: CAP_KILL is not inheritable.
    kernel.inheritable = Capability::CAP_CHOWN.bitmask();
    let mut session = Session::new(kernel);
    let mut wanted = CapsHashSet::new();
    wanted.insert(Capability::CAP_CHOWN);
    wanted.insert(Capability::CAP_KILL);
    wanted.insert(Capability::CAP_BPF);
    let refused = ambient::set(&mut session, &wanted).unwrap_err();
    assert_eq!(refused.kind(), ErrorKind::SyscallError);
    assert_eq!(refused.code(), Some(EPERM));
    let kernel = session.into_inner();
    // What was raised before the refusal stays raised.
    assert_eq!(kernel.ambient, 1);
    assert_eq!(kernel.calls.last(), Some(&Call::Prctl(47, 2, 5, 0, 0)));
}

#[test]
fn ambient_of_another_thread_is_refused_without_a_call() {
    let mut session = root_session();
    let cap = Capability::CAP_CHOWN;
    let set = CapsHashSet::new();
    assert_eq!(
        caps::has_cap(&mut session, Some(7), CapSet::Ambient, cap).unwrap_err().kind(),
        ErrorKind::UnsupportedSelector
    );
    assert!(caps::read(&mut session, Some(7), CapSet::Ambient).is_err());
    assert!(caps::set(&mut session, Some(7), CapSet::Ambient, &set).is_err());
    assert!(caps::clear(&mut session, Some(7), CapSet::Ambient).is_err());
    assert!(caps::raise(&mut session, Some(7), CapSet::Ambient, cap).is_err());
    assert!(session.into_inner().calls.is_empty());
}
