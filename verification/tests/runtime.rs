use caps::errors::ErrorKind;
use caps::kernel::{CapUserData, CapUserHeader, SysReturn};
use caps::{runtime, Capability, CapsBitFlags, CapsHashSet, CapsList, Kernel, Session};

const EPERM: i32 = 1;
const ESRCH: i32 = 3;
const EINVAL: i32 = 22;

const ALL: u64 = (1 << 41) - 1;

/// One call as the kernel saw it.
#[derive(Debug, Clone, PartialEq, Eq)]
enum Call {
    Capget(u32, i32),
    Capset(u32, i32, CapUserData),
    Prctl(i32, u64, u64, u64, u64),
}

/// A stand-in for the kernel: the capability state of one thread, kept
/// by the rules of `capabilities(7)`, and a list of the calls it got.
struct FakeKernel {
    effective: u64,
    permitted: u64,
    inheritable: u64,
    bounding: u64,
    ambient: u64,
    keep_caps: bool,
    /// The highest capability that this kernel knows.
    last_cap: u64,
    /// Whether `capset` may add to the Permitted set.
    lenient: bool,
    /// Whether this kernel is too old to have the ambient set.
    no_ambient: bool,
    calls: Vec<Call>,
}

impl FakeKernel {
    /// A thread of root: everything permitted, nothing inheritable.
    fn root() -> FakeKernel {
        FakeKernel {
            effective: ALL,
            permitted: ALL,
            inheritable: 0,
            bounding: ALL,
            ambient: 0,
            keep_caps: false,
            last_cap: 40,
            lenient: false,
            no_ambient: false,
            calls: Vec::new(),
        }
    }

    fn ok(value: i64) -> SysReturn {
        SysReturn { value, errno: 0 }
    }

    fn fail(errno: i32) -> SysReturn {
        SysReturn { value: -1, errno }
    }

    fn words(mask: u64) -> (u32, u32) {
        ((mask & 0xffff_ffff) as u32, (mask >> 32) as u32)
    }

    fn mask(low: u32, high: u32) -> u64 {
        (u64::from(high) << 32) | u64::from(low)
    }
}

impl Kernel for FakeKernel {
    fn capget(&mut self, header: &CapUserHeader) -> (SysReturn, CapUserData) {
        self.calls.push(Call::Capget(header.version, header.pid));
        let zero = CapUserData {
            effective_s0: 0,
            permitted_s0: 0,
            inheritable_s0: 0,
            effective_s1: 0,
            permitted_s1: 0,
            inheritable_s1: 0,
        };
        if header.version != 0x20080522 || header.pid < 0 {
            return (FakeKernel::fail(EINVAL), zero);
        }
        if header.pid != 0 {
            return (FakeKernel::fail(ESRCH), zero);
        }
        let (eff_low, eff_high) = FakeKernel::words(self.effective);
        let (perm_low, perm_high) = FakeKernel::words(self.permitted);
        let (inh_low, inh_high) = FakeKernel::words(self.inheritable);
        let data = CapUserData {
            effective_s0: eff_low,
            permitted_s0: perm_low,
            inheritable_s0: inh_low,
            effective_s1: eff_high,
            permitted_s1: perm_high,
            inheritable_s1: inh_high,
        };
        (FakeKernel::ok(0), data)
    }

    fn capset(&mut self, header: &CapUserHeader, data: &CapUserData) -> SysReturn {
        self.calls.push(Call::Capset(header.version, header.pid, *data));
        if header.version != 0x20080522 {
            return FakeKernel::fail(EINVAL);
        }
        if header.pid != 0 {
            return FakeKernel::fail(EPERM);
        }
        let effective = FakeKernel::mask(data.effective_s0, data.effective_s1);
        let permitted = FakeKernel::mask(data.permitted_s0, data.permitted_s1);
        let inheritable = FakeKernel::mask(data.inheritable_s0, data.inheritable_s1);
        if !self.lenient && permitted & !self.permitted != 0 {
            return FakeKernel::fail(EPERM);
        }
        if effective & !permitted != 0 {
            return FakeKernel::fail(EPERM);
        }
        if inheritable & !(self.inheritable | self.bounding) != 0 {
            return FakeKernel::fail(EPERM);
        }
        self.effective = effective;
        self.permitted = permitted;
        self.inheritable = inheritable;
        self.ambient &= permitted & inheritable;
        FakeKernel::ok(0)
    }

    fn prctl(&mut self, option: i32, arg2: u64, arg3: u64, arg4: u64, arg5: u64) -> SysReturn {
        self.calls.push(Call::Prctl(option, arg2, arg3, arg4, arg5));
        match option {
            // PR_GET_KEEPCAPS, PR_SET_KEEPCAPS
            7 => FakeKernel::ok(i64::from(self.keep_caps)),
            8 => {
                if arg2 > 1 {
                    return FakeKernel::fail(EINVAL);
                }
                self.keep_caps = arg2 == 1;
                FakeKernel::ok(0)
            }
            // PR_CAPBSET_READ, PR_CAPBSET_DROP
            23 => {
                if arg2 > self.last_cap {
                    return FakeKernel::fail(EINVAL);
                }
                FakeKernel::ok(((self.bounding >> arg2) & 1) as i64)
            }
            24 => {
                if self.effective & (1 << 8) == 0 {
                    return FakeKernel::fail(EPERM);
                }
                if arg2 > self.last_cap {
                    return FakeKernel::fail(EINVAL);
                }
                self.bounding &= !(1 << arg2);
                FakeKernel::ok(0)
            }
            // PR_CAP_AMBIENT
            47 => {
                if self.no_ambient || arg4 != 0 || arg5 != 0 {
                    return FakeKernel::fail(EINVAL);
                }
                if arg2 == 4 {
                    if arg3 != 0 {
                        return FakeKernel::fail(EINVAL);
                    }
                    self.ambient = 0;
                    return FakeKernel::ok(0);
                }
                if arg3 > self.last_cap {
                    return FakeKernel::fail(EINVAL);
                }
                let bit = 1u64 << arg3;
                match arg2 {
                    1 => FakeKernel::ok(i64::from(self.ambient & bit != 0)),
                    2 => {
                        if self.permitted & self.inheritable & bit == 0 {
                            return FakeKernel::fail(EPERM);
                        }
                        self.ambient |= bit;
                        FakeKernel::ok(0)
                    }
                    3 => {
                        self.ambient &= !bit;
                        FakeKernel::ok(0)
                    }
                    _ => FakeKernel::fail(EINVAL),
                }
            }
            _ => FakeKernel::fail(EINVAL),
        }
    }
}

/// A session on a thread of root.
fn root_session() -> Session<FakeKernel> {
    Session::new(FakeKernel::root())
}

#[test]
fn test_ambient_supported() {
    let mut session = root_session();
    runtime::ambient_set_supported(&mut session).unwrap();
}

#[test]
fn test_thread_all_supported() {
    let mut session = root_session();
    assert!(runtime::thread_all_supported_caps::<_, CapsHashSet>(&mut session).len() > 0);
    assert!(
        runtime::thread_all_supported_caps::<_, CapsHashSet>(&mut session).len()
            <= caps::all_caps::<CapsHashSet>().len()
    );
}

#[test]
fn test_procfs_all_supported() {
    let mut session = root_session();
    let p1 = runtime::procfs_all_supported_caps::<CapsHashSet>("40\n").unwrap();
    let p2 = runtime::procfs_all_supported_caps::<CapsHashSet>("40").unwrap();
    let thread: CapsHashSet = runtime::thread_all_supported_caps(&mut session);
    let all = caps::all_caps::<CapsHashSet>();

    assert!(thread.len() > 0);
    assert!(thread.len() <= all.len());
    assert_eq!(p1, p2, "{:?}", p1.iter_caps());
    assert_eq!(p1, thread, "{:?}", thread.iter_caps());
}

#[test]
fn ambient_set_unsupported_on_an_old_kernel() {
    // A kernel without the ambient set answers its prctl with EINVAL.
    let mut kernel = FakeKernel::root();
    kernel.last_cap = 36;
    kernel.no_ambient = true;
    let mut session = Session::new(kernel);
    let e = runtime::ambient_set_supported(&mut session).unwrap_err();
    assert_eq!(e.kind(), ErrorKind::SyscallError);
    assert_eq!(e.code(), Some(EINVAL));
    assert_eq!(e.to_string(), "caps error: PR_CAP_AMBIENT_IS_SET failure: os error 22");
}

#[test]
fn thread_supported_is_what_the_kernel_answers_for() {
    let mut kernel = FakeKernel::root();
    kernel.last_cap = 37;
    // Not in the bounding set, but known: the kernel answers 0.
    kernel.bounding &= !Capability::CAP_SYS_ADMIN.bitmask();
    let mut session = Session::new(kernel);
    let supported: CapsBitFlags = runtime::thread_all_supported_caps(&mut session);
    assert_eq!(supported.bits(), (1 << 38) - 1);
    assert!(supported.contains_cap(&Capability::CAP_SYS_ADMIN));
    assert!(supported.contains_cap(&Capability::CAP_AUDIT_READ));
    assert!(!supported.contains_cap(&Capability::CAP_PERFMON));
    assert_eq!(session.into_inner().calls.len(), 41);
}

#[test]
fn procfs_text_is_a_number_and_white_space() {
    assert_eq!(runtime::parse_last_cap("40\n").unwrap(), 40);
    assert_eq!(runtime::parse_last_cap("0").unwrap(), 0);
    assert_eq!(runtime::parse_last_cap("007 \t\r\n").unwrap(), 7);
    assert_eq!(runtime::parse_last_cap("255").unwrap(), 255);
    for bad in ["", "\n", "256", "1000", "99999999999999999999", " 40", "4 0", "-1", "4x", "x4"] {
        let e = runtime::parse_last_cap(bad).unwrap_err();
        assert_eq!(e.kind(), ErrorKind::InvalidInput);
        assert_eq!(e.detail, "failed to parse cap_last_cap");
    }
}

#[test]
fn procfs_supported_stops_at_the_last_cap() {
    let upto: CapsBitFlags = runtime::procfs_all_supported_caps("37\n").unwrap();
    assert_eq!(upto.bits(), (1 << 38) - 1);
    let none_above: CapsBitFlags = runtime::procfs_all_supported_caps("63").unwrap();
    assert_eq!(none_above, CapsBitFlags::all());
    let first: CapsHashSet = runtime::procfs_all_supported_caps("0").unwrap();
    assert_eq!(first.iter_caps(), vec![Capability::CAP_CHOWN]);
    assert!(runtime::procfs_all_supported_caps::<CapsHashSet>("forty").is_err());
}
