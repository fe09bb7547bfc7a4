//! Capability identifiers and the two containers that hold sets of them.

use std::collections::HashSet;
use vstd::prelude::*;
use vstd::std_specs::convert::FromSpecImpl;
use crate::errors::{CapsError, ErrorView};
use crate::mask::{
    caps_of_mask, has_bit, lemma_clear_bit, lemma_set_bit, mask_below, mask_of_caps, KNOWN_BITS,
};
use crate::nr;

verus! {

/// Linux capabilities.
///
/// All capabilities supported by Linux, including standard
/// POSIX and custom ones. See `capabilities(7)`.
#[allow(non_camel_case_types)]
#[derive(PartialEq, Eq, Structural, Hash, Debug, Clone, Copy)]
#[non_exhaustive]
pub enum Capability {
    /// `CAP_CHOWN` (from POSIX)
    CAP_CHOWN,
    /// `CAP_DAC_OVERRIDE` (from POSIX)
    CAP_DAC_OVERRIDE,
    /// `CAP_DAC_READ_SEARCH` (from POSIX)
    CAP_DAC_READ_SEARCH,
    /// `CAP_FOWNER` (from POSIX)
    CAP_FOWNER,
    /// `CAP_FSETID` (from POSIX)
    CAP_FSETID,
    /// `CAP_KILL` (from POSIX)
    CAP_KILL,
    /// `CAP_SETGID` (from POSIX)
    CAP_SETGID,
    /// `CAP_SETUID` (from POSIX)
    CAP_SETUID,
    /// `CAP_SETPCAP` (from Linux)
    CAP_SETPCAP,
    CAP_LINUX_IMMUTABLE,
    CAP_NET_BIND_SERVICE,
    CAP_NET_BROADCAST,
    CAP_NET_ADMIN,
    CAP_NET_RAW,
    CAP_IPC_LOCK,
    CAP_IPC_OWNER,
    /// `CAP_SYS_MODULE` (from Linux)
    CAP_SYS_MODULE,
    /// `CAP_SYS_RAWIO` (from Linux)
    CAP_SYS_RAWIO,
    /// `CAP_SYS_CHROOT` (from Linux)
    CAP_SYS_CHROOT,
    /// `CAP_SYS_PTRACE` (from Linux)
    CAP_SYS_PTRACE,
    /// `CAP_SYS_PACCT` (from Linux)
    CAP_SYS_PACCT,
    /// `CAP_SYS_ADMIN` (from Linux)
    CAP_SYS_ADMIN,
    /// `CAP_SYS_BOOT` (from Linux)
    CAP_SYS_BOOT,
    /// `CAP_SYS_NICE` (from Linux)
    CAP_SYS_NICE,
    /// `CAP_SYS_RESOURCE` (from Linux)
    CAP_SYS_RESOURCE,
    /// `CAP_SYS_TIME` (from Linux)
    CAP_SYS_TIME,
    /// `CAP_SYS_TTY_CONFIG` (from Linux)
    CAP_SYS_TTY_CONFIG,
    /// `CAP_SYS_MKNOD` (from Linux, >= 2.4)
    CAP_MKNOD,
    /// `CAP_LEASE` (from Linux, >= 2.4)
    CAP_LEASE,
    CAP_AUDIT_WRITE,
    /// `CAP_AUDIT_CONTROL` (from Linux, >= 2.6.11)
    CAP_AUDIT_CONTROL,
    CAP_SETFCAP,
    CAP_MAC_OVERRIDE,
    CAP_MAC_ADMIN,
    /// `CAP_SYSLOG` (from Linux, >= 2.6.37)
    CAP_SYSLOG,
    /// `CAP_WAKE_ALARM` (from Linux, >= 3.0)
    CAP_WAKE_ALARM,
    CAP_BLOCK_SUSPEND,
    /// `CAP_AUDIT_READ` (from Linux, >= 3.16).
    CAP_AUDIT_READ,
    /// `CAP_PERFMON` (from Linux, >= 5.8).
    CAP_PERFMON,
    /// `CAP_BPF` (from Linux, >= 5.8).
    CAP_BPF,
    /// `CAP_CHECKPOINT_RESTORE` (from Linux, >= 5.9).
    CAP_CHECKPOINT_RESTORE,
}

/// The length of `name` and its characters at 4, 7 and 8, with a blank
/// where `name` ends before.
spec fn marks(name: Seq<char>) -> (nat, char, char, char) {
    (
        name.len(),
        if name.len() > 4 {
            name[4]
        } else {
            ' '
        },
        if name.len() > 7 {
            name[7]
        } else {
            ' '
        },
        if name.len() > 8 {
            name[8]
        } else {
            ' '
        },
    )
}

/// Whether two strings hold the same characters.
fn same_text(a: &str, b: &str) -> (same: bool)
    ensures
        same == (a@ == b@),
{
    let n = a.unicode_len();
    if n != b.unicode_len() {
        return false;
    }
    let mut i: usize = 0;
    while i < n
        invariant
            n == a@.len(),
            n == b@.len(),
            i <= n,
            forall|j: int| 0 <= j < i ==> a@[j] == b@[j],
        decreases n - i,
    {
        if a.get_char(i) != b.get_char(i) {
            return false;
        }
        i += 1;
    }
    assert(a@ =~= b@);
    true
}

impl Capability {
    /// The kernel-defined value of this capability.
    pub open spec fn spec_index(&self) -> u8 {
        match *self {
            Capability::CAP_CHOWN => nr::CAP_CHOWN,
            Capability::CAP_DAC_OVERRIDE => nr::CAP_DAC_OVERRIDE,
            Capability::CAP_DAC_READ_SEARCH => nr::CAP_DAC_READ_SEARCH,
            Capability::CAP_FOWNER => nr::CAP_FOWNER,
            Capability::CAP_FSETID => nr::CAP_FSETID,
            Capability::CAP_KILL => nr::CAP_KILL,
            Capability::CAP_SETGID => nr::CAP_SETGID,
            Capability::CAP_SETUID => nr::CAP_SETUID,
            Capability::CAP_SETPCAP => nr::CAP_SETPCAP,
            Capability::CAP_LINUX_IMMUTABLE => nr::CAP_LINUX_IMMUTABLE,
            Capability::CAP_NET_BIND_SERVICE => nr::CAP_NET_BIND_SERVICE,
            Capability::CAP_NET_BROADCAST => nr::CAP_NET_BROADCAST,
            Capability::CAP_NET_ADMIN => nr::CAP_NET_ADMIN,
            Capability::CAP_NET_RAW => nr::CAP_NET_RAW,
            Capability::CAP_IPC_LOCK => nr::CAP_IPC_LOCK,
            Capability::CAP_IPC_OWNER => nr::CAP_IPC_OWNER,
            Capability::CAP_SYS_MODULE => nr::CAP_SYS_MODULE,
            Capability::CAP_SYS_RAWIO => nr::CAP_SYS_RAWIO,
            Capability::CAP_SYS_CHROOT => nr::CAP_SYS_CHROOT,
            Capability::CAP_SYS_PTRACE => nr::CAP_SYS_PTRACE,
            Capability::CAP_SYS_PACCT => nr::CAP_SYS_PACCT,
            Capability::CAP_SYS_ADMIN => nr::CAP_SYS_ADMIN,
            Capability::CAP_SYS_BOOT => nr::CAP_SYS_BOOT,
            Capability::CAP_SYS_NICE => nr::CAP_SYS_NICE,
            Capability::CAP_SYS_RESOURCE => nr::CAP_SYS_RESOURCE,
            Capability::CAP_SYS_TIME => nr::CAP_SYS_TIME,
            Capability::CAP_SYS_TTY_CONFIG => nr::CAP_SYS_TTY_CONFIG,
            Capability::CAP_MKNOD => nr::CAP_MKNOD,
            Capability::CAP_LEASE => nr::CAP_LEASE,
            Capability::CAP_AUDIT_WRITE => nr::CAP_AUDIT_WRITE,
            Capability::CAP_AUDIT_CONTROL => nr::CAP_AUDIT_CONTROL,
            Capability::CAP_SETFCAP => nr::CAP_SETFCAP,
            Capability::CAP_MAC_OVERRIDE => nr::CAP_MAC_OVERRIDE,
            Capability::CAP_MAC_ADMIN => nr::CAP_MAC_ADMIN,
            Capability::CAP_SYSLOG => nr::CAP_SYSLOG,
            Capability::CAP_WAKE_ALARM => nr::CAP_WAKE_ALARM,
            Capability::CAP_BLOCK_SUSPEND => nr::CAP_BLOCK_SUSPEND,
            Capability::CAP_AUDIT_READ => nr::CAP_AUDIT_READ,
            Capability::CAP_PERFMON => nr::CAP_PERFMON,
            Capability::CAP_BPF => nr::CAP_BPF,
            Capability::CAP_CHECKPOINT_RESTORE => nr::CAP_CHECKPOINT_RESTORE,
        }
    }

    /// The bit that stands for this capability in a 64-bit mask.
    pub open spec fn spec_bitmask(&self) -> u64 {
        1u64 << (self.spec_index() as u64)
    }

    /// Returns the index of this capability, i.e. its kernel-defined value.
    #[verifier::when_used_as_spec(spec_index)]
    pub fn index(&self) -> (i: u8)
        ensures
            i == self.spec_index(),
            i < nr::CAP_COUNT,
    {
        match *self {
            Capability::CAP_CHOWN => nr::CAP_CHOWN,
            Capability::CAP_DAC_OVERRIDE => nr::CAP_DAC_OVERRIDE,
            Capability::CAP_DAC_READ_SEARCH => nr::CAP_DAC_READ_SEARCH,
            Capability::CAP_FOWNER => nr::CAP_FOWNER,
            Capability::CAP_FSETID => nr::CAP_FSETID,
            Capability::CAP_KILL => nr::CAP_KILL,
            Capability::CAP_SETGID => nr::CAP_SETGID,
            Capability::CAP_SETUID => nr::CAP_SETUID,
            Capability::CAP_SETPCAP => nr::CAP_SETPCAP,
            Capability::CAP_LINUX_IMMUTABLE => nr::CAP_LINUX_IMMUTABLE,
            Capability::CAP_NET_BIND_SERVICE => nr::CAP_NET_BIND_SERVICE,
            Capability::CAP_NET_BROADCAST => nr::CAP_NET_BROADCAST,
            Capability::CAP_NET_ADMIN => nr::CAP_NET_ADMIN,
            Capability::CAP_NET_RAW => nr::CAP_NET_RAW,
            Capability::CAP_IPC_LOCK => nr::CAP_IPC_LOCK,
            Capability::CAP_IPC_OWNER => nr::CAP_IPC_OWNER,
            Capability::CAP_SYS_MODULE => nr::CAP_SYS_MODULE,
            Capability::CAP_SYS_RAWIO => nr::CAP_SYS_RAWIO,
            Capability::CAP_SYS_CHROOT => nr::CAP_SYS_CHROOT,
            Capability::CAP_SYS_PTRACE => nr::CAP_SYS_PTRACE,
            Capability::CAP_SYS_PACCT => nr::CAP_SYS_PACCT,
            Capability::CAP_SYS_ADMIN => nr::CAP_SYS_ADMIN,
            Capability::CAP_SYS_BOOT => nr::CAP_SYS_BOOT,
            Capability::CAP_SYS_NICE => nr::CAP_SYS_NICE,
            Capability::CAP_SYS_RESOURCE => nr::CAP_SYS_RESOURCE,
            Capability::CAP_SYS_TIME => nr::CAP_SYS_TIME,
            Capability::CAP_SYS_TTY_CONFIG => nr::CAP_SYS_TTY_CONFIG,
            Capability::CAP_MKNOD => nr::CAP_MKNOD,
            Capability::CAP_LEASE => nr::CAP_LEASE,
            Capability::CAP_AUDIT_WRITE => nr::CAP_AUDIT_WRITE,
            Capability::CAP_AUDIT_CONTROL => nr::CAP_AUDIT_CONTROL,
            Capability::CAP_SETFCAP => nr::CAP_SETFCAP,
            Capability::CAP_MAC_OVERRIDE => nr::CAP_MAC_OVERRIDE,
            Capability::CAP_MAC_ADMIN => nr::CAP_MAC_ADMIN,
            Capability::CAP_SYSLOG => nr::CAP_SYSLOG,
            Capability::CAP_WAKE_ALARM => nr::CAP_WAKE_ALARM,
            Capability::CAP_BLOCK_SUSPEND => nr::CAP_BLOCK_SUSPEND,
            Capability::CAP_AUDIT_READ => nr::CAP_AUDIT_READ,
            Capability::CAP_PERFMON => nr::CAP_PERFMON,
            Capability::CAP_BPF => nr::CAP_BPF,
            Capability::CAP_CHECKPOINT_RESTORE => nr::CAP_CHECKPOINT_RESTORE,
        }
    }

    /// The capability with kernel-defined value `index`, if there is one.
    pub open spec fn spec_from_index(index: u8) -> Option<Capability> {
        match index {
            0u8 => Some(Capability::CAP_CHOWN),
            1u8 => Some(Capability::CAP_DAC_OVERRIDE),
            2u8 => Some(Capability::CAP_DAC_READ_SEARCH),
            3u8 => Some(Capability::CAP_FOWNER),
            4u8 => Some(Capability::CAP_FSETID),
            5u8 => Some(Capability::CAP_KILL),
            6u8 => Some(Capability::CAP_SETGID),
            7u8 => Some(Capability::CAP_SETUID),
            8u8 => Some(Capability::CAP_SETPCAP),
            9u8 => Some(Capability::CAP_LINUX_IMMUTABLE),
            10u8 => Some(Capability::CAP_NET_BIND_SERVICE),
            11u8 => Some(Capability::CAP_NET_BROADCAST),
            12u8 => Some(Capability::CAP_NET_ADMIN),
            13u8 => Some(Capability::CAP_NET_RAW),
            14u8 => Some(Capability::CAP_IPC_LOCK),
            15u8 => Some(Capability::CAP_IPC_OWNER),
            16u8 => Some(Capability::CAP_SYS_MODULE),
            17u8 => Some(Capability::CAP_SYS_RAWIO),
            18u8 => Some(Capability::CAP_SYS_CHROOT),
            19u8 => Some(Capability::CAP_SYS_PTRACE),
            20u8 => Some(Capability::CAP_SYS_PACCT),
            21u8 => Some(Capability::CAP_SYS_ADMIN),
            22u8 => Some(Capability::CAP_SYS_BOOT),
            23u8 => Some(Capability::CAP_SYS_NICE),
            24u8 => Some(Capability::CAP_SYS_RESOURCE),
            25u8 => Some(Capability::CAP_SYS_TIME),
            26u8 => Some(Capability::CAP_SYS_TTY_CONFIG),
            27u8 => Some(Capability::CAP_MKNOD),
            28u8 => Some(Capability::CAP_LEASE),
            29u8 => Some(Capability::CAP_AUDIT_WRITE),
            30u8 => Some(Capability::CAP_AUDIT_CONTROL),
            31u8 => Some(Capability::CAP_SETFCAP),
            32u8 => Some(Capability::CAP_MAC_OVERRIDE),
            33u8 => Some(Capability::CAP_MAC_ADMIN),
            34u8 => Some(Capability::CAP_SYSLOG),
            35u8 => Some(Capability::CAP_WAKE_ALARM),
            36u8 => Some(Capability::CAP_BLOCK_SUSPEND),
            37u8 => Some(Capability::CAP_AUDIT_READ),
            38u8 => Some(Capability::CAP_PERFMON),
            39u8 => Some(Capability::CAP_BPF),
            40u8 => Some(Capability::CAP_CHECKPOINT_RESTORE),
            _ => None,
        }
    }

    /// The capability with kernel-defined value `index`, if this library
    /// knows one.
    #[verifier::when_used_as_spec(spec_from_index)]
    pub fn from_index(index: u8) -> (cap: Option<Capability>)
        ensures
            cap == Self::spec_from_index(index),
            cap is Some <==> index < nr::CAP_COUNT,
            cap matches Some(c) ==> c.spec_index() == index,
    {
        match index {
            0u8 => Some(Capability::CAP_CHOWN),
            1u8 => Some(Capability::CAP_DAC_OVERRIDE),
            2u8 => Some(Capability::CAP_DAC_READ_SEARCH),
            3u8 => Some(Capability::CAP_FOWNER),
            4u8 => Some(Capability::CAP_FSETID),
            5u8 => Some(Capability::CAP_KILL),
            6u8 => Some(Capability::CAP_SETGID),
            7u8 => Some(Capability::CAP_SETUID),
            8u8 => Some(Capability::CAP_SETPCAP),
            9u8 => Some(Capability::CAP_LINUX_IMMUTABLE),
            10u8 => Some(Capability::CAP_NET_BIND_SERVICE),
            11u8 => Some(Capability::CAP_NET_BROADCAST),
            12u8 => Some(Capability::CAP_NET_ADMIN),
            13u8 => Some(Capability::CAP_NET_RAW),
            14u8 => Some(Capability::CAP_IPC_LOCK),
            15u8 => Some(Capability::CAP_IPC_OWNER),
            16u8 => Some(Capability::CAP_SYS_MODULE),
            17u8 => Some(Capability::CAP_SYS_RAWIO),
            18u8 => Some(Capability::CAP_SYS_CHROOT),
            19u8 => Some(Capability::CAP_SYS_PTRACE),
            20u8 => Some(Capability::CAP_SYS_PACCT),
            21u8 => Some(Capability::CAP_SYS_ADMIN),
            22u8 => Some(Capability::CAP_SYS_BOOT),
            23u8 => Some(Capability::CAP_SYS_NICE),
            24u8 => Some(Capability::CAP_SYS_RESOURCE),
            25u8 => Some(Capability::CAP_SYS_TIME),
            26u8 => Some(Capability::CAP_SYS_TTY_CONFIG),
            27u8 => Some(Capability::CAP_MKNOD),
            28u8 => Some(Capability::CAP_LEASE),
            29u8 => Some(Capability::CAP_AUDIT_WRITE),
            30u8 => Some(Capability::CAP_AUDIT_CONTROL),
            31u8 => Some(Capability::CAP_SETFCAP),
            32u8 => Some(Capability::CAP_MAC_OVERRIDE),
            33u8 => Some(Capability::CAP_MAC_ADMIN),
            34u8 => Some(Capability::CAP_SYSLOG),
            35u8 => Some(Capability::CAP_WAKE_ALARM),
            36u8 => Some(Capability::CAP_BLOCK_SUSPEND),
            37u8 => Some(Capability::CAP_AUDIT_READ),
            38u8 => Some(Capability::CAP_PERFMON),
            39u8 => Some(Capability::CAP_BPF),
            40u8 => Some(Capability::CAP_CHECKPOINT_RESTORE),
            _ => None,
        }
    }

    /// The canonical name of this capability.
    pub open spec fn spec_name(&self) -> Seq<char> {
        match *self {
            Capability::CAP_CHOWN => "CAP_CHOWN"@,
            Capability::CAP_DAC_OVERRIDE => "CAP_DAC_OVERRIDE"@,
            Capability::CAP_DAC_READ_SEARCH => "CAP_DAC_READ_SEARCH"@,
            Capability::CAP_FOWNER => "CAP_FOWNER"@,
            Capability::CAP_FSETID => "CAP_FSETID"@,
            Capability::CAP_KILL => "CAP_KILL"@,
            Capability::CAP_SETGID => "CAP_SETGID"@,
            Capability::CAP_SETUID => "CAP_SETUID"@,
            Capability::CAP_SETPCAP => "CAP_SETPCAP"@,
            Capability::CAP_LINUX_IMMUTABLE => "CAP_LINUX_IMMUTABLE"@,
            Capability::CAP_NET_BIND_SERVICE => "CAP_NET_BIND_SERVICE"@,
            Capability::CAP_NET_BROADCAST => "CAP_NET_BROADCAST"@,
            Capability::CAP_NET_ADMIN => "CAP_NET_ADMIN"@,
            Capability::CAP_NET_RAW => "CAP_NET_RAW"@,
            Capability::CAP_IPC_LOCK => "CAP_IPC_LOCK"@,
            Capability::CAP_IPC_OWNER => "CAP_IPC_OWNER"@,
            Capability::CAP_SYS_MODULE => "CAP_SYS_MODULE"@,
            Capability::CAP_SYS_RAWIO => "CAP_SYS_RAWIO"@,
            Capability::CAP_SYS_CHROOT => "CAP_SYS_CHROOT"@,
            Capability::CAP_SYS_PTRACE => "CAP_SYS_PTRACE"@,
            Capability::CAP_SYS_PACCT => "CAP_SYS_PACCT"@,
            Capability::CAP_SYS_ADMIN => "CAP_SYS_ADMIN"@,
            Capability::CAP_SYS_BOOT => "CAP_SYS_BOOT"@,
            Capability::CAP_SYS_NICE => "CAP_SYS_NICE"@,
            Capability::CAP_SYS_RESOURCE => "CAP_SYS_RESOURCE"@,
            Capability::CAP_SYS_TIME => "CAP_SYS_TIME"@,
            Capability::CAP_SYS_TTY_CONFIG => "CAP_SYS_TTY_CONFIG"@,
            Capability::CAP_MKNOD => "CAP_MKNOD"@,
            Capability::CAP_LEASE => "CAP_LEASE"@,
            Capability::CAP_AUDIT_WRITE => "CAP_AUDIT_WRITE"@,
            Capability::CAP_AUDIT_CONTROL => "CAP_AUDIT_CONTROL"@,
            Capability::CAP_SETFCAP => "CAP_SETFCAP"@,
            Capability::CAP_MAC_OVERRIDE => "CAP_MAC_OVERRIDE"@,
            Capability::CAP_MAC_ADMIN => "CAP_MAC_ADMIN"@,
            Capability::CAP_SYSLOG => "CAP_SYSLOG"@,
            Capability::CAP_WAKE_ALARM => "CAP_WAKE_ALARM"@,
            Capability::CAP_BLOCK_SUSPEND => "CAP_BLOCK_SUSPEND"@,
            Capability::CAP_AUDIT_READ => "CAP_AUDIT_READ"@,
            Capability::CAP_PERFMON => "CAP_PERFMON"@,
            Capability::CAP_BPF => "CAP_BPF"@,
            Capability::CAP_CHECKPOINT_RESTORE => "CAP_CHECKPOINT_RESTORE"@,
        }
    }

    /// The canonical name of this capability: `CAP_` and its name in
    /// upper case, as `capabilities(7)` writes it.
    pub fn name(&self) -> (name: &'static str)
        ensures
            name@ == self.spec_name(),
    {
        match *self {
            Capability::CAP_CHOWN => "CAP_CHOWN",
            Capability::CAP_DAC_OVERRIDE => "CAP_DAC_OVERRIDE",
            Capability::CAP_DAC_READ_SEARCH => "CAP_DAC_READ_SEARCH",
            Capability::CAP_FOWNER => "CAP_FOWNER",
            Capability::CAP_FSETID => "CAP_FSETID",
            Capability::CAP_KILL => "CAP_KILL",
            Capability::CAP_SETGID => "CAP_SETGID",
            Capability::CAP_SETUID => "CAP_SETUID",
            Capability::CAP_SETPCAP => "CAP_SETPCAP",
            Capability::CAP_LINUX_IMMUTABLE => "CAP_LINUX_IMMUTABLE",
            Capability::CAP_NET_BIND_SERVICE => "CAP_NET_BIND_SERVICE",
            Capability::CAP_NET_BROADCAST => "CAP_NET_BROADCAST",
            Capability::CAP_NET_ADMIN => "CAP_NET_ADMIN",
            Capability::CAP_NET_RAW => "CAP_NET_RAW",
            Capability::CAP_IPC_LOCK => "CAP_IPC_LOCK",
            Capability::CAP_IPC_OWNER => "CAP_IPC_OWNER",
            Capability::CAP_SYS_MODULE => "CAP_SYS_MODULE",
            Capability::CAP_SYS_RAWIO => "CAP_SYS_RAWIO",
            Capability::CAP_SYS_CHROOT => "CAP_SYS_CHROOT",
            Capability::CAP_SYS_PTRACE => "CAP_SYS_PTRACE",
            Capability::CAP_SYS_PACCT => "CAP_SYS_PACCT",
            Capability::CAP_SYS_ADMIN => "CAP_SYS_ADMIN",
            Capability::CAP_SYS_BOOT => "CAP_SYS_BOOT",
            Capability::CAP_SYS_NICE => "CAP_SYS_NICE",
            Capability::CAP_SYS_RESOURCE => "CAP_SYS_RESOURCE",
            Capability::CAP_SYS_TIME => "CAP_SYS_TIME",
            Capability::CAP_SYS_TTY_CONFIG => "CAP_SYS_TTY_CONFIG",
            Capability::CAP_MKNOD => "CAP_MKNOD",
            Capability::CAP_LEASE => "CAP_LEASE",
            Capability::CAP_AUDIT_WRITE => "CAP_AUDIT_WRITE",
            Capability::CAP_AUDIT_CONTROL => "CAP_AUDIT_CONTROL",
            Capability::CAP_SETFCAP => "CAP_SETFCAP",
            Capability::CAP_MAC_OVERRIDE => "CAP_MAC_OVERRIDE",
            Capability::CAP_MAC_ADMIN => "CAP_MAC_ADMIN",
            Capability::CAP_SYSLOG => "CAP_SYSLOG",
            Capability::CAP_WAKE_ALARM => "CAP_WAKE_ALARM",
            Capability::CAP_BLOCK_SUSPEND => "CAP_BLOCK_SUSPEND",
            Capability::CAP_AUDIT_READ => "CAP_AUDIT_READ",
            Capability::CAP_PERFMON => "CAP_PERFMON",
            Capability::CAP_BPF => "CAP_BPF",
            Capability::CAP_CHECKPOINT_RESTORE => "CAP_CHECKPOINT_RESTORE",
        }
    }

    /// The canonical name of this capability, as an owned string.
    pub fn to_string(&self) -> (name: String)
        ensures
            name@ == self.spec_name(),
    {
        String::from_str(self.name())
    }

    /// The capability whose canonical name is `name`, if there is one.
    pub open spec fn spec_from_name(name: Seq<char>) -> Option<Capability> {
        if name == "CAP_CHOWN"@ {
            Some(Capability::CAP_CHOWN)
        } else if name == "CAP_DAC_OVERRIDE"@ {
            Some(Capability::CAP_DAC_OVERRIDE)
        } else if name == "CAP_DAC_READ_SEARCH"@ {
            Some(Capability::CAP_DAC_READ_SEARCH)
        } else if name == "CAP_FOWNER"@ {
            Some(Capability::CAP_FOWNER)
        } else if name == "CAP_FSETID"@ {
            Some(Capability::CAP_FSETID)
        } else if name == "CAP_KILL"@ {
            Some(Capability::CAP_KILL)
        } else if name == "CAP_SETGID"@ {
            Some(Capability::CAP_SETGID)
        } else if name == "CAP_SETUID"@ {
            Some(Capability::CAP_SETUID)
        } else if name == "CAP_SETPCAP"@ {
            Some(Capability::CAP_SETPCAP)
        } else if name == "CAP_LINUX_IMMUTABLE"@ {
            Some(Capability::CAP_LINUX_IMMUTABLE)
        } else if name == "CAP_NET_BIND_SERVICE"@ {
            Some(Capability::CAP_NET_BIND_SERVICE)
        } else if name == "CAP_NET_BROADCAST"@ {
            Some(Capability::CAP_NET_BROADCAST)
        } else if name == "CAP_NET_ADMIN"@ {
            Some(Capability::CAP_NET_ADMIN)
        } else if name == "CAP_NET_RAW"@ {
            Some(Capability::CAP_NET_RAW)
        } else if name == "CAP_IPC_LOCK"@ {
            Some(Capability::CAP_IPC_LOCK)
        } else if name == "CAP_IPC_OWNER"@ {
            Some(Capability::CAP_IPC_OWNER)
        } else if name == "CAP_SYS_MODULE"@ {
            Some(Capability::CAP_SYS_MODULE)
        } else if name == "CAP_SYS_RAWIO"@ {
            Some(Capability::CAP_SYS_RAWIO)
        } else if name == "CAP_SYS_CHROOT"@ {
            Some(Capability::CAP_SYS_CHROOT)
        } else if name == "CAP_SYS_PTRACE"@ {
            Some(Capability::CAP_SYS_PTRACE)
        } else if name == "CAP_SYS_PACCT"@ {
            Some(Capability::CAP_SYS_PACCT)
        } else if name == "CAP_SYS_ADMIN"@ {
            Some(Capability::CAP_SYS_ADMIN)
        } else if name == "CAP_SYS_BOOT"@ {
            Some(Capability::CAP_SYS_BOOT)
        } else if name == "CAP_SYS_NICE"@ {
            Some(Capability::CAP_SYS_NICE)
        } else if name == "CAP_SYS_RESOURCE"@ {
            Some(Capability::CAP_SYS_RESOURCE)
        } else if name == "CAP_SYS_TIME"@ {
            Some(Capability::CAP_SYS_TIME)
        } else if name == "CAP_SYS_TTY_CONFIG"@ {
            Some(Capability::CAP_SYS_TTY_CONFIG)
        } else if name == "CAP_MKNOD"@ {
            Some(Capability::CAP_MKNOD)
        } else if name == "CAP_LEASE"@ {
            Some(Capability::CAP_LEASE)
        } else if name == "CAP_AUDIT_WRITE"@ {
            Some(Capability::CAP_AUDIT_WRITE)
        } else if name == "CAP_AUDIT_CONTROL"@ {
            Some(Capability::CAP_AUDIT_CONTROL)
        } else if name == "CAP_SETFCAP"@ {
            Some(Capability::CAP_SETFCAP)
        } else if name == "CAP_MAC_OVERRIDE"@ {
            Some(Capability::CAP_MAC_OVERRIDE)
        } else if name == "CAP_MAC_ADMIN"@ {
            Some(Capability::CAP_MAC_ADMIN)
        } else if name == "CAP_SYSLOG"@ {
            Some(Capability::CAP_SYSLOG)
        } else if name == "CAP_WAKE_ALARM"@ {
            Some(Capability::CAP_WAKE_ALARM)
        } else if name == "CAP_BLOCK_SUSPEND"@ {
            Some(Capability::CAP_BLOCK_SUSPEND)
        } else if name == "CAP_AUDIT_READ"@ {
            Some(Capability::CAP_AUDIT_READ)
        } else if name == "CAP_PERFMON"@ {
            Some(Capability::CAP_PERFMON)
        } else if name == "CAP_BPF"@ {
            Some(Capability::CAP_BPF)
        } else if name == "CAP_CHECKPOINT_RESTORE"@ {
            Some(Capability::CAP_CHECKPOINT_RESTORE)
        } else {
            None
        }
    }

    /// Parse the canonical name of a capability. The match is exact: case
    /// counts, and so does the `CAP_` in front.
    pub fn from_str(s: &str) -> (parsed: Result<Capability, CapsError>)
        ensures
            match parsed {
                Ok(cap) => Self::spec_from_name(s@) == Some(cap) && cap.spec_name() == s@,
                Err(e) => Self::spec_from_name(s@) is None && e@ == ErrorView::invalid_name(s@),
            },
    {
        if same_text(s, "CAP_CHOWN") {
            Ok(Capability::CAP_CHOWN)
        } else if same_text(s, "CAP_DAC_OVERRIDE") {
            Ok(Capability::CAP_DAC_OVERRIDE)
        } else if same_text(s, "CAP_DAC_READ_SEARCH") {
            Ok(Capability::CAP_DAC_READ_SEARCH)
        } else if same_text(s, "CAP_FOWNER") {
            Ok(Capability::CAP_FOWNER)
        } else if same_text(s, "CAP_FSETID") {
            Ok(Capability::CAP_FSETID)
        } else if same_text(s, "CAP_KILL") {
            Ok(Capability::CAP_KILL)
        } else if same_text(s, "CAP_SETGID") {
            Ok(Capability::CAP_SETGID)
        } else if same_text(s, "CAP_SETUID") {
            Ok(Capability::CAP_SETUID)
        } else if same_text(s, "CAP_SETPCAP") {
            Ok(Capability::CAP_SETPCAP)
        } else if same_text(s, "CAP_LINUX_IMMUTABLE") {
            Ok(Capability::CAP_LINUX_IMMUTABLE)
        } else if same_text(s, "CAP_NET_BIND_SERVICE") {
            Ok(Capability::CAP_NET_BIND_SERVICE)
        } else if same_text(s, "CAP_NET_BROADCAST") {
            Ok(Capability::CAP_NET_BROADCAST)
        } else if same_text(s, "CAP_NET_ADMIN") {
            Ok(Capability::CAP_NET_ADMIN)
        } else if same_text(s, "CAP_NET_RAW") {
            Ok(Capability::CAP_NET_RAW)
        } else if same_text(s, "CAP_IPC_LOCK") {
            Ok(Capability::CAP_IPC_LOCK)
        } else if same_text(s, "CAP_IPC_OWNER") {
            Ok(Capability::CAP_IPC_OWNER)
        } else if same_text(s, "CAP_SYS_MODULE") {
            Ok(Capability::CAP_SYS_MODULE)
        } else if same_text(s, "CAP_SYS_RAWIO") {
            Ok(Capability::CAP_SYS_RAWIO)
        } else if same_text(s, "CAP_SYS_CHROOT") {
            Ok(Capability::CAP_SYS_CHROOT)
        } else if same_text(s, "CAP_SYS_PTRACE") {
            Ok(Capability::CAP_SYS_PTRACE)
        } else if same_text(s, "CAP_SYS_PACCT") {
            Ok(Capability::CAP_SYS_PACCT)
        } else if same_text(s, "CAP_SYS_ADMIN") {
            Ok(Capability::CAP_SYS_ADMIN)
        } else if same_text(s, "CAP_SYS_BOOT") {
            Ok(Capability::CAP_SYS_BOOT)
        } else if same_text(s, "CAP_SYS_NICE") {
            Ok(Capability::CAP_SYS_NICE)
        } else if same_text(s, "CAP_SYS_RESOURCE") {
            Ok(Capability::CAP_SYS_RESOURCE)
        } else if same_text(s, "CAP_SYS_TIME") {
            Ok(Capability::CAP_SYS_TIME)
        } else if same_text(s, "CAP_SYS_TTY_CONFIG") {
            Ok(Capability::CAP_SYS_TTY_CONFIG)
        } else if same_text(s, "CAP_MKNOD") {
            Ok(Capability::CAP_MKNOD)
        } else if same_text(s, "CAP_LEASE") {
            Ok(Capability::CAP_LEASE)
        } else if same_text(s, "CAP_AUDIT_WRITE") {
            Ok(Capability::CAP_AUDIT_WRITE)
        } else if same_text(s, "CAP_AUDIT_CONTROL") {
            Ok(Capability::CAP_AUDIT_CONTROL)
        } else if same_text(s, "CAP_SETFCAP") {
            Ok(Capability::CAP_SETFCAP)
        } else if same_text(s, "CAP_MAC_OVERRIDE") {
            Ok(Capability::CAP_MAC_OVERRIDE)
        } else if same_text(s, "CAP_MAC_ADMIN") {
            Ok(Capability::CAP_MAC_ADMIN)
        } else if same_text(s, "CAP_SYSLOG") {
            Ok(Capability::CAP_SYSLOG)
        } else if same_text(s, "CAP_WAKE_ALARM") {
            Ok(Capability::CAP_WAKE_ALARM)
        } else if same_text(s, "CAP_BLOCK_SUSPEND") {
            Ok(Capability::CAP_BLOCK_SUSPEND)
        } else if same_text(s, "CAP_AUDIT_READ") {
            Ok(Capability::CAP_AUDIT_READ)
        } else if same_text(s, "CAP_PERFMON") {
            Ok(Capability::CAP_PERFMON)
        } else if same_text(s, "CAP_BPF") {
            Ok(Capability::CAP_BPF)
        } else if same_text(s, "CAP_CHECKPOINT_RESTORE") {
            Ok(Capability::CAP_CHECKPOINT_RESTORE)
        } else {
            Err(CapsError::invalid_name(s))
        }
    }

    /// No two capabilities share an index, and each is found again by its
    /// index.
    pub proof fn lemma_index_injective(self, other: Capability)
        ensures
            self.spec_index() == other.spec_index() ==> self == other,
            Self::spec_from_index(self.spec_index()) == Some(self),
    {
    }

    /// A capability's name is parsed back to that capability, and no two
    /// capabilities share a name.
    pub proof fn lemma_name_round_trip(self)
        ensures
            Self::spec_from_name(self.spec_name()) == Some(self),
            forall|other: Capability| other.spec_name() == self.spec_name() ==> other == self,
    {
        // Length and three characters tell any two names apart.
        assert(marks("CAP_CHOWN"@) == (9nat, 'C', 'W', 'N')) by {
            reveal_strlit("CAP_CHOWN");
        }
        assert(marks("CAP_DAC_OVERRIDE"@) == (16nat, 'D', '_', 'O')) by {
            reveal_strlit("CAP_DAC_OVERRIDE");
        }
        assert(marks("CAP_DAC_READ_SEARCH"@) == (19nat, 'D', '_', 'R')) by {
            reveal_strlit("CAP_DAC_READ_SEARCH");
        }
        assert(marks("CAP_FOWNER"@) == (10nat, 'F', 'N', 'E')) by {
            reveal_strlit("CAP_FOWNER");
        }
        assert(marks("CAP_FSETID"@) == (10nat, 'F', 'T', 'I')) by {
            reveal_strlit("CAP_FSETID");
        }
        assert(marks("CAP_KILL"@) == (8nat, 'K', 'L', ' ')) by {
            reveal_strlit("CAP_KILL");
        }
        assert(marks("CAP_SETGID"@) == (10nat, 'S', 'G', 'I')) by {
            reveal_strlit("CAP_SETGID");
        }
        assert(marks("CAP_SETUID"@) == (10nat, 'S', 'U', 'I')) by {
            reveal_strlit("CAP_SETUID");
        }
        assert(marks("CAP_SETPCAP"@) == (11nat, 'S', 'P', 'C')) by {
            reveal_strlit("CAP_SETPCAP");
        }
        assert(marks("CAP_LINUX_IMMUTABLE"@) == (19nat, 'L', 'U', 'X')) by {
            reveal_strlit("CAP_LINUX_IMMUTABLE");
        }
        assert(marks("CAP_NET_BIND_SERVICE"@) == (20nat, 'N', '_', 'B')) by {
            reveal_strlit("CAP_NET_BIND_SERVICE");
        }
        assert(marks("CAP_NET_BROADCAST"@) == (17nat, 'N', '_', 'B')) by {
            reveal_strlit("CAP_NET_BROADCAST");
        }
        assert(marks("CAP_NET_ADMIN"@) == (13nat, 'N', '_', 'A')) by {
            reveal_strlit("CAP_NET_ADMIN");
        }
        assert(marks("CAP_NET_RAW"@) == (11nat, 'N', '_', 'R')) by {
            reveal_strlit("CAP_NET_RAW");
        }
        assert(marks("CAP_IPC_LOCK"@) == (12nat, 'I', '_', 'L')) by {
            reveal_strlit("CAP_IPC_LOCK");
        }
        assert(marks("CAP_IPC_OWNER"@) == (13nat, 'I', '_', 'O')) by {
            reveal_strlit("CAP_IPC_OWNER");
        }
        assert(marks("CAP_SYS_MODULE"@) == (14nat, 'S', '_', 'M')) by {
            reveal_strlit("CAP_SYS_MODULE");
        }
        assert(marks("CAP_SYS_RAWIO"@) == (13nat, 'S', '_', 'R')) by {
            reveal_strlit("CAP_SYS_RAWIO");
        }
        assert(marks("CAP_SYS_CHROOT"@) == (14nat, 'S', '_', 'C')) by {
            reveal_strlit("CAP_SYS_CHROOT");
        }
        assert(marks("CAP_SYS_PTRACE"@) == (14nat, 'S', '_', 'P')) by {
            reveal_strlit("CAP_SYS_PTRACE");
        }
        assert(marks("CAP_SYS_PACCT"@) == (13nat, 'S', '_', 'P')) by {
            reveal_strlit("CAP_SYS_PACCT");
        }
        assert(marks("CAP_SYS_ADMIN"@) == (13nat, 'S', '_', 'A')) by {
            reveal_strlit("CAP_SYS_ADMIN");
        }
        assert(marks("CAP_SYS_BOOT"@) == (12nat, 'S', '_', 'B')) by {
            reveal_strlit("CAP_SYS_BOOT");
        }
        assert(marks("CAP_SYS_NICE"@) == (12nat, 'S', '_', 'N')) by {
            reveal_strlit("CAP_SYS_NICE");
        }
        assert(marks("CAP_SYS_RESOURCE"@) == (16nat, 'S', '_', 'R')) by {
            reveal_strlit("CAP_SYS_RESOURCE");
        }
        assert(marks("CAP_SYS_TIME"@) == (12nat, 'S', '_', 'T')) by {
            reveal_strlit("CAP_SYS_TIME");
        }
        assert(marks("CAP_SYS_TTY_CONFIG"@) == (18nat, 'S', '_', 'T')) by {
            reveal_strlit("CAP_SYS_TTY_CONFIG");
        }
        assert(marks("CAP_MKNOD"@) == (9nat, 'M', 'O', 'D')) by {
            reveal_strlit("CAP_MKNOD");
        }
        assert(marks("CAP_LEASE"@) == (9nat, 'L', 'S', 'E')) by {
            reveal_strlit("CAP_LEASE");
        }
        assert(marks("CAP_AUDIT_WRITE"@) == (15nat, 'A', 'I', 'T')) by {
            reveal_strlit("CAP_AUDIT_WRITE");
        }
        assert(marks("CAP_AUDIT_CONTROL"@) == (17nat, 'A', 'I', 'T')) by {
            reveal_strlit("CAP_AUDIT_CONTROL");
        }
        assert(marks("CAP_SETFCAP"@) == (11nat, 'S', 'F', 'C')) by {
            reveal_strlit("CAP_SETFCAP");
        }
        assert(marks("CAP_MAC_OVERRIDE"@) == (16nat, 'M', '_', 'O')) by {
            reveal_strlit("CAP_MAC_OVERRIDE");
        }
        assert(marks("CAP_MAC_ADMIN"@) == (13nat, 'M', '_', 'A')) by {
            reveal_strlit("CAP_MAC_ADMIN");
        }
        assert(marks("CAP_SYSLOG"@) == (10nat, 'S', 'L', 'O')) by {
            reveal_strlit("CAP_SYSLOG");
        }
        assert(marks("CAP_WAKE_ALARM"@) == (14nat, 'W', 'E', '_')) by {
            reveal_strlit("CAP_WAKE_ALARM");
        }
        assert(marks("CAP_BLOCK_SUSPEND"@) == (17nat, 'B', 'C', 'K')) by {
            reveal_strlit("CAP_BLOCK_SUSPEND");
        }
        assert(marks("CAP_AUDIT_READ"@) == (14nat, 'A', 'I', 'T')) by {
            reveal_strlit("CAP_AUDIT_READ");
        }
        assert(marks("CAP_PERFMON"@) == (11nat, 'P', 'F', 'M')) by {
            reveal_strlit("CAP_PERFMON");
        }
        assert(marks("CAP_BPF"@) == (7nat, 'B', ' ', ' ')) by {
            reveal_strlit("CAP_BPF");
        }
        assert(marks("CAP_CHECKPOINT_RESTORE"@) == (22nat, 'C', 'C', 'K')) by {
            reveal_strlit("CAP_CHECKPOINT_RESTORE");
        }
    }

    /// Returns the bitmask corresponding to this capability value.
    #[verifier::when_used_as_spec(spec_bitmask)]
    pub fn bitmask(&self) -> (m: u64)
        ensures
            m == self.spec_bitmask(),
    {
        1u64 << (self.index() as u64)
    }
}

impl std::str::FromStr for Capability {
    type Err = CapsError;

    /// Parse the canonical name of a capability, as [`Capability::from_str`]
    /// does; this is what `str::parse` calls.
    fn from_str(s: &str) -> (parsed: Result<Self, Self::Err>)
        ensures
            match parsed {
                Ok(cap) => Self::spec_from_name(s@) == Some(cap) && cap.spec_name() == s@,
                Err(e) => Self::spec_from_name(s@) is None && e@ == ErrorView::invalid_name(s@),
            },
    {
        Capability::from_str(s)
    }
}

/// There are as many indices below `n` as `n` says.
proof fn lemma_indices_below(n: u8)
    ensures
        Set::new(|index: u8| index < n).finite(),
        Set::new(|index: u8| index < n).len() == n,
    decreases n,
{
    let below = Set::new(|index: u8| index < n);
    if n == 0 {
        assert(below =~= Set::<u8>::empty());
    } else {
        let k = (n - 1) as u8;
        lemma_indices_below(k);
        assert(below =~= Set::new(|index: u8| index < k).insert(k));
    }
}

/// The capabilities that this library knows are `CAP_COUNT` in number,
/// whenever they are counted.
pub proof fn lemma_known_count()
    ensures
        Set::<Capability>::full().finite(),
        Set::<Capability>::full().len() == nr::CAP_COUNT,
{
    let below = Set::new(|index: u8| index < nr::CAP_COUNT);
    let to_cap = |index: u8| Capability::spec_from_index(index).unwrap();
    lemma_indices_below(nr::CAP_COUNT);
    assert forall|cap: Capability| below.map(to_cap).contains(cap) by {
        assert(below.contains(cap.spec_index()));
        assert(to_cap(cap.spec_index()) == cap);
    }
    assert(below.map(to_cap) =~= Set::<Capability>::full());
    assert(vstd::relations::injective_on(to_cap, below));
    vstd::set_lib::lemma_map_size(below, Set::<Capability>::full(), to_cap);
}

/// `caps` lists the members of `set` once each, by ascending index.
pub open spec fn lists(caps: Seq<Capability>, set: Set<Capability>) -> bool {
    &&& forall|i: int, j: int|
        0 <= i < j < caps.len() ==> caps[i].spec_index() < caps[j].spec_index()
    &&& forall|cap: Capability| caps.contains(cap) <==> set.contains(cap)
}

/// A collection capable of storing a set of [`Capability`].
///
/// Both [`CapsBitFlags`] and [`CapsHashSet`] implements this trait, using
/// different inner containers. What a collection holds is its view, and
/// what it holds as bits is its mask; every method says what it does to
/// both, so that the two containers behave alike.
pub trait CapsList: Sized + Clone + View<V = Set<Capability>> {
    /// The list as a 64-bit mask: bit `i` is set for the capability with
    /// index `i` that the list holds. Flags may have further bits, which
    /// stand for no known capability; the methods below neither set nor
    /// clear such a bit.
    spec fn mask(&self) -> u64;

    /// What the list holds is what its mask has the bits of.
    proof fn lemma_mask(&self)
        ensures
            self@ == caps_of_mask(self.mask()),
    ;

    /// The capabilities in the set, by ascending index.
    fn iter_caps(&self) -> (caps: Vec<Capability>)
        ensures
            lists(caps@, self@),
    ;

    /// Returns `true` if the collection contains specified capability.
    fn contains_cap(&self, value: &Capability) -> (found: bool)
        ensures
            found == self@.contains(*value),
    ;

    /// Insert a capability into the collection, returning `false` if already contained.
    fn insert_cap(&mut self, value: Capability) -> (fresh: bool)
        ensures
            final(self)@ == old(self)@.insert(value),
            final(self).mask() == old(self).mask() | value.spec_bitmask(),
            old(self).mask() & !KNOWN_BITS == 0 ==> final(self).mask() & !KNOWN_BITS == 0,
            fresh == !old(self)@.contains(value),
    ;

    /// Create a collection with no capabilities.
    fn empty() -> (list: Self)
        ensures
            list@ == Set::<Capability>::empty(),
            list.mask() == 0,
    ;

    /// Remove a capability from the collection, returning `true` if the value was present.
    fn remove_cap(&mut self, value: &Capability) -> (found: bool)
        ensures
            final(self)@ == old(self)@.remove(*value),
            final(self).mask() == old(self).mask() & !value.spec_bitmask(),
            old(self).mask() & !KNOWN_BITS == 0 ==> final(self).mask() & !KNOWN_BITS == 0,
            found == old(self)@.contains(*value),
    ;
}

/// `list` holds the capabilities of `caps` and has no bit but theirs.
pub open spec fn holds<T: CapsList>(list: T, caps: Set<Capability>) -> bool {
    &&& list@ == caps
    &&& list.mask() == mask_of_caps(caps)
}

/// List of [`Capability`] stored as bit flags: bit `i` of [`bits`] is
/// set when the capability with index `i` is in the list.
///
/// [`bits`]: CapsBitFlags::bits
#[derive(PartialEq, Eq, Structural, Hash, Debug, Clone, Copy)]
pub struct CapsBitFlags {
    pub bits: u64,
}

impl View for CapsBitFlags {
    type V = Set<Capability>;

    open spec fn view(&self) -> Set<Capability> {
        caps_of_mask(self.bits)
    }
}

impl CapsBitFlags {
    /// The flags with no bit set.
    pub fn empty() -> (flags: CapsBitFlags)
        ensures
            flags.bits == 0,
    {
        CapsBitFlags { bits: 0 }
    }

    /// The flags of all the capabilities this library knows.
    pub fn all() -> (flags: CapsBitFlags)
        ensures
            flags.bits == KNOWN_BITS,
    {
        CapsBitFlags { bits: KNOWN_BITS }
    }

    /// The underlying bits.
    pub fn bits(&self) -> (bits: u64)
        ensures
            bits == self.bits,
    {
        self.bits
    }

    /// The flags with these bits, unless one of them stands for no known
    /// capability.
    pub fn from_bits(bits: u64) -> (flags: Option<CapsBitFlags>)
        ensures
            flags == (if bits & !KNOWN_BITS == 0 {
                Some(CapsBitFlags { bits })
            } else {
                None
            }),
    {
        if bits & !KNOWN_BITS == 0 {
            Some(CapsBitFlags { bits })
        } else {
            None
        }
    }

    /// The flags with these bits, those that stand for no known capability
    /// included.
    pub fn from_bits_retain(bits: u64) -> (flags: CapsBitFlags)
        ensures
            flags.bits == bits,
    {
        CapsBitFlags { bits }
    }

    /// Whether no bit is set.
    pub fn is_empty(&self) -> (none: bool)
        ensures
            none == (self.bits == 0),
    {
        self.bits == 0
    }

    /// Whether every bit of `other` is set in `self`.
    pub fn contains(&self, other: CapsBitFlags) -> (found: bool)
        ensures
            found == (self.bits & other.bits == other.bits),
    {
        self.bits & other.bits == other.bits
    }

    /// Set the bits of `other`.
    pub fn insert(&mut self, other: CapsBitFlags)
        ensures
            final(self).bits == old(self).bits | other.bits,
    {
        self.bits = self.bits | other.bits;
    }

    /// Clear the bits of `other`.
    pub fn remove(&mut self, other: CapsBitFlags)
        ensures
            final(self).bits == old(self).bits & !other.bits,
    {
        self.bits = self.bits & !other.bits;
    }

    /// The bits of `self` that are not in `other`.
    pub fn difference(self, other: CapsBitFlags) -> (flags: CapsBitFlags)
        ensures
            flags.bits == self.bits & !other.bits,
    {
        CapsBitFlags { bits: self.bits & !other.bits }
    }

    /// The one capability that these flags stand for.
    ///
    /// Fails with `InvalidInput` unless exactly one bit is set and it is
    /// the bit of a known capability.
    pub fn to_capability(self) -> (single: Result<Capability, CapsError>)
        ensures
            match single {
                Ok(cap) => self.bits == cap.spec_bitmask(),
                Err(e) => e.kind == crate::errors::ErrorKind::InvalidInput && forall|
                    cap: Capability,
                |
                    self.bits != cap.spec_bitmask(),
            },
    {
        let mut index: u8 = 0;
        while index < nr::CAP_COUNT
            invariant
                index <= nr::CAP_COUNT,
                forall|cap: Capability|
                    cap.spec_index() < index ==> self.bits != #[trigger] cap.spec_bitmask(),
            decreases nr::CAP_COUNT - index,
        {
            if self.bits == 1u64 << (index as u64) {
                let cap = Capability::from_index(index).unwrap();
                return Ok(cap);
            }
            index += 1;
        }
        Err(CapsError::invalid_input("cannot convert bits to single capability"))
    }
}

impl From<Capability> for CapsBitFlags {
    fn from(value: Capability) -> (flags: CapsBitFlags) {
        CapsBitFlags { bits: value.bitmask() }
    }
}

impl FromSpecImpl<Capability> for CapsBitFlags {
    open spec fn obeys_from_spec() -> bool {
        true
    }

    open spec fn from_spec(value: Capability) -> CapsBitFlags {
        CapsBitFlags { bits: value.spec_bitmask() }
    }
}

impl CapsList for CapsBitFlags {
    open spec fn mask(&self) -> u64 {
        self.bits
    }

    proof fn lemma_mask(&self) {
    }

    fn iter_caps(&self) -> (caps: Vec<Capability>) {
        let mut caps: Vec<Capability> = Vec::new();
        let mut index: u8 = 0;
        while index < nr::CAP_COUNT
            invariant
                index <= nr::CAP_COUNT,
                forall|i: int, j: int|
                    0 <= i < j < caps@.len() ==> caps@[i].spec_index() < caps@[j].spec_index(),
                forall|i: int| 0 <= i < caps@.len() ==> caps@[i].spec_index() < index,
                forall|cap: Capability|
                    caps@.contains(cap) <==> self@.contains(cap) && cap.spec_index() < index,
            decreases nr::CAP_COUNT - index,
        {
            let cap = Capability::from_index(index).unwrap();
            if self.bits & (1u64 << (index as u64)) != 0 {
                let ghost before = caps@;
                caps.push(cap);
                assert forall|c: Capability|
                    caps@.contains(c) <==> self@.contains(c) && c.spec_index() < index
                        + 1 by {
                    lemma_push_contains(before, cap, c);
                }
            }
            index += 1;
        }
        caps
    }

    fn contains_cap(&self, value: &Capability) -> (found: bool) {
        self.bits & value.bitmask() != 0
    }

    fn insert_cap(&mut self, value: Capability) -> (fresh: bool)
        ensures
            final(self).bits == old(self).bits | value.spec_bitmask(),
            old(self).bits & !KNOWN_BITS == 0 ==> final(self).bits & !KNOWN_BITS == 0,
    {
        let ghost before = self.bits;
        let ghost index = value.spec_index();
        proof {
            assert forall|cap: Capability|
                has_bit(before | value.spec_bitmask(), cap.spec_index()) == (has_bit(
                    before,
                    cap.spec_index(),
                ) || cap == value) by {
                lemma_set_bit(before, index, cap.spec_index());
            }
            assert(caps_of_mask(before | value.spec_bitmask()) =~= caps_of_mask(before).insert(
                value,
            ));
            assert(before & (1u64 << (index as u64)) != 0 ==> before | (1u64 << (index as u64))
                == before) by (bit_vector);
            assert(before & !0x1ff_ffff_ffffu64 == 0 ==> (before | (1u64 << (index as u64)))
                & !0x1ff_ffff_ffffu64 == 0) by (bit_vector)
                requires
                    index < 41,
            ;
        }
        if self.contains_cap(&value) {
            false
        } else {
            self.bits = self.bits | value.bitmask();
            true
        }
    }

    fn empty() -> (list: Self)
        ensures
            list.bits == 0,
    {
        let list = CapsBitFlags { bits: 0 };
        proof {
            crate::mask::lemma_caps_of_zero();
        }
        list
    }

    fn remove_cap(&mut self, value: &Capability) -> (found: bool)
        ensures
            final(self).bits == old(self).bits & !value.spec_bitmask(),
            old(self).bits & !KNOWN_BITS == 0 ==> final(self).bits & !KNOWN_BITS == 0,
    {
        let ghost before = self.bits;
        let ghost index = value.spec_index();
        proof {
            assert forall|cap: Capability|
                has_bit(before & !value.spec_bitmask(), cap.spec_index()) == (has_bit(
                    before,
                    cap.spec_index(),
                ) && cap != *value) by {
                lemma_clear_bit(before, index, cap.spec_index());
            }
            assert(caps_of_mask(before & !value.spec_bitmask()) =~= caps_of_mask(before).remove(
                *value,
            ));
            assert(before & (1u64 << (index as u64)) == 0 ==> before & !(1u64 << (index as u64))
                == before) by (bit_vector);
            assert(before & !0x1ff_ffff_ffffu64 == 0 ==> (before & !(1u64 << (index as u64)))
                & !0x1ff_ffff_ffffu64 == 0) by (bit_vector);
        }
        if self.contains_cap(value) {
            self.bits = self.bits & !value.bitmask();
            true
        } else {
            false
        }
    }
}

/// The capabilities whose bit is set in `mask` and whose index is `from`
/// or more, by ascending index.
pub open spec fn listing(mask: u64, from: u8) -> Seq<Capability>
    decreases nr::CAP_COUNT - from,
{
    if from >= nr::CAP_COUNT {
        Seq::empty()
    } else {
        let rest = listing(mask, (from + 1) as u8);
        if has_bit(mask, from) {
            seq![Capability::spec_from_index(from).unwrap()] + rest
        } else {
            rest
        }
    }
}

/// [`listing`] holds each capability of `mask` from `from` on once, by
/// ascending index.
pub proof fn lemma_listing(mask: u64, from: u8)
    ensures
        forall|i: int|
            0 <= i < listing(mask, from).len() ==> from <= (#[trigger] listing(
                mask,
                from,
            )[i]).spec_index(),
        forall|i: int, j: int|
            0 <= i < j < listing(mask, from).len() ==> listing(mask, from)[i].spec_index()
                < listing(mask, from)[j].spec_index(),
        forall|cap: Capability|
            listing(mask, from).contains(cap) <==> has_bit(mask, cap.spec_index())
                && cap.spec_index() >= from,
        from == 0 ==> lists(listing(mask, from), caps_of_mask(mask)),
    decreases nr::CAP_COUNT - from,
{
    let all = listing(mask, from);
    if from < nr::CAP_COUNT {
        let rest = listing(mask, (from + 1) as u8);
        lemma_listing(mask, (from + 1) as u8);
        let first = Capability::spec_from_index(from).unwrap();
        assert(first.spec_index() == from);
        if has_bit(mask, from) {
            assert(all =~= seq![first] + rest);
            assert(all[0] == first);
            assert forall|i: int| 0 < i < all.len() implies all[i] == rest[i - 1] by {}
            assert forall|cap: Capability|
                all.contains(cap) <==> has_bit(mask, cap.spec_index()) && cap.spec_index()
                    >= from by {
                if all.contains(cap) {
                    let i = choose|i: int| 0 <= i < all.len() && all[i] == cap;
                    if i > 0 {
                        assert(rest[i - 1] == cap);
                        assert(rest.contains(cap));
                    }
                }
                if has_bit(mask, cap.spec_index()) && cap.spec_index() >= from {
                    if cap.spec_index() == from {
                        assert(Capability::spec_from_index(cap.spec_index()) == Some(cap));
                        assert(all[0] == cap);
                    } else {
                        assert(rest.contains(cap));
                        let i = choose|i: int| 0 <= i < rest.len() && rest[i] == cap;
                        assert(all[i + 1] == cap);
                    }
                }
            }
        } else {
            assert(all == rest);
        }
    }
}

/// A pass over the capabilities of a [`CapsBitFlags`], by ascending
/// index. Its view is what is still to come.
#[derive(Debug, Clone, Copy)]
pub struct CapsBitFlagsIterator {
    bits: u64,
    index: u8,
}

impl View for CapsBitFlagsIterator {
    type V = Seq<Capability>;

    closed spec fn view(&self) -> Seq<Capability> {
        listing(self.bits, self.index)
    }
}

impl CapsBitFlagsIterator {
    /// The next capability of the list, or `None` when all were handed
    /// out.
    pub fn next(&mut self) -> (item: Option<Capability>)
        ensures
            match item {
                Some(cap) => old(self)@.len() > 0 && cap == old(self)@[0] && final(self)@ == old(
                    self,
                )@.skip(1),
                None => old(self)@.len() == 0 && final(self)@.len() == 0,
            },
    {
        while self.index < nr::CAP_COUNT
            invariant
                self@ == old(self)@,
                self.bits == old(self).bits,
            decreases nr::CAP_COUNT - self.index,
        {
            let index = self.index;
            self.index = index + 1;
            if self.bits & (1u64 << (index as u64)) != 0 {
                let cap = Capability::from_index(index).unwrap();
                assert(old(self)@ =~= seq![cap] + self@);
                assert(self@ =~= old(self)@.skip(1));
                return Some(cap);
            }
        }
        None
    }
}

impl CapsBitFlags {
    /// A pass over the capabilities in the list, by ascending index. It
    /// can be started as often as wanted.
    pub fn iter(&self) -> (pass: CapsBitFlagsIterator)
        ensures
            lists(pass@, self@),
    {
        proof {
            lemma_listing(self.bits, 0);
        }
        CapsBitFlagsIterator { bits: self.bits, index: 0 }
    }
}

/// List of [`Capability`] stored as a hash set of their indices.
#[derive(PartialEq, Eq, Debug)]
pub struct CapsHashSet {
    indices: HashSet<u8>,
}

impl View for CapsHashSet {
    type V = Set<Capability>;

    closed spec fn view(&self) -> Set<Capability> {
        Set::new(|cap: Capability| self.indices@.contains(cap.spec_index()))
    }
}

impl CapsHashSet {
    /// Every stored index is the index of a capability.
    #[verifier::type_invariant]
    spec fn well_formed(&self) -> bool {
        forall|index: u8| self.indices@.contains(index) ==> index < nr::CAP_COUNT
    }

    /// The stored indices are as many as the capabilities they stand for.
    proof fn lemma_len(&self)
        requires
            self.well_formed(),
        ensures
            self@.finite(),
            self@.len() == self.indices@.len(),
    {
        let indices = self.indices@;
        let to_cap = |index: u8| Capability::spec_from_index(index).unwrap();
        let below = Set::new(|index: u8| index < nr::CAP_COUNT);
        lemma_indices_below(nr::CAP_COUNT);
        vstd::set_lib::lemma_len_subset(indices, below);
        assert forall|cap: Capability| self@.contains(cap) <==> indices.map(to_cap).contains(
            cap,
        ) by {
            if self@.contains(cap) {
                assert(indices.contains(cap.spec_index()));
                assert(to_cap(cap.spec_index()) == cap);
            }
        }
        assert(self@ =~= indices.map(to_cap));
        assert(vstd::relations::injective_on(to_cap, indices));
        vstd::set_lib::lemma_map_size(indices, self@, to_cap);
    }

    /// Create a set with no capabilities.
    pub fn new() -> (set: CapsHashSet)
        ensures
            set@ == Set::<Capability>::empty(),
    {
        let set = CapsHashSet { indices: HashSet::new() };
        assert(set@ =~= Set::<Capability>::empty());
        set
    }

    /// The number of capabilities in the set.
    pub fn len(&self) -> (n: usize)
        ensures
            self@.finite(),
            n == self@.len(),
    {
        broadcast use vstd::std_specs::hash::group_hash_axioms;

        proof {
            use_type_invariant(self);
            self.lemma_len();
        }
        self.indices.len()
    }

    /// Whether the set holds no capability.
    pub fn is_empty(&self) -> (none: bool)
        ensures
            none == (self@ == Set::<Capability>::empty()),
    {
        broadcast use vstd::std_specs::hash::group_hash_axioms;

        proof {
            use_type_invariant(self);
            self.lemma_len();
            if self@ == Set::<Capability>::empty() {
                assert(self@.len() == 0);
            }
        }
        let none = self.indices.len() == 0;
        proof {
            if none {
                assert(self@.len() == 0);
                assert(self@ =~= Set::<Capability>::empty());
            }
        }
        none
    }

    /// Returns `true` if the set contains `value`.
    pub fn contains(&self, value: &Capability) -> (found: bool)
        ensures
            found == self@.contains(*value),
    {
        broadcast use vstd::std_specs::hash::group_hash_axioms;

        let index = value.index();
        self.indices.contains(&index)
    }

    /// Adds `value` to the set. Returns whether it was newly inserted.
    pub fn insert(&mut self, value: Capability) -> (fresh: bool)
        ensures
            final(self)@ == old(self)@.insert(value),
            fresh == !old(self)@.contains(value),
    {
        broadcast use vstd::std_specs::hash::group_hash_axioms;

        let index = value.index();
        // The set is taken out for the change and put back: the indices
        // must be those of capabilities whenever they rest in `self`.
        let mut indices: HashSet<u8> = HashSet::new();
        proof {
            use_type_invariant(&*self);
        }
        std::mem::swap(&mut self.indices, &mut indices);
        let fresh = indices.insert(index);
        std::mem::swap(&mut self.indices, &mut indices);
        proof {
            assert forall|cap: Capability|
                self@.contains(cap) <==> old(self)@.insert(value).contains(cap) by {
                if cap.spec_index() == index {
                    assert(Capability::spec_from_index(index) == Some(cap));
                }
            }
            assert(self@ =~= old(self)@.insert(value));
        }
        fresh
    }

    /// Removes `value` from the set. Returns whether it was present.
    pub fn remove(&mut self, value: &Capability) -> (found: bool)
        ensures
            final(self)@ == old(self)@.remove(*value),
            found == old(self)@.contains(*value),
    {
        broadcast use vstd::std_specs::hash::group_hash_axioms;

        let index = value.index();
        let mut indices: HashSet<u8> = HashSet::new();
        proof {
            use_type_invariant(&*self);
        }
        std::mem::swap(&mut self.indices, &mut indices);
        let found = indices.remove(&index);
        std::mem::swap(&mut self.indices, &mut indices);
        proof {
            assert forall|cap: Capability|
                self@.contains(cap) <==> old(self)@.remove(*value).contains(cap) by {
                if cap.spec_index() == index {
                    assert(Capability::spec_from_index(index) == Some(cap));
                }
            }
            assert(self@ =~= old(self)@.remove(*value));
        }
        found
    }
}

impl Clone for CapsHashSet {
    fn clone(&self) -> (copy: CapsHashSet)
        ensures
            copy@ == self@,
    {
        let mut copy = CapsHashSet::new();
        let mut index: u8 = 0;
        while index < nr::CAP_COUNT
            invariant
                index <= nr::CAP_COUNT,
                forall|cap: Capability|
                    copy@.contains(cap) <==> self@.contains(cap) && cap.spec_index() < index,
            decreases nr::CAP_COUNT - index,
        {
            let cap = Capability::from_index(index).unwrap();
            if self.contains(&cap) {
                copy.insert(cap);
            }
            index += 1;
        }
        assert(copy@ =~= self@);
        copy
    }
}

impl CapsList for CapsHashSet {
    open spec fn mask(&self) -> u64 {
        mask_of_caps(self@)
    }

    proof fn lemma_mask(&self) {
        crate::mask::lemma_caps_of_mask_of_caps(self@);
    }

    fn iter_caps(&self) -> (caps: Vec<Capability>) {
        let mut caps: Vec<Capability> = Vec::new();
        let mut index: u8 = 0;
        while index < nr::CAP_COUNT
            invariant
                index <= nr::CAP_COUNT,
                forall|i: int, j: int|
                    0 <= i < j < caps@.len() ==> caps@[i].spec_index() < caps@[j].spec_index(),
                forall|i: int| 0 <= i < caps@.len() ==> caps@[i].spec_index() < index,
                forall|cap: Capability|
                    caps@.contains(cap) <==> self@.contains(cap) && cap.spec_index() < index,
            decreases nr::CAP_COUNT - index,
        {
            let cap = Capability::from_index(index).unwrap();
            if self.contains(&cap) {
                let ghost before = caps@;
                caps.push(cap);
                assert forall|c: Capability|
                    caps@.contains(c) <==> self@.contains(c) && c.spec_index() < index
                        + 1 by {
                    lemma_push_contains(before, cap, c);
                }
            }
            index += 1;
        }
        caps
    }

    fn contains_cap(&self, value: &Capability) -> (found: bool) {
        self.contains(value)
    }

    fn insert_cap(&mut self, value: Capability) -> (fresh: bool) {
        proof {
            crate::mask::lemma_mask_of_insert(self@, value);
            crate::mask::lemma_caps_of_mask_of_caps(self@.insert(value));
        }
        self.insert(value)
    }

    fn empty() -> (list: Self) {
        proof {
            crate::mask::lemma_mask_of_empty(nr::CAP_COUNT);
        }
        CapsHashSet::new()
    }

    fn remove_cap(&mut self, value: &Capability) -> (found: bool) {
        proof {
            crate::mask::lemma_mask_of_remove(self@, *value);
            crate::mask::lemma_caps_of_mask_of_caps(self@.remove(*value));
        }
        self.remove(value)
    }
}

/// The list of the capabilities in `caps`, each once however often it
/// occurs there.
pub fn from_caps<T: CapsList>(caps: &Vec<Capability>) -> (list: T)
    ensures
        holds(list, caps@.to_set()),
{
    let mut list = T::empty();
    let mut at: usize = 0;
    proof {
        crate::mask::lemma_mask_of_empty(nr::CAP_COUNT);
        assert(caps@.take(0).to_set() =~= Set::<Capability>::empty());
    }
    while at < caps.len()
        invariant
            at <= caps@.len(),
            holds(list, caps@.take(at as int).to_set()),
        decreases caps@.len() - at,
    {
        let cap = caps[at];
        list.insert_cap(cap);
        proof {
            let before = caps@.take(at as int);
            let now = caps@.take(at as int + 1);
            crate::mask::lemma_mask_of_insert(before.to_set(), cap);
            assert(now =~= before.push(cap));
            assert forall|c: Capability| now.to_set().contains(c) <==> before.to_set().insert(
                cap,
            ).contains(c) by {
                lemma_push_contains(before, cap, c);
            }
            assert(now.to_set() =~= before.to_set().insert(cap));
        }
        at += 1;
    }
    assert(caps@.take(at as int) =~= caps@);
    list
}

/// The mask with exactly the bits of the capabilities in `list`.
pub fn to_mask<T: CapsList>(list: &T) -> (mask: u64)
    ensures
        mask == mask_of_caps(list@),
        mask == list.mask() & KNOWN_BITS,
{
    proof {
        list.lemma_mask();
        crate::mask::lemma_mask_of_caps_of_mask(list.mask());
    }
    let mut mask: u64 = 0;
    let mut index: u8 = 0;
    while index < nr::CAP_COUNT
        invariant
            index <= nr::CAP_COUNT,
            mask == mask_below(list@, index),
        decreases nr::CAP_COUNT - index,
    {
        let cap = Capability::from_index(index).unwrap();
        if list.contains_cap(&cap) {
            mask = mask | (1u64 << (index as u64));
        }
        index += 1;
    }
    mask
}

/// The list of the known capabilities whose bit is set in `mask`.
pub fn from_mask<T: CapsList>(mask: u64) -> (list: T)
    ensures
        holds(list, caps_of_mask(mask)),
        list.mask() == mask & KNOWN_BITS,
{
    let mut list = T::empty();
    let mut index: u8 = 0;
    proof {
        crate::mask::lemma_low_bits_step(mask, 0);
    }
    while index < nr::CAP_COUNT
        invariant
            index <= nr::CAP_COUNT,
            list.mask() == crate::mask::low_bits(mask, index),
            forall|cap: Capability|
                list@.contains(cap) <==> has_bit(mask, cap.spec_index()) && cap.spec_index()
                    < index,
        decreases nr::CAP_COUNT - index,
    {
        let cap = Capability::from_index(index).unwrap();
        proof {
            crate::mask::lemma_low_bits_step(mask, index);
        }
        if mask & (1u64 << (index as u64)) != 0 {
            list.insert_cap(cap);
        }
        index += 1;
    }
    proof {
        assert(list@ =~= caps_of_mask(mask));
        crate::mask::lemma_mask_of_caps_of_mask(mask);
        assert(mask & !(u64::MAX << 41u64) == mask & 0x1ff_ffff_ffffu64) by (bit_vector);
    }
    list
}

impl CapsBitFlags {
    /// The flags of the capabilities in `set`.
    pub fn from_hashset(set: &CapsHashSet) -> (flags: CapsBitFlags)
        ensures
            flags.bits == mask_of_caps(set@),
            flags.bits & !KNOWN_BITS == 0,
            flags@ == set@,
    {
        proof {
            crate::mask::lemma_caps_of_mask_of_caps(set@);
        }
        CapsBitFlags { bits: to_mask(set) }
    }
}

impl CapsHashSet {
    /// The set of the capabilities whose flag is set in `flags`.
    ///
    /// Fails with `InvalidInput` when a bit is set that stands for no
    /// known capability: such a bit is not dropped in silence.
    pub fn from_bitflags(flags: &CapsBitFlags) -> (converted: Result<CapsHashSet, CapsError>)
        ensures
            match converted {
                Ok(set) => flags.bits & !KNOWN_BITS == 0 && set@ == flags@,
                Err(e) => flags.bits & !KNOWN_BITS != 0 && e@ == ErrorView::invalid_input(
                    "unknown capability bits"@,
                ),
            },
    {
        if flags.bits & !KNOWN_BITS != 0 {
            Err(CapsError::invalid_input("unknown capability bits"))
        } else {
            Ok(from_mask(flags.bits))
        }
    }
}

/// Converting a set to the other container and back gives the set again:
/// nothing is lost and nothing is added. For flags this holds when no bit
/// is set that stands for no known capability.
pub proof fn lemma_conversion_round_trip(sparse: Set<Capability>, dense: u64)
    ensures
        mask_of_caps(sparse) & !KNOWN_BITS == 0,
        caps_of_mask(mask_of_caps(sparse)) == sparse,
        dense & !KNOWN_BITS == 0 ==> mask_of_caps(caps_of_mask(dense)) == dense,
{
    crate::mask::lemma_caps_of_mask_of_caps(sparse);
    crate::mask::lemma_mask_of_caps_of_mask(dense);
    assert(dense & !0x1ff_ffff_ffffu64 == 0 ==> dense & 0x1ff_ffff_ffffu64 == dense)
        by (bit_vector);
}

/// Pushing `last` adds `last` to what a sequence contains, and nothing else.
proof fn lemma_push_contains(caps: Seq<Capability>, last: Capability, cap: Capability)
    ensures
        caps.push(last).contains(cap) <==> caps.contains(cap) || cap == last,
{
    let pushed = caps.push(last);
    if caps.contains(cap) {
        let i = choose|i: int| 0 <= i < caps.len() && caps[i] == cap;
        assert(pushed[i] == cap);
    }
    if cap == last {
        assert(pushed[caps.len() as int] == cap);
    }
    if pushed.contains(cap) {
        let i = choose|i: int| 0 <= i < pushed.len() && pushed[i] == cap;
        if i < caps.len() {
            assert(caps[i] == cap);
        }
    }
}

} // verus!
