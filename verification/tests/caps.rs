use caps::errors::ErrorKind;
use caps::{
    all_caps, to_canonical, CapSet, Capability, CapsBitFlags, CapsError, CapsHashSet, CapsList,
};
use std::str::FromStr;

#[test]
fn test_all_roundtrip() {
    let all: CapsHashSet = all_caps();
    assert!(all.len() > 0);
    for c in all.iter_caps() {
        let name = c.to_string();
        let parsed: Capability = name.parse().unwrap();
        assert_eq!(c, parsed);
    }
}

#[test]
fn test_parse_invalid() {
    let p1 = Capability::from_str("CAP_FOO");
    let p1_err = p1.unwrap_err();
    assert!(p1_err.to_string().contains("invalid"));
    assert!(format!("{}", p1_err.to_string()).contains("CAP_FOO"));
    let p2: Result<Capability, CapsError> = "CAP_BAR".parse();
    assert!(p2.is_err());
}

#[test]
fn test_to_canonical() {
    let p1 = "foo";
    assert!(Capability::from_str(&to_canonical(p1)).is_err());
    let p2 = "sys_admin";
    assert!(Capability::from_str(&to_canonical(p2)).is_ok());
    let p3 = "CAP_SYS_CHROOT";
    assert!(Capability::from_str(&to_canonical(p3)).is_ok());
}

#[test]
fn canonical_is_upper_case_with_prefix() {
    assert_eq!(to_canonical("sys_admin"), "CAP_SYS_ADMIN");
    assert_eq!(to_canonical("cap_chown"), "CAP_CHOWN");
    assert_eq!(to_canonical("CAP_KILL"), "CAP_KILL");
    assert_eq!(to_canonical(""), "CAP_");
    assert_eq!(to_canonical("cap"), "CAP_CAP");
    assert_eq!(to_canonical("straße"), "CAP_STRASSE");
    assert_eq!(caps::ensure_prefix("bpf".to_string()), "CAP_bpf");
    assert_eq!(caps::ensure_prefix("CAP_".to_string()), "CAP_");
    assert_eq!(caps::ensure_prefix("CAP".to_string()), "CAP_CAP");
    assert_eq!(caps::ensure_prefix("cap_x".to_string()), "CAP_cap_x");
}

#[test]
fn indices_are_the_kernels() {
    assert_eq!(Capability::CAP_CHOWN.index(), 0);
    assert_eq!(Capability::CAP_SETPCAP.index(), 8);
    assert_eq!(Capability::CAP_SYS_ADMIN.index(), 21);
    assert_eq!(Capability::CAP_SETFCAP.index(), 31);
    assert_eq!(Capability::CAP_MAC_OVERRIDE.index(), 32);
    assert_eq!(Capability::CAP_CHECKPOINT_RESTORE.index(), 40);
    assert_eq!(Capability::CAP_CHOWN.bitmask(), 1);
    assert_eq!(Capability::CAP_SYS_ADMIN.bitmask(), 0x20_0000);
    assert_eq!(Capability::CAP_SETFCAP.bitmask(), 0x8000_0000);
    assert_eq!(Capability::CAP_MAC_OVERRIDE.bitmask(), 0x1_0000_0000);
    assert_eq!(Capability::CAP_CHECKPOINT_RESTORE.bitmask(), 1 << 40);
    for index in 0..=255u8 {
        match Capability::from_index(index) {
            Some(cap) => {
                assert!(index <= 40);
                assert_eq!(cap.index(), index);
                assert_eq!(cap.bitmask(), 1u64 << index);
            }
            None => assert!(index > 40),
        }
    }
}

#[test]
fn names_parse_back_and_nothing_else_does() {
    let all: CapsBitFlags = all_caps();
    for cap in all.iter_caps() {
        assert_eq!(Capability::from_str(cap.name()).unwrap(), cap);
        assert!(cap.name().starts_with("CAP_"));
    }
    assert_eq!(Capability::from_str("CAP_SYS_ADMIN").unwrap(), Capability::CAP_SYS_ADMIN);
    assert_eq!(Capability::CAP_SYS_ADMIN.name(), "CAP_SYS_ADMIN");
    assert_eq!(Capability::CAP_MKNOD.name(), "CAP_MKNOD");
    let bad_names =
        ["", "CAP_", "cap_chown", "CHOWN", "CAP_CHOWN ", " CAP_CHOWN", "CAP_CHOWNS", "CAP_BP"];
    for bad in bad_names {
        let e = Capability::from_str(bad).unwrap_err();
        assert_eq!(e.kind(), ErrorKind::InvalidName);
        assert_eq!(e.code(), None);
        assert_eq!(e.detail, bad);
        assert_eq!(e.to_string(), format!("caps error: invalid capability: {}", bad));
    }
}

#[test]
fn all_known_is_stable() {
    let first = caps::all();
    let second = caps::all();
    assert_eq!(first.len(), 41);
    assert_eq!(second.len(), 41);
    assert_eq!(first, second);
    let dense: CapsBitFlags = all_caps();
    assert_eq!(dense.bits(), (1 << 41) - 1);
    assert_eq!(dense, CapsBitFlags::all());
    assert_eq!(dense.iter_caps().len(), 41);
}

fn exercise<T: CapsList>() {
    let mut set = T::empty();
    assert!(set.iter_caps().is_empty());
    assert!(!set.contains_cap(&Capability::CAP_KILL));
    assert!(set.insert_cap(Capability::CAP_KILL));
    assert!(!set.insert_cap(Capability::CAP_KILL));
    assert!(set.insert_cap(Capability::CAP_CHECKPOINT_RESTORE));
    assert!(set.insert_cap(Capability::CAP_CHOWN));
    assert!(set.contains_cap(&Capability::CAP_KILL));
    assert!(!set.contains_cap(&Capability::CAP_BPF));
    assert_eq!(
        set.iter_caps(),
        vec![Capability::CAP_CHOWN, Capability::CAP_KILL, Capability::CAP_CHECKPOINT_RESTORE]
    );
    assert_eq!(set.iter_caps(), set.iter_caps());
    assert!(!set.remove_cap(&Capability::CAP_BPF));
    assert!(set.remove_cap(&Capability::CAP_KILL));
    assert!(!set.remove_cap(&Capability::CAP_KILL));
    assert!(!set.contains_cap(&Capability::CAP_KILL));
    assert_eq!(set.iter_caps(), vec![Capability::CAP_CHOWN, Capability::CAP_CHECKPOINT_RESTORE]);
    assert_eq!(caps::caps::to_mask(&set), 1 | (1 << 40));
}

#[test]
fn both_containers_behave_alike() {
    exercise::<CapsHashSet>();
    exercise::<CapsBitFlags>();
}

#[test]
fn hash_set_counts_and_copies() {
    let mut set = CapsHashSet::new();
    assert!(set.is_empty());
    assert_eq!(set.len(), 0);
    assert!(set.insert(Capability::CAP_BPF));
    assert!(!set.insert(Capability::CAP_BPF));
    assert!(set.insert(Capability::CAP_CHOWN));
    assert_eq!(set.len(), 2);
    assert!(!set.is_empty());
    let copy = set.clone();
    assert_eq!(copy, set);
    assert!(set.remove(&Capability::CAP_BPF));
    assert!(!set.remove(&Capability::CAP_BPF));
    assert_eq!(set.len(), 1);
    assert!(copy.contains(&Capability::CAP_BPF));
    assert!(!set.contains(&Capability::CAP_BPF));
}

#[test]
fn bit_flags_are_bits() {
    assert_eq!(CapsBitFlags::empty().bits(), 0);
    assert!(CapsBitFlags::empty().is_empty());
    assert_eq!(CapsBitFlags::all().bits(), 0x1ff_ffff_ffff);
    assert_eq!(CapsBitFlags::from(Capability::CAP_SYS_ADMIN).bits(), 1 << 21);
    assert_eq!(CapsBitFlags::from_bits(0b101).unwrap().bits(), 0b101);
    assert_eq!(CapsBitFlags::from_bits(1 << 40).unwrap().bits(), 1 << 40);
    assert_eq!(CapsBitFlags::from_bits(1 << 41), None);
    assert_eq!(CapsBitFlags::from_bits_retain(1 << 63).bits(), 1 << 63);
    let mut flags = CapsBitFlags::from_bits_retain(0b0110);
    assert!(flags.contains(CapsBitFlags::from_bits_retain(0b0100)));
    assert!(flags.contains(CapsBitFlags::empty()));
    assert!(!flags.contains(CapsBitFlags::from_bits_retain(0b0101)));
    flags.insert(CapsBitFlags::from_bits_retain(0b1001));
    assert_eq!(flags.bits(), 0b1111);
    flags.remove(CapsBitFlags::from_bits_retain(0b0011));
    assert_eq!(flags.bits(), 0b1100);
    assert_eq!(flags.difference(CapsBitFlags::from_bits_retain(0b0101)).bits(), 0b1000);
    assert_eq!(CapsBitFlags::all().difference(CapsBitFlags::all()), CapsBitFlags::empty());
}

#[test]
fn flags_of_one_capability() {
    for cap in caps::all().iter_caps() {
        assert_eq!(CapsBitFlags::from(cap).to_capability().unwrap(), cap);
    }
    for &bits in &[0u64, 0b11, 1 << 41, 1 << 63, u64::MAX] {
        let e = CapsBitFlags::from_bits_retain(bits).to_capability().unwrap_err();
        assert_eq!(e.kind(), ErrorKind::InvalidInput);
        assert_eq!(
            e.to_string(),
            "caps error: invalid input: cannot convert bits to single capability"
        );
    }
}

#[test]
fn sparse_and_dense_round_trip() {
    let mut sparse = CapsHashSet::new();
    sparse.insert(Capability::CAP_CHOWN);
    sparse.insert(Capability::CAP_SETFCAP);
    sparse.insert(Capability::CAP_MAC_OVERRIDE);
    sparse.insert(Capability::CAP_CHECKPOINT_RESTORE);
    let dense = CapsBitFlags::from_hashset(&sparse);
    assert_eq!(dense.bits(), 1 | (1 << 31) | (1 << 32) | (1 << 40));
    let back = CapsHashSet::from_bitflags(&dense).unwrap();
    assert_eq!(back, sparse);
    assert_eq!(back.len(), 4);
    assert_eq!(CapsBitFlags::from_hashset(&back), dense);

    assert_eq!(CapsBitFlags::from_hashset(&CapsHashSet::new()), CapsBitFlags::empty());
    assert!(CapsHashSet::from_bitflags(&CapsBitFlags::empty()).unwrap().is_empty());
    assert_eq!(CapsBitFlags::from_hashset(&caps::all()), CapsBitFlags::all());
    assert_eq!(CapsHashSet::from_bitflags(&CapsBitFlags::all()).unwrap(), caps::all());
}

#[test]
fn unknown_bit_is_an_error_not_a_loss() {
    for &bits in &[1u64 << 41, (1 << 63) | 1, u64::MAX] {
        let e = CapsHashSet::from_bitflags(&CapsBitFlags::from_bits_retain(bits)).unwrap_err();
        assert_eq!(e.kind(), ErrorKind::InvalidInput);
        assert_eq!(e.detail, "unknown capability bits");
    }
}

#[test]
fn masks_and_lists() {
    let list: CapsHashSet = caps::caps::from_mask((1 << 63) | (1 << 41) | (1 << 40) | 0b10);
    assert_eq!(
        list.iter_caps(),
        vec![Capability::CAP_DAC_OVERRIDE, Capability::CAP_CHECKPOINT_RESTORE]
    );
    assert_eq!(caps::caps::to_mask(&list), (1 << 40) | 0b10);
    let flags: CapsBitFlags = caps::caps::from_mask(u64::MAX);
    assert_eq!(flags, CapsBitFlags::all());
    assert_eq!(caps::caps::to_mask(&CapsBitFlags::from_bits_retain(u64::MAX)), (1 << 41) - 1);
}

#[test]
fn errors_in_words() {
    assert_eq!(CapsError::unsupported().to_string(), "caps error: operation not supported");
    assert_eq!(CapsError::invalid_name("x").to_string(), "caps error: invalid capability: x");
    assert_eq!(CapsError::invalid_input("y").to_string(), "caps error: invalid input: y");
    for &(code, text) in &[
        (0, "0"),
        (1, "1"),
        (9, "9"),
        (10, "10"),
        (22, "22"),
        (105, "105"),
        (i32::MAX, "2147483647"),
        (-1, "-1"),
        (-40, "-40"),
        (i32::MIN, "-2147483648"),
    ] {
        let e = CapsError::syscall("capset", code);
        assert_eq!(e.kind(), ErrorKind::SyscallError);
        assert_eq!(e.code(), Some(code));
        assert_eq!(e.to_string(), format!("caps error: capset failure: os error {}", text));
    }
}

#[test]
fn posix_sets_are_the_base_sets() {
    assert!(CapSet::Effective.is_base());
    assert!(CapSet::Permitted.is_base());
    assert!(CapSet::Inheritable.is_base());
    assert!(!CapSet::Bounding.is_base());
    assert!(!CapSet::Ambient.is_base());
}

#[test]
fn flags_are_passed_over_lazily_and_again() {
    let mut flags = CapsBitFlags::from_bits_retain((1 << 63) | (1 << 41));
    flags.insert_cap(Capability::CAP_BPF);
    flags.insert_cap(Capability::CAP_CHOWN);
    flags.insert_cap(Capability::CAP_SETFCAP);
    let mut pass = flags.iter();
    assert_eq!(pass.next(), Some(Capability::CAP_CHOWN));
    assert_eq!(pass.next(), Some(Capability::CAP_SETFCAP));
    // A second pass starts from the beginning, whatever the first did.
    let mut again = flags.iter();
    assert_eq!(again.next(), Some(Capability::CAP_CHOWN));
    assert_eq!(pass.next(), Some(Capability::CAP_BPF));
    assert_eq!(pass.next(), None);
    assert_eq!(pass.next(), None);
    assert_eq!(CapsBitFlags::empty().iter().next(), None);
    let mut all = CapsBitFlags::all().iter();
    let mut seen = Vec::new();
    while let Some(cap) = all.next() {
        seen.push(cap);
    }
    assert_eq!(seen, CapsBitFlags::all().iter_caps());
    assert_eq!(seen.len(), 41);
}

#[test]
fn capability_in_words() {
    assert_eq!(Capability::CAP_SYS_ADMIN.to_string(), "CAP_SYS_ADMIN");
    assert_eq!(Capability::CAP_CHOWN.to_string(), Capability::CAP_CHOWN.name());
}

#[test]
fn lists_are_gathered_from_capabilities() {
    let caps = vec![Capability::CAP_KILL, Capability::CAP_CHOWN, Capability::CAP_KILL];
    let sparse: CapsHashSet = caps::caps::from_caps(&caps);
    assert_eq!(sparse.len(), 2);
    assert_eq!(sparse.iter_caps(), vec![Capability::CAP_CHOWN, Capability::CAP_KILL]);
    let dense: CapsBitFlags = caps::caps::from_caps(&caps);
    assert_eq!(dense.bits(), 0b10_0001);
    let none: CapsBitFlags = caps::caps::from_caps(&Vec::new());
    assert!(none.is_empty());
}

#[test]
fn list_methods_leave_unknown_bits_alone() {
    let unknown = (1u64 << 63) | (1 << 41);
    let mut flags = CapsBitFlags::from_bits_retain(unknown | 0b100);
    assert!(flags.insert_cap(Capability::CAP_CHOWN));
    assert_eq!(flags.bits(), unknown | 0b101);
    assert!(!flags.insert_cap(Capability::CAP_CHOWN));
    assert_eq!(flags.bits(), unknown | 0b101);
    assert!(flags.remove_cap(&Capability::CAP_DAC_READ_SEARCH));
    assert_eq!(flags.bits(), unknown | 0b001);
    assert!(!flags.remove_cap(&Capability::CAP_DAC_READ_SEARCH));
    assert_eq!(flags.bits(), unknown | 0b001);

    // A list without unknown bits has none afterwards, and converts back.
    let mut known = <CapsBitFlags as CapsList>::empty();
    assert_eq!(known.bits(), 0);
    known.insert_cap(Capability::CAP_CHECKPOINT_RESTORE);
    known.insert_cap(Capability::CAP_KILL);
    known.remove_cap(&Capability::CAP_KILL);
    assert_eq!(known.bits(), 1 << 40);
    let mut sparse = CapsHashSet::new();
    sparse.insert(Capability::CAP_SETUID);
    let mut dense = CapsBitFlags::from_hashset(&sparse);
    assert_eq!(dense.insert_cap(Capability::CAP_BPF), sparse.insert_cap(Capability::CAP_BPF));
    assert_eq!(CapsHashSet::from_bitflags(&dense).unwrap(), sparse);
    assert_eq!(dense.bits(), (1 << 7) | (1 << 39));
}
