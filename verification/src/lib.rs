//! A library to work with Linux capabilities.
//!
//! It covers the traditional POSIX sets (Effective, Inheritable, Permitted)
//! as well as the Linux-specific Ambient and Bounding sets.
//!
//! The library decides which system calls to make and what their replies
//! mean; the calls themselves are made by a [`Kernel`] that the caller
//! brings, through a [`Session`]:
//!
//! ```ignore
//! fn manipulate_caps<K: Kernel>(kernel: K) -> Result<(), CapsError> {
//!     let mut session = Session::new(kernel);
//!     if caps::has_cap(&mut session, None, CapSet::Permitted, Capability::CAP_SYS_NICE)? {
//!         caps::drop(&mut session, None, CapSet::Effective, Capability::CAP_SYS_NICE)?;
//!         let effective = caps::read(&mut session, None, CapSet::Effective)?;
//!         assert_eq!(effective.contains(&Capability::CAP_SYS_NICE), false);
//!
//!         caps::clear(&mut session, None, CapSet::Effective)?;
//!         let cleared = caps::read(&mut session, None, CapSet::Effective)?;
//!         assert_eq!(cleared.is_empty(), true);
//!     };
//!     Ok(())
//! }
//! ```
//!
//! Every operation states, over the session's record of calls, exactly
//! which calls it makes, with which arguments and in which order, and how
//! its result follows from what the kernel returned. Operations of
//! several calls are not atomic: when the kernel refuses a call partway,
//! the calls made before it stand.

use vstd::prelude::*;

pub mod errors;
pub mod kernel;
pub mod mask;
pub mod nr;
pub mod runtime;
pub mod securebits;

// Implementation of Ambient set.
pub mod ambient;
// Implementation of Bounding set.
pub mod bounding;
// Implementation of POSIX sets.
pub mod base;
// Enum and structs defining capabilities and sets
pub mod caps;

pub use crate::caps::{Capability, CapsBitFlags, CapsBitFlagsIterator, CapsHashSet, CapsList};
pub use crate::errors::CapsError;
pub use crate::kernel::{Kernel, Session};

use crate::caps::{from_mask, holds};
use crate::errors::ErrorView;
use crate::kernel::{calls, extends, lemma_calls_none, Exchange};
use crate::mask::KNOWN_BITS;

verus! {

/// Linux capabilities sets.
///
/// All capabilities sets supported by Linux, including standard
/// POSIX and custom ones. See `capabilities(7)`.
#[derive(PartialEq, Eq, Structural, Debug, Clone, Copy)]
pub enum CapSet {
    /// Ambient capabilities set (from Linux 4.3).
    Ambient,
    /// Bounding capabilities set (from Linux 2.6.25)
    Bounding,
    /// Effective capabilities set (from POSIX)
    Effective,
    /// Inheritable capabilities set (from POSIX)
    Inheritable,
    /// Permitted capabilities set (from POSIX)
    Permitted,
}

impl CapSet {
    /// Whether this is one of the three POSIX sets, which `capget(2)` and
    /// `capset(2)` carry.
    pub open spec fn spec_is_base(&self) -> bool {
        *self is Effective || *self is Inheritable || *self is Permitted
    }

    /// Whether this is one of the three POSIX sets, which `capget(2)` and
    /// `capset(2)` carry.
    #[verifier::when_used_as_spec(spec_is_base)]
    pub fn is_base(&self) -> (base: bool)
        ensures
            base == self.spec_is_base(),
    {
        match *self {
            CapSet::Effective | CapSet::Inheritable | CapSet::Permitted => true,
            CapSet::Ambient | CapSet::Bounding => false,
        }
    }
}

/// The thread that `tid` names: 0, the calling thread, for `None`.
pub open spec fn thread_of(tid: Option<i32>) -> i32 {
    match tid {
        Some(t) => t,
        None => 0,
    }
}

/// No call was made, and the result is the error for an operation that
/// the set and thread do not have.
pub open spec fn refused<T>(made: Seq<Exchange>, result: Result<T, CapsError>) -> bool {
    &&& made.len() == 0
    &&& result matches Err(e)
    &&& e@ == ErrorView::unsupported()
}

/// Check if a thread contains a capability in a set.
///
/// Check if set `cset` for thread `tid` contains capability `cap`.
/// If `tid` is `None`, this operates on current thread (tid=0).
/// It cannot check Ambient or Bounding capabilities of other processes.
pub fn has_cap<K: Kernel>(
    session: &mut Session<K>,
    tid: Option<i32>,
    cset: CapSet,
    cap: Capability,
) -> (result: Result<bool, CapsError>)
    ensures
        extends(old(session).trace(), final(session).trace()),
        ({
            let made = calls(old(session).trace(), final(session).trace());
            let t = thread_of(tid);
            match cset {
                CapSet::Ambient => if t == 0 {
                    ambient::has_cap_run(made, cap, result)
                } else {
                    refused(made, result)
                },
                CapSet::Bounding => if t == 0 {
                    bounding::has_cap_run(made, cap, result)
                } else {
                    refused(made, result)
                },
                _ => base::has_cap_run(made, t, cset, cap, result),
            }
        }),
{
    let t = tid.unwrap_or(0);
    match cset {
        CapSet::Ambient if t == 0 => ambient::has_cap(session, cap),
        CapSet::Bounding if t == 0 => bounding::has_cap(session, cap),
        CapSet::Effective | CapSet::Inheritable | CapSet::Permitted => base::has_cap(
            session,
            t,
            cset,
            cap,
        ),
        _ => {
            proof {
                lemma_calls_none(session.trace());
            }
            Err(CapsError::unsupported())
        },
    }
}

/// Return all capabilities in a set for a thread.
///
/// Return current content of set `cset` for thread `tid`.
/// If `tid` is `None`, this operates on current thread (tid=0).
/// It cannot read Ambient or Bounding capabilities of other processes.
pub fn read_caps<K: Kernel, T: CapsList>(
    session: &mut Session<K>,
    tid: Option<i32>,
    cset: CapSet,
) -> (result: Result<T, CapsError>)
    ensures
        extends(old(session).trace(), final(session).trace()),
        ({
            let made = calls(old(session).trace(), final(session).trace());
            let t = thread_of(tid);
            match cset {
                CapSet::Ambient => if t == 0 {
                    ambient::read_run(made, result)
                } else {
                    refused(made, result)
                },
                CapSet::Bounding => if t == 0 {
                    bounding::read_run(made, 0, Set::empty(), result)
                } else {
                    refused(made, result)
                },
                _ => base::read_run(made, t, cset, result),
            }
        }),
{
    let t = tid.unwrap_or(0);
    match cset {
        CapSet::Ambient if t == 0 => ambient::read(session),
        CapSet::Bounding if t == 0 => bounding::read(session),
        CapSet::Effective | CapSet::Inheritable | CapSet::Permitted => base::read(session, t, cset),
        _ => {
            proof {
                lemma_calls_none(session.trace());
            }
            Err(CapsError::unsupported())
        },
    }
}

/// Return all capabilities in a set for a thread, as a hash set.
///
/// This is [`read_caps`] for [`CapsHashSet`], kept for callers that
/// wrote it so; new code calls [`read_caps`].
pub fn read<K: Kernel>(
    session: &mut Session<K>,
    tid: Option<i32>,
    cset: CapSet,
) -> (result: Result<CapsHashSet, CapsError>)
    ensures
        extends(old(session).trace(), final(session).trace()),
        ({
            let made = calls(old(session).trace(), final(session).trace());
            let t = thread_of(tid);
            match cset {
                CapSet::Ambient => if t == 0 {
                    ambient::read_run(made, result)
                } else {
                    refused(made, result)
                },
                CapSet::Bounding => if t == 0 {
                    bounding::read_run(made, 0, Set::empty(), result)
                } else {
                    refused(made, result)
                },
                _ => base::read_run(made, t, cset, result),
            }
        }),
{
    read_caps(session, tid, cset)
}

/// Set a capability set for a thread to a new value.
///
/// All and only capabilities in `value` will be set for set `cset` for thread `tid`.
/// If `tid` is `None`, this operates on current thread (tid=0).
/// It cannot manipulate Ambient set of other processes.
/// Capabilities cannot be set in Bounding set.
pub fn set_caps<K: Kernel, T: CapsList>(
    session: &mut Session<K>,
    tid: Option<i32>,
    cset: CapSet,
    value: &T,
) -> (result: Result<(), CapsError>)
    ensures
        extends(old(session).trace(), final(session).trace()),
        ({
            let made = calls(old(session).trace(), final(session).trace());
            let t = thread_of(tid);
            match cset {
                CapSet::Ambient => if t == 0 {
                    ambient::set_run(made, value@, result)
                } else {
                    refused(made, result)
                },
                CapSet::Bounding => refused(made, result),
                _ => base::set_run(made, t, cset, value@, result),
            }
        }),
{
    let t = tid.unwrap_or(0);
    match cset {
        CapSet::Ambient if t == 0 => ambient::set(session, value),
        CapSet::Effective | CapSet::Inheritable | CapSet::Permitted => base::set(
            session,
            t,
            cset,
            value,
        ),
        _ => {
            proof {
                lemma_calls_none(session.trace());
            }
            Err(CapsError::unsupported())
        },
    }
}

/// Set a capability set for a thread to a new value, given as a hash set.
///
/// This is [`set_caps`] for [`CapsHashSet`], kept for callers that wrote
/// it so; new code calls [`set_caps`].
pub fn set<K: Kernel>(
    session: &mut Session<K>,
    tid: Option<i32>,
    cset: CapSet,
    value: &CapsHashSet,
) -> (result: Result<(), CapsError>)
    ensures
        extends(old(session).trace(), final(session).trace()),
        ({
            let made = calls(old(session).trace(), final(session).trace());
            let t = thread_of(tid);
            match cset {
                CapSet::Ambient => if t == 0 {
                    ambient::set_run(made, value@, result)
                } else {
                    refused(made, result)
                },
                CapSet::Bounding => refused(made, result),
                _ => base::set_run(made, t, cset, value@, result),
            }
        }),
{
    set_caps(session, tid, cset, value)
}

/// Clear all capabilities in a set for a thread.
///
/// All capabilities will be cleared from set `cset` for thread `tid`.
/// If `tid` is `None`, this operates on current thread (tid=0).
/// It cannot manipulate Ambient or Bounding set of other processes.
pub fn clear<K: Kernel>(
    session: &mut Session<K>,
    tid: Option<i32>,
    cset: CapSet,
) -> (result: Result<(), CapsError>)
    ensures
        extends(old(session).trace(), final(session).trace()),
        ({
            let made = calls(old(session).trace(), final(session).trace());
            let t = thread_of(tid);
            match cset {
                CapSet::Ambient => if t == 0 {
                    ambient::clear_run(made, result)
                } else {
                    refused(made, result)
                },
                CapSet::Bounding => if t == 0 {
                    bounding::clear_run(made, 0, result)
                } else {
                    refused(made, result)
                },
                _ => base::set_run(made, t, cset, Set::<Capability>::empty(), result),
            }
        }),
{
    let t = tid.unwrap_or(0);
    match cset {
        CapSet::Ambient if t == 0 => ambient::clear(session),
        CapSet::Bounding if t == 0 => bounding::clear(session),
        CapSet::Effective | CapSet::Permitted | CapSet::Inheritable => base::clear(
            session,
            t,
            cset,
        ),
        _ => {
            proof {
                lemma_calls_none(session.trace());
            }
            Err(CapsError::unsupported())
        },
    }
}

/// Raise a single capability in a set for a thread.
///
/// Capabilities `cap` will be raised from set `cset` of thread `tid`.
/// If `tid` is `None`, this operates on current thread (tid=0).
/// It cannot manipulate Ambient set of other processes.
/// Capabilities cannot be raised in Bounding set.
pub fn raise<K: Kernel>(
    session: &mut Session<K>,
    tid: Option<i32>,
    cset: CapSet,
    cap: Capability,
) -> (result: Result<(), CapsError>)
    ensures
        extends(old(session).trace(), final(session).trace()),
        ({
            let made = calls(old(session).trace(), final(session).trace());
            let t = thread_of(tid);
            match cset {
                CapSet::Ambient => if t == 0 {
                    ambient::raise_run(made, cap, result)
                } else {
                    refused(made, result)
                },
                CapSet::Bounding => refused(made, result),
                _ => base::change_run(made, t, cset, cap, true, result),
            }
        }),
{
    let t = tid.unwrap_or(0);
    match cset {
        CapSet::Ambient if t == 0 => ambient::raise(session, cap),
        CapSet::Effective | CapSet::Permitted | CapSet::Inheritable => base::raise(
            session,
            t,
            cset,
            cap,
        ),
        _ => {
            proof {
                lemma_calls_none(session.trace());
            }
            Err(CapsError::unsupported())
        },
    }
}

/// Drop a single capability from a set for a thread.
///
/// Capabilities `cap` will be dropped from set `cset` of thread `tid`.
/// If `tid` is `None`, this operates on current thread (tid=0).
/// It cannot manipulate Ambient and Bounding sets of other processes.
pub fn drop<K: Kernel>(
    session: &mut Session<K>,
    tid: Option<i32>,
    cset: CapSet,
    cap: Capability,
) -> (result: Result<(), CapsError>)
    ensures
        extends(old(session).trace(), final(session).trace()),
        ({
            let made = calls(old(session).trace(), final(session).trace());
            let t = thread_of(tid);
            match cset {
                CapSet::Ambient => if t == 0 {
                    ambient::drop_run(made, cap, result)
                } else {
                    refused(made, result)
                },
                CapSet::Bounding => if t == 0 {
                    bounding::drop_run(made, cap, result)
                } else {
                    refused(made, result)
                },
                _ => base::change_run(made, t, cset, cap, false, result),
            }
        }),
{
    let t = tid.unwrap_or(0);
    match cset {
        CapSet::Ambient if t == 0 => ambient::drop(session, cap),
        CapSet::Bounding if t == 0 => bounding::drop(session, cap),
        CapSet::Effective | CapSet::Permitted | CapSet::Inheritable => base::drop(
            session,
            t,
            cset,
            cap,
        ),
        _ => {
            proof {
                lemma_calls_none(session.trace());
            }
            Err(CapsError::unsupported())
        },
    }
}

/// Return the set of all capabilities supported by this library.
pub fn all_caps<T: CapsList>() -> (list: T)
    ensures
        holds(list, Set::<Capability>::full()),
        list.mask() == KNOWN_BITS,
        list@.finite(),
        list@.len() == nr::CAP_COUNT,
{
    proof {
        crate::caps::lemma_known_count();
        crate::mask::lemma_mask_of_full();
        assert(0x1ff_ffff_ffffu64 & 0x1ff_ffff_ffffu64 == 0x1ff_ffff_ffffu64) by (bit_vector);
    }
    from_mask(KNOWN_BITS)
}

/// Return the set of all capabilities supported by this library, as a
/// hash set.
///
/// This is [`all_caps`] for [`CapsHashSet`], kept for callers that wrote
/// it so; new code calls [`all_caps`].
pub fn all() -> (set: CapsHashSet)
    ensures
        holds(set, Set::<Capability>::full()),
        set@.finite(),
        set@.len() == nr::CAP_COUNT,
{
    all_caps()
}

/// `text` in upper case, as `str::to_uppercase` of the standard library
/// gives it.
pub uninterp spec fn uppercase(text: Seq<char>) -> Seq<char>;

/// `text` starts with `CAP_`.
pub open spec fn has_cap_prefix(text: Seq<char>) -> bool {
    &&& text.len() >= 4
    &&& text[0] == 'C'
    &&& text[1] == 'A'
    &&& text[2] == 'P'
    &&& text[3] == '_'
}

/// `text` with `CAP_` in front, unless it starts with that already.
pub open spec fn prefixed(text: Seq<char>) -> Seq<char> {
    if has_cap_prefix(text) {
        text
    } else {
        seq!['C', 'A', 'P', '_'] + text
    }
}

/// Calls `str::to_uppercase` of the standard library, which maps each
/// character to its upper case as Unicode defines it. The contract gives
/// the result the name [`uppercase`] and claims nothing else of it.
#[verifier::external_body]
fn to_uppercase(name: &str) -> (upper: String)
    ensures
        upper@ == uppercase(name@),
{
    name.to_uppercase()
}

/// Put `CAP_` in front of `name`, unless it starts with that already.
pub fn ensure_prefix(name: String) -> (canonical: String)
    ensures
        canonical@ == prefixed(name@),
{
    let text = name.as_str();
    let starts = text.unicode_len() >= 4 && text.get_char(0) == 'C' && text.get_char(1) == 'A'
        && text.get_char(2) == 'P' && text.get_char(3) == '_';
    if starts {
        name
    } else {
        let mut canonical = String::from_str("CAP_");
        proof {
            reveal_strlit("CAP_");
            assert("CAP_"@ =~= seq!['C', 'A', 'P', '_']);
        }
        canonical.append(text);
        canonical
    }
}

/// Convert an informal capability name into a canonical form.
///
/// This converts the input string to uppercase and ensures that it starts with
/// `CAP_`, prepending it if necessary. It performs no validity checks so the
/// output may not represent an actual capability. To check if it is, pass it
/// to [`Capability::from_str`].
pub fn to_canonical(name: &str) -> (canonical: String)
    ensures
        canonical@ == prefixed(uppercase(name@)),
{
    ensure_prefix(to_uppercase(name))
}

} // verus!
