//! Implementation of POSIX sets.
//!
//! The kernel hands the Effective, Permitted and Inheritable sets of a
//! thread out and takes them back in one structure, each set as two
//! 32-bit words. A set is changed by reading the structure, replacing
//! the two words of that set and writing the structure back.

use vstd::prelude::*;
use crate::caps::{from_mask, holds, to_mask, Capability, CapsList};
use crate::errors::{CapsError, ErrorView};
use crate::kernel::{
    calls, extends, lemma_calls_chain, lemma_calls_none, lemma_calls_one, CapUserData,
    CapUserHeader, Exchange, Kernel, Session,
};
use crate::mask::{caps_of_mask, has_bit, lemma_mask_of_empty, mask_of_caps};
use crate::nr;
use crate::CapSet;

verus! {

/// The 64-bit mask whose low half is `low` and whose high half is `high`.
pub open spec fn join_words(high: u32, low: u32) -> u64 {
    ((high as u64) << 32) | (low as u64)
}

/// The low half of `mask`: bits 0 to 31.
pub open spec fn low_word(mask: u64) -> u32 {
    (mask & 0xffff_ffff) as u32
}

/// The high half of `mask`: bits 32 to 63, moved down.
pub open spec fn high_word(mask: u64) -> u32 {
    (mask >> 32) as u32
}

impl CapUserData {
    /// The structure with all three sets empty.
    pub open spec fn spec_zeroed() -> CapUserData {
        CapUserData {
            effective_s0: 0,
            permitted_s0: 0,
            inheritable_s0: 0,
            effective_s1: 0,
            permitted_s1: 0,
            inheritable_s1: 0,
        }
    }

    /// The mask of set `cset`, put together from its two words. The
    /// structure holds the three POSIX sets only.
    pub open spec fn spec_mask(&self, cset: CapSet) -> Option<u64> {
        match cset {
            CapSet::Effective => Some(join_words(self.effective_s1, self.effective_s0)),
            CapSet::Inheritable => Some(join_words(self.inheritable_s1, self.inheritable_s0)),
            CapSet::Permitted => Some(join_words(self.permitted_s1, self.permitted_s0)),
            CapSet::Bounding | CapSet::Ambient => None,
        }
    }

    /// The structure with the two words of set `cset` replaced by the
    /// halves of `mask`, and the other sets as they were. The one
    /// exception: emptying Permitted empties Effective too, since the
    /// kernel keeps Effective within Permitted.
    pub open spec fn spec_with_mask(&self, cset: CapSet, mask: u64) -> CapUserData {
        match cset {
            CapSet::Effective => CapUserData {
                effective_s0: low_word(mask),
                effective_s1: high_word(mask),
                ..*self
            },
            CapSet::Inheritable => CapUserData {
                inheritable_s0: low_word(mask),
                inheritable_s1: high_word(mask),
                ..*self
            },
            CapSet::Permitted => if mask == 0 {
                CapUserData {
                    effective_s0: 0,
                    effective_s1: 0,
                    permitted_s0: 0,
                    permitted_s1: 0,
                    ..*self
                }
            } else {
                CapUserData {
                    permitted_s0: low_word(mask),
                    permitted_s1: high_word(mask),
                    ..*self
                }
            },
            CapSet::Bounding | CapSet::Ambient => *self,
        }
    }

    /// The structure with all three sets empty.
    #[verifier::when_used_as_spec(spec_zeroed)]
    pub fn zeroed() -> (data: CapUserData)
        ensures
            data == Self::spec_zeroed(),
    {
        CapUserData {
            effective_s0: 0,
            permitted_s0: 0,
            inheritable_s0: 0,
            effective_s1: 0,
            permitted_s1: 0,
            inheritable_s1: 0,
        }
    }

    /// The mask of set `cset`: the high word shifted left by 32, and the
    /// low word. `None` for Bounding and Ambient, which the structure
    /// does not hold.
    #[verifier::when_used_as_spec(spec_mask)]
    pub fn mask(&self, cset: CapSet) -> (mask: Option<u64>)
        ensures
            mask == self.spec_mask(cset),
            mask is Some <==> cset.spec_is_base(),
    {
        match cset {
            CapSet::Effective => Some(join(self.effective_s1, self.effective_s0)),
            CapSet::Inheritable => Some(join(self.inheritable_s1, self.inheritable_s0)),
            CapSet::Permitted => Some(join(self.permitted_s1, self.permitted_s0)),
            CapSet::Bounding | CapSet::Ambient => None,
        }
    }

    /// Replace set `cset` by `mask`, split into its low and high word.
    /// Emptying Permitted empties Effective too. For Bounding and
    /// Ambient nothing changes.
    #[verifier::when_used_as_spec(spec_with_mask)]
    pub fn with_mask(&self, cset: CapSet, mask: u64) -> (data: CapUserData)
        ensures
            data == self.spec_with_mask(cset, mask),
    {
        let (high, low) = split(mask);
        let mut data = *self;
        match cset {
            CapSet::Effective => {
                data.effective_s0 = low;
                data.effective_s1 = high;
            },
            CapSet::Inheritable => {
                data.inheritable_s0 = low;
                data.inheritable_s1 = high;
            },
            CapSet::Permitted => {
                if mask == 0 {
                    data.effective_s0 = 0;
                    data.effective_s1 = 0;
                    data.permitted_s0 = 0;
                    data.permitted_s1 = 0;
                } else {
                    data.permitted_s0 = low;
                    data.permitted_s1 = high;
                }
            },
            CapSet::Bounding | CapSet::Ambient => {},
        }
        data
    }
}

/// Put a mask together from its two words.
pub fn join(high: u32, low: u32) -> (mask: u64)
    ensures
        mask == join_words(high, low),
{
    ((high as u64) << 32) | (low as u64)
}

/// Split a mask into its high and its low word.
pub fn split(mask: u64) -> (words: (u32, u32))
    ensures
        words.0 == high_word(mask),
        words.1 == low_word(mask),
        join_words(words.0, words.1) == mask,
{
    assert(mask & 0xffff_ffff <= 0xffff_ffff) by (bit_vector);
    assert(mask >> 32 <= 0xffff_ffff) by (bit_vector);
    proof {
        lemma_split_join(mask);
    }
    ((mask >> 32) as u32, (mask & 0xffff_ffff) as u32)
}

/// A mask is the join of its two halves: no bit is lost or moved by the
/// split, bit 31, bit 32 and bit 63 included.
pub proof fn lemma_split_join(mask: u64)
    ensures
        join_words(high_word(mask), low_word(mask)) == mask,
{
    assert((((mask >> 32) as u32 as u64) << 32) | ((mask & 0xffff_ffff) as u32 as u64) == mask)
        by (bit_vector);
}

/// The two words are the halves of their join.
pub proof fn lemma_join_split(high: u32, low: u32)
    ensures
        high_word(join_words(high, low)) == high,
        low_word(join_words(high, low)) == low,
{
    assert(((((high as u64) << 32) | (low as u64)) >> 32) as u32 == high) by (bit_vector);
    assert(((((high as u64) << 32) | (low as u64)) & 0xffff_ffff) as u32 == low) by (bit_vector);
}

/// A mask written into a set is the mask read from it, whatever bits it
/// has: the two words hold bits 0 to 31 and bits 32 to 63, bit 63 too.
pub proof fn lemma_mask_written_is_read(data: CapUserData, cset: CapSet, mask: u64)
    requires
        cset.spec_is_base(),
    ensures
        data.spec_with_mask(cset, mask).spec_mask(cset) == Some(mask),
{
    lemma_split_join(mask);
    assert(join_words(0, 0) == 0) by (bit_vector);
}

/// Writing a set and then reading it gives exactly what was written, for
/// each of the three POSIX sets and every set of capabilities. The other
/// two sets are as before, except that an empty Permitted set leaves
/// Effective empty.
pub proof fn lemma_write_then_read(data: CapUserData, cset: CapSet, value: Set<Capability>)
    requires
        cset.spec_is_base(),
    ensures
        ({
            let written = data.spec_with_mask(cset, mask_of_caps(value));
            let emptied = cset is Permitted && value == Set::<Capability>::empty();
            &&& caps_of_mask(written.spec_mask(cset).unwrap()) == value
            &&& cset !is Inheritable ==> written.spec_mask(CapSet::Inheritable) == data.spec_mask(
                CapSet::Inheritable,
            )
            &&& cset !is Permitted ==> written.spec_mask(CapSet::Permitted) == data.spec_mask(
                CapSet::Permitted,
            )
            &&& cset !is Effective && !emptied ==> written.spec_mask(CapSet::Effective)
                == data.spec_mask(CapSet::Effective)
            &&& emptied ==> written.spec_mask(CapSet::Effective) == Some(0u64)
        }),
{
    let mask = mask_of_caps(value);
    lemma_mask_written_is_read(data, cset, mask);
    crate::mask::lemma_caps_of_mask_of_caps(value);
    assert(join_words(0, 0) == 0) by (bit_vector);
    if value == Set::<Capability>::empty() {
        lemma_mask_of_empty(nr::CAP_COUNT);
    }
    if mask == 0 {
        crate::mask::lemma_caps_of_zero();
    }
}

/// Clearing a set that was just cleared changes nothing, and a cleared
/// set reads as empty: so after the first clearing as after the second.
pub proof fn lemma_clear_twice(data: CapUserData, cset: CapSet)
    requires
        cset.spec_is_base(),
    ensures
        ({
            let once = data.spec_with_mask(cset, 0);
            &&& once.spec_with_mask(cset, 0) == once
            &&& caps_of_mask(once.spec_mask(cset).unwrap()) == Set::<Capability>::empty()
        }),
{
    lemma_mask_written_is_read(data, cset, 0);
    crate::mask::lemma_caps_of_zero();
    assert((0u64 & 0xffff_ffff) as u32 == 0 && (0u64 >> 32) as u32 == 0) by (bit_vector);
}

/// What [`has_cap`] does: for a POSIX set, one `capget` on thread `tid`,
/// and the answer is the bit of `cap` in the mask of `cset`, or the
/// kernel's error. For Bounding and Ambient no call is made.
pub open spec fn has_cap_run(
    made: Seq<Exchange>,
    tid: i32,
    cset: CapSet,
    cap: Capability,
    result: Result<bool, CapsError>,
) -> bool {
    if !cset.spec_is_base() {
        &&& made.len() == 0
        &&& result matches Err(e)
        &&& e@ == ErrorView::unsupported()
    } else {
        &&& made.len() == 1
        &&& made[0] matches Exchange::Capget { header, ret, data }
        &&& header == CapUserHeader::spec_new(tid)
        &&& if ret.spec_is_ok() {
            result == Ok::<bool, CapsError>(
                has_bit(data.spec_mask(cset).unwrap(), cap.spec_index()),
            )
        } else {
            &&& result matches Err(e)
            &&& e@ == ErrorView::syscall("capget"@, ret.errno)
        }
    }
}

/// What [`read`] does: for a POSIX set, one `capget` on thread `tid`, and
/// the answer holds the known capabilities whose bit is set in the mask
/// of `cset` and has no other bit, or is the kernel's error. For Bounding and Ambient no call
/// is made.
pub open spec fn read_run<T: CapsList>(
    made: Seq<Exchange>,
    tid: i32,
    cset: CapSet,
    result: Result<T, CapsError>,
) -> bool {
    if !cset.spec_is_base() {
        &&& made.len() == 0
        &&& result matches Err(e)
        &&& e@ == ErrorView::unsupported()
    } else {
        &&& made.len() == 1
        &&& made[0] matches Exchange::Capget { header, ret, data }
        &&& header == CapUserHeader::spec_new(tid)
        &&& if ret.spec_is_ok() {
            &&& result matches Ok(list)
            &&& holds(list, caps_of_mask(data.spec_mask(cset).unwrap()))
        } else {
            &&& result matches Err(e)
            &&& e@ == ErrorView::syscall("capget"@, ret.errno)
        }
    }
}

/// What [`set`] does: for a POSIX set, one `capget` on thread `tid`; if
/// that succeeds, one `capset` that hands back what was read with the
/// words of `cset` replaced by the mask of `value`; the result is `Ok`
/// when both calls succeed and the error of the call that did not
/// otherwise. For Bounding and Ambient no call is made.
pub open spec fn set_run(
    made: Seq<Exchange>,
    tid: i32,
    cset: CapSet,
    value: Set<Capability>,
    result: Result<(), CapsError>,
) -> bool {
    if !cset.spec_is_base() {
        &&& made.len() == 0
        &&& result matches Err(e)
        &&& e@ == ErrorView::unsupported()
    } else {
        &&& made.len() >= 1
        &&& made[0] matches Exchange::Capget { header, ret, data }
        &&& header == CapUserHeader::spec_new(tid)
        &&& if !ret.spec_is_ok() {
            &&& made.len() == 1
            &&& result matches Err(e)
            &&& e@ == ErrorView::syscall("capget"@, ret.errno)
        } else {
            &&& made.len() == 2
            &&& made[1] matches Exchange::Capset { header: target, data: written, ret: done }
            &&& target == CapUserHeader::spec_new(tid)
            &&& written == data.spec_with_mask(cset, mask_of_caps(value))
            &&& if done.spec_is_ok() {
                result is Ok
            } else {
                &&& result matches Err(e)
                &&& e@ == ErrorView::syscall("capset"@, done.errno)
            }
        }
    }
}

/// What [`raise`] (`add`) and [`drop`] (not `add`) do: the set is read;
/// if `cap` is already in it (out of it), nothing more happens; else the
/// set with `cap` added (removed) is written as [`set`] writes it.
pub open spec fn change_run(
    made: Seq<Exchange>,
    tid: i32,
    cset: CapSet,
    cap: Capability,
    add: bool,
    result: Result<(), CapsError>,
) -> bool {
    if !cset.spec_is_base() {
        &&& made.len() == 0
        &&& result matches Err(e)
        &&& e@ == ErrorView::unsupported()
    } else {
        &&& made.len() >= 1
        &&& made[0] matches Exchange::Capget { header, ret, data }
        &&& header == CapUserHeader::spec_new(tid)
        &&& if !ret.spec_is_ok() {
            &&& made.len() == 1
            &&& result matches Err(e)
            &&& e@ == ErrorView::syscall("capget"@, ret.errno)
        } else {
            let current = caps_of_mask(data.spec_mask(cset).unwrap());
            if current.contains(cap) == add {
                &&& made.len() == 1
                &&& result is Ok
            } else {
                set_run(
                    made.skip(1),
                    tid,
                    cset,
                    if add {
                        current.insert(cap)
                    } else {
                        current.remove(cap)
                    },
                    result,
                )
            }
        }
    }
}

/// Writing a set and then reading it yields exactly what was written:
/// when [`set`] succeeded and the kernel then hands out the sets as it
/// was handed them, [`read`] gives the capabilities of `value`.
pub proof fn lemma_set_then_read<T: CapsList>(
    written: Seq<Exchange>,
    read_back: Seq<Exchange>,
    tid: i32,
    cset: CapSet,
    value: Set<Capability>,
    set_result: Result<(), CapsError>,
    read_result: Result<T, CapsError>,
)
    requires
        cset.spec_is_base(),
        set_run(written, tid, cset, value, set_result),
        set_result is Ok,
        read_run(read_back, tid, cset, read_result),
        read_back[0].ret().spec_is_ok(),
        read_back[0].data() == written[1].data(),
    ensures
        read_result matches Ok(list) && holds(list, value),
{
    lemma_write_then_read(written[0].data(), cset, value);
}

/// Clearing twice: when the first [`clear`] succeeded and the kernel
/// hands out the sets as it was handed them, the second writes them
/// back unchanged, fails only if the kernel refuses a call, and the set
/// reads as empty after the first as after the second.
pub proof fn lemma_clear_then_clear(
    first: Seq<Exchange>,
    second: Seq<Exchange>,
    tid: i32,
    cset: CapSet,
    first_result: Result<(), CapsError>,
    second_result: Result<(), CapsError>,
)
    requires
        cset.spec_is_base(),
        set_run(first, tid, cset, Set::<Capability>::empty(), first_result),
        first_result is Ok,
        set_run(second, tid, cset, Set::<Capability>::empty(), second_result),
        second[0].ret().spec_is_ok(),
        second[0].data() == first[1].data(),
    ensures
        second.len() == 2,
        second[1].data() == first[1].data(),
        caps_of_mask(first[1].data().spec_mask(cset).unwrap()) == Set::<Capability>::empty(),
        second[1].ret().spec_is_ok() ==> second_result is Ok,
{
    lemma_mask_of_empty(nr::CAP_COUNT);
    lemma_clear_twice(first[0].data(), cset);
}

/// Check if thread `tid` has capability `cap` in POSIX set `cset`.
pub fn has_cap<K: Kernel>(
    session: &mut Session<K>,
    tid: i32,
    cset: CapSet,
    cap: Capability,
) -> (result: Result<bool, CapsError>)
    ensures
        extends(old(session).trace(), final(session).trace()),
        has_cap_run(calls(old(session).trace(), final(session).trace()), tid, cset, cap, result),
{
    if !cset.is_base() {
        proof {
            lemma_calls_none(session.trace());
        }
        return Err(CapsError::unsupported());
    }
    let header = CapUserHeader::new(tid);
    let (ret, data) = session.capget(&header);
    proof {
        lemma_calls_one(old(session).trace(), Exchange::Capget { header, ret, data });
    }
    if !ret.is_ok() {
        return Err(CapsError::syscall("capget", ret.errno));
    }
    let mask = data.mask(cset).unwrap();
    Ok(mask & cap.bitmask() != 0)
}

/// Clear POSIX set `cset` of thread `tid`. Clearing Permitted clears
/// Effective with it.
pub fn clear<K: Kernel>(
    session: &mut Session<K>,
    tid: i32,
    cset: CapSet,
) -> (result: Result<(), CapsError>)
    ensures
        extends(old(session).trace(), final(session).trace()),
        set_run(
            calls(old(session).trace(), final(session).trace()),
            tid,
            cset,
            Set::<Capability>::empty(),
            result,
        ),
{
    proof {
        lemma_mask_of_empty(nr::CAP_COUNT);
    }
    write_mask(session, tid, cset, 0, Ghost(Set::empty()))
}

/// Return the capabilities in POSIX set `cset` of thread `tid`. A bit
/// that stands for no capability known to this library is passed over.
pub fn read<K: Kernel, T: CapsList>(
    session: &mut Session<K>,
    tid: i32,
    cset: CapSet,
) -> (result: Result<T, CapsError>)
    ensures
        extends(old(session).trace(), final(session).trace()),
        read_run(calls(old(session).trace(), final(session).trace()), tid, cset, result),
{
    if !cset.is_base() {
        proof {
            lemma_calls_none(session.trace());
        }
        return Err(CapsError::unsupported());
    }
    let header = CapUserHeader::new(tid);
    let (ret, data) = session.capget(&header);
    proof {
        lemma_calls_one(old(session).trace(), Exchange::Capget { header, ret, data });
    }
    if !ret.is_ok() {
        return Err(CapsError::syscall("capget", ret.errno));
    }
    let mask = data.mask(cset).unwrap();
    Ok(from_mask(mask))
}

/// Set POSIX set `cset` of thread `tid` to all and only the capabilities
/// in `value`. The other two sets stay as the kernel reported them, but
/// that writing an empty Permitted set empties Effective too.
pub fn set<K: Kernel, T: CapsList>(
    session: &mut Session<K>,
    tid: i32,
    cset: CapSet,
    value: &T,
) -> (result: Result<(), CapsError>)
    ensures
        extends(old(session).trace(), final(session).trace()),
        set_run(calls(old(session).trace(), final(session).trace()), tid, cset, value@, result),
{
    let mask = to_mask(value);
    write_mask(session, tid, cset, mask, Ghost(value@))
}

/// Read the sets of thread `tid`, replace `cset` by `mask` and write
/// them back.
fn write_mask<K: Kernel>(
    session: &mut Session<K>,
    tid: i32,
    cset: CapSet,
    mask: u64,
    Ghost(value): Ghost<Set<Capability>>,
) -> (result: Result<(), CapsError>)
    requires
        mask == mask_of_caps(value),
    ensures
        extends(old(session).trace(), final(session).trace()),
        set_run(calls(old(session).trace(), final(session).trace()), tid, cset, value, result),
{
    if !cset.is_base() {
        proof {
            lemma_calls_none(session.trace());
        }
        return Err(CapsError::unsupported());
    }
    let header = CapUserHeader::new(tid);
    let (ret, data) = session.capget(&header);
    let ghost got = Exchange::Capget { header, ret, data };
    proof {
        lemma_calls_one(old(session).trace(), got);
    }
    if !ret.is_ok() {
        return Err(CapsError::syscall("capget", ret.errno));
    }
    let written = data.with_mask(cset, mask);
    let done = session.capset(&header, &written);
    proof {
        let put = Exchange::Capset { header, data: written, ret: done };
        let mid = old(session).trace().push(got);
        lemma_calls_one(mid, put);
        lemma_calls_chain(old(session).trace(), mid, session.trace());
        assert(calls(old(session).trace(), session.trace()) =~= seq![got, put]);
    }
    if !done.is_ok() {
        return Err(CapsError::syscall("capset", done.errno));
    }
    Ok(())
}

/// Drop capability `cap` from POSIX set `cset` of thread `tid`. Nothing
/// is written when the set does not hold it.
pub fn drop<K: Kernel>(
    session: &mut Session<K>,
    tid: i32,
    cset: CapSet,
    cap: Capability,
) -> (result: Result<(), CapsError>)
    ensures
        extends(old(session).trace(), final(session).trace()),
        change_run(
            calls(old(session).trace(), final(session).trace()),
            tid,
            cset,
            cap,
            false,
            result,
        ),
{
    change(session, tid, cset, cap, false)
}

/// Raise capability `cap` in POSIX set `cset` of thread `tid`. Nothing
/// is written when the set holds it already.
pub fn raise<K: Kernel>(
    session: &mut Session<K>,
    tid: i32,
    cset: CapSet,
    cap: Capability,
) -> (result: Result<(), CapsError>)
    ensures
        extends(old(session).trace(), final(session).trace()),
        change_run(
            calls(old(session).trace(), final(session).trace()),
            tid,
            cset,
            cap,
            true,
            result,
        ),
{
    change(session, tid, cset, cap, true)
}

/// Read the set, add or remove `cap`, and write the set back if that
/// changed it.
fn change<K: Kernel>(
    session: &mut Session<K>,
    tid: i32,
    cset: CapSet,
    cap: Capability,
    add: bool,
) -> (result: Result<(), CapsError>)
    ensures
        extends(old(session).trace(), final(session).trace()),
        change_run(
            calls(old(session).trace(), final(session).trace()),
            tid,
            cset,
            cap,
            add,
            result,
        ),
{
    let read_result: Result<crate::caps::CapsBitFlags, CapsError> = read(session, tid, cset);
    let ghost mid = session.trace();
    let mut caps = match read_result {
        Ok(caps) => caps,
        Err(e) => {
            return Err(e);
        },
    };
    let changed = if add {
        caps.insert_cap(cap)
    } else {
        caps.remove_cap(&cap)
    };
    if changed {
        let result = set(session, tid, cset, &caps);
        proof {
            lemma_calls_chain(old(session).trace(), mid, session.trace());
            let all = calls(old(session).trace(), session.trace());
            assert(all.skip(1) =~= calls(mid, session.trace()));
        }
        result
    } else {
        Ok(())
    }
}

} // verus!
