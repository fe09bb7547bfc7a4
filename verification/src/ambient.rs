//! Implementation of Ambient set.
//!
//! A capability is raised in the ambient set, lowered or asked about by
//! a `prctl` of its own; one more empties the whole set. The kernel
//! raises a capability only when it is in both the Permitted and the
//! Inheritable set of the thread: its refusal is handed on as it comes.

use vstd::prelude::*;
use crate::caps::{holds, Capability, CapsBitFlags, CapsList};
use crate::errors::CapsError;
use crate::kernel::{
    calls, extends, lemma_calls_chain, lemma_calls_none, lemma_calls_one, Exchange, Kernel,
    Session,
};
use crate::mask::{lemma_mask_of_empty, lemma_mask_of_insert};
use crate::nr;
use crate::runtime::{is_probe, supported_by, thread_all_supported_caps};

verus! {

/// The name under which a failed `PR_CAP_AMBIENT_CLEAR_ALL` is reported.
pub open spec fn clear_all_call() -> Seq<char> {
    "PR_CAP_AMBIENT_CLEAR_ALL"@
}

/// The name under which a failed `PR_CAP_AMBIENT_LOWER` is reported.
pub open spec fn lower_call() -> Seq<char> {
    "PR_CAP_AMBIENT_LOWER"@
}

/// The name under which a failed `PR_CAP_AMBIENT_IS_SET` is reported.
pub open spec fn is_set_call() -> Seq<char> {
    "PR_CAP_AMBIENT_IS_SET"@
}

/// The name under which a failed `PR_CAP_AMBIENT_RAISE` is reported.
pub open spec fn raise_call() -> Seq<char> {
    "PR_CAP_AMBIENT_RAISE"@
}

/// `exchange` is the ambient-set `prctl` with subcommand `command` for
/// the capability with index `index` (0 where the subcommand takes
/// none).
pub open spec fn is_call(exchange: Exchange, command: u64, index: u8) -> bool {
    exchange.is_prctl(nr::PR_CAP_AMBIENT, command, index as u64)
}

/// What [`clear`] does: one `PR_CAP_AMBIENT_CLEAR_ALL`; the kernel's 0 is
/// success, anything else is its error.
pub open spec fn clear_run(made: Seq<Exchange>, result: Result<(), CapsError>) -> bool {
    &&& made.len() == 1
    &&& is_call(made[0], nr::PR_CAP_AMBIENT_CLEAR_ALL, 0)
    &&& made[0].ret().gives(clear_all_call(), result)
}

/// What [`drop`] does: one `PR_CAP_AMBIENT_LOWER` for `cap`; the kernel's
/// 0 is success, anything else is its error.
pub open spec fn drop_run(
    made: Seq<Exchange>,
    cap: Capability,
    result: Result<(), CapsError>,
) -> bool {
    &&& made.len() == 1
    &&& is_call(made[0], nr::PR_CAP_AMBIENT_LOWER, cap.spec_index())
    &&& made[0].ret().gives(lower_call(), result)
}

/// What [`has_cap`] does: one `PR_CAP_AMBIENT_IS_SET` for `cap`; the
/// kernel's 0 is `false`, its 1 is `true`, anything else is its error.
pub open spec fn has_cap_run(
    made: Seq<Exchange>,
    cap: Capability,
    result: Result<bool, CapsError>,
) -> bool {
    &&& made.len() == 1
    &&& is_call(made[0], nr::PR_CAP_AMBIENT_IS_SET, cap.spec_index())
    &&& made[0].ret().gives_flag(is_set_call(), result)
}

/// What [`raise`] does: one `PR_CAP_AMBIENT_RAISE` for `cap`; the
/// kernel's 0 is success, anything else is its error.
pub open spec fn raise_run(
    made: Seq<Exchange>,
    cap: Capability,
    result: Result<(), CapsError>,
) -> bool {
    &&& made.len() == 1
    &&& is_call(made[0], nr::PR_CAP_AMBIENT_RAISE, cap.spec_index())
    &&& made[0].ret().gives(raise_call(), result)
}

/// One ambient-set `prctl`, recorded.
fn ambient_prctl<K: Kernel>(
    session: &mut Session<K>,
    command: u64,
    index: u8,
) -> (ret: crate::kernel::SysReturn)
    ensures
        extends(old(session).trace(), final(session).trace()),
        calls(old(session).trace(), final(session).trace()).len() == 1,
        is_call(calls(old(session).trace(), final(session).trace())[0], command, index),
        calls(old(session).trace(), final(session).trace())[0].ret() == ret,
{
    let ret = session.prctl(nr::PR_CAP_AMBIENT, command, index as u64, 0, 0);
    proof {
        lemma_calls_one(
            old(session).trace(),
            Exchange::Prctl {
                option: nr::PR_CAP_AMBIENT,
                arg2: command,
                arg3: index as u64,
                arg4: 0,
                arg5: 0,
                ret,
            },
        );
    }
    ret
}

/// Empty the ambient set of the calling thread, in one call.
pub fn clear<K: Kernel>(session: &mut Session<K>) -> (result: Result<(), CapsError>)
    ensures
        extends(old(session).trace(), final(session).trace()),
        clear_run(calls(old(session).trace(), final(session).trace()), result),
{
    let ret = ambient_prctl(session, nr::PR_CAP_AMBIENT_CLEAR_ALL, 0);
    ret.done("PR_CAP_AMBIENT_CLEAR_ALL")
}

/// Lower `cap` in the ambient set of the calling thread.
pub fn drop<K: Kernel>(session: &mut Session<K>, cap: Capability) -> (result: Result<(), CapsError>)
    ensures
        extends(old(session).trace(), final(session).trace()),
        drop_run(calls(old(session).trace(), final(session).trace()), cap, result),
{
    let ret = ambient_prctl(session, nr::PR_CAP_AMBIENT_LOWER, cap.index());
    ret.done("PR_CAP_AMBIENT_LOWER")
}

/// Check if the ambient set of the calling thread contains `cap`.
pub fn has_cap<K: Kernel>(
    session: &mut Session<K>,
    cap: Capability,
) -> (result: Result<bool, CapsError>)
    ensures
        extends(old(session).trace(), final(session).trace()),
        has_cap_run(calls(old(session).trace(), final(session).trace()), cap, result),
{
    let ret = ambient_prctl(session, nr::PR_CAP_AMBIENT_IS_SET, cap.index());
    ret.flag("PR_CAP_AMBIENT_IS_SET")
}

/// Raise `cap` in the ambient set of the calling thread.
///
/// The kernel refuses unless `cap` is in the Permitted and in the
/// Inheritable set already; neither is raised here.
pub fn raise<K: Kernel>(
    session: &mut Session<K>,
    cap: Capability,
) -> (result: Result<(), CapsError>)
    ensures
        extends(old(session).trace(), final(session).trace()),
        raise_run(calls(old(session).trace(), final(session).trace()), cap, result),
{
    let ret = ambient_prctl(session, nr::PR_CAP_AMBIENT_RAISE, cap.index());
    ret.done("PR_CAP_AMBIENT_RAISE")
}

/// What [`read`] does after its probe, from the capability with index
/// `from` on, by ascending index, with `found` gathered so far: for each
/// capability in `supported`, one `PR_CAP_AMBIENT_IS_SET`. The kernel's
/// 1 adds the capability to the result, its 0 does not; on anything else
/// nothing more is called and the result is that error. After the last
/// capability the result holds what was found.
pub open spec fn gather_run<T: CapsList>(
    made: Seq<Exchange>,
    supported: Set<Capability>,
    from: u8,
    found: Set<Capability>,
    result: Result<T, CapsError>,
) -> bool
    decreases nr::CAP_COUNT - from,
{
    if from >= nr::CAP_COUNT {
        &&& made.len() == 0
        &&& result matches Ok(list)
        &&& holds(list, found)
    } else {
        let cap = Capability::spec_from_index(from).unwrap();
        if !supported.contains(cap) {
            gather_run(made, supported, (from + 1) as u8, found, result)
        } else {
            &&& made.len() >= 1
            &&& is_call(made[0], nr::PR_CAP_AMBIENT_IS_SET, from)
            &&& if made[0].ret().value == 0 {
                gather_run(made.skip(1), supported, (from + 1) as u8, found, result)
            } else if made[0].ret().value == 1 {
                gather_run(made.skip(1), supported, (from + 1) as u8, found.insert(cap), result)
            } else {
                &&& made.len() == 1
                &&& result matches Err(e)
                &&& e@ == crate::errors::ErrorView::syscall(is_set_call(), made[0].ret().errno)
            }
        }
    }
}

/// What [`read`] does: it probes which capabilities the kernel knows (see
/// [`thread_all_supported_caps`]), then asks about each of those.
pub open spec fn read_run<T: CapsList>(made: Seq<Exchange>, result: Result<T, CapsError>) -> bool {
    &&& made.len() >= nr::CAP_COUNT
    &&& is_probe(made.take(nr::CAP_COUNT as int))
    &&& gather_run(
        made.skip(nr::CAP_COUNT as int),
        supported_by(made.take(nr::CAP_COUNT as int)),
        0,
        Set::empty(),
        result,
    )
}

/// What [`set`] does after its probe, from the capability with index
/// `from` on, by ascending index: for each capability in `supported`,
/// one `PR_CAP_AMBIENT_IS_SET`; then, if it is wanted and not in the
/// set, one `PR_CAP_AMBIENT_RAISE`, and if it is in the set and not
/// wanted, one `PR_CAP_AMBIENT_LOWER`. When the kernel refuses a call,
/// nothing more is called and the result is that error. After the last
/// capability the result is `Ok`.
pub open spec fn adjust_run(
    made: Seq<Exchange>,
    supported: Set<Capability>,
    wanted: Set<Capability>,
    from: u8,
    result: Result<(), CapsError>,
) -> bool
    decreases nr::CAP_COUNT - from,
{
    if from >= nr::CAP_COUNT {
        &&& made.len() == 0
        &&& result is Ok
    } else {
        let cap = Capability::spec_from_index(from).unwrap();
        if !supported.contains(cap) {
            adjust_run(made, supported, wanted, (from + 1) as u8, result)
        } else {
            &&& made.len() >= 1
            &&& is_call(made[0], nr::PR_CAP_AMBIENT_IS_SET, from)
            &&& if made[0].ret().value != 0 && made[0].ret().value != 1 {
                &&& made.len() == 1
                &&& result matches Err(e)
                &&& e@ == crate::errors::ErrorView::syscall(is_set_call(), made[0].ret().errno)
            } else if wanted.contains(cap) == (made[0].ret().value == 1) {
                adjust_run(made.skip(1), supported, wanted, (from + 1) as u8, result)
            } else {
                &&& made.len() >= 2
                &&& if wanted.contains(cap) {
                    is_call(made[1], nr::PR_CAP_AMBIENT_RAISE, from)
                } else {
                    is_call(made[1], nr::PR_CAP_AMBIENT_LOWER, from)
                }
                &&& if made[1].ret().spec_is_ok() {
                    adjust_run(made.skip(2), supported, wanted, (from + 1) as u8, result)
                } else {
                    &&& made.len() == 2
                    &&& made[1].ret().gives(
                        if wanted.contains(cap) {
                            raise_call()
                        } else {
                            lower_call()
                        },
                        result,
                    )
                }
            }
        }
    }
}

/// What [`set`] does: it probes which capabilities the kernel knows (see
/// [`thread_all_supported_caps`]), then brings each of those to where
/// `wanted` has it.
pub open spec fn set_run(
    made: Seq<Exchange>,
    wanted: Set<Capability>,
    result: Result<(), CapsError>,
) -> bool {
    &&& made.len() >= nr::CAP_COUNT
    &&& is_probe(made.take(nr::CAP_COUNT as int))
    &&& adjust_run(
        made.skip(nr::CAP_COUNT as int),
        supported_by(made.take(nr::CAP_COUNT as int)),
        wanted,
        0,
        result,
    )
}

/// [`gather_run`] under another name, by which the loop of [`read`]
/// speaks of the calls still to come.
spec fn gather_resumes<T: CapsList>(
    rest: Seq<Exchange>,
    supported: Set<Capability>,
    from: u8,
    found: Set<Capability>,
    end: Result<T, CapsError>,
) -> bool {
    gather_run(rest, supported, from, found, end)
}

/// The queries made for capabilities below `index`, which found `found`,
/// followed by any run from `index` on, are a run from the first
/// capability on.
spec fn gather_on_course<T: CapsList>(
    made: Seq<Exchange>,
    supported: Set<Capability>,
    index: u8,
    found: Set<Capability>,
) -> bool {
    forall|rest: Seq<Exchange>, end: Result<T, CapsError>| #[trigger]
        gather_resumes(rest, supported, index, found, end) ==> gather_run(
            made + rest,
            supported,
            0,
            Set::empty(),
            end,
        )
}

/// Before the first query the loop is on course.
proof fn lemma_gather_start<T: CapsList>(supported: Set<Capability>)
    ensures
        gather_on_course::<T>(Seq::empty(), supported, 0, Set::empty()),
{
    assert forall|rest: Seq<Exchange>, end: Result<T, CapsError>| #[trigger]
        gather_resumes(rest, supported, 0, Set::empty(), end) implies gather_run(
        Seq::<Exchange>::empty() + rest,
        supported,
        0,
        Set::empty(),
        end,
    ) by {
        assert(Seq::<Exchange>::empty() + rest =~= rest);
    }
}

/// One capability further: the kernel does not know it and nothing was
/// asked, or it was asked about and the kernel said yes or no.
proof fn lemma_gather_step<T: CapsList>(
    made: Seq<Exchange>,
    step: Seq<Exchange>,
    supported: Set<Capability>,
    index: u8,
    found: Set<Capability>,
    next: Set<Capability>,
)
    requires
        index < nr::CAP_COUNT,
        gather_on_course::<T>(made, supported, index, found),
        ({
            let cap = Capability::spec_from_index(index).unwrap();
            if !supported.contains(cap) {
                step.len() == 0 && next == found
            } else {
                &&& step.len() == 1
                &&& is_call(step[0], nr::PR_CAP_AMBIENT_IS_SET, index)
                &&& if step[0].ret().value == 0 {
                    next == found
                } else {
                    step[0].ret().value == 1 && next == found.insert(cap)
                }
            }
        }),
    ensures
        gather_on_course::<T>(made + step, supported, (index + 1) as u8, next),
{
    assert forall|rest: Seq<Exchange>, end: Result<T, CapsError>| #[trigger]
        gather_resumes(rest, supported, (index + 1) as u8, next, end) implies gather_run(
        made + step + rest,
        supported,
        0,
        Set::empty(),
        end,
    ) by {
        let tail = step + rest;
        assert(tail.skip(step.len() as int) =~= rest);
        if step.len() == 1 {
            assert(tail[0] == step[0]);
        } else {
            assert(tail =~= rest);
        }
        assert(gather_run(tail, supported, index, found, end));
        assert(gather_resumes(tail, supported, index, found, end));
        assert(made + step + rest =~= made + tail);
    }
}

/// The kernel refused a query: the calls so far are a whole run, with
/// that error as its result.
proof fn lemma_gather_refused<T: CapsList>(
    made: Seq<Exchange>,
    step: Seq<Exchange>,
    supported: Set<Capability>,
    index: u8,
    found: Set<Capability>,
    end: Result<T, CapsError>,
)
    requires
        index < nr::CAP_COUNT,
        gather_on_course::<T>(made, supported, index, found),
        supported.contains(Capability::spec_from_index(index).unwrap()),
        step.len() == 1,
        is_call(step[0], nr::PR_CAP_AMBIENT_IS_SET, index),
        step[0].ret().value != 0,
        step[0].ret().value != 1,
        end matches Err(e) && e@ == crate::errors::ErrorView::syscall(
            is_set_call(),
            step[0].ret().errno,
        ),
    ensures
        gather_run(made + step, supported, 0, Set::empty(), end),
{
    assert(gather_run(step, supported, index, found, end));
    assert(gather_resumes(step, supported, index, found, end));
}

/// After the last capability the calls so far are a whole run.
proof fn lemma_gather_end<T: CapsList>(
    made: Seq<Exchange>,
    supported: Set<Capability>,
    found: Set<Capability>,
    end: Result<T, CapsError>,
)
    requires
        gather_on_course::<T>(made, supported, nr::CAP_COUNT, found),
        end matches Ok(list) && holds(list, found),
    ensures
        gather_run(made, supported, 0, Set::empty(), end),
{
    assert(gather_run(Seq::<Exchange>::empty(), supported, nr::CAP_COUNT, found, end));
    assert(gather_resumes(Seq::<Exchange>::empty(), supported, nr::CAP_COUNT, found, end));
    assert(made + Seq::<Exchange>::empty() =~= made);
}

/// The probe and the calls after it make up the whole of what was called.
proof fn lemma_probe_then(start: Seq<Exchange>, probed: Seq<Exchange>, end: Seq<Exchange>)
    requires
        extends(start, probed),
        extends(probed, end),
        calls(start, probed).len() == nr::CAP_COUNT,
    ensures
        extends(start, end),
        calls(start, end).len() >= nr::CAP_COUNT,
        calls(start, end).take(nr::CAP_COUNT as int) == calls(start, probed),
        calls(start, end).skip(nr::CAP_COUNT as int) == calls(probed, end),
{
    lemma_calls_chain(start, probed, end);
    let all = calls(start, end);
    assert(all.take(nr::CAP_COUNT as int) =~= calls(start, probed));
    assert(all.skip(nr::CAP_COUNT as int) =~= calls(probed, end));
}

/// Return the ambient set of the calling thread, asked for capability by
/// capability among those that the running kernel knows.
///
/// When the kernel refuses a query, the result is that error and nothing
/// more is asked.
pub fn read<K: Kernel, T: CapsList>(session: &mut Session<K>) -> (result: Result<T, CapsError>)
    ensures
        extends(old(session).trace(), final(session).trace()),
        read_run(calls(old(session).trace(), final(session).trace()), result),
{
    let supported: CapsBitFlags = thread_all_supported_caps(session);
    let ghost probed = session.trace();
    let ghost known = supported@;
    let mut list = T::empty();
    let mut index: u8 = 0;
    proof {
        lemma_calls_none(probed);
        lemma_gather_start::<T>(known);
        lemma_mask_of_empty(nr::CAP_COUNT);
    }
    while index < nr::CAP_COUNT
        invariant
            index <= nr::CAP_COUNT,
            known == supported@,
            extends(old(session).trace(), probed),
            is_probe(calls(old(session).trace(), probed)),
            known == supported_by(calls(old(session).trace(), probed)),
            extends(probed, session.trace()),
            holds(list, list@),
            gather_on_course::<T>(calls(probed, session.trace()), known, index, list@),
        decreases nr::CAP_COUNT - index,
    {
        let ghost before = session.trace();
        let ghost made = calls(probed, before);
        let ghost found = list@;
        let cap = Capability::from_index(index).unwrap();
        if supported.contains_cap(&cap) {
            let present = has_cap(session, cap);
            let ghost step = calls(before, session.trace());
            proof {
                lemma_calls_chain(probed, before, session.trace());
            }
            match present {
                Ok(true) => {
                    list.insert_cap(cap);
                    proof {
                        lemma_mask_of_insert(found, cap);
                        lemma_gather_step::<T>(made, step, known, index, found, list@);
                    }
                },
                Ok(false) => {
                    proof {
                        lemma_gather_step::<T>(made, step, known, index, found, list@);
                    }
                },
                Err(e) => {
                    proof {
                        lemma_gather_refused::<T>(
                            made,
                            step,
                            known,
                            index,
                            found,
                            Err(e),
                        );
                        lemma_probe_then(old(session).trace(), probed, session.trace());
                    }
                    return Err(e);
                },
            }
        } else {
            proof {
                lemma_gather_step::<T>(made, Seq::empty(), known, index, found, list@);
                assert(made + Seq::<Exchange>::empty() =~= made);
            }
        }
        index += 1;
    }
    let result = Ok(list);
    proof {
        lemma_gather_end::<T>(calls(probed, session.trace()), known, list@, result);
        lemma_probe_then(old(session).trace(), probed, session.trace());
    }
    result
}

/// [`adjust_run`] under another name, by which the loop of [`set`] speaks
/// of the calls still to come.
spec fn adjust_resumes(
    rest: Seq<Exchange>,
    supported: Set<Capability>,
    wanted: Set<Capability>,
    from: u8,
    end: Result<(), CapsError>,
) -> bool {
    adjust_run(rest, supported, wanted, from, end)
}

/// The calls made for capabilities below `index`, followed by any run
/// from `index` on, are a run from the first capability on.
spec fn adjust_on_course(
    made: Seq<Exchange>,
    supported: Set<Capability>,
    wanted: Set<Capability>,
    index: u8,
) -> bool {
    forall|rest: Seq<Exchange>, end: Result<(), CapsError>| #[trigger]
        adjust_resumes(rest, supported, wanted, index, end) ==> adjust_run(
            made + rest,
            supported,
            wanted,
            0,
            end,
        )
}

/// Before the first call the loop is on course.
proof fn lemma_adjust_start(supported: Set<Capability>, wanted: Set<Capability>)
    ensures
        adjust_on_course(Seq::empty(), supported, wanted, 0),
{
    assert forall|rest: Seq<Exchange>, end: Result<(), CapsError>| #[trigger]
        adjust_resumes(rest, supported, wanted, 0, end) implies adjust_run(
        Seq::<Exchange>::empty() + rest,
        supported,
        wanted,
        0,
        end,
    ) by {
        assert(Seq::<Exchange>::empty() + rest =~= rest);
    }
}

/// One capability further: the kernel does not know it and nothing was
/// called; or it was asked about and is where it is wanted; or it was
/// not and the kernel raised or lowered it.
proof fn lemma_adjust_step(
    made: Seq<Exchange>,
    step: Seq<Exchange>,
    supported: Set<Capability>,
    wanted: Set<Capability>,
    index: u8,
)
    requires
        index < nr::CAP_COUNT,
        adjust_on_course(made, supported, wanted, index),
        ({
            let cap = Capability::spec_from_index(index).unwrap();
            if !supported.contains(cap) {
                step.len() == 0
            } else {
                &&& step.len() >= 1
                &&& is_call(step[0], nr::PR_CAP_AMBIENT_IS_SET, index)
                &&& step[0].ret().value == 0 || step[0].ret().value == 1
                &&& if wanted.contains(cap) == (step[0].ret().value == 1) {
                    step.len() == 1
                } else {
                    &&& step.len() == 2
                    &&& is_call(
                        step[1],
                        if wanted.contains(cap) {
                            nr::PR_CAP_AMBIENT_RAISE
                        } else {
                            nr::PR_CAP_AMBIENT_LOWER
                        },
                        index,
                    )
                    &&& step[1].ret().spec_is_ok()
                }
            }
        }),
    ensures
        adjust_on_course(made + step, supported, wanted, (index + 1) as u8),
{
    assert forall|rest: Seq<Exchange>, end: Result<(), CapsError>| #[trigger]
        adjust_resumes(rest, supported, wanted, (index + 1) as u8, end) implies adjust_run(
        made + step + rest,
        supported,
        wanted,
        0,
        end,
    ) by {
        let tail = step + rest;
        assert(tail.skip(step.len() as int) =~= rest);
        if step.len() >= 1 {
            assert(tail[0] == step[0]);
        } else {
            assert(tail =~= rest);
        }
        if step.len() == 2 {
            assert(tail[1] == step[1]);
        }
        assert(adjust_run(tail, supported, wanted, index, end));
        assert(adjust_resumes(tail, supported, wanted, index, end));
        assert(made + step + rest =~= made + tail);
    }
}

/// The kernel refused a call: the calls so far are a whole run, with
/// that error as its result.
proof fn lemma_adjust_refused(
    made: Seq<Exchange>,
    step: Seq<Exchange>,
    supported: Set<Capability>,
    wanted: Set<Capability>,
    index: u8,
    end: Result<(), CapsError>,
)
    requires
        index < nr::CAP_COUNT,
        adjust_on_course(made, supported, wanted, index),
        adjust_run(step, supported, wanted, index, end),
    ensures
        adjust_run(made + step, supported, wanted, 0, end),
{
    assert(adjust_resumes(step, supported, wanted, index, end));
}

/// After the last capability the calls so far are a whole run.
proof fn lemma_adjust_end(
    made: Seq<Exchange>,
    supported: Set<Capability>,
    wanted: Set<Capability>,
    end: Result<(), CapsError>,
)
    requires
        adjust_on_course(made, supported, wanted, nr::CAP_COUNT),
        end is Ok,
    ensures
        adjust_run(made, supported, wanted, 0, end),
{
    assert(adjust_run(Seq::<Exchange>::empty(), supported, wanted, nr::CAP_COUNT, end));
    assert(adjust_resumes(Seq::<Exchange>::empty(), supported, wanted, nr::CAP_COUNT, end));
    assert(made + Seq::<Exchange>::empty() =~= made);
}

/// Set the ambient set of the calling thread to all and only the
/// capabilities in `value`, among those that the running kernel knows.
///
/// The capabilities are raised and lowered one by one. When the kernel
/// refuses a call, the result is that error and nothing more is tried:
/// what was changed before stays changed, and a caller finds out what
/// the set holds by reading it.
pub fn set<K: Kernel, T: CapsList>(
    session: &mut Session<K>,
    value: &T,
) -> (result: Result<(), CapsError>)
    ensures
        extends(old(session).trace(), final(session).trace()),
        set_run(calls(old(session).trace(), final(session).trace()), value@, result),
{
    let supported: CapsBitFlags = thread_all_supported_caps(session);
    let ghost probed = session.trace();
    let ghost known = supported@;
    let ghost wanted = value@;
    let mut index: u8 = 0;
    proof {
        lemma_calls_none(probed);
        lemma_adjust_start(known, wanted);
    }
    while index < nr::CAP_COUNT
        invariant
            index <= nr::CAP_COUNT,
            known == supported@,
            wanted == value@,
            extends(old(session).trace(), probed),
            is_probe(calls(old(session).trace(), probed)),
            known == supported_by(calls(old(session).trace(), probed)),
            extends(probed, session.trace()),
            adjust_on_course(calls(probed, session.trace()), known, wanted, index),
        decreases nr::CAP_COUNT - index,
    {
        let ghost before = session.trace();
        let ghost made = calls(probed, before);
        let cap = Capability::from_index(index).unwrap();
        if supported.contains_cap(&cap) {
            let present = has_cap(session, cap);
            let ghost asked = session.trace();
            let ghost query = calls(before, asked);
            proof {
                lemma_calls_chain(probed, before, asked);
            }
            let present = match present {
                Ok(present) => present,
                Err(e) => {
                    proof {
                        lemma_adjust_refused(made, query, known, wanted, index, Err(e));
                        lemma_probe_then(old(session).trace(), probed, session.trace());
                    }
                    return Err(e);
                },
            };
            let wants = value.contains_cap(&cap);
            if wants != present {
                let changed = if wants {
                    raise(session, cap)
                } else {
                    drop(session, cap)
                };
                let ghost step = query + calls(asked, session.trace());
                proof {
                    lemma_calls_chain(probed, asked, session.trace());
                    assert(calls(probed, session.trace()) =~= made + step);
                }
                match changed {
                    Ok(()) => {
                        proof {
                            lemma_adjust_step(made, step, known, wanted, index);
                        }
                    },
                    Err(e) => {
                        proof {
                            lemma_adjust_refused(
                                made,
                                step,
                                known,
                                wanted,
                                index,
                                Err(e),
                            );
                            lemma_probe_then(
                                old(session).trace(),
                                probed,
                                session.trace(),
                            );
                        }
                        return Err(e);
                    },
                }
            } else {
                proof {
                    lemma_adjust_step(made, query, known, wanted, index);
                }
            }
        } else {
            proof {
                lemma_adjust_step(made, Seq::empty(), known, wanted, index);
                assert(made + Seq::<Exchange>::empty() =~= made);
            }
        }
        index += 1;
    }
    proof {
        lemma_adjust_end(calls(probed, session.trace()), known, wanted, Ok(()));
        lemma_probe_then(old(session).trace(), probed, session.trace());
    }
    Ok(())
}

} // verus!
