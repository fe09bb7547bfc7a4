//! Implementation of Bounding set.
//!
//! The kernel has no call that reads or writes the bounding set as a
//! whole: each capability is asked about, or dropped, by a `prctl` of
//! its own, and what was dropped cannot be raised again. An operation
//! on the whole set is a run of such calls, and it ends at the first
//! call that the kernel refuses.

use vstd::prelude::*;
use crate::caps::{holds, Capability, CapsList};
use crate::errors::{CapsError, ErrorView};
use crate::kernel::{
    calls, extends, lemma_calls_chain, lemma_calls_none, lemma_calls_one, Exchange, Kernel,
    Session,
};
use crate::mask::{lemma_mask_of_empty, lemma_mask_of_insert};
use crate::nr;

verus! {

/// The name under which a failed `PR_CAPBSET_READ` is reported.
pub open spec fn read_call() -> Seq<char> {
    "PR_CAPBSET_READ"@
}

/// The name under which a failed `PR_CAPBSET_DROP` is reported.
pub open spec fn drop_call() -> Seq<char> {
    "PR_CAPBSET_DROP"@
}

/// `exchange` asks whether the capability with index `index` is in the
/// bounding set.
pub open spec fn is_query(exchange: Exchange, index: u8) -> bool {
    exchange.is_prctl(nr::PR_CAPBSET_READ, index as u64, 0)
}

/// `exchange` drops the capability with index `index` from the bounding
/// set.
pub open spec fn is_drop(exchange: Exchange, index: u8) -> bool {
    exchange.is_prctl(nr::PR_CAPBSET_DROP, index as u64, 0)
}

/// What [`has_cap`] does: one `PR_CAPBSET_READ` for `cap`; the kernel's
/// 0 is `false`, its 1 is `true`, anything else is its error.
pub open spec fn has_cap_run(
    made: Seq<Exchange>,
    cap: Capability,
    result: Result<bool, CapsError>,
) -> bool {
    &&& made.len() == 1
    &&& is_query(made[0], cap.spec_index())
    &&& made[0].ret().gives_flag(read_call(), result)
}

/// What [`drop`] does: one `PR_CAPBSET_DROP` for `cap`; the kernel's 0 is
/// success, anything else is its error.
pub open spec fn drop_run(
    made: Seq<Exchange>,
    cap: Capability,
    result: Result<(), CapsError>,
) -> bool {
    &&& made.len() == 1
    &&& is_drop(made[0], cap.spec_index())
    &&& made[0].ret().gives(drop_call(), result)
}

/// What [`read`] does from the capability with index `from` on, by
/// ascending index, with `found` gathered so far: one `PR_CAPBSET_READ`
/// for each capability known to this library. The kernel's 1 adds the
/// capability to the result, its 0 does not; on anything else nothing
/// more is called and the result is that error. After the last
/// capability the result holds what was found.
pub open spec fn read_run<T: CapsList>(
    made: Seq<Exchange>,
    from: u8,
    found: Set<Capability>,
    result: Result<T, CapsError>,
) -> bool
    decreases nr::CAP_COUNT - from,
{
    if from >= nr::CAP_COUNT {
        &&& made.len() == 0
        &&& result matches Ok(list)
        &&& holds(list, found)
    } else {
        &&& made.len() >= 1
        &&& is_query(made[0], from)
        &&& if made[0].ret().value == 0 {
            read_run(made.skip(1), (from + 1) as u8, found, result)
        } else if made[0].ret().value == 1 {
            read_run(
                made.skip(1),
                (from + 1) as u8,
                found.insert(Capability::spec_from_index(from).unwrap()),
                result,
            )
        } else {
            &&& made.len() == 1
            &&& result matches Err(e)
            &&& e@ == ErrorView::syscall(read_call(), made[0].ret().errno)
        }
    }
}

/// What [`clear`] does from the capability with index `from` on, by
/// ascending index: one `PR_CAPBSET_READ`; if the kernel returned 1, one
/// `PR_CAPBSET_DROP`; if it returned 0, nothing. When the kernel refuses
/// the query or the drop, nothing more is called and the result is that
/// error. After the last capability the result is `Ok`.
pub open spec fn clear_run(made: Seq<Exchange>, from: u8, result: Result<(), CapsError>) -> bool
    decreases nr::CAP_COUNT - from,
{
    if from >= nr::CAP_COUNT {
        &&& made.len() == 0
        &&& result is Ok
    } else {
        &&& made.len() >= 1
        &&& is_query(made[0], from)
        &&& if made[0].ret().value == 0 {
            clear_run(made.skip(1), (from + 1) as u8, result)
        } else if made[0].ret().value == 1 {
            &&& made.len() >= 2
            &&& is_drop(made[1], from)
            &&& if made[1].ret().spec_is_ok() {
                clear_run(made.skip(2), (from + 1) as u8, result)
            } else {
                &&& made.len() == 2
                &&& made[1].ret().gives(drop_call(), result)
            }
        } else {
            &&& made.len() == 1
            &&& result matches Err(e)
            &&& e@ == ErrorView::syscall(read_call(), made[0].ret().errno)
        }
    }
}

/// The capability that `exchange` took out of the bounding set: that of
/// a `PR_CAPBSET_DROP` which the kernel accepted.
pub open spec fn dropped_by(exchange: Exchange) -> Option<Capability> {
    match exchange {
        Exchange::Prctl { option, arg2, ret, .. } => if option == nr::PR_CAPBSET_DROP
            && ret.spec_is_ok() && arg2 < nr::CAP_COUNT {
            Capability::spec_from_index(arg2 as u8)
        } else {
            None
        },
        _ => None,
    }
}

/// The bounding set of a thread after the calls `made`, when it was
/// `start` before them: every accepted drop took its capability out, and
/// no call put one in, since the kernel has none that does.
pub open spec fn set_after(start: Set<Capability>, made: Seq<Exchange>) -> Set<Capability>
    decreases made.len(),
{
    if made.len() == 0 {
        start
    } else {
        let before = set_after(start, made.drop_last());
        match dropped_by(made.last()) {
            Some(cap) => before.remove(cap),
            None => before,
        }
    }
}

/// The kernel's answers in `made` are those of a thread whose bounding
/// set was `start` before them: each query is answered by 1 when the set
/// holds the capability at that time, and by 0 when it does not.
pub open spec fn answers_for(start: Set<Capability>, made: Seq<Exchange>) -> bool {
    forall|at: int, cap: Capability|
        0 <= at < made.len() && #[trigger] is_query(made[at], cap.spec_index())
            ==> made[at].ret().value == if set_after(start, made.take(at)).contains(cap) {
            1int
        } else {
            0int
        }
}

/// A capability that was dropped is in the set at no later time.
pub proof fn lemma_dropped_is_out(
    start: Set<Capability>,
    made: Seq<Exchange>,
    cap: Capability,
    dropped: int,
    later: int,
)
    requires
        0 <= dropped < later <= made.len(),
        dropped_by(made[dropped]) == Some(cap),
    ensures
        !set_after(start, made.take(later)).contains(cap),
    decreases later,
{
    let upto = made.take(later);
    assert(upto.drop_last() =~= made.take(later - 1));
    assert(upto.last() == made[later - 1]);
    if later - 1 > dropped {
        lemma_dropped_is_out(start, made, cap, dropped, later - 1);
    }
}

/// Dropped is dropped for good: once the kernel has accepted the drop of
/// a capability, every later query about it in the same session is
/// answered by 0 and [`has_cap`] gives `false`, whatever other calls were
/// made in between. This holds of every kernel that answers for the
/// set it keeps.
pub proof fn lemma_dropped_for_good(
    start: Set<Capability>,
    made: Seq<Exchange>,
    cap: Capability,
    dropped: int,
    asked: int,
    result: Result<bool, CapsError>,
)
    requires
        answers_for(start, made),
        0 <= dropped < asked < made.len(),
        dropped_by(made[dropped]) == Some(cap),
        has_cap_run(seq![made[asked]], cap, result),
    ensures
        made[asked].ret().value == 0,
        result == Ok::<bool, CapsError>(false),
{
    lemma_dropped_is_out(start, made, cap, dropped, asked);
    assert(is_query(made[asked], cap.spec_index()));
}

/// An accepted [`drop`] is a drop in the sense of [`dropped_by`].
pub proof fn lemma_drop_run_drops(
    made: Seq<Exchange>,
    cap: Capability,
    result: Result<(), CapsError>,
)
    requires
        drop_run(made, cap, result),
        result is Ok,
    ensures
        dropped_by(made[0]) == Some(cap),
{
    cap.lemma_index_injective(cap);
    assert(made[0].ret().spec_is_ok());
}

/// Check if the bounding set of the calling thread contains `cap`.
pub fn has_cap<K: Kernel>(
    session: &mut Session<K>,
    cap: Capability,
) -> (result: Result<bool, CapsError>)
    ensures
        extends(old(session).trace(), final(session).trace()),
        has_cap_run(calls(old(session).trace(), final(session).trace()), cap, result),
{
    let index = cap.index();
    let ret = session.prctl(nr::PR_CAPBSET_READ, index as u64, 0, 0, 0);
    proof {
        lemma_calls_one(
            old(session).trace(),
            Exchange::Prctl {
                option: nr::PR_CAPBSET_READ,
                arg2: index as u64,
                arg3: 0,
                arg4: 0,
                arg5: 0,
                ret,
            },
        );
    }
    ret.flag("PR_CAPBSET_READ")
}

/// Drop `cap` from the bounding set of the calling thread. The kernel
/// has no call that puts it back.
pub fn drop<K: Kernel>(session: &mut Session<K>, cap: Capability) -> (result: Result<(), CapsError>)
    ensures
        extends(old(session).trace(), final(session).trace()),
        drop_run(calls(old(session).trace(), final(session).trace()), cap, result),
{
    let index = cap.index();
    let ret = session.prctl(nr::PR_CAPBSET_DROP, index as u64, 0, 0, 0);
    proof {
        lemma_calls_one(
            old(session).trace(),
            Exchange::Prctl {
                option: nr::PR_CAPBSET_DROP,
                arg2: index as u64,
                arg3: 0,
                arg4: 0,
                arg5: 0,
                ret,
            },
        );
    }
    ret.done("PR_CAPBSET_DROP")
}

/// [`read_run`] under another name, by which the loop of [`read`] speaks
/// of the calls still to come.
spec fn read_resumes<T: CapsList>(
    rest: Seq<Exchange>,
    from: u8,
    found: Set<Capability>,
    end: Result<T, CapsError>,
) -> bool {
    read_run(rest, from, found, end)
}

/// The queries made for capabilities below `index`, which found `found`,
/// followed by any run from `index` on, are a run from the first
/// capability on.
spec fn read_on_course<T: CapsList>(
    made: Seq<Exchange>,
    index: u8,
    found: Set<Capability>,
) -> bool {
    forall|rest: Seq<Exchange>, end: Result<T, CapsError>| #[trigger]
        read_resumes(rest, index, found, end) ==> read_run(made + rest, 0, Set::empty(), end)
}

/// Before the first query the loop is on course.
proof fn lemma_read_start<T: CapsList>()
    ensures
        read_on_course::<T>(Seq::empty(), 0, Set::empty()),
{
    assert forall|rest: Seq<Exchange>, end: Result<T, CapsError>| #[trigger]
        read_resumes(rest, 0, Set::empty(), end) implies read_run(
        Seq::<Exchange>::empty() + rest,
        0,
        Set::empty(),
        end,
    ) by {
        assert(Seq::<Exchange>::empty() + rest =~= rest);
    }
}

/// One capability further: it was asked about and the kernel said yes
/// or no.
proof fn lemma_read_step<T: CapsList>(
    made: Seq<Exchange>,
    step: Seq<Exchange>,
    index: u8,
    found: Set<Capability>,
    next: Set<Capability>,
)
    requires
        index < nr::CAP_COUNT,
        read_on_course::<T>(made, index, found),
        step.len() == 1,
        is_query(step[0], index),
        if step[0].ret().value == 0 {
            next == found
        } else {
            step[0].ret().value == 1 && next == found.insert(
                Capability::spec_from_index(index).unwrap(),
            )
        },
    ensures
        read_on_course::<T>(made + step, (index + 1) as u8, next),
{
    assert forall|rest: Seq<Exchange>, end: Result<T, CapsError>| #[trigger]
        read_resumes(rest, (index + 1) as u8, next, end) implies read_run(
        made + step + rest,
        0,
        Set::empty(),
        end,
    ) by {
        let tail = step + rest;
        assert(tail.skip(1) =~= rest);
        assert(tail[0] == step[0]);
        assert(read_run(tail, index, found, end));
        assert(read_resumes(tail, index, found, end));
        assert(made + step + rest =~= made + tail);
    }
}

/// The kernel refused a query: the calls so far are a whole run, with
/// that error as its result.
proof fn lemma_read_refused<T: CapsList>(
    made: Seq<Exchange>,
    step: Seq<Exchange>,
    index: u8,
    found: Set<Capability>,
    end: Result<T, CapsError>,
)
    requires
        index < nr::CAP_COUNT,
        read_on_course::<T>(made, index, found),
        step.len() == 1,
        is_query(step[0], index),
        step[0].ret().value != 0,
        step[0].ret().value != 1,
        end matches Err(e) && e@ == ErrorView::syscall(read_call(), step[0].ret().errno),
    ensures
        read_run(made + step, 0, Set::empty(), end),
{
    assert(read_run(step, index, found, end));
    assert(read_resumes(step, index, found, end));
}

/// After the last capability the calls so far are a whole run.
proof fn lemma_read_end<T: CapsList>(
    made: Seq<Exchange>,
    found: Set<Capability>,
    end: Result<T, CapsError>,
)
    requires
        read_on_course::<T>(made, nr::CAP_COUNT, found),
        end matches Ok(list) && holds(list, found),
    ensures
        read_run(made, 0, Set::empty(), end),
{
    assert(read_run(Seq::<Exchange>::empty(), nr::CAP_COUNT, found, end));
    assert(read_resumes(Seq::<Exchange>::empty(), nr::CAP_COUNT, found, end));
    assert(made + Seq::<Exchange>::empty() =~= made);
}

/// Return the bounding set of the calling thread, asked for capability
/// by capability.
///
/// When the kernel refuses a query, the result is that error and nothing
/// more is asked.
pub fn read<K: Kernel, T: CapsList>(session: &mut Session<K>) -> (result: Result<T, CapsError>)
    ensures
        extends(old(session).trace(), final(session).trace()),
        read_run(calls(old(session).trace(), final(session).trace()), 0, Set::empty(), result),
{
    let mut list = T::empty();
    let mut index: u8 = 0;
    proof {
        lemma_calls_none(session.trace());
        lemma_read_start::<T>();
        lemma_mask_of_empty(nr::CAP_COUNT);
    }
    while index < nr::CAP_COUNT
        invariant
            index <= nr::CAP_COUNT,
            extends(old(session).trace(), session.trace()),
            holds(list, list@),
            read_on_course::<T>(calls(old(session).trace(), session.trace()), index, list@),
        decreases nr::CAP_COUNT - index,
    {
        let ghost before = session.trace();
        let ghost made = calls(old(session).trace(), before);
        let ghost found = list@;
        let cap = Capability::from_index(index).unwrap();
        let present = has_cap(session, cap);
        let ghost step = calls(before, session.trace());
        proof {
            lemma_calls_chain(old(session).trace(), before, session.trace());
        }
        match present {
            Ok(true) => {
                list.insert_cap(cap);
                proof {
                    lemma_mask_of_insert(found, cap);
                    lemma_read_step::<T>(made, step, index, found, list@);
                }
            },
            Ok(false) => {
                proof {
                    lemma_read_step::<T>(made, step, index, found, list@);
                }
            },
            Err(e) => {
                proof {
                    lemma_read_refused::<T>(made, step, index, found, Err(e));
                }
                return Err(e);
            },
        }
        index += 1;
    }
    let result = Ok(list);
    proof {
        lemma_read_end::<T>(calls(old(session).trace(), session.trace()), list@, result);
    }
    result
}

/// [`clear_run`] under another name, by which the loop of [`clear`]
/// speaks of the calls still to come.
spec fn resumes(rest: Seq<Exchange>, from: u8, end: Result<(), CapsError>) -> bool {
    clear_run(rest, from, end)
}

/// The calls made for capabilities below `index`, followed by any run
/// from `index` on, are a run from the first capability on.
spec fn on_course(made: Seq<Exchange>, index: u8) -> bool {
    forall|rest: Seq<Exchange>, end: Result<(), CapsError>| #[trigger]
        resumes(rest, index, end) ==> clear_run(made + rest, 0, end)
}

/// Before the first call the loop is on course.
proof fn lemma_clear_start()
    ensures
        on_course(Seq::<Exchange>::empty(), 0),
{
    assert forall|rest: Seq<Exchange>, end: Result<(), CapsError>| #[trigger]
        resumes(rest, 0, end) implies clear_run(Seq::<Exchange>::empty() + rest, 0, end) by {
        assert(Seq::<Exchange>::empty() + rest =~= rest);
    }
}

/// One capability further: it was asked about and was not in the set, or
/// it was and has been dropped.
proof fn lemma_clear_step(made: Seq<Exchange>, step: Seq<Exchange>, index: u8)
    requires
        index < nr::CAP_COUNT,
        on_course(made, index),
        step.len() >= 1,
        is_query(step[0], index),
        if step[0].ret().value == 1 {
            step.len() == 2 && is_drop(step[1], index) && step[1].ret().spec_is_ok()
        } else {
            step[0].ret().value == 0 && step.len() == 1
        },
    ensures
        on_course(made + step, (index + 1) as u8),
{
    assert forall|rest: Seq<Exchange>, end: Result<(), CapsError>| #[trigger]
        resumes(rest, (index + 1) as u8, end) implies clear_run(made + step + rest, 0, end) by {
        let tail = step + rest;
        assert(tail.skip(step.len() as int) =~= rest);
        assert(tail[0] == step[0]);
        if step.len() == 2 {
            assert(tail[1] == step[1]);
        }
        assert(clear_run(tail, index, end));
        assert(resumes(tail, index, end));
        assert(made + step + rest =~= made + tail);
    }
}

/// The kernel refused the query or the drop: the calls so far are a
/// whole run, with that error as its result.
proof fn lemma_clear_refused(
    made: Seq<Exchange>,
    step: Seq<Exchange>,
    index: u8,
    end: Result<(), CapsError>,
)
    requires
        index < nr::CAP_COUNT,
        on_course(made, index),
        step.len() >= 1,
        is_query(step[0], index),
        if step[0].ret().value == 1 {
            &&& step.len() == 2
            &&& is_drop(step[1], index)
            &&& !step[1].ret().spec_is_ok()
            &&& step[1].ret().gives(drop_call(), end)
        } else {
            &&& step[0].ret().value != 0
            &&& step.len() == 1
            &&& end matches Err(e)
            &&& e@ == ErrorView::syscall(read_call(), step[0].ret().errno)
        },
    ensures
        clear_run(made + step, 0, end),
{
    assert(clear_run(step, index, end));
    assert(resumes(step, index, end));
}

/// After the last capability the calls so far are a whole run.
proof fn lemma_clear_end(made: Seq<Exchange>, end: Result<(), CapsError>)
    requires
        on_course(made, nr::CAP_COUNT),
        end is Ok,
    ensures
        clear_run(made, 0, end),
{
    assert(clear_run(Seq::<Exchange>::empty(), nr::CAP_COUNT, end));
    assert(resumes(Seq::<Exchange>::empty(), nr::CAP_COUNT, end));
    assert(made + Seq::<Exchange>::empty() =~= made);
}

/// Drop every capability from the bounding set of the calling thread.
///
/// The capabilities are asked about and dropped one by one. When the
/// kernel refuses a query or a drop, the result is that error and
/// nothing more is tried: those dropped before stay dropped.
pub fn clear<K: Kernel>(session: &mut Session<K>) -> (result: Result<(), CapsError>)
    ensures
        extends(old(session).trace(), final(session).trace()),
        clear_run(calls(old(session).trace(), final(session).trace()), 0, result),
{
    let mut index: u8 = 0;
    proof {
        lemma_calls_none(session.trace());
        lemma_clear_start();
    }
    while index < nr::CAP_COUNT
        invariant
            index <= nr::CAP_COUNT,
            extends(old(session).trace(), session.trace()),
            on_course(calls(old(session).trace(), session.trace()), index),
        decreases nr::CAP_COUNT - index,
    {
        let ghost before = session.trace();
        let ghost made = calls(old(session).trace(), before);
        let cap = Capability::from_index(index).unwrap();
        let present = has_cap(session, cap);
        let ghost asked = session.trace();
        let ghost query = calls(before, asked);
        proof {
            lemma_calls_chain(old(session).trace(), before, asked);
        }
        match present {
            Ok(true) => {
                let dropped = drop(session, cap);
                let ghost step = query + calls(asked, session.trace());
                proof {
                    lemma_calls_chain(old(session).trace(), asked, session.trace());
                    assert(calls(old(session).trace(), session.trace()) =~= made + step);
                }
                match dropped {
                    Ok(()) => {
                        proof {
                            lemma_clear_step(made, step, index);
                        }
                    },
                    Err(e) => {
                        proof {
                            lemma_clear_refused(made, step, index, Err(e));
                        }
                        return Err(e);
                    },
                }
            },
            Ok(false) => {
                proof {
                    lemma_clear_step(made, query, index);
                }
            },
            Err(e) => {
                proof {
                    lemma_clear_refused(made, query, index, Err(e));
                }
                return Err(e);
            },
        }
        index += 1;
    }
    proof {
        lemma_clear_end(calls(old(session).trace(), session.trace()), Ok(()));
    }
    Ok(())
}

} // verus!
