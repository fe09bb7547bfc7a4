//! Manipulate securebits flags
//!
//! This module exposes methods to get and set per-thread securebits
//! flags, which can be used to disable special handling of capabilities
//! for UID 0 (root).

use vstd::prelude::*;
use crate::errors::CapsError;
use crate::kernel::{calls, extends, lemma_calls_one, Exchange, Kernel, Session};
use crate::nr;

verus! {

/// The name under which a failed `PR_GET_KEEPCAPS` is reported.
pub open spec fn get_call() -> Seq<char> {
    "PR_GET_KEEPCAPS"@
}

/// The name under which a failed `PR_SET_KEEPCAPS` is reported.
pub open spec fn set_call() -> Seq<char> {
    "PR_SET_KEEPCAPS"@
}

/// Return whether the current thread's "keep capabilities" flag is set.
///
/// One `PR_GET_KEEPCAPS` is made; the kernel's 0 is `false`, its 1 is
/// `true`, anything else is its error.
pub fn has_keepcaps<K: Kernel>(session: &mut Session<K>) -> (result: Result<bool, CapsError>)
    ensures
        extends(old(session).trace(), final(session).trace()),
        ({
            let made = calls(old(session).trace(), final(session).trace());
            &&& made.len() == 1
            &&& made[0].is_prctl(nr::PR_GET_KEEPCAPS, 0, 0)
            &&& made[0].ret().gives_flag(get_call(), result)
        }),
{
    let ret = session.prctl(nr::PR_GET_KEEPCAPS, 0, 0, 0, 0);
    proof {
        lemma_calls_one(
            old(session).trace(),
            Exchange::Prctl {
                option: nr::PR_GET_KEEPCAPS,
                arg2: 0,
                arg3: 0,
                arg4: 0,
                arg5: 0,
                ret,
            },
        );
    }
    ret.flag("PR_GET_KEEPCAPS")
}

/// Set the value of the current thread's "keep capabilities" flag.
///
/// One `PR_SET_KEEPCAPS` is made, with 1 for `true` and 0 for `false`;
/// the kernel's 0 is success, anything else is its error.
pub fn set_keepcaps<K: Kernel>(
    session: &mut Session<K>,
    keep_caps: bool,
) -> (result: Result<(), CapsError>)
    ensures
        extends(old(session).trace(), final(session).trace()),
        ({
            let made = calls(old(session).trace(), final(session).trace());
            &&& made.len() == 1
            &&& made[0].is_prctl(
                nr::PR_SET_KEEPCAPS,
                if keep_caps {
                    1
                } else {
                    0
                },
                0,
            )
            &&& made[0].ret().gives(set_call(), result)
        }),
{
    let flag: u64 = if keep_caps {
        1
    } else {
        0
    };
    let ret = session.prctl(nr::PR_SET_KEEPCAPS, flag, 0, 0, 0);
    proof {
        lemma_calls_one(
            old(session).trace(),
            Exchange::Prctl {
                option: nr::PR_SET_KEEPCAPS,
                arg2: flag,
                arg3: 0,
                arg4: 0,
                arg5: 0,
                ret,
            },
        );
    }
    ret.done("PR_SET_KEEPCAPS")
}

} // verus!
