//! Detect kernel features at runtime.
//!
//! The kernel that runs may know fewer capabilities than this library,
//! or lack the ambient set. What it knows is found out by asking it.

use vstd::prelude::*;
use crate::caps::{holds, Capability, CapsList};
use crate::errors::{CapsError, ErrorView};
use crate::kernel::{
    calls, extends, lemma_calls_chain, lemma_calls_none, Exchange, Kernel, Session,
};
use crate::mask::{lemma_mask_of_empty, lemma_mask_of_insert};
use crate::nr;

verus! {

/// `probes` asks about each capability known to this library once, by
/// ascending index, whether it is in the bounding set.
pub open spec fn is_probe(probes: Seq<Exchange>) -> bool {
    &&& probes.len() == nr::CAP_COUNT
    &&& forall|index: u8|
        index < nr::CAP_COUNT ==> crate::bounding::is_query(#[trigger] probes[index as int], index)
}

/// The capabilities that the kernel knows, going by its answers to
/// `probes`: those whose query it answered with 0 or 1 and did not
/// refuse.
pub open spec fn supported_by(probes: Seq<Exchange>) -> Set<Capability> {
    Set::new(
        |cap: Capability|
            {
                let value = probes[cap.spec_index() as int].ret().value;
                value == 0 || value == 1
            },
    )
}

/// Check whether the running kernel supports the ambient set: whether
/// it answers a query about `CAP_CHOWN` in that set.
pub fn ambient_set_supported<K: Kernel>(session: &mut Session<K>) -> (result: Result<(), CapsError>)
    ensures
        extends(old(session).trace(), final(session).trace()),
        ({
            let made = calls(old(session).trace(), final(session).trace());
            &&& made.len() == 1
            &&& crate::ambient::is_call(
                made[0],
                nr::PR_CAP_AMBIENT_IS_SET,
                Capability::CAP_CHOWN.spec_index(),
            )
            &&& if made[0].ret().value == 0 || made[0].ret().value == 1 {
                result is Ok
            } else {
                made[0].ret().gives(crate::ambient::is_set_call(), result)
            }
        }),
{
    match crate::ambient::has_cap(session, Capability::CAP_CHOWN) {
        Ok(_) => Ok(()),
        Err(e) => Err(e),
    }
}

/// Return the set of all capabilities supported by the running kernel,
/// found by asking about each capability known to this library in the
/// bounding set of the calling thread.
pub fn thread_all_supported_caps<K: Kernel, T: CapsList>(session: &mut Session<K>) -> (supported: T)
    ensures
        extends(old(session).trace(), final(session).trace()),
        is_probe(calls(old(session).trace(), final(session).trace())),
        holds(supported, supported_by(calls(old(session).trace(), final(session).trace()))),
{
    let mut supported = T::empty();
    let mut index: u8 = 0;
    proof {
        lemma_calls_none(session.trace());
        lemma_mask_of_empty(nr::CAP_COUNT);
    }
    while index < nr::CAP_COUNT
        invariant
            index <= nr::CAP_COUNT,
            extends(old(session).trace(), session.trace()),
            holds(supported, supported@),
            calls(old(session).trace(), session.trace()).len() == index,
            forall|i: u8|
                i < index ==> crate::bounding::is_query(
                    #[trigger] calls(old(session).trace(), session.trace())[i as int],
                    i,
                ),
            forall|cap: Capability|
                supported@.contains(cap) <==> cap.spec_index() < index && supported_by(
                    calls(old(session).trace(), session.trace()),
                ).contains(cap),
        decreases nr::CAP_COUNT - index,
    {
        let ghost before = session.trace();
        let ghost made = calls(old(session).trace(), before);
        let cap = Capability::from_index(index).unwrap();
        let present = crate::bounding::has_cap(session, cap);
        proof {
            lemma_calls_chain(old(session).trace(), before, session.trace());
            let now = calls(old(session).trace(), session.trace());
            assert(now =~= made.push(calls(before, session.trace())[0]));
            assert forall|c: Capability| c.spec_index() < index implies supported_by(
                now,
            ).contains(c) == supported_by(made).contains(c) by {
                assert(now[c.spec_index() as int] == made[c.spec_index() as int]);
            }
        }
        if present.is_ok() {
            proof {
                lemma_mask_of_insert(supported@, cap);
            }
            supported.insert_cap(cap);
        }
        index += 1;
    }
    assert(supported@ =~= supported_by(calls(old(session).trace(), session.trace())));
    supported
}

/// White space that may follow the number in the kernel's text.
pub open spec fn is_space(c: char) -> bool {
    c == ' ' || c == '\n' || c == '\t' || c == '\r'
}

/// `text` without the white space at its end.
pub open spec fn trimmed(text: Seq<char>) -> Seq<char>
    decreases text.len(),
{
    if text.len() > 0 && is_space(text.last()) {
        trimmed(text.drop_last())
    } else {
        text
    }
}

/// The value of the decimal digit `c`.
pub open spec fn digit_value(c: char) -> Option<nat> {
    if c == '0' {
        Some(0)
    } else if c == '1' {
        Some(1)
    } else if c == '2' {
        Some(2)
    } else if c == '3' {
        Some(3)
    } else if c == '4' {
        Some(4)
    } else if c == '5' {
        Some(5)
    } else if c == '6' {
        Some(6)
    } else if c == '7' {
        Some(7)
    } else if c == '8' {
        Some(8)
    } else if c == '9' {
        Some(9)
    } else {
        None
    }
}

/// The number that `digits` writes in decimal, if it is one digit or
/// more and nothing else.
pub open spec fn number(digits: Seq<char>) -> Option<nat>
    decreases digits.len(),
{
    if digits.len() == 0 {
        None
    } else {
        match digit_value(digits.last()) {
            None => None,
            Some(unit) => if digits.len() == 1 {
                Some(unit)
            } else {
                match number(digits.drop_last()) {
                    None => None,
                    Some(tens) => Some(10 * tens + unit),
                }
            },
        }
    }
}

/// The index of the last capability that the kernel knows, as the text
/// of `/proc/sys/kernel/cap_last_cap` gives it: a decimal number of at
/// most 255, with nothing before it and only white space after it.
pub open spec fn last_cap_of(text: Seq<char>) -> Option<u8> {
    match number(trimmed(text)) {
        Some(n) => if n <= 255 {
            Some(n as u8)
        } else {
            None
        },
        None => None,
    }
}

/// The error for a text that holds no index of a capability.
pub open spec fn unreadable() -> ErrorView {
    ErrorView::invalid_input("failed to parse cap_last_cap"@)
}

/// The value of the decimal digit `c`.
fn value_of(c: char) -> (value: Option<u32>)
    ensures
        match value {
            Some(v) => digit_value(c) == Some(v as nat) && v <= 9,
            None => digit_value(c) is None,
        },
{
    if c == '0' {
        Some(0)
    } else if c == '1' {
        Some(1)
    } else if c == '2' {
        Some(2)
    } else if c == '3' {
        Some(3)
    } else if c == '4' {
        Some(4)
    } else if c == '5' {
        Some(5)
    } else if c == '6' {
        Some(6)
    } else if c == '7' {
        Some(7)
    } else if c == '8' {
        Some(8)
    } else if c == '9' {
        Some(9)
    } else {
        None
    }
}

/// Trimming a text that ends in white space trims the text before it.
proof fn lemma_trimmed_prefix(text: Seq<char>, end: int)
    requires
        0 <= end <= text.len(),
        forall|i: int| end <= i < text.len() ==> is_space(text[i]),
    ensures
        trimmed(text) == trimmed(text.take(end)),
    decreases text.len() - end,
{
    if end < text.len() {
        assert(is_space(text.last()));
        let shorter = text.drop_last();
        lemma_trimmed_prefix(shorter, end);
        assert(shorter.take(end) =~= text.take(end));
    } else {
        assert(text.take(end) =~= text);
    }
}

/// Read the index of the last capability that the kernel knows from the
/// text of `/proc/sys/kernel/cap_last_cap`.
pub fn parse_last_cap(text: &str) -> (parsed: Result<u8, CapsError>)
    ensures
        match parsed {
            Ok(last) => last_cap_of(text@) == Some(last),
            Err(e) => last_cap_of(text@) is None && e@ == unreadable(),
        },
{
    let mut end = text.unicode_len();
    while end > 0
        invariant
            end <= text@.len(),
            forall|i: int| end <= i < text@.len() ==> is_space(text@[i]),
        ensures
            end > 0 ==> !is_space(text@[end - 1]),
        decreases end,
    {
        let c = text.get_char(end - 1);
        if c == ' ' || c == '\n' || c == '\t' || c == '\r' {
            end -= 1;
        } else {
            break ;
        }
    }
    let ghost digits = text@.take(end as int);
    proof {
        lemma_trimmed_prefix(text@, end as int);
        if end > 0 {
            assert(digits.last() == text@[end - 1]);
        }
        assert(trimmed(digits) == digits);
    }
    if end == 0 {
        return Err(CapsError::invalid_input("failed to parse cap_last_cap"));
    }
    // `value` is the number read so far, or 256 for any number above 255.
    let mut value: u32 = 0;
    let mut at: usize = 0;
    while at < end
        invariant
            at <= end <= text@.len(),
            digits == text@.take(end as int),
            digits == trimmed(text@),
            value <= 256,
            at > 0 ==> (number(digits.take(at as int)) matches Some(n) && value == if n <= 255 {
                n
            } else {
                256
            }),
        decreases end - at,
    {
        let c = text.get_char(at);
        let ghost read = digits.take(at as int + 1);
        proof {
            assert(read.last() == c);
            assert(read.drop_last() =~= digits.take(at as int));
        }
        match value_of(c) {
            Some(unit) => {
                if at == 0 {
                    value = unit;
                } else {
                    value = value * 10 + unit;
                    if value > 255 {
                        value = 256;
                    }
                }
            },
            None => {
                proof {
                    lemma_number_needs_digits(digits, at as int);
                }
                return Err(CapsError::invalid_input("failed to parse cap_last_cap"));
            },
        }
        at += 1;
    }
    proof {
        assert(digits.take(end as int) =~= digits);
    }
    if value > 255 {
        Err(CapsError::invalid_input("failed to parse cap_last_cap"))
    } else {
        Ok(value as u8)
    }
}

/// A text with a character that is no digit writes no number.
proof fn lemma_number_needs_digits(digits: Seq<char>, at: int)
    requires
        0 <= at < digits.len(),
        digit_value(digits[at]) is None,
    ensures
        number(digits) is None,
    decreases digits.len(),
{
    if at < digits.len() - 1 {
        lemma_number_needs_digits(digits.drop_last(), at);
    }
}

/// The capabilities with an index of at most `last`.
pub open spec fn caps_up_to(last: u8) -> Set<Capability> {
    Set::new(|cap: Capability| cap.spec_index() <= last)
}

/// Return the set of all capabilities supported by the running kernel,
/// going by the text of `/proc/sys/kernel/cap_last_cap`: those known to
/// this library whose index is at most the number that the text holds.
pub fn procfs_all_supported_caps<T: CapsList>(last_cap: &str) -> (result: Result<T, CapsError>)
    ensures
        match result {
            Ok(supported) => last_cap_of(last_cap@) matches Some(last) && holds(
                supported,
                caps_up_to(last),
            ),
            Err(e) => last_cap_of(last_cap@) is None && e@ == unreadable(),
        },
{
    let last = match parse_last_cap(last_cap) {
        Ok(last) => last,
        Err(e) => {
            return Err(e);
        },
    };
    let mut supported = T::empty();
    let mut index: u8 = 0;
    proof {
        lemma_mask_of_empty(nr::CAP_COUNT);
    }
    while index < nr::CAP_COUNT
        invariant
            index <= nr::CAP_COUNT,
            holds(supported, supported@),
            forall|cap: Capability|
                supported@.contains(cap) <==> cap.spec_index() < index && cap.spec_index()
                    <= last,
        decreases nr::CAP_COUNT - index,
    {
        let cap = Capability::from_index(index).unwrap();
        if index <= last {
            proof {
                lemma_mask_of_insert(supported@, cap);
            }
            supported.insert_cap(cap);
        }
        index += 1;
    }
    assert(supported@ =~= caps_up_to(last));
    Ok(supported)
}

} // verus!
