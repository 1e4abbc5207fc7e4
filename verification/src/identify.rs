//! The identification probe: which OS slot acquired a button press.
//!
//! To map a physical controller to the OS slot it occupies, the user is
//! asked to press any button.  The embedding program snapshots the button
//! bitmask of every slot as a baseline, polls the four slots for a few
//! seconds, and hands the polls here; the decision — the first slot whose
//! bitmask acquires a bit that its baseline lacked — is verified.

use vstd::prelude::*;

verus! {

/// Whether the current bitmask carries a bit the baseline lacked.
pub open spec fn spec_new_press(baseline: u16, current: u16) -> bool {
    current & (baseline ^ 0xffff) != 0
}

/// The first slot (in increasing order) whose bitmask acquired a new bit,
/// if any.
pub open spec fn spec_pressed_slot(baseline: Seq<u16>, current: Seq<u16>) -> Option<u32> {
    if spec_new_press(baseline[0], current[0]) {
        Some(0u32)
    } else if spec_new_press(baseline[1], current[1]) {
        Some(1u32)
    } else if spec_new_press(baseline[2], current[2]) {
        Some(2u32)
    } else if spec_new_press(baseline[3], current[3]) {
        Some(3u32)
    } else {
        None
    }
}

/// Compare one poll of the four slots against the baseline.
pub fn detect_new_press(baseline: &[u16; 4], current: &[u16; 4]) -> (r: Option<u32>)
    ensures
        r == spec_pressed_slot(baseline@, current@),
{
    if current[0] & (baseline[0] ^ 0xffff) != 0 {
        Some(0)
    } else if current[1] & (baseline[1] ^ 0xffff) != 0 {
        Some(1)
    } else if current[2] & (baseline[2] ^ 0xffff) != 0 {
        Some(2)
    } else if current[3] & (baseline[3] ^ 0xffff) != 0 {
        Some(3)
    } else {
        None
    }
}

/// The first poll with a new press decides; polls are in the order they
/// were taken.
pub open spec fn spec_detect(baseline: Seq<u16>, polls: Seq<[u16; 4]>) -> Option<u32>
    decreases polls.len(),
{
    if polls.len() == 0 {
        None
    } else {
        match spec_pressed_slot(baseline, polls[0]@) {
            Some(slot) => Some(slot),
            None => spec_detect(baseline, polls.drop_first()),
        }
    }
}

/// Run the probe over a recorded sequence of polls: the first slot that
/// acquired a button bit wins; no press within the recording means no
/// answer.
pub fn detect_from_polls(baseline: &[u16; 4], polls: &Vec<[u16; 4]>) -> (r: Option<u32>)
    ensures
        r == spec_detect(baseline@, polls@),
{
    let n = polls.len();
    let mut i: usize = 0;
    proof {
        assert(polls@.subrange(0, n as int) =~= polls@);
    }
    while i < n
        invariant
            i <= n == polls@.len(),
            spec_detect(baseline@, polls@) == spec_detect(
                baseline@,
                polls@.subrange(i as int, n as int),
            ),
        decreases n - i,
    {
        proof {
            let rest = polls@.subrange(i as int, n as int);
            assert(rest[0] == polls@[i as int]);
            assert(rest.drop_first() =~= polls@.subrange(i + 1, n as int));
        }
        match detect_new_press(baseline, &polls[i]) {
            Some(slot) => {
                return Some(slot);
            },
            None => {},
        }
        i += 1;
    }
    proof {
        assert(polls@.subrange(n as int, n as int) =~= Seq::<[u16; 4]>::empty());
    }
    None
}

} // verus!
