//! Run planning for ensemble and Monte Carlo predictions: which members run,
//! how many samples each gets, and how a trajectory splits at the burst.
use vstd::prelude::*;

use crate::gefs::GefsMember;

verus! {

/// Most members GEFS has: the control run and 30 perturbed ones.
pub const MAX_GEFS_MEMBERS: u32 = 31;

/// The members run for a request of `num_members`: the control run, then
/// perturbed members 1, 2, ... up to 31 members in all (at least the control).
pub fn gefs_members_to_run(num_members: u32) -> (r: Vec<GefsMember>)
    ensures
        r.len() == (if num_members <= 1 { 1 } else if num_members >= 31 { 31 } else { num_members }),
        r[0] == GefsMember::Control,
        forall|i: int| 1 <= i < r.len() ==> #[trigger] r[i] == GefsMember::Perturbed(i as u8),
{
    let num = if num_members < MAX_GEFS_MEMBERS { num_members } else { MAX_GEFS_MEMBERS };
    let mut members: Vec<GefsMember> = Vec::new();
    members.push(GefsMember::Control);
    let mut i: u32 = 1;
    while i < num
        invariant
            1 <= i,
            num <= 31,
            i <= num || (num <= 1 && i == 1),
            members.len() == i,
            members[0] == GefsMember::Control,
            forall|k: int| 1 <= k < members.len() ==> #[trigger] members[k] == GefsMember::Perturbed(k as u8),
        decreases num - i,
    {
        members.push(GefsMember::Perturbed(i as u8));
        i = i + 1;
    }
    members
}

/// Samples per member: the requested number (at least one) when any
/// parameter is scattered, else a single run with the mean values.
pub fn monte_carlo_sample_count(use_scatter: bool, num_samples: u32) -> (r: u32)
    ensures
        r == (if use_scatter && num_samples > 1 { num_samples } else { 1 }),
{
    if use_scatter {
        if num_samples > 1 {
            num_samples
        } else {
            1
        }
    } else {
        1
    }
}

/// Index of the first burst state, or the number of states when none bursts.
pub open spec fn first_burst(is_burst: Seq<bool>) -> int
    decreases is_burst.len(),
{
    if is_burst.len() == 0 {
        0
    } else if is_burst[0] {
        0
    } else {
        1 + first_burst(is_burst.drop_first())
    }
}

proof fn lemma_first_burst(is_burst: Seq<bool>)
    ensures
        0 <= first_burst(is_burst) <= is_burst.len(),
        forall|k: int| 0 <= k < first_burst(is_burst) ==> !is_burst[k],
        first_burst(is_burst) < is_burst.len() ==> is_burst[first_burst(is_burst)],
    decreases is_burst.len(),
{
    if is_burst.len() > 0 && !is_burst[0] {
        lemma_first_burst(is_burst.drop_first());
        assert forall|k: int| 0 <= k < first_burst(is_burst) implies !is_burst[k] by {
            if k > 0 {
                assert(is_burst[k] == is_burst.drop_first()[k - 1]);
            }
        }
    }
}

/// `first_burst` is the first state that has burst: every state before it
/// has not, and it has (unless no state has burst, when it is the length).
pub proof fn first_burst_is_the_first_burst_state(is_burst: Seq<bool>)
    ensures
        0 <= first_burst(is_burst) <= is_burst.len(),
        forall|k: int| 0 <= k < first_burst(is_burst) ==> !#[trigger] is_burst[k],
        first_burst(is_burst) < is_burst.len() ==> is_burst[first_burst(is_burst)],
        first_burst(is_burst) == is_burst.len() ==> forall|k: int|
            0 <= k < is_burst.len() ==> !#[trigger] is_burst[k],
{
    lemma_first_burst(is_burst);
}

/// Where a trajectory splits into its reported paths.
#[derive(Debug, Clone, Copy, PartialEq, Eq, Structural)]
pub struct PathSplit {
    /// The ascent path is the states `0..ascent_end`: up to and including
    /// the first burst state (all states when none bursts).
    pub ascent_end: usize,
    /// The descent path is the states from this index on (the first burst
    /// state), when some state bursts.
    pub descent_start: Option<usize>,
}

/// Splits a trajectory (at least one state) at its first burst state, which
/// both paths contain.
pub fn split_paths(is_burst: &Vec<bool>) -> (r: PathSplit)
    requires
        is_burst.len() > 0,
    ensures
        ({
            let b = first_burst(is_burst@);
            &&& r.ascent_end == (if b < is_burst.len() { b + 1 } else { is_burst.len() as int })
            &&& r.descent_start == (if b < is_burst.len() { Some(b as usize) } else { None })
        }),
{
    proof {
        lemma_first_burst(is_burst@);
    }
    let mut i: usize = 0;
    while i < is_burst.len() && !is_burst[i]
        invariant
            i <= is_burst.len(),
            i <= first_burst(is_burst@),
            0 <= first_burst(is_burst@) <= is_burst.len(),
            forall|k: int| 0 <= k < first_burst(is_burst@) ==> !is_burst@[k],
            first_burst(is_burst@) < is_burst.len() ==> is_burst@[first_burst(is_burst@)],
        decreases is_burst.len() - i,
    {
        i = i + 1;
    }
    let last = is_burst.len() - 1;
    let ascent_end = (if i < last { i } else { last }) + 1;
    PathSplit { ascent_end, descent_start: if i < is_burst.len() { Some(i) } else { None } }
}

} // verus!
