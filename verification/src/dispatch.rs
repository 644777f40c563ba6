//! Workgroup counts for compute dispatches.

use vstd::prelude::*;

verus! {

/// Number of workgroups of `workgroup` invocations needed to cover `size`
/// invocations along one axis.
///
/// A workgroup size of zero covers nothing: an empty axis then needs no
/// group, any other axis saturates at `u32::MAX`.
pub open spec fn groups_needed(size: u32, workgroup: u32) -> int {
    if workgroup == 0 {
        if size == 0 {
            0
        } else {
            u32::MAX as int
        }
    } else if size % workgroup == 0 {
        size as int / workgroup as int
    } else {
        size as int / workgroup as int + 1
    }
}

/// For a non-zero workgroup size, `groups_needed` is the least count whose
/// groups cover `size`.
pub proof fn lemma_groups_needed_is_least_cover(size: u32, workgroup: u32)
    requires
        workgroup > 0,
    ensures
        groups_needed(size, workgroup) * workgroup >= size,
        groups_needed(size, workgroup) > 0 ==> (groups_needed(size, workgroup) - 1) * workgroup
            < size,
        0 <= groups_needed(size, workgroup) <= size,
{
    let s = size as int;
    let w = workgroup as int;
    let q = s / w;
    let r = s % w;
    assert(s == w * q + r && 0 <= r < w) by (nonlinear_arith)
        requires
            w > 0,
            q == s / w,
            r == s % w,
    ;
    assert(0 <= q <= s) by (nonlinear_arith)
        requires
            w > 0,
            s >= 0,
            q == s / w,
    ;
    assert((q + 1) * w == q * w + w && (q - 1) * w == q * w - w && q * w == w * q)
        by (nonlinear_arith);
    if r != 0 {
        assert(q + 1 <= s) by (nonlinear_arith)
            requires
                s == w * q + r,
                0 < r < w,
                q >= 0,
        ;
    }
}

fn axis_groups(size: u32, workgroup: u32) -> (groups: u32)
    ensures
        groups == groups_needed(size, workgroup),
{
    if workgroup == 0 {
        if size == 0 {
            0
        } else {
            u32::MAX
        }
    } else {
        let quotient: u32 = size / workgroup;
        if size % workgroup == 0 {
            quotient
        } else {
            proof {
                lemma_groups_needed_is_least_cover(size, workgroup);
            }
            quotient + 1
        }
    }
}

/// Number of workgroups to dispatch along each axis so that `size`
/// invocations are covered by groups of `workgroup_size`.
pub fn get_dispatch_size(size: &(u32, u32, u32), workgroup_size: &(u32, u32, u32)) -> (groups: (
    u32,
    u32,
    u32,
))
    ensures
        groups.0 == groups_needed(size.0, workgroup_size.0),
        groups.1 == groups_needed(size.1, workgroup_size.1),
        groups.2 == groups_needed(size.2, workgroup_size.2),
{
    (
        axis_groups(size.0, workgroup_size.0),
        axis_groups(size.1, workgroup_size.1),
        axis_groups(size.2, workgroup_size.2),
    )
}

/// What one iteration of the edge-avoiding filter uses: which of its two
/// bind groups, how far apart its samples lie, and whether its output is to
/// be kept aside once it has run.
#[derive(Clone, Copy, Debug, PartialEq, Eq)]
pub struct FilterIteration {
    pub bind_group: usize,
    pub step_width: u32,
    pub retains_output: bool,
}

/// Number of iterations whose step width fits in 32 bits.
pub const MAX_FILTER_ITERATIONS: u32 = 32;

/// Iteration `iteration` of the filter, counted from zero: the bind groups
/// alternate, the step width doubles, and the first output is kept.
pub open spec fn filter_iteration_of(iteration: u32) -> FilterIteration {
    FilterIteration {
        bind_group: (iteration % 2) as usize,
        step_width: 1u32 << iteration,
        retains_output: iteration == 0,
    }
}

/// What iteration `iteration` of the filter uses, or `None` where its step
/// width would not fit in 32 bits.
pub fn filter_iteration(iteration: u32) -> (step: Option<FilterIteration>)
    ensures
        iteration < MAX_FILTER_ITERATIONS ==> step == Some(filter_iteration_of(iteration)),
        iteration >= MAX_FILTER_ITERATIONS ==> step is None,
{
    if iteration >= MAX_FILTER_ITERATIONS {
        None
    } else {
        Some(
            FilterIteration {
                bind_group: (iteration % 2) as usize,
                step_width: 1u32 << iteration,
                retains_output: iteration == 0,
            },
        )
    }
}

} // verus!
