//! Level-of-detail targets and selection, and the size of a clustered draw.
use vstd::arithmetic::power2::pow2;
use vstd::prelude::*;

verus! {

/// Number of indices that the simplifier aims at for level `level`: the
/// full count halved once per level.
pub fn lod_target_index_count(index_count: usize, level: u32) -> (r: usize)
    ensures
        r == index_count as nat / pow2(level as nat),
{
    if level >= 64 {
        proof {
            vstd::arithmetic::power2::lemma2_to64();
            vstd::arithmetic::power2::lemma2_to64_rest();
            if level > 64 {
                vstd::arithmetic::power2::lemma_pow2_strictly_increases(64, level as nat);
            }
            vstd::arithmetic::div_mod::lemma_basic_div(index_count as int, pow2(level as nat) as int);
        }
        0
    } else {
        let x = index_count as u64;
        let r = x >> (level as u64);
        proof {
            vstd::bits::lemma_u64_shr_is_div(x, level as u64);
        }
        assert(r <= x) by (bit_vector)
            requires
                r == x >> (level as u64),
        ;
        r as usize
    }
}

/// The level drawn for an instance: the camera distance scaled by the
/// density constant and floored, capped at the coarsest level.
pub fn select_level(scaled_distance: u32, max_level: u32) -> (r: u32)
    ensures
        r == if scaled_distance <= max_level {
            scaled_distance
        } else {
            max_level
        },
{
    if scaled_distance <= max_level {
        scaled_distance
    } else {
        max_level
    }
}

/// `count` items in groups of `size`, the last group possibly partial.
pub open spec fn ceil_div(count: nat, size: nat) -> nat {
    if count == 0 {
        0
    } else {
        ((count - 1) as nat / size) + 1
    }
}

/// Number of task workgroups that a draw of `meshlet_count` meshlets
/// dispatches, `workgroup_size` meshlets to a group.
pub fn task_group_count(meshlet_count: u32, workgroup_size: u32) -> (r: u32)
    requires
        workgroup_size > 0,
    ensures
        r == ceil_div(meshlet_count as nat, workgroup_size as nat),
{
    if meshlet_count == 0 {
        0
    } else {
        let q = (meshlet_count - 1) / workgroup_size;
        proof {
            vstd::arithmetic::div_mod::lemma_div_is_ordered_by_denominator(
                (meshlet_count - 1) as int,
                1,
                workgroup_size as int,
            );
        }
        q + 1
    }
}

/// What one clustered draw dispatches.
#[derive(Clone, Copy, Debug, PartialEq, Eq)]
pub struct DrawCall {
    pub level: u32,
    pub task_groups: u32,
}

/// Plans the draw of one instance of a mesh whose levels hold
/// `level_meshlet_counts` meshlets each: the requested level capped at the
/// coarsest one, and enough task groups for that level's meshlets.
pub fn plan_draw(level_meshlet_counts: &Vec<u32>, level: u32, workgroup_size: u32) -> (r: DrawCall)
    requires
        1 <= level_meshlet_counts@.len() <= u32::MAX,
        workgroup_size > 0,
    ensures
        r.level == if level < level_meshlet_counts@.len() {
            level as nat
        } else {
            (level_meshlet_counts@.len() - 1) as nat
        },
        r.task_groups == ceil_div(level_meshlet_counts@[r.level as int] as nat, workgroup_size as nat),
{
    let max_level = (level_meshlet_counts.len() - 1) as u32;
    let l = select_level(level, max_level);
    let groups = task_group_count(level_meshlet_counts[l as usize], workgroup_size);
    DrawCall { level: l, task_groups: groups }
}

/// The simplification targets never grow from one level to the next: each
/// level aims at no more indices than the level before it.
pub proof fn lemma_lod_targets_decrease(index_count: nat, level: nat)
    ensures
        index_count / pow2(level + 1) <= index_count / pow2(level),
{
    vstd::arithmetic::power2::lemma_pow2_pos(level);
    vstd::arithmetic::power2::lemma_pow2_unfold(level + 1);
    vstd::arithmetic::div_mod::lemma_div_is_ordered_by_denominator(
        index_count as int,
        pow2(level) as int,
        pow2(level + 1) as int,
    );
}

} // verus!
