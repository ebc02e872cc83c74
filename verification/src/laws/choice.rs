//! Which staking pool funds are moved to or from, and how much is moved, said
//! of the pools' own figures.

use crate::balancing::{first_greatest, none_positive, stake_movement, unstake_movement};
use crate::constants::MIN_STAKE_UNSTAKE_AMOUNT_MOVEMENT;
use crate::laws::rounding::{law_percentage_rounds_down, rounds_down};
use crate::math::fits;
use crate::pool::{PoolView, StakingPoolInfo};
use vstd::prelude::*;

verus! {

/// What is staked is all there is to stake if the pool lacks at least that, or
/// no more than the smallest movement would be left. Otherwise it is exactly what
/// the pool lacks.
pub proof fn law_stake_movement_serves_the_pool(missing: int, total_to_stake: int)
    ensures
        ({
            let amount: int = stake_movement(missing, total_to_stake);
            &&& missing >= total_to_stake ==> amount == total_to_stake
            &&& missing < total_to_stake ==> missing <= amount <= total_to_stake
            &&& total_to_stake - missing <= MIN_STAKE_UNSTAKE_AMOUNT_MOVEMENT ==> amount
                == total_to_stake
            &&& total_to_stake - missing > MIN_STAKE_UNSTAKE_AMOUNT_MOVEMENT ==> amount == missing
        }),
{
}

/// What is unstaked is all there is to unstake if the pool has at least that too
/// much. Otherwise it is exactly what the pool has too much, unless no more than
/// the smallest movement would be left and the pool keeps more than two such after
/// it is asked for everything.
pub proof fn law_unstake_movement_relieves_the_pool(
    excess: int,
    staked: int,
    total_to_unstake: int,
)
    ensures
        ({
            let amount: int = unstake_movement(excess, staked, total_to_unstake);
            let min: int = MIN_STAKE_UNSTAKE_AMOUNT_MOVEMENT as int;
            &&& excess >= total_to_unstake ==> amount == total_to_unstake
            &&& excess < total_to_unstake ==> excess <= amount <= total_to_unstake
            &&& excess < total_to_unstake && total_to_unstake - excess <= min && staked
                - total_to_unstake > 2 * min ==> amount == total_to_unstake
            &&& excess < total_to_unstake && total_to_unstake - excess > min ==> amount == excess
            &&& excess < total_to_unstake && staked - total_to_unstake <= 2 * min ==> amount
                == excess
        }),
{
}

/// What a pool lacks is what it has not of its weight's part of all that is for
/// staking. A busy pool, or one without weight, lacks nothing.
pub proof fn law_pool_lacks_up_to_its_weight(pool: PoolView, sp: StakingPoolInfo)
    ensures
        ({
            let missing: int = pool.missing_stake(sp);
            &&& sp.busy_lock || sp.weight_basis_points == 0 ==> missing == 0
            &&& !sp.busy_lock && sp.weight_basis_points > 0 ==> rounds_down(
                sp.staked + missing,
                sp.weight_basis_points * pool.total_for_staking,
                10_000,
            )
        }),
{
    law_percentage_rounds_down(
        pool.balanced_stake(sp),
        sp.weight_basis_points as int,
        pool.total_for_staking,
    );
}

/// What a pool has too much is what it has over its weight's part of all that is
/// for staking. A busy pool, one without stake, or one with an unstake in process
/// has nothing too much.
pub proof fn law_pool_exceeds_its_weight(pool: PoolView, sp: StakingPoolInfo)
    ensures
        ({
            let excess: int = pool.excess_stake(sp);
            &&& sp.busy_lock || sp.staked == 0 || sp.unstaked > 0 ==> excess == 0
            &&& !sp.busy_lock && sp.staked > 0 && sp.unstaked == 0 ==> rounds_down(
                sp.staked - excess,
                sp.weight_basis_points * pool.total_for_staking,
                10_000,
            )
        }),
{
    law_percentage_rounds_down(
        pool.balanced_stake(sp),
        sp.weight_basis_points as int,
        pool.total_for_staking,
    );
}

/// The figures by which a pool is chosen are those of the pools, in their order.
pub proof fn law_figures_are_the_pools_own(pool: PoolView, i: int)
    requires
        0 <= i < pool.staking_pools.len(),
    ensures
        pool.missing_stakes().len() == pool.staking_pools.len(),
        pool.missing_stakes()[i] == pool.missing_stake(pool.staking_pools[i]),
        pool.excess_stakes().len() == pool.staking_pools.len(),
        pool.excess_stakes()[i] == pool.excess_stake(pool.staking_pools[i]),
{
}

/// The place chosen has a positive figure that no other exceeds and none before it equals.
pub proof fn law_chosen_figure_is_the_first_greatest(figures: Seq<int>, inx: int, other: int)
    requires
        first_greatest(figures, inx),
        0 <= other < figures.len(),
    ensures
        0 <= inx < figures.len(),
        0 < figures[inx],
        figures[other] <= figures[inx],
        other < inx ==> figures[other] < figures[inx],
{
}

/// A place is chosen unless no figure is positive, and never two.
pub proof fn law_choice_is_made_where_it_can_be(figures: Seq<int>, first: int, second: int)
    ensures
        none_positive(figures) <==> !exists|i: int|
            0 <= i < figures.len() && #[trigger] figures[i] > 0,
        none_positive(figures) <==> !exists|inx: int| first_greatest(figures, inx),
        first_greatest(figures, first) && first_greatest(figures, second) ==> first == second,
    decreases figures.len(),
{
    if !none_positive(figures) {
        let fewer: Seq<int> = figures.drop_last();
        let last: int = figures.len() - 1;
        if none_positive(fewer) {
            assert forall|j: int| 0 <= j < last implies #[trigger] figures[j] <= 0 by {
                assert(fewer[j] == figures[j]);
            }
            assert(first_greatest(figures, last));
        } else {
            law_choice_is_made_where_it_can_be(fewer, first, second);
            let inx: int = choose|inx: int| first_greatest(fewer, inx);
            assert forall|j: int| 0 <= j < last implies #[trigger] figures[j] <= figures[inx] by {
                assert(fewer[j] == figures[j]);
            }
            assert forall|j: int| 0 <= j < inx implies #[trigger] figures[j] < figures[inx] by {
                assert(fewer[j] == figures[j]);
            }
            if figures[last] > figures[inx] {
                assert(first_greatest(figures, last));
            } else {
                assert(first_greatest(figures, inx));
            }
        }
    }
}

/// The pool chosen to stake in is not busy, has weight, and lacks something. No
/// pool that can be staked in lacks more, and none before it as much.
pub proof fn law_neediest_pool_is_staked_in(
    pool: PoolView,
    inx: int,
    other: int,
    should_have: int,
    other_should_have: int,
)
    requires
        first_greatest(pool.missing_stakes(), inx),
        0 <= other < pool.staking_pools.len(),
        rounds_down(
            should_have,
            pool.staking_pools[inx].weight_basis_points * pool.total_for_staking,
            10_000,
        ),
        rounds_down(
            other_should_have,
            pool.staking_pools[other].weight_basis_points * pool.total_for_staking,
            10_000,
        ),
    ensures
        0 <= inx < pool.staking_pools.len(),
        ({
            let sp: StakingPoolInfo = pool.staking_pools[inx];
            let osp: StakingPoolInfo = pool.staking_pools[other];
            &&& !sp.busy_lock && sp.weight_basis_points > 0
            &&& sp.staked < should_have
            &&& pool.missing_stakes()[inx] == should_have - sp.staked
            &&& !osp.busy_lock && osp.weight_basis_points > 0 ==> other_should_have - osp.staked
                <= should_have - sp.staked
            &&& !osp.busy_lock && osp.weight_basis_points > 0 && other < inx
                ==> other_should_have - osp.staked < should_have - sp.staked
        }),
{
    law_percentage_rounds_down(
        should_have,
        pool.staking_pools[inx].weight_basis_points as int,
        pool.total_for_staking,
    );
    law_percentage_rounds_down(
        other_should_have,
        pool.staking_pools[other].weight_basis_points as int,
        pool.total_for_staking,
    );
    law_figures_are_the_pools_own(pool, other);
    law_figures_are_the_pools_own(pool, inx);
    law_chosen_figure_is_the_first_greatest(pool.missing_stakes(), inx, other);
}

/// The pool chosen to unstake from is not busy, has stake, has no unstake in
/// process, and has too much. No pool that can be unstaked from has more too much,
/// and none before it as much.
pub proof fn law_fullest_pool_is_unstaked_from(
    pool: PoolView,
    inx: int,
    other: int,
    should_have: int,
    other_should_have: int,
)
    requires
        first_greatest(pool.excess_stakes(), inx),
        0 <= other < pool.staking_pools.len(),
        rounds_down(
            should_have,
            pool.staking_pools[inx].weight_basis_points * pool.total_for_staking,
            10_000,
        ),
        rounds_down(
            other_should_have,
            pool.staking_pools[other].weight_basis_points * pool.total_for_staking,
            10_000,
        ),
    ensures
        0 <= inx < pool.staking_pools.len(),
        ({
            let sp: StakingPoolInfo = pool.staking_pools[inx];
            let osp: StakingPoolInfo = pool.staking_pools[other];
            &&& !sp.busy_lock && sp.staked > 0 && sp.unstaked == 0
            &&& should_have < sp.staked
            &&& pool.excess_stakes()[inx] == sp.staked - should_have
            &&& !osp.busy_lock && osp.staked > 0 && osp.unstaked == 0 ==> osp.staked
                - other_should_have <= sp.staked - should_have
            &&& !osp.busy_lock && osp.staked > 0 && osp.unstaked == 0 && other < inx
                ==> osp.staked - other_should_have < sp.staked - should_have
        }),
{
    law_percentage_rounds_down(
        should_have,
        pool.staking_pools[inx].weight_basis_points as int,
        pool.total_for_staking,
    );
    law_percentage_rounds_down(
        other_should_have,
        pool.staking_pools[other].weight_basis_points as int,
        pool.total_for_staking,
    );
    law_figures_are_the_pools_own(pool, other);
    law_figures_are_the_pools_own(pool, inx);
    law_chosen_figure_is_the_first_greatest(pool.excess_stakes(), inx, other);
}

/// Where no pool is chosen, none that can be staked in lacks anything, and none
/// that can be unstaked from has too much.
pub proof fn law_no_choice_means_balance(pool: PoolView, i: int, should_have: int)
    requires
        0 <= i < pool.staking_pools.len(),
        rounds_down(
            should_have,
            pool.staking_pools[i].weight_basis_points * pool.total_for_staking,
            10_000,
        ),
    ensures
        ({
            let sp: StakingPoolInfo = pool.staking_pools[i];
            &&& none_positive(pool.missing_stakes()) && !sp.busy_lock && sp.weight_basis_points > 0
                ==> should_have <= sp.staked
            &&& none_positive(pool.excess_stakes()) && !sp.busy_lock && sp.staked > 0
                && sp.unstaked == 0 ==> sp.staked <= should_have
        }),
{
    law_percentage_rounds_down(
        should_have,
        pool.staking_pools[i].weight_basis_points as int,
        pool.total_for_staking,
    );
    law_figures_are_the_pools_own(pool, i);
}

/// With weights of no more than the whole no choice is refused.
pub proof fn law_proper_weights_always_allow_a_choice(pool: PoolView)
    requires
        pool.representable(),
        forall|i: int|
            0 <= i < pool.staking_pools.len() ==> (
            #[trigger] pool.staking_pools[i]).weight_basis_points <= 10_000,
    ensures
        pool.missing_stakes_fit(),
        pool.excess_stakes_fit(),
{
    assert forall|i: int| 0 <= i < pool.staking_pools.len() implies fits(
        pool.balanced_stake(#[trigger] pool.staking_pools[i]),
    ) by {
        let sp: StakingPoolInfo = pool.staking_pools[i];
        let part: int = pool.balanced_stake(sp);
        law_percentage_rounds_down(part, sp.weight_basis_points as int, pool.total_for_staking);
        let weight: int = sp.weight_basis_points as int;
        let total: int = pool.total_for_staking;
        assert(0 <= weight * total <= 10_000 * total) by (nonlinear_arith)
            requires
                0 <= weight <= 10_000,
                0 <= total,
        ;
    }
}

/// A choice is refused exactly if a pool could be chosen whose part of the funds
/// for staking does not fit.
pub proof fn law_choice_is_refused_for_a_part_that_does_not_fit(pool: PoolView)
    requires
        0 <= pool.total_for_staking,
    ensures
        pool.missing_stakes_fit() <==> forall|i: int|
            0 <= i < pool.staking_pools.len() && !(
            #[trigger] pool.staking_pools[i]).busy_lock && pool.staking_pools[i].weight_basis_points
                > 0 ==> pool.staking_pools[i].weight_basis_points * pool.total_for_staking < (
            u128::MAX + 1) * 10_000,
        pool.excess_stakes_fit() <==> forall|i: int|
            0 <= i < pool.staking_pools.len() && !(
            #[trigger] pool.staking_pools[i]).busy_lock && pool.staking_pools[i].staked > 0
                && pool.staking_pools[i].unstaked == 0 ==> pool.staking_pools[i].weight_basis_points
                * pool.total_for_staking < (u128::MAX + 1) * 10_000,
{
    assert forall|i: int| 0 <= i < pool.staking_pools.len() implies (fits(
        pool.balanced_stake(#[trigger] pool.staking_pools[i]),
    ) <==> pool.staking_pools[i].weight_basis_points * pool.total_for_staking < (u128::MAX + 1)
        * 10_000) by {
        let weight: int = pool.staking_pools[i].weight_basis_points as int;
        let total: int = pool.total_for_staking;
        law_percentage_rounds_down(pool.balanced_stake(pool.staking_pools[i]), weight, total);
        assert(0 <= weight * total) by (nonlinear_arith)
            requires
                0 <= weight,
                0 <= total,
        ;
    }
}

} // verus!
