//! Distribution at one token per second, and the one-time drop.

use vstd::prelude::*;

use super::errors::EmitterError;
use crate::constants::SCALAR_7;
use crate::Address;

verus! {

/// Maximum one-time drop for the immutable launch backstop.
pub const MAX_INITIAL_DROP: i128 = 1_500_000_000_000_000;

/// Maximum combined discretionary and backfill drop for later backstops.
pub const MAX_MIGRATION_DROP: i128 = 500_000_000_000_000;

/// What is distributed for the time from `last` to `now`: one token for each second.
pub open spec fn spec_distribution(last: u64, now: u64) -> int {
    (now - last) * SCALAR_7
}

/// Perform a distribution: one token for each second since the last one.
pub fn execute_distribute(last_distro_time: &mut u64, now: u64) -> (r: i128)
    requires
        *old(last_distro_time) <= now,
    ensures
        r == spec_distribution(*old(last_distro_time), now),
        *final(last_distro_time) == now,
{
    let seconds_since_last_distro: u64 = now - *last_distro_time;
    let distribution_amount: i128 = seconds_since_last_distro as i128 * SCALAR_7;
    *last_distro_time = now;
    distribution_amount
}

/// Distributing in between changes nothing of what is distributed in all.
pub proof fn law_distributions_add_up(last: u64, middle: u64, now: u64)
    requires
        last <= middle <= now,
    ensures
        spec_distribution(last, middle) + spec_distribution(middle, now) == spec_distribution(
            last,
            now,
        ),
{
}

/// The most that a backstop may drop.
pub open spec fn spec_max_drop(backstop: Address, initial_backstop: Address) -> i128 {
    if backstop == initial_backstop {
        MAX_INITIAL_DROP
    } else {
        MAX_MIGRATION_DROP
    }
}

/// The sum of a drop list under a cap, or the first objection to it: a negative
/// amount, a sum beyond an `i128`, or one beyond the cap.
pub open spec fn spec_drop_total(list: Seq<(Address, i128)>, max_drop: i128) -> Result<
    i128,
    EmitterError,
>
    decreases list.len(),
{
    if list.len() == 0 {
        Ok(0)
    } else {
        match spec_drop_total(list.drop_last(), max_drop) {
            Err(error) => Err(error),
            Ok(total) => if list.last().1 < 0 {
                Err(EmitterError::BadDrop)
            } else if total + list.last().1 > i128::MAX {
                Err(EmitterError::OverflowError)
            } else if total + list.last().1 > max_drop {
                Err(EmitterError::BadDrop)
            } else {
                Ok((total + list.last().1) as i128)
            },
        }
    }
}

/// The plain sum of a drop list.
pub open spec fn drop_sum(list: Seq<(Address, i128)>) -> int
    decreases list.len(),
{
    if list.len() == 0 {
        0
    } else {
        drop_sum(list.drop_last()) + list.last().1
    }
}

/// A drop list passes exactly where no amount is negative and the sum stays under the cap.
pub proof fn law_drops_stay_under_the_cap(list: Seq<(Address, i128)>, max_drop: i128)
    requires
        max_drop >= 0,
    ensures
        spec_drop_total(list, max_drop) is Ok <==> (forall|i: int|
            0 <= i < list.len() ==> (#[trigger] list[i]).1 >= 0) && drop_sum(list) <= max_drop,
        spec_drop_total(list, max_drop) matches Ok(total) ==> total == drop_sum(list) && 0 <= total
            <= max_drop,
    decreases list.len(),
{
    if list.len() > 0 {
        let init = list.drop_last();
        law_drops_stay_under_the_cap(init, max_drop);
        assert(forall|i: int| 0 <= i < init.len() ==> #[trigger] init[i] == list[i]);
        if forall|i: int| 0 <= i < list.len() ==> (#[trigger] list[i]).1 >= 0 {
            assert(list.last() == list[list.len() - 1]);
            assert(forall|i: int| 0 <= i < init.len() ==> (#[trigger] init[i]).1 >= 0);
        }
        if spec_drop_total(list, max_drop) is Ok {
            assert forall|i: int| 0 <= i < list.len() implies (#[trigger] list[i]).1 >= 0 by {
                if i < list.len() - 1 {
                    assert(init[i].1 >= 0);
                }
            }
        }
    }
}

proof fn lemma_drop_total_error(list: Seq<(Address, i128)>, max_drop: i128, i: int)
    requires
        0 <= i <= list.len(),
        spec_drop_total(list.take(i), max_drop) is Err,
    ensures
        spec_drop_total(list, max_drop) == spec_drop_total(list.take(i), max_drop),
    decreases list.len() - i,
{
    if i == list.len() {
        assert(list.take(i) =~= list);
    } else {
        assert(list.take(i + 1).drop_last() =~= list.take(i));
        lemma_drop_total_error(list, max_drop, i + 1);
    }
}

/// Perform the one-time drop of a backstop: check its list, which is then minted
/// entry by entry, and mark it as done.
pub fn execute_drop(
    backstop: Address,
    initial_backstop: Address,
    dropped: &mut bool,
    list: &Vec<(Address, i128)>,
) -> (r: Result<i128, EmitterError>)
    ensures
        if *old(dropped) {
            &&& r == Err::<i128, EmitterError>(EmitterError::BadDrop)
            &&& *final(dropped)
        } else {
            match spec_drop_total(list@, spec_max_drop(backstop, initial_backstop)) {
                Err(error) => {
                    &&& r == Err::<i128, EmitterError>(error)
                    &&& !*final(dropped)
                },
                Ok(total) => {
                    &&& r == Ok::<i128, EmitterError>(total)
                    &&& *final(dropped)
                },
            }
        },
{
    if *dropped {
        return Err(EmitterError::BadDrop);
    }
    let max_drop: i128 = if backstop == initial_backstop {
        MAX_INITIAL_DROP
    } else {
        MAX_MIGRATION_DROP
    };
    let mut drop_amount: i128 = 0;
    let mut index: usize = 0;
    while index < list.len()
        invariant
            index <= list@.len(),
            max_drop == spec_max_drop(backstop, initial_backstop),
            !*dropped,
            spec_drop_total(list@.take(index as int), max_drop) == Ok::<i128, EmitterError>(
                drop_amount,
            ),
            drop_amount >= 0,
        decreases list@.len() - index,
    {
        let amount: i128 = list[index].1;
        proof {
            let next = list@.take(index + 1);
            assert(next.drop_last() =~= list@.take(index as int));
            assert(next.last() == list@[index as int]);
            if spec_drop_total(next, max_drop) is Err {
                lemma_drop_total_error(list@, max_drop, index + 1);
            }
        }
        if amount < 0 {
            return Err(EmitterError::BadDrop);
        }
        drop_amount = match drop_amount.checked_add(amount) {
            Some(sum) => sum,
            None => return Err(EmitterError::OverflowError),
        };
        if drop_amount > max_drop {
            return Err(EmitterError::BadDrop);
        }
        index = index + 1;
    }
    assert(list@.take(index as int) =~= list@);
    *dropped = true;
    Ok(drop_amount)
}

} // verus!
