//! What the emitter mints and converts.

use vstd::prelude::*;

use super::contract::{emittable, EmissionToken};
use super::conversion::{spec_swap_error, swap_settled, SwapBalances, SwapTerms};
use super::emitter::{
    drop_sum, law_drops_stay_under_the_cap, spec_distribution, spec_drop_total, spec_max_drop,
};
use crate::math::sum_of;
use crate::Address;

verus! {

/// The emitter mints one token for every second since its last distribution.
pub proof fn law_the_emitter_mints_one_token_a_second(last: u64, now: u64)
    ensures
        spec_distribution(last, now) == now * 10_000_000 - last * 10_000_000,
{
}

/// What each entry of a drop list pays.
pub open spec fn amounts_of(list: Seq<(Address, i128)>) -> Seq<int> {
    list.map_values(|entry: (Address, i128)| entry.1 as int)
}

proof fn lemma_drop_sum(list: Seq<(Address, i128)>)
    ensures
        drop_sum(list) == sum_of(amounts_of(list)),
    decreases list.len(),
{
    if list.len() > 0 {
        lemma_drop_sum(list.drop_last());
        assert(amounts_of(list).drop_last() =~= amounts_of(list.drop_last()));
    }
}

/// A drop pays no one a negative amount. The first backstop's drop is at most 150 million
/// tokens and that of any later one at most 50 million.
pub proof fn law_drops_are_capped(
    backstop: Address,
    initial_backstop: Address,
    list: Seq<(Address, i128)>,
)
    ensures
        ({
            let total = sum_of(amounts_of(list));
            let r = spec_drop_total(list, spec_max_drop(backstop, initial_backstop));
            &&& r is Ok <==> (forall|i: int| 0 <= i < list.len() ==> (#[trigger] list[i]).1 >= 0)
                && total <= if backstop == initial_backstop {
                1_500_000_000_000_000int
            } else {
                500_000_000_000_000int
            }
            &&& r is Ok ==> r->Ok_0 == total
        }),
{
    lemma_drop_sum(list);
    law_drops_stay_under_the_cap(list, spec_max_drop(backstop, initial_backstop));
}

/// A conversion begins where the emitter is set up, the amount is positive, the window is
/// open, none is under way and the two tokens differ.
pub proof fn law_conversions_begin_in_their_window(terms: SwapTerms, amount: i128, now: u64)
    ensures
        spec_swap_error(terms, amount, now) is None <==> {
            &&& terms.is_init
            &&& amount >= 1
            &&& now < terms.deadline
            &&& !terms.locked
            &&& terms.legacy_blnd != terms.blnt
        },
{
}

/// A conversion stands only where the amount came in and was burned in full, and as much
/// of the new token was paid out.
pub proof fn law_conversions_burn_what_they_mint(balances: SwapBalances, amount: i128)
    ensures
        swap_settled(balances, amount) <==> {
            &&& balances.legacy_received == balances.legacy_before + amount
            &&& balances.legacy_received - balances.legacy_burned == amount
            &&& balances.blnt_after == balances.blnt_before + amount
        },
{
}

/// The emitter emits a Stellar asset with seven decimals that it administers itself.
pub proof fn law_the_emitter_administers_what_it_emits(token: EmissionToken, emitter: Address)
    ensures
        emittable(token, emitter) <==> token.is_stellar_asset && token.decimals == 7
            && token.admin == emitter,
{
}

} // verus!
