//! When a migration is attested, active and paid for.

use vstd::prelude::*;

use crate::dependencies::emitter::Swap;
use crate::errors::BackstopError;
use crate::math::sum_of;
use crate::migration::{
    spec_activated, spec_activation_error, spec_attestation, spec_backfill_error, spec_drop_error,
    spec_drop_recipients, spec_paid_to, spec_transition, spec_weight_mutation_gate,
    DistributionTransition, EmitterView, MigrationRecord,
};
use crate::storage::{OngoingEmissionState, ZoneClock};
use crate::Address;

verus! {

/// All backfill together stays within ten million tokens, and any that does is taken.
pub proof fn law_backfill_is_capped(scheduled: i128, amount: i128)
    ensures
        spec_backfill_error(scheduled, amount) is None <==> amount >= 0 && scheduled + amount
            <= 100_000_000_000_000,
{
}

/// A queued replacement is attested from seven days before it unlocks to seven days after,
/// and only where it names this backstop and its token.
pub proof fn law_replacements_are_attested_around_their_unlock(
    queued: Option<Swap>,
    candidate: Address,
    blnt_xlm_token: Address,
    now: u64,
)
    ensures
        ({
            let r = spec_attestation(queued, candidate, blnt_xlm_token, now);
            match queued {
                None => r == Ok::<Option<u64>, BackstopError>(None),
                Some(swap) => {
                    let ours = swap.new_backstop == candidate && swap.new_backstop_token
                        == blnt_xlm_token;
                    let room = swap.unlock_time + 604_800 <= u64::MAX;
                    let near = swap.unlock_time <= now + 604_800 && now <= swap.unlock_time
                        + 604_800;
                    &&& r is Ok <==> ours && room
                    &&& !ours ==> r == Err::<Option<u64>, BackstopError>(
                        BackstopError::InvalidQueuedSwap,
                    )
                    &&& ours && room ==> r->Ok_0 == if near {
                        Some(swap.unlock_time)
                    } else {
                        None
                    }
                },
            }
        }),
{
}

/// A migration becomes active only up to seven days after the attested unlock, and not
/// before it. Where backfill has begun there has to be one. The emitter's last
/// distribution is not ahead of time and not behind the backfill.
pub proof fn law_migrations_become_active_in_their_window(
    record: MigrationRecord,
    state: OngoingEmissionState,
    last_distribution: u64,
    now: u64,
)
    ensures
        spec_activation_error(record, state, last_distribution, now) is None <==> {
            &&& record.verified_queue_unlock matches Some(unlock) ==> unlock <= now && now <= unlock
                + 604_800 && unlock + 604_800 <= u64::MAX
            &&& record.verified_queue_unlock is None ==> record.migration_epoch_start is None
            &&& last_distribution <= now
            &&& state.last_distribution matches Some(end) ==> end <= last_distribution
        },
        ({
            let after = spec_activated(record, state, last_distribution, now);
            &&& after.activated_at == Some(now)
            &&& after.backfill_end == if state.last_distribution is Some {
                state.last_distribution
            } else {
                Some(last_distribution)
            }
            &&& after.migration_epoch_start == record.migration_epoch_start
            &&& after.verified_queue_unlock == record.verified_queue_unlock
            &&& after.scheduled_backfill == record.scheduled_backfill
        }),
{
}

/// A pending backstop becomes active as soon as the emitter pays it, and ongoing emissions
/// then count from the emitter's last distribution. Until then it distributes backfill up
/// to now; the first such call opens the epoch, with nothing distributed before it. What is
/// scheduled never changes on the way, and an active migration is final.
pub proof fn law_pending_backstops_backfill_until_they_are_paid(
    record: MigrationRecord,
    state: OngoingEmissionState,
    clock: ZoneClock,
    emitter: EmitterView,
    candidate: Address,
    blnt_xlm_token: Address,
    now: u64,
)
    ensures
        record.activated_at is Some <==> spec_transition(
            record,
            state,
            clock,
            emitter,
            candidate,
            blnt_xlm_token,
            now,
        ) == Err::<
            (DistributionTransition, MigrationRecord, OngoingEmissionState, ZoneClock),
            BackstopError,
        >(BackstopError::AlreadyFinalized),
        record.activated_at is None && emitter.is_current_backstop ==> (spec_transition(
            record,
            state,
            clock,
            emitter,
            candidate,
            blnt_xlm_token,
            now,
        ) is Ok <==> spec_activation_error(record, state, emitter.last_distribution, now) is None),
        record.activated_at is None && !emitter.is_current_backstop ==> (spec_transition(
            record,
            state,
            clock,
            emitter,
            candidate,
            blnt_xlm_token,
            now,
        ) is Ok <==> spec_attestation(emitter.queued, candidate, blnt_xlm_token, now) is Ok),
        spec_transition(
            record,
            state,
            clock,
            emitter,
            candidate,
            blnt_xlm_token,
            now,
        ) matches Ok((step, next, opened, ticked)) ==> {
            &&& next.scheduled_backfill == record.scheduled_backfill
            &&& if emitter.is_current_backstop {
                &&& step == DistributionTransition::Activated(emitter.last_distribution)
                &&& next.activated_at == Some(now)
                &&& next.migration_epoch_start == record.migration_epoch_start
                &&& opened.last_distribution == Some(emitter.last_distribution)
                &&& opened.total_distributed == state.total_distributed
                &&& opened.backstop_allocated == state.backstop_allocated
                &&& opened.backstop_claimed == state.backstop_claimed
                &&& opened.pool_allocated == state.pool_allocated
                &&& opened.backstop_carry == state.backstop_carry
                &&& opened.pool_carry == state.pool_carry
                &&& opened.split_carry == state.split_carry
                &&& ticked == clock
            } else {
                &&& step == DistributionTransition::Backfill(now)
                &&& next.activated_at is None
                &&& next.backfill_end == record.backfill_end
                &&& spec_attestation(emitter.queued, candidate, blnt_xlm_token, now) == Ok::<
                    Option<u64>,
                    BackstopError,
                >(next.verified_queue_unlock)
                &&& if record.migration_epoch_start is Some {
                    &&& next.migration_epoch_start == record.migration_epoch_start
                    &&& opened == state
                    &&& ticked == clock
                } else {
                    &&& next.migration_epoch_start == Some(now)
                    &&& opened.last_distribution == Some(now)
                    &&& opened.total_distributed == 0
                    &&& opened.backstop_allocated == 0
                    &&& opened.backstop_claimed == 0
                    &&& opened.pool_allocated == 0
                    &&& opened.backstop_carry == 0
                    &&& opened.pool_carry == 0
                    &&& opened.split_carry == 0
                    &&& ticked.checkpoint == Some(now)
                    &&& ticked.started
                }
            }
        },
{
}

/// Weights stand still only between the emitter's switch to this backstop and the
/// activation.
pub proof fn law_weights_stand_still_until_the_switch_is_seen(
    is_active: bool,
    is_current_backstop: bool,
)
    ensures
        spec_weight_mutation_gate(is_active, is_current_backstop) is Err <==> is_current_backstop
            && !is_active,
{
}

/// What each entry of a drop list pays to an address.
pub open spec fn paid_by_entry(recipients: Seq<(Address, i128)>, to: Address) -> Seq<int> {
    recipients.map_values(
        |entry: (Address, i128)| if entry.0 == to {
            entry.1 as int
        } else {
            0
        },
    )
}

/// A migration is paid for once, when it is active and its backfill is within ten million
/// tokens. The drop pays the list as it stands, then the backfill to the backstop, and the
/// backstop has to receive the backfill and all that the list pays it.
pub proof fn law_drops_pay_the_list_and_the_backfill(
    funded: Option<i128>,
    is_active: bool,
    scheduled: i128,
    drop_list: Seq<(Address, i128)>,
    candidate: Address,
)
    ensures
        spec_drop_error(funded, is_active, scheduled) is None <==> funded is None && is_active && 0
            <= scheduled <= 100_000_000_000_000,
        ({
            let recipients = spec_drop_recipients(drop_list, candidate, scheduled);
            &&& scheduled <= 0 ==> recipients == drop_list
            &&& scheduled > 0 ==> recipients.len() == drop_list.len() + 1 && recipients.last() == (
                candidate,
                scheduled,
            ) && recipients.drop_last() == drop_list
        }),
        spec_paid_to(drop_list, candidate, scheduled as int) matches Ok(delta) ==> delta
            == scheduled + sum_of(paid_by_entry(drop_list, candidate)),
    decreases drop_list.len(),
{
    let recipients = spec_drop_recipients(drop_list, candidate, scheduled);
    if scheduled > 0 {
        assert(recipients.drop_last() =~= drop_list);
    }
    if drop_list.len() > 0 {
        law_drops_pay_the_list_and_the_backfill(
            funded,
            is_active,
            scheduled,
            drop_list.drop_last(),
            candidate,
        );
        assert(paid_by_entry(drop_list, candidate).drop_last() =~= paid_by_entry(
            drop_list.drop_last(),
            candidate,
        ));
    }
}

} // verus!
