//! A user's shares in one tier of one pool.

use vstd::prelude::*;

use crate::constants::Q4W_LOCK_TIME;
use crate::errors::BackstopError;
use crate::math::fits_i128;

verus! {

/// A deposit that is queued for withdrawal.
#[derive(Clone, Copy, Debug, PartialEq, Eq, Structural)]
pub struct Q4W {
    /// The amount of shares queued for withdrawal.
    pub amount: i128,
    /// The time from which the shares can be withdrawn.
    pub exp: u64,
}

/// A user's balance in one tier of one pool.
#[derive(Debug)]
pub struct UserBalance {
    /// The shares that are not queued.
    pub shares: i128,
    /// The queued withdrawals, oldest first.
    pub q4w: Vec<Q4W>,
}

/// The shares in a queue.
pub open spec fn queued_total(q4w: Seq<Q4W>) -> int
    decreases q4w.len(),
{
    if q4w.len() == 0 {
        0
    } else {
        queued_total(q4w.drop_last()) + q4w.last().amount
    }
}

/// No entry of a queue is negative.
pub open spec fn queue_well_formed(q4w: Seq<Q4W>) -> bool {
    forall|i: int| 0 <= i < q4w.len() ==> (#[trigger] q4w[i]).amount >= 0
}

/// What is left of a queue once `shares` shares have been taken off its newest
/// end; nothing where it holds fewer.
pub open spec fn spec_dequeue(q4w: Seq<Q4W>, shares: int) -> Option<Seq<Q4W>>
    decreases q4w.len(),
{
    if q4w.len() == 0 {
        if shares > 0 {
            None
        } else {
            Some(q4w)
        }
    } else if q4w.last().amount > shares {
        Some(
            q4w.drop_last().push(
                Q4W { amount: (q4w.last().amount - shares) as i128, exp: q4w.last().exp },
            ),
        )
    } else if q4w.last().amount == shares {
        Some(q4w.drop_last())
    } else {
        spec_dequeue(q4w.drop_last(), shares - q4w.last().amount)
    }
}

/// What is left of a queue once `shares` shares have been taken off its oldest
/// end: an entry that is reached must have expired, and the queue must hold enough.
pub open spec fn spec_withdraw(q4w: Seq<Q4W>, shares: int, now: u64) -> Result<
    Seq<Q4W>,
    BackstopError,
>
    decreases q4w.len(),
{
    if q4w.len() == 0 {
        if shares > 0 {
            Err(BackstopError::BalanceError)
        } else {
            Ok(q4w)
        }
    } else if q4w[0].exp > now {
        Err(BackstopError::NotExpired)
    } else if q4w[0].amount > shares {
        Ok(q4w.update(0, Q4W { amount: (q4w[0].amount - shares) as i128, exp: q4w[0].exp }))
    } else if q4w[0].amount == shares {
        Ok(q4w.drop_first())
    } else {
        spec_withdraw(q4w.drop_first(), shares - q4w[0].amount, now)
    }
}

/// A queue of nonnegative entries holds a nonnegative number of shares, and no
/// more at its front than in all.
pub proof fn lemma_queued_total_bounds(q4w: Seq<Q4W>, n: int)
    requires
        queue_well_formed(q4w),
        0 <= n <= q4w.len(),
    ensures
        0 <= queued_total(q4w.take(n)) <= queued_total(q4w),
    decreases q4w.len(),
{
    if n == q4w.len() {
        assert(q4w.take(n) =~= q4w);
        if n > 0 {
            assert(queue_well_formed(q4w.drop_last()));
            lemma_queued_total_bounds(q4w.drop_last(), n - 1);
            assert(q4w.drop_last().take(n - 1) =~= q4w.drop_last());
            assert(q4w.last() == q4w[n - 1]);
        }
    } else {
        assert(queue_well_formed(q4w.drop_last()));
        lemma_queued_total_bounds(q4w.drop_last(), n);
        assert(q4w.drop_last().take(n) =~= q4w.take(n));
        assert(q4w.last() == q4w[q4w.len() - 1]);
    }
}

/// A queue can be split off at its front.
pub proof fn lemma_queued_total_front(q4w: Seq<Q4W>)
    requires
        q4w.len() > 0,
    ensures
        queued_total(q4w) == q4w[0].amount + queued_total(q4w.drop_first()),
    decreases q4w.len(),
{
    if q4w.len() == 1 {
        assert(q4w.drop_first() =~= Seq::<Q4W>::empty());
        assert(q4w.drop_last() =~= Seq::<Q4W>::empty());
    } else {
        lemma_queued_total_front(q4w.drop_last());
        assert(q4w.drop_first().drop_last() =~= q4w.drop_last().drop_first());
        assert(q4w.drop_first().last() == q4w.last());
    }
}

/// Shares can be taken off the newest end exactly where the queue holds them;
/// what is left holds that many fewer, and all its entries but the last are as before.
pub proof fn law_dequeue_takes_newest_first(q4w: Seq<Q4W>, shares: int)
    requires
        queue_well_formed(q4w),
        shares >= 0,
    ensures
        spec_dequeue(q4w, shares) is Some <==> shares <= queued_total(q4w),
        spec_dequeue(q4w, shares) matches Some(left) ==> {
            &&& queued_total(left) == queued_total(q4w) - shares
            &&& queue_well_formed(left)
            &&& left.len() <= q4w.len()
            &&& forall|i: int| 0 <= i < left.len() - 1 ==> left[i] == #[trigger] q4w[i]
            &&& (left.len() > 0 ==> left.last().exp == q4w[left.len() - 1].exp
                && left.last().amount <= q4w[left.len() - 1].amount)
        },
    decreases q4w.len(),
{
    if q4w.len() > 0 {
        let init = q4w.drop_last();
        assert(q4w.last() == q4w[q4w.len() - 1]);
        assert(queue_well_formed(init)) by {
            assert(forall|i: int| 0 <= i < init.len() ==> #[trigger] init[i] == q4w[i]);
        }
        lemma_queued_total_bounds(init, 0);
        assert(init.take(0) =~= Seq::<Q4W>::empty());
        if q4w.last().amount > shares {
            let last = Q4W { amount: (q4w.last().amount - shares) as i128, exp: q4w.last().exp };
            let left = init.push(last);
            assert(left.drop_last() =~= init);
            assert(left.last() == last);
            assert(queue_well_formed(left)) by {
                assert forall|i: int| 0 <= i < left.len() implies (#[trigger] left[i]).amount
                    >= 0 by {
                    if i < init.len() {
                        assert(left[i] == q4w[i]);
                    }
                }
            }
        } else if q4w.last().amount < shares {
            law_dequeue_takes_newest_first(init, shares - q4w.last().amount);
            if let Some(left) = spec_dequeue(init, shares - q4w.last().amount) {
                assert forall|i: int| 0 <= i < left.len() - 1 implies left[i]
                    == #[trigger] q4w[i] by {
                    assert(init[i] == q4w[i]);
                }
            }
        }
    }
}

/// Shares can be taken off the oldest end only where the queue holds them; what is
/// left holds that many fewer, and all its entries but the first are as before.
pub proof fn law_withdraw_takes_oldest_first(q4w: Seq<Q4W>, shares: int, now: u64)
    requires
        queue_well_formed(q4w),
        shares >= 0,
    ensures
        spec_withdraw(q4w, shares, now) matches Ok(left) ==> {
            let gone = q4w.len() - left.len();
            &&& shares <= queued_total(q4w)
            &&& queued_total(left) == queued_total(q4w) - shares
            &&& queue_well_formed(left)
            &&& left.len() <= q4w.len()
            &&& forall|i: int| 1 <= i < left.len() ==> #[trigger] left[i] == q4w[gone + i]
            &&& forall|i: int| 0 <= i < gone ==> (#[trigger] q4w[i]).exp <= now
        },
        spec_withdraw(q4w, shares, now) matches Err(error) ==> {
            ||| error == BackstopError::BalanceError && shares > queued_total(q4w)
            ||| error == BackstopError::NotExpired && exists|i: int|
                0 <= i < q4w.len() && (#[trigger] q4w[i]).exp > now
        },
    decreases q4w.len(),
{
    if q4w.len() > 0 {
        let rest = q4w.drop_first();
        lemma_queued_total_front(q4w);
        assert(queue_well_formed(rest)) by {
            assert(forall|i: int| 0 <= i < rest.len() ==> #[trigger] rest[i] == q4w[i + 1]);
        }
        lemma_queued_total_bounds(rest, 0);
        assert(rest.take(0) =~= Seq::<Q4W>::empty());
        if q4w[0].exp > now {
        } else if q4w[0].amount > shares {
            let first = Q4W { amount: (q4w[0].amount - shares) as i128, exp: q4w[0].exp };
            let left = q4w.update(0, first);
            lemma_queued_total_front(left);
            assert(left.drop_first() =~= rest);
            assert(queue_well_formed(left)) by {
                assert forall|i: int| 0 <= i < left.len() implies (#[trigger] left[i]).amount
                    >= 0 by {
                    if i > 0 {
                        assert(left[i] == q4w[i]);
                    }
                }
            }
        } else if q4w[0].amount < shares {
            law_withdraw_takes_oldest_first(rest, shares - q4w[0].amount, now);
            match spec_withdraw(rest, shares - q4w[0].amount, now) {
                Ok(left) => {
                    let gone = q4w.len() - left.len();
                    assert forall|i: int| 1 <= i < left.len() implies #[trigger] left[i]
                        == q4w[gone + i] by {
                        assert(left[i] == rest[gone - 1 + i]);
                    }
                    assert forall|i: int| 0 <= i < gone implies (#[trigger] q4w[i]).exp
                        <= now by {
                        if i > 0 {
                            assert(rest[i - 1].exp <= now);
                        }
                    }
                },
                Err(error) => {
                    if error == BackstopError::NotExpired && !(shares > queued_total(q4w) && error
                        == BackstopError::BalanceError) {
                        let i = choose|i: int|
                            0 <= i < rest.len() && (#[trigger] rest[i]).exp > now;
                        assert(q4w[i + 1].exp > now);
                    }
                },
            }
        }
    } else {
        assert(queued_total(q4w) == 0);
    }
}

/// A queue whose entries have all expired gives out all that it holds.
pub proof fn law_expired_shares_can_be_withdrawn(q4w: Seq<Q4W>, shares: int, now: u64)
    requires
        queue_well_formed(q4w),
        0 <= shares <= queued_total(q4w),
        forall|i: int| 0 <= i < q4w.len() ==> (#[trigger] q4w[i]).exp <= now,
    ensures
        spec_withdraw(q4w, shares, now) is Ok,
{
    law_withdraw_takes_oldest_first(q4w, shares, now);
}

impl UserBalance {
    /// No amount is negative.
    pub open spec fn well_formed(self) -> bool {
        self.shares >= 0 && queue_well_formed(self.q4w@)
    }

    /// All shares of the user, queued or not.
    pub open spec fn total(self) -> int {
        self.shares + queued_total(self.q4w@)
    }

    /// Add shares to the user.
    pub fn add_shares(&mut self, to_add: i128)
        requires
            fits_i128(old(self).shares + to_add),
        ensures
            final(self).shares == old(self).shares + to_add,
            final(self).q4w@ == old(self).q4w@,
    {
        self.shares = self.shares + to_add;
    }

    /// Queue shares of the user for withdrawal.
    pub fn queue_shares_for_withdrawal(&mut self, to_queue: i128, now: u64) -> (r: Result<
        (),
        BackstopError,
    >)
        requires
            old(self).shares < to_queue || fits_i128(old(self).shares - to_queue),
            now + Q4W_LOCK_TIME <= u64::MAX,
        ensures
            old(self).shares < to_queue ==> {
                &&& r == Err::<(), BackstopError>(BackstopError::BalanceError)
                &&& *final(self) == *old(self)
            },
            old(self).shares >= to_queue ==> {
                &&& r == Ok::<(), BackstopError>(())
                &&& final(self).shares == old(self).shares - to_queue
                &&& final(self).q4w@ == old(self).q4w@.push(
                    Q4W { amount: to_queue, exp: (now + Q4W_LOCK_TIME) as u64 },
                )
            },
    {
        if self.shares < to_queue {
            return Err(BackstopError::BalanceError);
        }
        self.shares = self.shares - to_queue;
        self.q4w.push(Q4W { amount: to_queue, exp: now + Q4W_LOCK_TIME });
        Ok(())
    }

    /// Take shares out of the withdrawal queue, the newest first.
    pub fn dequeue_shares(&mut self, to_dequeue: i128) -> (r: Result<(), BackstopError>)
        requires
            queue_well_formed(old(self).q4w@),
            to_dequeue >= 0,
        ensures
            match spec_dequeue(old(self).q4w@, to_dequeue as int) {
                None => {
                    &&& r == Err::<(), BackstopError>(BackstopError::BalanceError)
                    &&& *final(self) == *old(self)
                },
                Some(left) => {
                    &&& r == Ok::<(), BackstopError>(())
                    &&& final(self).shares == old(self).shares
                    &&& final(self).q4w@ == left
                },
            },
    {
        match dequeue(&self.q4w, to_dequeue) {
            None => Err(BackstopError::BalanceError),
            Some(left) => {
                self.q4w = left;
                Ok(())
            },
        }
    }

    /// Take expired shares out of the withdrawal queue, the oldest first.
    pub fn withdraw_shares(&mut self, to_withdraw: i128, now: u64) -> (r: Result<
        (),
        BackstopError,
    >)
        requires
            queue_well_formed(old(self).q4w@),
            to_withdraw >= 0,
        ensures
            match spec_withdraw(old(self).q4w@, to_withdraw as int, now) {
                Err(error) => {
                    &&& r == Err::<(), BackstopError>(error)
                    &&& *final(self) == *old(self)
                },
                Ok(left) => {
                    &&& r == Ok::<(), BackstopError>(())
                    &&& final(self).shares == old(self).shares
                    &&& final(self).q4w@ == left
                },
            },
    {
        match withdraw(&self.q4w, to_withdraw, now) {
            Err(error) => Err(error),
            Ok(left) => {
                self.q4w = left;
                Ok(())
            },
        }
    }
}

/// The entries of a queue from position `from` up to position `to`.
fn copy_entries(q4w: &Vec<Q4W>, from: usize, to: usize) -> (r: Vec<Q4W>)
    requires
        from <= to <= q4w@.len(),
    ensures
        r@ == q4w@.subrange(from as int, to as int),
{
    let mut copy: Vec<Q4W> = Vec::new();
    let mut index: usize = from;
    while index < to
        invariant
            from <= index <= to <= q4w@.len(),
            copy@ == q4w@.subrange(from as int, index as int),
        decreases to - index,
    {
        copy.push(q4w[index]);
        proof {
            assert(q4w@.subrange(from as int, index + 1) =~= q4w@.subrange(
                from as int,
                index as int,
            ).push(q4w@[index as int]));
        }
        index = index + 1;
    }
    copy
}

/// What is left of a queue once shares have been taken off its newest end.
pub fn dequeue(q4w: &Vec<Q4W>, to_dequeue: i128) -> (r: Option<Vec<Q4W>>)
    requires
        queue_well_formed(q4w@),
        to_dequeue >= 0,
    ensures
        match r {
            None => spec_dequeue(q4w@, to_dequeue as int) is None,
            Some(left) => spec_dequeue(q4w@, to_dequeue as int) == Some(left@),
        },
{
    let ghost queue = q4w@;
    let mut left: i128 = to_dequeue;
    let mut kept: usize = q4w.len();
    assert(queue.take(kept as int) =~= queue);
    while kept > 0 && q4w[kept - 1].amount < left
        invariant
            kept <= queue.len(),
            q4w@ == queue,
            queue_well_formed(queue),
            left >= 0,
            spec_dequeue(queue, to_dequeue as int) == spec_dequeue(
                queue.take(kept as int),
                left as int,
            ),
        decreases kept,
    {
        proof {
            assert(queue.take(kept as int).drop_last() =~= queue.take(kept - 1));
            assert(queue.take(kept as int).last() == queue[kept - 1]);
        }
        left = left - q4w[kept - 1].amount;
        kept = kept - 1;
    }
    if kept == 0 {
        assert(queue.take(0) =~= Seq::<Q4W>::empty());
        if left > 0 {
            return None;
        }
        return Some(Vec::new());
    }
    let last: Q4W = q4w[kept - 1];
    proof {
        assert(queue.take(kept as int).drop_last() =~= queue.subrange(0, kept - 1));
        assert(queue.take(kept as int).last() == last);
    }
    let mut remaining: Vec<Q4W> = copy_entries(q4w, 0, kept - 1);
    if last.amount > left {
        remaining.push(Q4W { amount: last.amount - left, exp: last.exp });
    }
    Some(remaining)
}

/// What is left of a queue once expired shares have been taken off its oldest end.
pub fn withdraw(q4w: &Vec<Q4W>, to_withdraw: i128, now: u64) -> (r: Result<
    Vec<Q4W>,
    BackstopError,
>)
    requires
        queue_well_formed(q4w@),
        to_withdraw >= 0,
    ensures
        match r {
            Err(error) => spec_withdraw(q4w@, to_withdraw as int, now) == Err::<
                Seq<Q4W>,
                BackstopError,
            >(error),
            Ok(left) => spec_withdraw(q4w@, to_withdraw as int, now) == Ok::<
                Seq<Q4W>,
                BackstopError,
            >(left@),
        },
{
    let ghost queue = q4w@;
    let mut left: i128 = to_withdraw;
    let mut gone: usize = 0;
    assert(queue.skip(0) =~= queue);
    while gone < q4w.len() && q4w[gone].exp <= now && q4w[gone].amount < left
        invariant
            gone <= queue.len(),
            q4w@ == queue,
            queue_well_formed(queue),
            left >= 0,
            spec_withdraw(queue, to_withdraw as int, now) == spec_withdraw(
                queue.skip(gone as int),
                left as int,
                now,
            ),
        decreases queue.len() - gone,
    {
        proof {
            let rest = queue.skip(gone as int);
            assert(rest[0] == queue[gone as int]);
            assert(rest.drop_first() =~= queue.skip(gone + 1));
        }
        left = left - q4w[gone].amount;
        gone = gone + 1;
    }
    let ghost rest = queue.skip(gone as int);
    if gone == q4w.len() {
        assert(rest =~= Seq::<Q4W>::empty());
        if left > 0 {
            return Err(BackstopError::BalanceError);
        }
        return Ok(Vec::new());
    }
    let first: Q4W = q4w[gone];
    assert(rest[0] == first);
    if first.exp > now {
        return Err(BackstopError::NotExpired);
    }
    if first.amount > left {
        let mut remaining: Vec<Q4W> = copy_entries(q4w, gone, q4w.len());
        remaining.set(0, Q4W { amount: first.amount - left, exp: first.exp });
        assert(remaining@ =~= rest.update(
            0,
            Q4W { amount: (first.amount - left) as i128, exp: first.exp },
        ));
        Ok(remaining)
    } else {
        let remaining: Vec<Q4W> = copy_entries(q4w, gone + 1, q4w.len());
        assert(remaining@ =~= rest.drop_first());
        Ok(remaining)
    }
}

/// The shares at the front of a queue that have expired.
pub open spec fn spec_matured(q4w: Seq<Q4W>, now: u64) -> int
    decreases q4w.len(),
{
    if q4w.len() == 0 || q4w[0].exp > now {
        0
    } else {
        q4w[0].amount + spec_matured(q4w.drop_first(), now)
    }
}

/// The matured shares of a queue are part of what it holds.
pub proof fn lemma_matured_bounds(q4w: Seq<Q4W>, now: u64)
    requires
        queue_well_formed(q4w),
    ensures
        0 <= spec_matured(q4w, now) <= queued_total(q4w),
    decreases q4w.len(),
{
    if q4w.len() > 0 {
        let rest = q4w.drop_first();
        lemma_queued_total_front(q4w);
        assert(queue_well_formed(rest)) by {
            assert(forall|i: int| 0 <= i < rest.len() ==> #[trigger] rest[i] == q4w[i + 1]);
        }
        lemma_matured_bounds(rest, now);
    }
}

/// The matured shares are those of the entries in front that have expired, up to the first
/// that has not.
pub proof fn law_matured_shares_are_the_expired_front(q4w: Seq<Q4W>, now: u64)
    requires
        queue_well_formed(q4w),
    ensures
        0 <= spec_matured(q4w, now) <= queued_total(q4w),
        exists|n: int|
            {
                &&& 0 <= n <= q4w.len()
                &&& forall|i: int| 0 <= i < n ==> (#[trigger] q4w[i]).exp <= now
                &&& n < q4w.len() ==> q4w[n].exp > now
                &&& spec_matured(q4w, now) == #[trigger] queued_total(q4w.take(n))
            },
    decreases q4w.len(),
{
    lemma_matured_bounds(q4w, now);
    if q4w.len() == 0 || q4w[0].exp > now {
        assert(q4w.take(0) =~= Seq::<Q4W>::empty());
        assert(spec_matured(q4w, now) == queued_total(q4w.take(0)));
    } else {
        let rest = q4w.drop_first();
        assert(forall|i: int| 0 <= i < rest.len() ==> #[trigger] rest[i] == q4w[i + 1]);
        law_matured_shares_are_the_expired_front(rest, now);
        let m = choose|n: int|
            {
                &&& 0 <= n <= rest.len()
                &&& forall|i: int| 0 <= i < n ==> (#[trigger] rest[i]).exp <= now
                &&& n < rest.len() ==> rest[n].exp > now
                &&& spec_matured(rest, now) == #[trigger] queued_total(rest.take(n))
            };
        let n = m + 1;
        lemma_queued_total_front(q4w.take(n));
        assert(q4w.take(n).drop_first() =~= rest.take(m));
        assert forall|i: int| 0 <= i < n implies (#[trigger] q4w[i]).exp <= now by {
            if i > 0 {
                assert(rest[i - 1] == q4w[i]);
            }
        }
        if n < q4w.len() {
            assert(rest[m] == q4w[n]);
        }
        assert(spec_matured(q4w, now) == queued_total(q4w.take(n)));
    }
}

/// A withdrawal of some shares is owed exactly where as many have matured, and an entry that
/// is withdrawn in part keeps its time.
pub proof fn law_matured_shares_are_owed(q4w: Seq<Q4W>, shares: int, now: u64)
    requires
        queue_well_formed(q4w),
        shares > 0,
    ensures
        spec_withdraw(q4w, shares, now) is Ok <==> shares <= spec_matured(q4w, now),
        spec_withdraw(q4w, shares, now) matches Ok(left) ==> {
            let gone = q4w.len() - left.len();
            &&& gone >= 0
            &&& left.len() > 0 ==> left[0].exp == q4w[gone].exp && left[0].amount
                <= q4w[gone].amount
        },
    decreases q4w.len(),
{
    if q4w.len() > 0 && q4w[0].exp <= now {
        let rest = q4w.drop_first();
        assert(forall|i: int| 0 <= i < rest.len() ==> #[trigger] rest[i] == q4w[i + 1]);
        lemma_matured_bounds(rest, now);
        if q4w[0].amount < shares {
            law_matured_shares_are_owed(rest, shares - q4w[0].amount, now);
            if let Ok(left) = spec_withdraw(q4w, shares, now) {
                let gone = q4w.len() - left.len();
                if left.len() > 0 {
                    assert(rest[rest.len() - left.len()] == q4w[gone]);
                }
            }
        }
    }
}

/// Every matured share of a queue can be withdrawn at once.
pub proof fn law_matured_shares_can_be_withdrawn(q4w: Seq<Q4W>, now: u64)
    requires
        queue_well_formed(q4w),
        q4w.len() > 0 ==> q4w[0].exp <= now,
    ensures
        spec_withdraw(q4w, spec_matured(q4w, now), now) is Ok,
    decreases q4w.len(),
{
    if q4w.len() > 0 {
        let rest = q4w.drop_first();
        assert(queue_well_formed(rest)) by {
            assert(forall|i: int| 0 <= i < rest.len() ==> #[trigger] rest[i] == q4w[i + 1]);
        }
        lemma_matured_bounds(rest, now);
        if spec_matured(rest, now) > 0 {
            law_matured_shares_can_be_withdrawn(rest, now);
        }
    }
}

/// The shares at the front of a queue that have expired.
pub fn matured(q4w: &Vec<Q4W>, now: u64) -> (r: i128)
    requires
        queue_well_formed(q4w@),
        queued_total(q4w@) <= i128::MAX,
    ensures
        r == spec_matured(q4w@, now),
{
    let mut total: i128 = 0;
    let mut index: usize = 0;
    assert(q4w@.skip(0) =~= q4w@);
    proof {
        lemma_matured_bounds(q4w@, now);
    }
    while index < q4w.len() && q4w[index].exp <= now
        invariant
            index <= q4w@.len(),
            queue_well_formed(q4w@),
            total >= 0,
            spec_matured(q4w@, now) <= i128::MAX,
            spec_matured(q4w@, now) == total + spec_matured(q4w@.skip(index as int), now),
        decreases q4w@.len() - index,
    {
        proof {
            let rest = q4w@.skip(index as int);
            assert(rest[0] == q4w@[index as int]);
            assert(rest.drop_first() =~= q4w@.skip(index + 1));
            assert(queue_well_formed(rest.drop_first())) by {
                assert(forall|i: int|
                    0 <= i < rest.drop_first().len() ==> #[trigger] rest.drop_first()[i] == q4w@[i
                        + index + 1]);
            }
            lemma_matured_bounds(rest.drop_first(), now);
        }
        total = total + q4w[index].amount;
        index = index + 1;
    }
    total
}

/// Queueing shares and taking them back out of the queue leaves the queue as it was.
pub proof fn law_dequeue_undoes_queueing(q4w: Seq<Q4W>, shares: i128, exp: u64)
    ensures
        spec_dequeue(q4w.push(Q4W { amount: shares, exp }), shares as int) == Some(q4w),
{
    let pushed = q4w.push(Q4W { amount: shares, exp });
    assert(pushed.drop_last() =~= q4w);
}

} // verus!
