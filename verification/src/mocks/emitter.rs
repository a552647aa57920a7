//! An emitter that pays whoever it was told to.

use std::collections::HashMap;
use vstd::prelude::*;

use crate::constants::SCALAR_7;
use crate::math::fits_i128;
use crate::Address;

verus! {

broadcast use vstd::std_specs::hash::group_hash_axioms;

/// The most that one drop may pay.
pub const MAX_DROP: i128 = 500_000_000_000_000;

/// Errors of the stand-in.
#[derive(Clone, Copy, Debug, PartialEq, Eq, Structural)]
pub enum EmitterError {
    AlreadyInitializedError,
    BadDrop,
}

impl EmitterError {
    /// The number under which the contract reports the error.
    pub fn code(self) -> (r: u32)
        ensures
            r == match self {
                EmitterError::AlreadyInitializedError => 3u32,
                EmitterError::BadDrop => 1101u32,
            },
    {
        match self {
            EmitterError::AlreadyInitializedError => 3,
            EmitterError::BadDrop => 1101,
        }
    }
}

/// Who the emitter pays, and in what.
#[derive(Clone, Copy, Debug, PartialEq, Eq, Structural)]
pub struct EmitterBinding {
    pub blnd_token: Address,
    pub backstop: Address,
    pub backstop_token: Address,
}

/// An emitter that pays whoever it was told to.
pub struct MockEmitter {
    pub binding: Option<EmitterBinding>,
    /// The last distribution to each backstop.
    pub last_distro: HashMap<u64, u64>,
    /// The backstops that have dropped.
    pub dropped: HashMap<u64, bool>,
}

/// The sum of a drop list.
pub open spec fn list_sum(list: Seq<(Address, i128)>) -> int
    decreases list.len(),
{
    if list.len() == 0 {
        0
    } else {
        list_sum(list.drop_last()) + list.last().1
    }
}

impl MockEmitter {
    /// The backstop that the emitter pays has a last distribution on record.
    pub open spec fn well_formed(self) -> bool {
        self.binding matches Some(binding) ==> self.last_distro@.contains_key(binding.backstop)
    }

    /// Whether a backstop has dropped.
    pub open spec fn has_dropped(self, backstop: Address) -> bool {
        self.dropped@.contains_key(backstop) && self.dropped@[backstop]
    }

    /// Tell the emitter whom to pay, once.
    pub fn initialize(
        &mut self,
        blnd_token: Address,
        backstop: Address,
        backstop_token: Address,
        now: u64,
    ) -> (r: Result<(), EmitterError>)
        ensures
            if old(self).binding is Some {
                &&& r == Err::<(), EmitterError>(EmitterError::AlreadyInitializedError)
                &&& *final(self) == *old(self)
            } else {
                &&& r == Ok::<(), EmitterError>(())
                &&& final(self).binding == Some(
                    EmitterBinding { blnd_token, backstop, backstop_token },
                )
                &&& final(self).last_distro@ == old(self).last_distro@.insert(backstop, now)
                &&& final(self).dropped@ == old(self).dropped@
                &&& final(self).well_formed()
            },
    {
        if self.binding.is_some() {
            return Err(EmitterError::AlreadyInitializedError);
        }
        self.binding = Some(EmitterBinding { blnd_token, backstop, backstop_token });
        self.last_distro.insert(backstop, now);
        Ok(())
    }

    /// The backstop that the emitter pays.
    pub fn get_backstop(&self) -> (r: Address)
        requires
            self.binding is Some,
        ensures
            r == self.binding->Some_0.backstop,
    {
        self.binding.unwrap().backstop
    }

    /// The last distribution to a backstop.
    pub fn get_last_distro(&self, backstop_id: Address) -> (r: u64)
        requires
            self.last_distro@.contains_key(backstop_id),
        ensures
            r == self.last_distro@[backstop_id],
    {
        *self.last_distro.get(&backstop_id).unwrap()
    }

    /// The amount to mint to the backstop: one token for each second since the last time.
    pub fn distribute(&mut self, now: u64) -> (r: i128)
        requires
            old(self).binding is Some,
            old(self).well_formed(),
            old(self).last_distro@[old(self).binding->Some_0.backstop] <= now,
        ensures
            r == (now - old(self).last_distro@[old(self).binding->Some_0.backstop]) * SCALAR_7,
            final(self).binding == old(self).binding,
            final(self).last_distro@ == old(self).last_distro@.insert(
                old(self).binding->Some_0.backstop,
                now,
            ),
            final(self).dropped@ == old(self).dropped@,
            final(self).well_formed(),
    {
        let backstop: Address = self.get_backstop();
        let elapsed: u64 = now - self.get_last_distro(backstop);
        self.last_distro.insert(backstop, now);
        elapsed as i128 * SCALAR_7
    }

    /// Check a drop list, which is then minted entry by entry, and mark the drop as done.
    pub fn drop(&mut self, list: &Vec<(Address, i128)>) -> (r: Result<(), EmitterError>)
        requires
            old(self).binding is Some,
            forall|n: int| 0 <= n <= list@.len() ==> fits_i128(#[trigger] list_sum(list@.take(n))),
        ensures
            ({
                let backstop = old(self).binding->Some_0.backstop;
                if old(self).has_dropped(backstop) || list_sum(list@) > MAX_DROP {
                    &&& r == Err::<(), EmitterError>(EmitterError::BadDrop)
                    &&& *final(self) == *old(self)
                } else {
                    &&& r == Ok::<(), EmitterError>(())
                    &&& final(self).binding == old(self).binding
                    &&& final(self).last_distro@ == old(self).last_distro@
                    &&& final(self).dropped@ == old(self).dropped@.insert(backstop, true)
                }
            }),
    {
        let backstop: Address = self.get_backstop();
        let dropped: bool = match self.dropped.get(&backstop) {
            Some(dropped) => *dropped,
            None => false,
        };
        if dropped {
            return Err(EmitterError::BadDrop);
        }
        let mut total: i128 = 0;
        let mut index: usize = 0;
        while index < list.len()
            invariant
                index <= list@.len(),
                total == list_sum(list@.take(index as int)),
                forall|n: int|
                    0 <= n <= list@.len() ==> fits_i128(#[trigger] list_sum(list@.take(n))),
            decreases list@.len() - index,
        {
            proof {
                let next = list@.take(index + 1);
                assert(next.drop_last() =~= list@.take(index as int));
                assert(next.last() == list@[index as int]);
                assert(fits_i128(list_sum(next)));
            }
            total = total + list[index].1;
            index = index + 1;
        }
        assert(list@.take(index as int) =~= list@);
        if total > MAX_DROP {
            return Err(EmitterError::BadDrop);
        }
        self.dropped.insert(backstop, true);
        Ok(())
    }
}

} // verus!
