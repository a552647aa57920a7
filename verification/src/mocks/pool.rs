//! A lending pool reduced to its positions.

use std::collections::HashMap;
use vstd::prelude::*;

use crate::Address;

verus! {

broadcast use vstd::std_specs::hash::group_hash_axioms;

/// The positions of one account, by reserve index.
#[derive(Debug)]
pub struct Positions {
    pub liabilities: Vec<(u32, i128)>,
    pub collateral: Vec<(u32, i128)>,
    pub supply: Vec<(u32, i128)>,
}

/// A lending pool reduced to its positions.
pub struct MockPool {
    pub backstop: Option<Address>,
    pub positions: HashMap<u64, Positions>,
}

/// Whether an account owes nothing.
pub open spec fn debt_free(positions: Map<u64, Positions>, address: Address) -> bool {
    positions.contains_key(address) ==> positions[address].liabilities@.len() == 0
}

fn copy_balances(balances: &Vec<(u32, i128)>) -> (r: Vec<(u32, i128)>)
    ensures
        r@ == balances@,
{
    let mut copy: Vec<(u32, i128)> = Vec::new();
    let mut index: usize = 0;
    while index < balances.len()
        invariant
            index <= balances@.len(),
            copy@ == balances@.take(index as int),
        decreases balances@.len() - index,
    {
        copy.push(balances[index]);
        assert(balances@.take(index + 1) =~= balances@.take(index as int).push(
            balances@[index as int],
        ));
        index = index + 1;
    }
    assert(balances@.take(index as int) =~= balances@);
    copy
}

impl MockPool {
    /// Name the pool's backstop.
    pub fn set_backstop(&mut self, backstop: Address)
        ensures
            final(self).backstop == Some(backstop),
            final(self).positions@ == old(self).positions@,
    {
        self.backstop = Some(backstop);
    }

    /// Set the positions of an account.
    pub fn set_positions(&mut self, address: Address, positions: Positions)
        ensures
            final(self).backstop == old(self).backstop,
            final(self).positions@ == old(self).positions@.insert(address, positions),
    {
        self.positions.insert(address, positions);
    }

    /// The positions of an account; none where it was never set.
    pub fn get_positions(&self, address: Address) -> (r: Positions)
        ensures
            if self.positions@.contains_key(address) {
                &&& r.liabilities@ == self.positions@[address].liabilities@
                &&& r.collateral@ == self.positions@[address].collateral@
                &&& r.supply@ == self.positions@[address].supply@
            } else {
                r.liabilities@.len() == 0 && r.collateral@.len() == 0 && r.supply@.len() == 0
            },
    {
        match self.positions.get(&address) {
            Some(positions) => Positions {
                liabilities: copy_balances(&positions.liabilities),
                collateral: copy_balances(&positions.collateral),
                supply: copy_balances(&positions.supply),
            },
            None => Positions {
                liabilities: Vec::new(),
                collateral: Vec::new(),
                supply: Vec::new(),
            },
        }
    }

    /// Whether withdrawals from a backstop are allowed: it is the pool's, and it owes nothing.
    pub fn backstop_withdrawal_allowed(&self, backstop: Address) -> (r: bool)
        ensures
            r <==> self.backstop == Some(backstop) && debt_free(self.positions@, backstop),
    {
        let is_configured: bool = match self.backstop {
            Some(configured) => configured == backstop,
            None => false,
        };
        is_configured && self.get_positions(backstop).liabilities.len() == 0
    }
}

} // verus!
