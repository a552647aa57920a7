//! The emitter's records and its initialization.

use vstd::prelude::*;

use super::emitter::{execute_distribute, spec_distribution};
use super::errors::EmitterError;
use crate::Address;

verus! {

/// What the emission token's contract says of itself.
#[derive(Clone, Copy, Debug, PartialEq, Eq, Structural)]
pub struct EmissionToken {
    pub address: Address,
    /// Whether it is a Stellar asset contract.
    pub is_stellar_asset: bool,
    pub decimals: u32,
    /// Who administers it.
    pub admin: Address,
}

/// The emitter's records.
#[derive(Clone, Copy, Debug, PartialEq, Eq, Structural)]
pub struct EmitterContract {
    pub address: Address,
    pub is_init: bool,
    pub emission_token: Address,
    pub backstop: Address,
    pub initial_backstop: Address,
    pub backstop_token: Address,
    /// The last distribution to the current backstop.
    pub last_distro_time: u64,
}

/// Whether a token can be emitted: a Stellar asset with 7 decimals that the
/// emitter itself administers.
pub open spec fn emittable(token: EmissionToken, emitter: Address) -> bool {
    token.is_stellar_asset && token.decimals == 7 && token.admin == emitter
}

impl EmitterContract {
    /// Initialize the emitter, once.
    pub fn initialize(
        &mut self,
        token: &EmissionToken,
        backstop: Address,
        backstop_token: Address,
        now: u64,
    ) -> (r: Result<(), EmitterError>)
        ensures
            if old(self).is_init {
                &&& r == Err::<(), EmitterError>(EmitterError::AlreadyInitializedError)
                &&& *final(self) == *old(self)
            } else if !emittable(*token, old(self).address) {
                &&& r == Err::<(), EmitterError>(EmitterError::InvalidEmissionToken)
                &&& *final(self) == *old(self)
            } else {
                &&& r == Ok::<(), EmitterError>(())
                &&& *final(self) == (EmitterContract {
                    address: old(self).address,
                    is_init: true,
                    emission_token: token.address,
                    backstop,
                    initial_backstop: backstop,
                    backstop_token,
                    last_distro_time: now,
                })
            },
    {
        if self.is_init {
            return Err(EmitterError::AlreadyInitializedError);
        }
        if !token.is_stellar_asset || token.decimals != 7 || token.admin != self.address {
            return Err(EmitterError::InvalidEmissionToken);
        }
        self.emission_token = token.address;
        self.backstop = backstop;
        self.initial_backstop = backstop;
        self.backstop_token = backstop_token;
        self.last_distro_time = now;
        self.is_init = true;
        Ok(())
    }

    /// Distribute to the current backstop: the amount that has to be minted to it.
    pub fn distribute(&mut self, now: u64) -> (r: i128)
        requires
            old(self).last_distro_time <= now,
        ensures
            r == spec_distribution(old(self).last_distro_time, now),
            *final(self) == (EmitterContract { last_distro_time: now, ..*old(self) }),
    {
        let mut last_distro_time: u64 = self.last_distro_time;
        let amount: i128 = execute_distribute(&mut last_distro_time, now);
        self.last_distro_time = last_distro_time;
        amount
    }
}

} // verus!
