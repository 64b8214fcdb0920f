use vstd::prelude::*;

use crate::model::{
    increase_reserve_step, set_maximum_bet_percent_step, set_maximum_bet_step,
    set_minimum_block_bounty_step, transfer_outcome, update_outcome, withdraw_reserve_step,
};
use crate::laws::{law_increase_reserve, law_setters, law_withdraw_reserve};
use crate::storage::{FlipStorage, StorageModule};
use crate::structs::{copy_bytes, FlipError, Payment, Transfer};
use crate::token_map::same_bytes;

verus! {

/// The endpoints that fund and configure the contract.
pub trait AdminModule: StorageModule {
    /// `increaseReserve`: adds the payment to the reserve of its token.
    fn increase_reserve(&mut self, payment: &Payment) -> (r: Result<(), FlipError>)
        requires
            old(self).well_formed(),
        ensures
            final(self).well_formed(),
            update_outcome(r, final(self)@) == increase_reserve_step(old(self)@, payment@),
            r is Err ==> final(self)@ == old(self)@,
    ;

    /// `withdrawReserve`: the owner takes tokens out of a reserve; returns what is sent.
    fn withdraw_reserve(
        &mut self,
        caller: &Vec<u8>,
        token_identifier: &Vec<u8>,
        token_nonce: u64,
        amount: Option<u128>,
    ) -> (r: Result<Transfer, FlipError>)
        requires
            old(self).well_formed(),
        ensures
            final(self).well_formed(),
            transfer_outcome(r, final(self)@) == withdraw_reserve_step(
                old(self)@,
                caller@,
                token_identifier@,
                token_nonce,
                amount,
            ),
            r is Err ==> final(self)@ == old(self)@,
    ;

    /// `setMaximumBetPercent`: the owner sets a token's maximum bet as a share of its reserve.
    fn set_maximum_bet_percent(
        &mut self,
        caller: &Vec<u8>,
        token_identifier: &Vec<u8>,
        token_nonce: u64,
        percent: u64,
    ) -> (r: Result<(), FlipError>)
        requires
            old(self).well_formed(),
        ensures
            final(self).well_formed(),
            update_outcome(r, final(self)@) == set_maximum_bet_percent_step(
                old(self)@,
                caller@,
                token_identifier@,
                token_nonce,
                percent,
            ),
            r is Err ==> final(self)@ == old(self)@,
    ;

    /// `setMaximumBet`: the owner sets a token's maximum bet.
    fn set_maximum_bet(
        &mut self,
        caller: &Vec<u8>,
        token_identifier: &Vec<u8>,
        token_nonce: u64,
        amount: u128,
    ) -> (r: Result<(), FlipError>)
        requires
            old(self).well_formed(),
        ensures
            final(self).well_formed(),
            update_outcome(r, final(self)@) == set_maximum_bet_step(
                old(self)@,
                caller@,
                token_identifier@,
                token_nonce,
                amount,
            ),
            r is Err ==> final(self)@ == old(self)@,
    ;

    /// `setMinimumBlockBounty`: the owner sets how long a flip waits before it is drawn.
    fn set_minimum_block_bounty(&mut self, caller: &Vec<u8>, minimum_block_bounty: u64) -> (r:
        Result<(), FlipError>)
        requires
            old(self).well_formed(),
        ensures
            final(self).well_formed(),
            update_outcome(r, final(self)@) == set_minimum_block_bounty_step(
                old(self)@,
                caller@,
                minimum_block_bounty,
            ),
            r is Err ==> final(self)@ == old(self)@,
    ;
}

impl AdminModule for FlipStorage {
    fn increase_reserve(&mut self, payment: &Payment) -> (r: Result<(), FlipError>) {
        proof {
            old(self).lemma_well_formed();
        }
        if payment.amount == 0 {
            return Err(FlipError::ZeroPayment);
        }
        let reserve = self.token_reserve(&payment.token_identifier, payment.token_nonce);
        match reserve.checked_add(payment.amount) {
            None => Err(FlipError::Overflow),
            Some(new_reserve) => {
                self.write_token_reserve(&payment.token_identifier, payment.token_nonce, new_reserve);
                proof {
                    law_increase_reserve(old(self)@, payment@, (Seq::<u8>::empty(), 0u64));
                    self.lemma_well_formed();
                }
                Ok(())
            },
        }
    }

    fn withdraw_reserve(
        &mut self,
        caller: &Vec<u8>,
        token_identifier: &Vec<u8>,
        token_nonce: u64,
        amount: Option<u128>,
    ) -> (r: Result<Transfer, FlipError>) {
        proof {
            old(self).lemma_well_formed();
        }
        if !same_bytes(caller, self.owner_address()) {
            return Err(FlipError::NotOwner);
        }
        let reserve = self.token_reserve(token_identifier, token_nonce);
        let withdraw_amount = match amount {
            Some(a) => a,
            None => reserve,
        };
        if withdraw_amount == 0 {
            return Err(FlipError::InvalidWithdrawAmount);
        }
        if withdraw_amount > reserve {
            return Err(FlipError::AmountTooHigh);
        }
        self.write_token_reserve(token_identifier, token_nonce, reserve - withdraw_amount);
        proof {
            law_withdraw_reserve(old(self)@, caller@, token_identifier@, token_nonce, amount, (Seq::<u8>::empty(), 0u64));
            self.lemma_well_formed();
        }
        Ok(
            Transfer {
                to: copy_bytes(caller),
                token_identifier: copy_bytes(token_identifier),
                token_nonce,
                amount: withdraw_amount,
            },
        )
    }

    fn set_maximum_bet_percent(
        &mut self,
        caller: &Vec<u8>,
        token_identifier: &Vec<u8>,
        token_nonce: u64,
        percent: u64,
    ) -> (r: Result<(), FlipError>) {
        if !same_bytes(caller, self.owner_address()) {
            return Err(FlipError::NotOwner);
        }
        if percent == 0 {
            return Err(FlipError::PercentZero);
        }
        proof {
            old(self).lemma_well_formed();
        }
        self.write_maximum_bet_percent(token_identifier, token_nonce, percent);
        proof {
            law_setters(old(self)@, caller@, token_identifier@, token_nonce, percent, 1, 1, (Seq::<u8>::empty(), 0u64));
            self.lemma_well_formed();
        }
        Ok(())
    }

    fn set_maximum_bet(
        &mut self,
        caller: &Vec<u8>,
        token_identifier: &Vec<u8>,
        token_nonce: u64,
        amount: u128,
    ) -> (r: Result<(), FlipError>) {
        if !same_bytes(caller, self.owner_address()) {
            return Err(FlipError::NotOwner);
        }
        if amount == 0 {
            return Err(FlipError::AmountZero);
        }
        proof {
            old(self).lemma_well_formed();
        }
        self.write_maximum_bet(token_identifier, token_nonce, amount);
        proof {
            law_setters(old(self)@, caller@, token_identifier@, token_nonce, 1, amount, 1, (Seq::<u8>::empty(), 0u64));
            self.lemma_well_formed();
        }
        Ok(())
    }

    fn set_minimum_block_bounty(&mut self, caller: &Vec<u8>, minimum_block_bounty: u64) -> (r:
        Result<(), FlipError>) {
        if !same_bytes(caller, self.owner_address()) {
            return Err(FlipError::NotOwner);
        }
        if minimum_block_bounty == 0 {
            return Err(FlipError::MinimumBlockBountyZero);
        }
        proof {
            old(self).lemma_well_formed();
        }
        self.write_minimum_block_bounty(minimum_block_bounty);
        proof {
            law_setters(old(self)@, caller@, Seq::<u8>::empty(), 0, 1, 1, minimum_block_bounty, (Seq::<u8>::empty(), 0u64));
            self.lemma_well_formed();
        }
        Ok(())
    }
}

} // verus!
