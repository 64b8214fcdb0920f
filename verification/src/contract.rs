use vstd::prelude::*;

use crate::admin::AdminModule;
use crate::model::{
    after_transfers, bounty_draws, flip_bounty_step, flip_step, fresh_model, init_step,
    make_flip_step,
    transfer_outcome, transfers_outcome, update_outcome, ContractModel,
};
use crate::laws::{law_deploy, law_flip, law_flip_bounty, law_init};
use crate::percent::checked_percent_of;
use crate::token_map::same_bytes;
use crate::storage::{FlipStorage, StorageModule};
use crate::structs::{copy_bytes, transfers_view, Flip, FlipError, Payment, Transfer, TransferView};

verus! {

/// The endpoints with which players bet and bets are drawn.
pub trait FlipContract: StorageModule + AdminModule {
    /// `init`, run by the owner's deployment or upgrade: sets the owner's and the bounty's
    /// fees and the minimum block bounty.
    fn init(
        &mut self,
        caller: &Vec<u8>,
        owner_percent_fees: u64,
        bounty_percent_fees: u64,
        minimum_block_bounty: u64,
    ) -> (r: Result<(), FlipError>)
        requires
            old(self).well_formed(),
        ensures
            final(self).well_formed(),
            update_outcome(r, final(self)@) == init_step(
                old(self)@,
                caller@,
                owner_percent_fees,
                bounty_percent_fees,
                minimum_block_bounty,
            ),
            r is Err ==> final(self)@ == old(self)@,
    ;

    /// `flip`: `caller` bets `payment` at block `block_nonce`; returns the owner's fee, which
    /// is sent at once in the payment's token.
    fn flip(&mut self, caller: &Vec<u8>, block_nonce: u64, payment: &Payment) -> (r: Result<
        Transfer,
        FlipError,
    >)
        requires
            old(self).well_formed(),
        ensures
            final(self).well_formed(),
            transfer_outcome(r, final(self)@) == flip_step(
                old(self)@,
                caller@,
                block_nonce,
                payment@,
            ),
            r is Err ==> final(self)@ == old(self)@,
    ;

    /// `flipBounty`: `caller` draws the pending flips that are old enough at block
    /// `block_nonce`; the k-th flip it draws uses `random_numbers[k]`, a number drawn at random
    /// from `{0, 1}`. Returns what is sent, in order.
    fn flip_bounty(
        &mut self,
        caller: &Vec<u8>,
        caller_is_smart_contract: bool,
        block_nonce: u64,
        random_numbers: &Vec<u8>,
    ) -> (r: Result<Vec<Transfer>, FlipError>)
        requires
            old(self).well_formed(),
            random_numbers@.len() + old(self)@.last_bounty_flip_id >= old(self)@.last_flip_id,
        ensures
            final(self).well_formed(),
            transfers_outcome(r, final(self)@) == flip_bounty_step(
                old(self)@,
                caller@,
                caller_is_smart_contract,
                block_nonce,
                random_numbers@,
            ),
            r is Err ==> final(self)@ == old(self)@,
    ;
}

proof fn lemma_after_transfers_twice(
    a: Seq<TransferView>,
    b: Seq<TransferView>,
    rest: crate::model::Draws,
)
    ensures
        after_transfers(a, after_transfers(b, rest)) == after_transfers(a + b, rest),
{
    match rest {
        Ok((m, ts, n)) => {
            assert(a + (b + ts) =~= (a + b) + ts);
        },
        Err(_) => {},
    }
}

proof fn lemma_transfers_view_append(a: Seq<Transfer>, b: Seq<Transfer>)
    ensures
        transfers_view(a + b) == transfers_view(a) + transfers_view(b),
{
    assert(transfers_view(a + b) =~= transfers_view(a) + transfers_view(b));
}

impl FlipStorage {
    /// Deploys a contract for `owner`: creates its storage and runs `init` with the given
    /// fees and minimum block bounty.
    pub fn deploy(
        owner: &Vec<u8>,
        owner_percent_fees: u64,
        bounty_percent_fees: u64,
        minimum_block_bounty: u64,
    ) -> (r: Result<FlipStorage, FlipError>)
        ensures
            match r {
                Ok(s) => s.well_formed() && init_step(
                    fresh_model(owner@),
                    owner@,
                    owner_percent_fees,
                    bounty_percent_fees,
                    minimum_block_bounty,
                ) == Ok::<ContractModel, FlipError>(s@),
                Err(e) => init_step(
                    fresh_model(owner@),
                    owner@,
                    owner_percent_fees,
                    bounty_percent_fees,
                    minimum_block_bounty,
                ) == Err::<ContractModel, FlipError>(e),
            },
    {
        if minimum_block_bounty == 0 {
            return Err(FlipError::InitMinimumBlockBountyZero);
        }
        let mut s = FlipStorage::new(owner);
        s.write_fees(owner_percent_fees, bounty_percent_fees);
        s.write_minimum_block_bounty(minimum_block_bounty);
        proof {
            law_deploy(
                owner@,
                owner_percent_fees,
                bounty_percent_fees,
                minimum_block_bounty,
                (Seq::<u8>::empty(), 0u64),
            );
            s.lemma_well_formed();
        }
        Ok(s)
    }

    /// Draws `flip` with `random_number`, a number drawn at random from `{0, 1}`; returns
    /// what is sent: the bounty to `bounty_address`, and on a win the prize to the player.
    pub(crate) fn make_flip(&mut self, bounty_address: &Vec<u8>, flip: &Flip, random_number: u8) -> (r:
        Result<Vec<Transfer>, FlipError>)
        requires
            old(self).maps_wf(),
        ensures
            final(self).maps_wf(),
            transfers_outcome(r, final(self)@) == make_flip_step(
                old(self)@,
                bounty_address@,
                flip@,
                random_number,
            ),
            r is Err ==> final(self)@ == old(self)@,
    {
        let is_win = random_number == 1;
        let profit_if_win = match flip.amount.checked_mul(2) {
            Some(v) => v,
            None => {
                return Err(FlipError::Overflow);
            },
        };
        let mut transfers: Vec<Transfer> = Vec::new();
        transfers.push(
            Transfer {
                to: copy_bytes(bounty_address),
                token_identifier: copy_bytes(&flip.token_identifier),
                token_nonce: flip.token_nonce,
                amount: flip.bounty,
            },
        );
        if is_win {
            transfers.push(
                Transfer {
                    to: copy_bytes(&flip.player_address),
                    token_identifier: copy_bytes(&flip.token_identifier),
                    token_nonce: flip.token_nonce,
                    amount: profit_if_win,
                },
            );
        } else {
            let reserve = self.reserve_of(&flip.token_identifier, flip.token_nonce);
            match reserve.checked_add(profit_if_win) {
                Some(new_reserve) => {
                    self.write_token_reserve(&flip.token_identifier, flip.token_nonce, new_reserve);
                },
                None => {
                    return Err(FlipError::Overflow);
                },
            }
        }
        self.clear_flip(flip.id);
        assert(transfers_view(transfers@) =~= make_flip_step(
            old(self)@,
            bounty_address@,
            flip@,
            random_number,
        )->Ok_0.1);
        Ok(transfers)
    }
}

impl FlipContract for FlipStorage {
    fn init(
        &mut self,
        caller: &Vec<u8>,
        owner_percent_fees: u64,
        bounty_percent_fees: u64,
        minimum_block_bounty: u64,
    ) -> (r: Result<(), FlipError>) {
        proof {
            old(self).lemma_well_formed();
        }
        if !same_bytes(caller, self.owner_address()) {
            return Err(FlipError::NotOwner);
        }
        if minimum_block_bounty == 0 {
            return Err(FlipError::InitMinimumBlockBountyZero);
        }
        self.write_fees(owner_percent_fees, bounty_percent_fees);
        self.write_minimum_block_bounty(minimum_block_bounty);
        proof {
            law_init(
                old(self)@,
                caller@,
                owner_percent_fees,
                bounty_percent_fees,
                minimum_block_bounty,
                (Seq::<u8>::empty(), 0u64),
            );
            self.lemma_well_formed();
        }
        Ok(())
    }

    fn flip(&mut self, caller: &Vec<u8>, block_nonce: u64, payment: &Payment) -> (r: Result<
        Transfer,
        FlipError,
    >) {
        proof {
            old(self).lemma_well_formed();
        }
        let token_identifier = &payment.token_identifier;
        let token_nonce = payment.token_nonce;
        let token_reserve = self.token_reserve(token_identifier, token_nonce);
        if token_reserve == 0 {
            return Err(FlipError::NoTokenReserve);
        }
        let maximum_bet = match self.maximum_bet_entry(token_identifier, token_nonce) {
            Some(v) => v,
            None => {
                return Err(FlipError::NoMaximumBet);
            },
        };
        let maximum_bet_percent = match self.maximum_bet_percent_entry(
            token_identifier,
            token_nonce,
        ) {
            Some(v) => v,
            None => {
                return Err(FlipError::NoMaximumBetPercent);
            },
        };
        let max_allowed_bet = match checked_percent_of(token_reserve, maximum_bet_percent) {
            Some(by_reserve) => if maximum_bet <= by_reserve {
                maximum_bet
            } else {
                by_reserve
            },
            None => maximum_bet,
        };
        let owner_profits = match checked_percent_of(payment.amount, self.owner_percent_fees()) {
            Some(v) => v,
            None => {
                return Err(FlipError::NegativeAmount);
            },
        };
        let bounty = match checked_percent_of(payment.amount, self.bounty_percent_fees()) {
            Some(v) => v,
            None => {
                return Err(FlipError::NegativeAmount);
            },
        };
        let amount = match payment.amount.checked_sub(bounty) {
            Some(rest) => match rest.checked_sub(owner_profits) {
                Some(v) => v,
                None => {
                    return Err(FlipError::NegativeAmount);
                },
            },
            None => {
                return Err(FlipError::NegativeAmount);
            },
        };
        if amount > max_allowed_bet {
            return Err(FlipError::TooMuchBet);
        }
        let last_flip_id = self.last_flip_id();
        if last_flip_id == u64::MAX {
            return Err(FlipError::Overflow);
        }
        let flip_id = last_flip_id + 1;
        if amount > token_reserve {
            return Err(FlipError::NegativeAmount);
        }
        let flip = Flip {
            id: flip_id,
            player_address: copy_bytes(caller),
            token_identifier: copy_bytes(token_identifier),
            token_nonce,
            amount,
            bounty,
            block_nonce,
            minimum_block_bounty: self.minimum_block_bounty(),
        };
        self.write_token_reserve(token_identifier, token_nonce, token_reserve - amount);
        let owner = copy_bytes(self.owner_address());
        self.write_flip(flip);
        self.write_last_flip_id(flip_id);
        proof {
            law_flip(old(self)@, caller@, block_nonce, payment@, (Seq::<u8>::empty(), 0u64));
            self.lemma_well_formed();
        }
        Ok(
            Transfer {
                to: owner,
                token_identifier: copy_bytes(token_identifier),
                token_nonce,
                amount: owner_profits,
            },
        )
    }

    fn flip_bounty(
        &mut self,
        caller: &Vec<u8>,
        caller_is_smart_contract: bool,
        block_nonce: u64,
        random_numbers: &Vec<u8>,
    ) -> (r: Result<Vec<Transfer>, FlipError>) {
        proof {
            old(self).lemma_well_formed();
        }
        if caller_is_smart_contract {
            return Err(FlipError::CallerIsSmartContract);
        }
        let last_bounty_flip_id = self.last_bounty_flip_id();
        let last_flip_id = self.last_flip_id();
        if !(last_bounty_flip_id < last_flip_id) {
            return Err(FlipError::NoPendingFlip);
        }
        let ghost start: ContractModel = self@;
        let mut work = self.copy();
        let mut transfers: Vec<Transfer> = Vec::new();
        let mut bounty_flip_id = last_bounty_flip_id;
        let mut drawn_count: usize = 0;
        while bounty_flip_id < last_flip_id
            invariant
                self.well_formed(),
                self@ == old(self)@,
                start == old(self)@,
                !caller_is_smart_contract,
                start.last_bounty_flip_id == last_bounty_flip_id,
                start.last_flip_id == last_flip_id,
                drawn_count <= random_numbers.len(),
                drawn_count == bounty_flip_id - last_bounty_flip_id,
                work.maps_wf(),
                work@.last_flip_id == last_flip_id,
                work@.last_bounty_flip_id == last_bounty_flip_id,
                last_bounty_flip_id <= bounty_flip_id <= last_flip_id,
                random_numbers@.len() + last_bounty_flip_id >= last_flip_id,
                bounty_draws(
                    start,
                    caller@,
                    block_nonce,
                    random_numbers@,
                    last_bounty_flip_id,
                    last_bounty_flip_id,
                    last_flip_id,
                ) == after_transfers(
                    transfers_view(transfers@),
                    bounty_draws(
                        work@,
                        caller@,
                        block_nonce,
                        random_numbers@,
                        last_bounty_flip_id,
                        bounty_flip_id,
                        last_flip_id,
                    ),
                ),
            ensures
                work.maps_wf(),
                work@.last_flip_id == last_flip_id,
                last_bounty_flip_id <= bounty_flip_id <= last_flip_id,
                bounty_draws(
                    start,
                    caller@,
                    block_nonce,
                    random_numbers@,
                    last_bounty_flip_id,
                    last_bounty_flip_id,
                    last_flip_id,
                ) == after_transfers(
                    transfers_view(transfers@),
                    Ok((work@, Seq::<TransferView>::empty(), bounty_flip_id)),
                ),
            decreases last_flip_id - bounty_flip_id,
        {
            let flip_id = bounty_flip_id + 1;
            let flip = match work.pending_flip(flip_id) {
                Some(f) => f,
                None => {
                    break ;
                },
            };
            let due = match flip.block_nonce.checked_add(flip.minimum_block_bounty) {
                Some(d) => d,
                None => {
                    return Err(FlipError::Overflow);
                },
            };
            if block_nonce < due {
                break ;
            }
            let random_number = random_numbers[drawn_count];
            let ghost done = transfers@;
            match work.make_flip(caller, &flip, random_number) {
                Ok(mut drawn) => {
                    proof {
                        lemma_after_transfers_twice(
                            transfers_view(done),
                            transfers_view(drawn@),
                            bounty_draws(
                                work@,
                                caller@,
                                block_nonce,
                                random_numbers@,
                                last_bounty_flip_id,
                                flip_id,
                                last_flip_id,
                            ),
                        );
                        lemma_transfers_view_append(done, drawn@);
                    }
                    transfers.append(&mut drawn);
                },
                Err(e) => {
                    return Err(e);
                },
            }
            bounty_flip_id = flip_id;
            drawn_count = drawn_count + 1;
        }
        if bounty_flip_id == last_bounty_flip_id {
            return Err(FlipError::NoBounty);
        }
        work.write_last_bounty_flip_id(bounty_flip_id);
        proof {
            law_flip_bounty(
                old(self)@,
                caller@,
                caller_is_smart_contract,
                block_nonce,
                random_numbers@,
                (Seq::<u8>::empty(), 0u64),
            );
            work.lemma_well_formed();
        }
        *self = work;
        assert(transfers_view(transfers@) + Seq::<TransferView>::empty() =~= transfers_view(
            transfers@,
        ));
        Ok(transfers)
    }
}

} // verus!
