//! The contract as a state machine over its storage: each endpoint is a step from the
//! storage before the call to the storage after it and the tokens it sends, or a refusal
//! that leaves the storage as it was.
use vstd::prelude::*;

use crate::percent::percent_of;
use crate::structs::{transfers_view, FlipError, FlipView, PaymentView, Transfer, TransferView};
use crate::token_map::TokenKey;

verus! {

/// The contract's storage, and the owner of the contract.
pub struct ContractModel {
    pub owner: Seq<u8>,
    pub owner_percent_fees: u64,
    pub bounty_percent_fees: u64,
    pub minimum_block_bounty: u64,
    pub maximum_bet: Map<TokenKey, u128>,
    pub maximum_bet_percent: Map<TokenKey, u64>,
    pub token_reserve: Map<TokenKey, u128>,
    pub bounty_reserve: Map<TokenKey, u128>,
    pub flip_for_id: Map<u64, FlipView>,
    pub last_flip_id: u64,
    pub last_bounty_flip_id: u64,
}

/// The result of a step that changes the storage and sends nothing.
pub type Update = Result<ContractModel, FlipError>;

/// The result of a step that changes the storage and sends tokens, in order.
pub type Step = Result<(ContractModel, Seq<TransferView>), FlipError>;

/// The amount that a storage entry reads as: an absent entry reads as zero.
pub open spec fn amount_at(m: Map<TokenKey, u128>, k: TokenKey) -> u128 {
    if m.contains_key(k) {
        m[k]
    } else {
        0
    }
}

/// Storage after an amount is written: writing zero empties the entry.
pub open spec fn write_amount(m: Map<TokenKey, u128>, k: TokenKey, v: u128) -> Map<TokenKey, u128> {
    if v == 0 {
        m.remove(k)
    } else {
        m.insert(k, v)
    }
}

/// The storage of a contract that has just been created by `owner`.
pub open spec fn fresh_model(owner: Seq<u8>) -> ContractModel {
    ContractModel {
        owner,
        owner_percent_fees: 0,
        bounty_percent_fees: 0,
        minimum_block_bounty: 0,
        maximum_bet: Map::empty(),
        maximum_bet_percent: Map::empty(),
        token_reserve: Map::empty(),
        bounty_reserve: Map::empty(),
        flip_for_id: Map::empty(),
        last_flip_id: 0,
        last_bounty_flip_id: 0,
    }
}

/// `init`, which the owner's deployment or upgrade of the contract runs: sets both fees and
/// the minimum block bounty, which must not be zero.
pub open spec fn init_step(
    m: ContractModel,
    caller: Seq<u8>,
    owner_percent_fees: u64,
    bounty_percent_fees: u64,
    minimum_block_bounty: u64,
) -> Update {
    if caller != m.owner {
        Err(FlipError::NotOwner)
    } else if minimum_block_bounty == 0 {
        Err(FlipError::InitMinimumBlockBountyZero)
    } else {
        Ok(ContractModel { owner_percent_fees, bounty_percent_fees, minimum_block_bounty, ..m })
    }
}

/// `increaseReserve`: anyone may add a non-zero payment to the reserve of its token.
pub open spec fn increase_reserve_step(m: ContractModel, payment: PaymentView) -> Update {
    let k = (payment.token_identifier, payment.token_nonce);
    let new_reserve = amount_at(m.token_reserve, k) + payment.amount;
    if payment.amount == 0 {
        Err(FlipError::ZeroPayment)
    } else if new_reserve > u128::MAX {
        Err(FlipError::Overflow)
    } else {
        Ok(ContractModel { token_reserve: write_amount(m.token_reserve, k, new_reserve as u128), ..m })
    }
}

/// `withdrawReserve`: the owner takes `amount` (or, with no amount, the whole reserve)
/// out of a token's reserve and sends it to the caller. Nothing is refused as invalid, and
/// more than the reserve as too high: what is held back for pending flips stays.
pub open spec fn withdraw_reserve_step(
    m: ContractModel,
    caller: Seq<u8>,
    token_identifier: Seq<u8>,
    token_nonce: u64,
    amount: Option<u128>,
) -> Step {
    let k = (token_identifier, token_nonce);
    let reserve = amount_at(m.token_reserve, k);
    let withdraw_amount = match amount {
        Some(a) => a,
        None => reserve,
    };
    if caller != m.owner {
        Err(FlipError::NotOwner)
    } else if withdraw_amount == 0 {
        Err(FlipError::InvalidWithdrawAmount)
    } else if withdraw_amount > reserve {
        Err(FlipError::AmountTooHigh)
    } else {
        Ok(
            (
                ContractModel {
                    token_reserve: write_amount(
                        m.token_reserve,
                        k,
                        (reserve - withdraw_amount) as u128,
                    ),
                    ..m
                },
                seq![
                    TransferView {
                        to: caller,
                        token_identifier,
                        token_nonce,
                        amount: withdraw_amount,
                    },
                ],
            ),
        )
    }
}

/// `setMaximumBetPercent`: the owner sets a token's maximum bet as a share of its reserve.
pub open spec fn set_maximum_bet_percent_step(
    m: ContractModel,
    caller: Seq<u8>,
    token_identifier: Seq<u8>,
    token_nonce: u64,
    percent: u64,
) -> Update {
    if caller != m.owner {
        Err(FlipError::NotOwner)
    } else if percent == 0 {
        Err(FlipError::PercentZero)
    } else {
        Ok(
            ContractModel {
                maximum_bet_percent: m.maximum_bet_percent.insert(
                    (token_identifier, token_nonce),
                    percent,
                ),
                ..m
            },
        )
    }
}

/// `setMaximumBet`: the owner sets a token's maximum bet.
pub open spec fn set_maximum_bet_step(
    m: ContractModel,
    caller: Seq<u8>,
    token_identifier: Seq<u8>,
    token_nonce: u64,
    amount: u128,
) -> Update {
    if caller != m.owner {
        Err(FlipError::NotOwner)
    } else if amount == 0 {
        Err(FlipError::AmountZero)
    } else {
        Ok(
            ContractModel {
                maximum_bet: m.maximum_bet.insert((token_identifier, token_nonce), amount),
                ..m
            },
        )
    }
}

/// `setMinimumBlockBounty`: the owner sets how many blocks a flip waits before it is drawn.
pub open spec fn set_minimum_block_bounty_step(
    m: ContractModel,
    caller: Seq<u8>,
    minimum_block_bounty: u64,
) -> Update {
    if caller != m.owner {
        Err(FlipError::NotOwner)
    } else if minimum_block_bounty == 0 {
        Err(FlipError::MinimumBlockBountyZero)
    } else {
        Ok(ContractModel { minimum_block_bounty, ..m })
    }
}

/// The largest bet allowed in token `k`: the smaller of its maximum bet and its maximum
/// bet percentage of its reserve.
pub open spec fn max_allowed_bet(m: ContractModel, k: TokenKey) -> nat {
    let by_reserve = percent_of(
        amount_at(m.token_reserve, k) as nat,
        m.maximum_bet_percent[k] as nat,
    );
    if (m.maximum_bet[k] as nat) <= by_reserve {
        m.maximum_bet[k] as nat
    } else {
        by_reserve
    }
}

/// `flip`: a player bets the payment. The owner's fee is sent to the owner at once, the
/// bounty is kept for whoever draws the flip, and the rest is the stake; the stake is taken
/// from the reserve, to be paid back twice over if the player wins, and the flip is stored
/// under the next id.
pub open spec fn flip_step(
    m: ContractModel,
    caller: Seq<u8>,
    block_nonce: u64,
    payment: PaymentView,
) -> Step {
    let k = (payment.token_identifier, payment.token_nonce);
    let reserve = amount_at(m.token_reserve, k);
    let owner_profits = percent_of(payment.amount as nat, m.owner_percent_fees as nat);
    let bounty = percent_of(payment.amount as nat, m.bounty_percent_fees as nat);
    if reserve == 0 {
        Err(FlipError::NoTokenReserve)
    } else if !m.maximum_bet.contains_key(k) {
        Err(FlipError::NoMaximumBet)
    } else if !m.maximum_bet_percent.contains_key(k) {
        Err(FlipError::NoMaximumBetPercent)
    } else if payment.amount < bounty + owner_profits {
        Err(FlipError::NegativeAmount)
    } else {
        let amount = (payment.amount - bounty - owner_profits) as nat;
        if amount > max_allowed_bet(m, k) {
            Err(FlipError::TooMuchBet)
        } else if m.last_flip_id == u64::MAX {
            Err(FlipError::Overflow)
        } else if amount > reserve {
            Err(FlipError::NegativeAmount)
        } else {
            let flip_id = (m.last_flip_id + 1) as u64;
            let flip = FlipView {
                id: flip_id,
                player_address: caller,
                token_identifier: payment.token_identifier,
                token_nonce: payment.token_nonce,
                amount: amount as u128,
                bounty: bounty as u128,
                block_nonce,
                minimum_block_bounty: m.minimum_block_bounty,
            };
            Ok(
                (
                    ContractModel {
                        token_reserve: write_amount(m.token_reserve, k, (reserve - amount) as u128),
                        flip_for_id: m.flip_for_id.insert(flip_id, flip),
                        last_flip_id: flip_id,
                        ..m
                    },
                    seq![
                        TransferView {
                            to: m.owner,
                            token_identifier: payment.token_identifier,
                            token_nonce: payment.token_nonce,
                            amount: owner_profits as u128,
                        },
                    ],
                ),
            )
        }
    }
}

/// The draw wins when the random number is one.
pub open spec fn is_win(random: u8) -> bool {
    random == 1
}

/// Drawing flip `flip` with the random number `random`: its bounty goes to
/// `bounty_address`; a win sends twice the stake to the player, a loss puts twice the stake
/// into the reserve; the flip is removed.
pub open spec fn make_flip_step(
    m: ContractModel,
    bounty_address: Seq<u8>,
    flip: FlipView,
    random: u8,
) -> Step {
    let k = (flip.token_identifier, flip.token_nonce);
    let profit_if_win = 2 * flip.amount;
    let bounty_transfer = TransferView {
        to: bounty_address,
        token_identifier: flip.token_identifier,
        token_nonce: flip.token_nonce,
        amount: flip.bounty,
    };
    let new_reserve = amount_at(m.token_reserve, k) + profit_if_win;
    if profit_if_win > u128::MAX {
        Err(FlipError::Overflow)
    } else if is_win(random) {
        Ok(
            (
                ContractModel { flip_for_id: m.flip_for_id.remove(flip.id), ..m },
                seq![
                    bounty_transfer,
                    TransferView {
                        to: flip.player_address,
                        token_identifier: flip.token_identifier,
                        token_nonce: flip.token_nonce,
                        amount: profit_if_win as u128,
                    },
                ],
            ),
        )
    } else if new_reserve > u128::MAX {
        Err(FlipError::Overflow)
    } else {
        Ok(
            (
                ContractModel {
                    token_reserve: write_amount(m.token_reserve, k, new_reserve as u128),
                    flip_for_id: m.flip_for_id.remove(flip.id),
                    ..m
                },
                seq![bounty_transfer],
            ),
        )
    }
}

/// The result of drawing flips from `bounty_flip_id + 1` on: the storage, the tokens sent,
/// and the id of the last flip drawn.
pub type Draws = Result<(ContractModel, Seq<TransferView>, u64), FlipError>;

/// Tokens `before` sent ahead of a run of draws.
pub open spec fn after_transfers(before: Seq<TransferView>, rest: Draws) -> Draws {
    match rest {
        Ok((m, transfers, last)) => Ok((m, before + transfers, last)),
        Err(e) => Err(e),
    }
}

/// The draws of `flipBounty`, from the flip after `bounty_flip_id` up to `last_flip_id`:
/// it stops at the first id with no flip, or at the first flip that is not yet
/// `minimum_block_bounty` blocks old at block `block_nonce`. The flip after `first` is
/// drawn with `random_numbers[0]`, the next one with `random_numbers[1]`, and so on.
pub open spec fn bounty_draws(
    m: ContractModel,
    caller: Seq<u8>,
    block_nonce: u64,
    random_numbers: Seq<u8>,
    first: u64,
    bounty_flip_id: u64,
    last_flip_id: u64,
) -> Draws
    decreases last_flip_id - bounty_flip_id,
{
    if bounty_flip_id >= last_flip_id {
        Ok((m, seq![], bounty_flip_id))
    } else {
        let flip_id = (bounty_flip_id + 1) as u64;
        if !m.flip_for_id.contains_key(flip_id) {
            Ok((m, seq![], bounty_flip_id))
        } else {
            let flip = m.flip_for_id[flip_id];
            let due = flip.block_nonce + flip.minimum_block_bounty;
            if due > u64::MAX {
                Err(FlipError::Overflow)
            } else if block_nonce < due {
                Ok((m, seq![], bounty_flip_id))
            } else {
                match make_flip_step(
                    m,
                    caller,
                    flip,
                    random_numbers[bounty_flip_id - first],
                ) {
                    Err(e) => Err(e),
                    Ok((m2, transfers)) => after_transfers(
                        transfers,
                        bounty_draws(
                            m2,
                            caller,
                            block_nonce,
                            random_numbers,
                            first,
                            flip_id,
                            last_flip_id,
                        ),
                    ),
                }
            }
        }
    }
}

/// `flipBounty`: a caller that is not a smart contract draws every pending flip that is old
/// enough, in order of id, and earns each one's bounty; at least one flip must be drawn.
pub open spec fn flip_bounty_step(
    m: ContractModel,
    caller: Seq<u8>,
    caller_is_smart_contract: bool,
    block_nonce: u64,
    random_numbers: Seq<u8>,
) -> Step {
    if caller_is_smart_contract {
        Err(FlipError::CallerIsSmartContract)
    } else if !(m.last_bounty_flip_id < m.last_flip_id) {
        Err(FlipError::NoPendingFlip)
    } else {
        match bounty_draws(
            m,
            caller,
            block_nonce,
            random_numbers,
            m.last_bounty_flip_id,
            m.last_bounty_flip_id,
            m.last_flip_id,
        ) {
            Err(e) => Err(e),
            Ok((m2, transfers, drawn)) => if drawn == m.last_bounty_flip_id {
                Err(FlipError::NoBounty)
            } else {
                Ok((ContractModel { last_bounty_flip_id: drawn, ..m2 }, transfers))
            },
        }
    }
}

/// What a call that sends nothing did, read as a step: its refusal, or the storage after it.
pub open spec fn update_outcome(r: Result<(), FlipError>, after: ContractModel) -> Update {
    match r {
        Ok(_) => Ok(after),
        Err(e) => Err(e),
    }
}

/// What a call that sends one transfer did, read as a step.
pub open spec fn transfer_outcome(r: Result<Transfer, FlipError>, after: ContractModel) -> Step {
    match r {
        Ok(t) => Ok((after, seq![t@])),
        Err(e) => Err(e),
    }
}

/// What a call that sends a list of transfers did, read as a step.
pub open spec fn transfers_outcome(r: Result<Vec<Transfer>, FlipError>, after: ContractModel) -> Step {
    match r {
        Ok(ts) => Ok((after, transfers_view(ts@))),
        Err(e) => Err(e),
    }
}

} // verus!
