use flip::admin::AdminModule;
use flip::contract::FlipContract;
use flip::percent::checked_percent_of;
use flip::storage::{FlipStorage, StorageModule};
use flip::structs::{copy_bytes, FlipError, Payment, Transfer};
use flip::token_map::same_bytes;
use flip::HUNDRED_PERCENT;

const OWNER: &[u8] = b"owner";
const ALICE: &[u8] = b"alice";
const CAROL: &[u8] = b"carol";
const EGLD: &[u8] = b"EGLD";
const TOKEN: &[u8] = b"FLIP-123456";
const TEN_PERCENT: u64 = 10_000_000;

fn v(bytes: &[u8]) -> Vec<u8> {
    bytes.to_vec()
}

fn pay(token: &[u8], amount: u128) -> Payment {
    Payment { token_identifier: v(token), token_nonce: 0, amount }
}

/// A contract with 10% fees, a minimum block bounty of 2, a maximum bet of 10 at 10% of the
/// reserve for EGLD, and an EGLD reserve of `reserve`.
fn configured(reserve: u128) -> FlipStorage {
    let mut c = FlipStorage::deploy(&v(OWNER), TEN_PERCENT, TEN_PERCENT, 2).unwrap();
    c.set_maximum_bet_percent(&v(OWNER), &v(EGLD), 0, TEN_PERCENT).unwrap();
    c.set_maximum_bet(&v(OWNER), &v(EGLD), 0, 10).unwrap();
    if reserve > 0 {
        c.increase_reserve(&pay(EGLD, reserve)).unwrap();
    }
    c
}

/// What the contract owes in a token: its reserve and, for each pending flip in that token,
/// twice the stake and the bounty.
fn committed(c: &FlipStorage, token: &[u8]) -> u128 {
    let mut total = c.token_reserve(&v(token), 0);
    for id in c.last_bounty_flip_id() + 1..=c.last_flip_id() {
        let f = c.flip_for_id(id).unwrap();
        if f.token_identifier == token {
            total += 2 * f.amount + f.bounty;
        }
    }
    total
}

fn sent_in(transfers: &[Transfer], token: &[u8]) -> u128 {
    transfers.iter().filter(|t| t.token_identifier == token).map(|t| t.amount).sum()
}

#[test]
fn deployed_contract_is_empty() {
    let c = FlipStorage::deploy(&v(OWNER), 3, 4, 5).unwrap();
    assert_eq!(c.owner_percent_fees(), 3);
    assert_eq!(c.bounty_percent_fees(), 4);
    assert_eq!(c.minimum_block_bounty(), 5);
    assert_eq!(c.maximum_bet(&v(EGLD), 0), 0);
    assert_eq!(c.maximum_bet_percent(&v(EGLD), 0), 0);
    assert_eq!(c.token_reserve(&v(EGLD), 0), 0);
    assert_eq!(c.bounty_reserve(&v(EGLD), 0), 0);
    assert_eq!(c.last_flip_id(), 0);
    assert_eq!(c.last_bounty_flip_id(), 0);
    let r = c.flip_for_id(1);
    assert_eq!(r, Err(FlipError::StorageDecodeError));
    assert_eq!(r.unwrap_err().message(), "storage decode error: input too short");
    assert_eq!(committed(&c, EGLD), 0);
}

#[test]
fn init_sets_fees_and_bounty() {
    let mut c = FlipStorage::deploy(&v(OWNER), 1, 1, 1).unwrap();
    assert_eq!(c.init(&v(OWNER), 5, 7, 3), Ok(()));
    assert_eq!(c.owner_percent_fees(), 5);
    assert_eq!(c.bounty_percent_fees(), 7);
    assert_eq!(c.minimum_block_bounty(), 3);
}

#[test]
fn init_is_the_owners() {
    let mut c = FlipStorage::deploy(&v(OWNER), 1, 1, 1).unwrap();
    assert_eq!(c.init(&v(ALICE), 5, 7, 3), Err(FlipError::NotOwner));
    assert_eq!(c.owner_percent_fees(), 1);
}

#[test]
fn init_refuses_zero_minimum_block_bounty() {
    let r = FlipStorage::deploy(&v(OWNER), 5, 7, 0);
    assert!(matches!(r, Err(FlipError::InitMinimumBlockBountyZero)));
    let mut c = FlipStorage::deploy(&v(OWNER), 1, 1, 1).unwrap();
    let r = c.init(&v(OWNER), 5, 7, 0);
    assert_eq!(r, Err(FlipError::InitMinimumBlockBountyZero));
    assert_eq!(r.unwrap_err().message(), "minimum_block_bounty is zero");
    assert_eq!(c.owner_percent_fees(), 1);
    assert_eq!(c.bounty_percent_fees(), 1);
}

#[test]
fn increase_reserve_refuses_zero_payment() {
    let mut c = configured(100);
    let r = c.increase_reserve(&pay(EGLD, 0));
    assert_eq!(r, Err(FlipError::ZeroPayment));
    assert_eq!(r.unwrap_err().message(), "zero payment");
    assert_eq!(c.token_reserve(&v(EGLD), 0), 100);
}

#[test]
fn increase_reserve_beyond_u128_is_refused() {
    let mut c = configured(100);
    let r = c.increase_reserve(&pay(EGLD, u128::MAX - 99));
    assert_eq!(r, Err(FlipError::Overflow));
    assert_eq!(c.token_reserve(&v(EGLD), 0), 100);
    assert_eq!(c.increase_reserve(&pay(EGLD, u128::MAX - 100)), Ok(()));
    assert_eq!(c.token_reserve(&v(EGLD), 0), u128::MAX);
}

#[test]
fn reserves_are_kept_per_token_and_nonce() {
    let mut c = configured(100);
    let sft = Payment { token_identifier: v(TOKEN), token_nonce: 3, amount: 40 };
    assert_eq!(c.increase_reserve(&sft), Ok(()));
    assert_eq!(c.token_reserve(&v(TOKEN), 3), 40);
    assert_eq!(c.token_reserve(&v(TOKEN), 0), 0);
    assert_eq!(c.token_reserve(&v(EGLD), 0), 100);
}

#[test]
fn withdraw_reserve_checks_owner_and_amount() {
    let mut c = configured(100);
    let r = c.withdraw_reserve(&v(ALICE), &v(EGLD), 0, Some(10));
    assert_eq!(r, Err(FlipError::NotOwner));
    assert_eq!(r.unwrap_err().message(), "Endpoint can only be called by owner");
    let r = c.withdraw_reserve(&v(OWNER), &v(EGLD), 0, Some(0));
    assert_eq!(r, Err(FlipError::InvalidWithdrawAmount));
    assert_eq!(r.unwrap_err().message(), "Invalid withdraw amount");
    let r = c.withdraw_reserve(&v(OWNER), &v(EGLD), 0, Some(101));
    assert_eq!(r, Err(FlipError::AmountTooHigh));
    assert_eq!(r.unwrap_err().message(), "amount too high");
    assert_eq!(c.withdraw_reserve(&v(OWNER), &v(TOKEN), 0, None), Err(FlipError::InvalidWithdrawAmount));
    assert_eq!(c.token_reserve(&v(EGLD), 0), 100);
}

#[test]
fn withdraw_everything_empties_the_reserve() {
    let mut c = configured(100);
    let t = c.withdraw_reserve(&v(OWNER), &v(EGLD), 0, None).unwrap();
    assert_eq!(t, Transfer { to: v(OWNER), token_identifier: v(EGLD), token_nonce: 0, amount: 100 });
    assert_eq!(c.token_reserve(&v(EGLD), 0), 0);
}

#[test]
fn withdraw_sends_in_the_token_nonce() {
    let mut c = configured(0);
    let sft = Payment { token_identifier: v(TOKEN), token_nonce: 4, amount: 30 };
    c.increase_reserve(&sft).unwrap();
    let t = c.withdraw_reserve(&v(OWNER), &v(TOKEN), 4, Some(20)).unwrap();
    assert_eq!(t, Transfer { to: v(OWNER), token_identifier: v(TOKEN), token_nonce: 4, amount: 20 });
    assert_eq!(c.token_reserve(&v(TOKEN), 4), 10);
}

#[test]
fn withdraw_undoes_increase() {
    let mut c = configured(100);
    c.increase_reserve(&pay(TOKEN, 55)).unwrap();
    let t = c.withdraw_reserve(&v(OWNER), &v(TOKEN), 0, Some(55)).unwrap();
    assert_eq!(t, Transfer { to: v(OWNER), token_identifier: v(TOKEN), token_nonce: 0, amount: 55 });
    assert_eq!(c.token_reserve(&v(TOKEN), 0), 0);
    assert_eq!(c.token_reserve(&v(EGLD), 0), 100);
}

#[test]
fn setters_refuse_zero_and_strangers() {
    let mut c = configured(100);
    let r = c.set_maximum_bet_percent(&v(OWNER), &v(EGLD), 0, 0);
    assert_eq!(r, Err(FlipError::PercentZero));
    assert_eq!(r.unwrap_err().message(), "percent zero");
    let r = c.set_maximum_bet(&v(OWNER), &v(EGLD), 0, 0);
    assert_eq!(r, Err(FlipError::AmountZero));
    assert_eq!(r.unwrap_err().message(), "amount zero");
    let r = c.set_minimum_block_bounty(&v(OWNER), 0);
    assert_eq!(r, Err(FlipError::MinimumBlockBountyZero));
    assert_eq!(r.unwrap_err().message(), "minimum_block_bounty zero");
    assert_eq!(c.set_maximum_bet(&v(ALICE), &v(EGLD), 0, 5), Err(FlipError::NotOwner));
    assert_eq!(c.set_maximum_bet_percent(&v(ALICE), &v(EGLD), 0, 5), Err(FlipError::NotOwner));
    assert_eq!(c.set_minimum_block_bounty(&v(ALICE), 5), Err(FlipError::NotOwner));
    assert_eq!(c.maximum_bet(&v(EGLD), 0), 10);
    assert_eq!(c.maximum_bet_percent(&v(EGLD), 0), TEN_PERCENT);
    assert_eq!(c.minimum_block_bounty(), 2);
}

#[test]
fn flip_requires_reserve_and_limits() {
    let mut c = FlipStorage::deploy(&v(OWNER), TEN_PERCENT, TEN_PERCENT, 2).unwrap();
    let r = c.flip(&v(ALICE), 0, &pay(EGLD, 10));
    assert_eq!(r, Err(FlipError::NoTokenReserve));
    assert_eq!(r.unwrap_err().message(), "no token reserve");
    c.increase_reserve(&pay(EGLD, 100)).unwrap();
    let r = c.flip(&v(ALICE), 0, &pay(EGLD, 10));
    assert_eq!(r, Err(FlipError::NoMaximumBet));
    assert_eq!(r.unwrap_err().message(), "no maximum bet");
    c.set_maximum_bet(&v(OWNER), &v(EGLD), 0, 10).unwrap();
    let r = c.flip(&v(ALICE), 0, &pay(EGLD, 10));
    assert_eq!(r, Err(FlipError::NoMaximumBetPercent));
    assert_eq!(r.unwrap_err().message(), "no maximum bet percent");
    c.set_maximum_bet_percent(&v(OWNER), &v(EGLD), 0, TEN_PERCENT).unwrap();
    assert!(c.flip(&v(ALICE), 0, &pay(EGLD, 10)).is_ok());
}

#[test]
fn flip_splits_the_payment() {
    let mut c = configured(100);
    let owner_fee = c.flip(&v(ALICE), 7, &pay(EGLD, 10)).unwrap();
    assert_eq!(owner_fee, Transfer { to: v(OWNER), token_identifier: v(EGLD), token_nonce: 0, amount: 1 });
    let f = c.flip_for_id(1).unwrap();
    assert_eq!(f.id, 1);
    assert_eq!(f.amount, 8);
    assert_eq!(f.bounty, 1);
    assert_eq!(f.block_nonce, 7);
    assert_eq!(c.token_reserve(&v(EGLD), 0), 92);
    assert_eq!(c.last_flip_id(), 1);
    assert_eq!(c.last_bounty_flip_id(), 0);
}

#[test]
fn flip_max_allowed_is_the_smaller_limit() {
    // 10% of a reserve of 60 is 6, below the maximum bet of 10.
    let mut c = configured(60);
    assert_eq!(c.flip(&v(ALICE), 0, &pay(EGLD, 8)), Err(FlipError::TooMuchBet));
    // A payment of 7 leaves a stake of 7 - 0 - 0 = 7 > 6 as well.
    assert_eq!(c.flip(&v(ALICE), 0, &pay(EGLD, 7)), Err(FlipError::TooMuchBet));
    // A payment of 6 stakes 6.
    assert!(c.flip(&v(ALICE), 0, &pay(EGLD, 6)).is_ok());
    assert_eq!(c.flip_for_id(1).unwrap().amount, 6);
}

#[test]
fn flip_with_fees_above_the_payment_is_refused() {
    let mut c = FlipStorage::deploy(&v(OWNER), 60_000_000, 60_000_000, 2).unwrap();
    c.set_maximum_bet_percent(&v(OWNER), &v(EGLD), 0, TEN_PERCENT).unwrap();
    c.set_maximum_bet(&v(OWNER), &v(EGLD), 0, 10).unwrap();
    c.increase_reserve(&pay(EGLD, 100)).unwrap();
    let r = c.flip(&v(ALICE), 0, &pay(EGLD, 10));
    assert_eq!(r, Err(FlipError::NegativeAmount));
    assert_eq!(r.unwrap_err().message(), "cannot subtract because result would be negative");
    assert_eq!(c.last_flip_id(), 0);
}

#[test]
fn flip_stake_above_the_reserve_is_refused() {
    let mut c = FlipStorage::deploy(&v(OWNER), 0, 0, 2).unwrap();
    c.set_maximum_bet_percent(&v(OWNER), &v(EGLD), 0, 2 * HUNDRED_PERCENT).unwrap();
    c.set_maximum_bet(&v(OWNER), &v(EGLD), 0, 10).unwrap();
    c.increase_reserve(&pay(EGLD, 5)).unwrap();
    assert_eq!(c.flip(&v(ALICE), 0, &pay(EGLD, 8)), Err(FlipError::NegativeAmount));
    assert_eq!(c.token_reserve(&v(EGLD), 0), 5);
}

#[test]
fn draw_win_pays_twice_the_stake() {
    let mut c = configured(100);
    c.flip(&v(ALICE), 0, &pay(EGLD, 10)).unwrap();
    let sent = c.flip_bounty(&v(CAROL), false, 2, &vec![1]).unwrap();
    assert_eq!(
        sent,
        vec![
            Transfer { to: v(CAROL), token_identifier: v(EGLD), token_nonce: 0, amount: 1 },
            Transfer { to: v(ALICE), token_identifier: v(EGLD), token_nonce: 0, amount: 16 },
        ]
    );
    assert!(c.flip_for_id(1).is_err());
    assert_eq!(c.token_reserve(&v(EGLD), 0), 92);
}

#[test]
fn draw_loss_fills_the_reserve() {
    let mut c = configured(100);
    c.flip(&v(ALICE), 0, &pay(EGLD, 10)).unwrap();
    let sent = c.flip_bounty(&v(CAROL), false, 2, &vec![0]).unwrap();
    assert_eq!(sent, vec![Transfer { to: v(CAROL), token_identifier: v(EGLD), token_nonce: 0, amount: 1 }]);
    assert_eq!(c.token_reserve(&v(EGLD), 0), 108);
}

#[test]
fn flip_bounty_refusals() {
    let mut c = configured(100);
    let r = c.flip_bounty(&v(CAROL), false, 5, &vec![]);
    assert_eq!(r, Err(FlipError::NoPendingFlip));
    assert_eq!(r.unwrap_err().message(), "last bounty flip id >= last flip id");
    c.flip(&v(ALICE), 0, &pay(EGLD, 10)).unwrap();
    let r = c.flip_bounty(&v(CAROL), true, 5, &vec![1]);
    assert_eq!(r, Err(FlipError::CallerIsSmartContract));
    assert_eq!(r.unwrap_err().message(), "caller is a smart contract");
    assert_eq!(c.flip_bounty(&v(CAROL), false, 1, &vec![1]), Err(FlipError::NoBounty));
    assert!(c.flip_for_id(1).is_ok());
}

#[test]
fn flip_bounty_stops_at_the_first_flip_not_due() {
    let mut c = configured(100);
    c.flip(&v(ALICE), 0, &pay(EGLD, 10)).unwrap();
    c.flip(&v(ALICE), 5, &pay(EGLD, 10)).unwrap();
    c.flip(&v(ALICE), 1, &pay(EGLD, 10)).unwrap();
    // At block 3 the first flip is due, the second (block 5) is not: the third waits too.
    let sent = c.flip_bounty(&v(CAROL), false, 3, &vec![0, 0, 0]).unwrap();
    assert_eq!(sent.len(), 1);
    assert_eq!(c.last_bounty_flip_id(), 1);
    assert!(c.flip_for_id(1).is_err());
    assert!(c.flip_for_id(2).is_ok());
    assert!(c.flip_for_id(3).is_ok());
    // Called again at the same block, it draws nothing.
    assert_eq!(c.flip_bounty(&v(CAROL), false, 3, &vec![0, 0]), Err(FlipError::NoBounty));
    let sent = c.flip_bounty(&v(CAROL), false, 7, &vec![1, 0]).unwrap();
    assert_eq!(sent.len(), 3);
    assert_eq!(c.last_bounty_flip_id(), 3);
    assert_eq!(c.flip_bounty(&v(CAROL), false, 7, &vec![]), Err(FlipError::NoPendingFlip));
}

#[test]
fn flip_bounty_with_an_unreachable_block_overflows() {
    let mut c = configured(100);
    c.set_minimum_block_bounty(&v(OWNER), u64::MAX).unwrap();
    c.flip(&v(ALICE), 1, &pay(EGLD, 10)).unwrap();
    let r = c.flip_bounty(&v(CAROL), false, u64::MAX, &vec![1]);
    assert_eq!(r, Err(FlipError::Overflow));
    assert_eq!(r.unwrap_err().message(), "arithmetic overflow");
    assert!(c.flip_for_id(1).is_ok());
}

#[test]
fn flip_bounty_prize_beyond_u128_is_refused() {
    let half: u128 = 1 << 127;
    let mut c = FlipStorage::deploy(&v(OWNER), 0, 0, 1).unwrap();
    c.set_maximum_bet_percent(&v(OWNER), &v(EGLD), 0, HUNDRED_PERCENT).unwrap();
    c.set_maximum_bet(&v(OWNER), &v(EGLD), 0, u128::MAX).unwrap();
    c.increase_reserve(&pay(EGLD, half)).unwrap();
    c.flip(&v(ALICE), 0, &pay(EGLD, half)).unwrap();
    assert_eq!(c.token_reserve(&v(EGLD), 0), 0);
    assert_eq!(c.flip_bounty(&v(CAROL), false, 5, &vec![1]), Err(FlipError::Overflow));
    assert_eq!(c.last_bounty_flip_id(), 0);
    assert!(c.flip_for_id(1).is_ok());
}

#[test]
fn ledger_tracks_the_contract_balance() {
    // The contract's EGLD balance, kept by hand from what comes in and goes out.
    let mut balance: u128 = 0;
    let mut c = configured(0);
    c.increase_reserve(&pay(EGLD, 100)).unwrap();
    balance += 100;
    assert_eq!(committed(&c, EGLD), balance);
    for (block, amount) in [(0u64, 10u128), (0, 7), (3, 8)] {
        let fee = c.flip(&v(ALICE), block, &pay(EGLD, amount)).unwrap();
        balance += amount;
        balance -= fee.amount;
        assert_eq!(committed(&c, EGLD), balance);
    }
    let sent = c.flip_bounty(&v(CAROL), false, 2, &vec![1, 0, 1]).unwrap();
    balance -= sent_in(&sent, EGLD);
    assert_eq!(committed(&c, EGLD), balance);
    let sent = c.flip_bounty(&v(CAROL), false, 9, &vec![0]).unwrap();
    balance -= sent_in(&sent, EGLD);
    assert_eq!(committed(&c, EGLD), balance);
    let t = c.withdraw_reserve(&v(OWNER), &v(EGLD), 0, None).unwrap();
    balance -= t.amount;
    assert_eq!(committed(&c, EGLD), balance);
    assert_eq!(balance, 0);
}

#[test]
fn ledger_holds_for_a_token_with_a_nonce() {
    let sft = |amount: u128| Payment { token_identifier: v(TOKEN), token_nonce: 1, amount };
    let mut balance: u128 = 0;
    let mut c = FlipStorage::deploy(&v(OWNER), TEN_PERCENT, TEN_PERCENT, 2).unwrap();
    c.set_maximum_bet_percent(&v(OWNER), &v(TOKEN), 1, TEN_PERCENT).unwrap();
    c.set_maximum_bet(&v(OWNER), &v(TOKEN), 1, 10).unwrap();
    c.increase_reserve(&sft(100)).unwrap();
    balance += 100;
    let fee = c.flip(&v(ALICE), 0, &sft(10)).unwrap();
    assert_eq!(fee, Transfer { to: v(OWNER), token_identifier: v(TOKEN), token_nonce: 1, amount: 1 });
    balance += 10;
    balance -= fee.amount;
    assert_eq!(committed_nonce(&c, TOKEN, 1), balance);
    let t = c.withdraw_reserve(&v(OWNER), &v(TOKEN), 1, Some(50)).unwrap();
    assert_eq!(t.token_nonce, 1);
    balance -= t.amount;
    assert_eq!(committed_nonce(&c, TOKEN, 1), balance);
    let sent = c.flip_bounty(&v(CAROL), false, 2, &vec![1]).unwrap();
    assert!(sent.iter().all(|t| t.token_nonce == 1));
    balance -= sent_in(&sent, TOKEN);
    assert_eq!(committed_nonce(&c, TOKEN, 1), balance);
}

fn committed_nonce(c: &FlipStorage, token: &[u8], nonce: u64) -> u128 {
    let mut total = c.token_reserve(&v(token), nonce);
    for id in c.last_bounty_flip_id() + 1..=c.last_flip_id() {
        let f = c.flip_for_id(id).unwrap();
        if f.token_identifier == token && f.token_nonce == nonce {
            total += 2 * f.amount + f.bounty;
        }
    }
    total
}

#[test]
fn percent_of_is_exact() {
    assert_eq!(checked_percent_of(10, TEN_PERCENT), Some(1));
    assert_eq!(checked_percent_of(123_456_789, 33_333_333), Some(41_152_262));
    assert_eq!(checked_percent_of(7 * 100_000_000, 3), Some(21));
    assert_eq!(checked_percent_of(u128::MAX, HUNDRED_PERCENT), Some(u128::MAX));
    assert_eq!(checked_percent_of(u128::MAX, 2 * HUNDRED_PERCENT), None);
    assert_eq!(checked_percent_of(0, u64::MAX), Some(0));
}

#[test]
fn byte_helpers() {
    assert!(same_bytes(&v(EGLD), &v(b"EGLD")));
    assert!(!same_bytes(&v(EGLD), &v(b"EGLX")));
    assert!(!same_bytes(&v(EGLD), &v(b"EGL")));
    assert_eq!(copy_bytes(&v(TOKEN)), v(TOKEN));
}

#[test]
fn flip_copy_is_equal() {
    let mut c = configured(100);
    c.flip(&v(ALICE), 0, &pay(EGLD, 10)).unwrap();
    let f = c.flip_for_id(1).unwrap();
    assert_eq!(f.copy(), f);
    let d = c.copy();
    assert_eq!(d.flip_for_id(1), Ok(f));
    assert_eq!(d.token_reserve(&v(EGLD), 0), 92);
}
