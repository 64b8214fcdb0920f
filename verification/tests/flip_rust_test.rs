use std::collections::HashMap;

use flip::admin::AdminModule;
use flip::contract::FlipContract;
use flip::storage::{FlipStorage, StorageModule};
use flip::structs::{FlipError, Payment, Transfer};

const EGLD_TOKEN_ID: &[u8] = b"EGLD";
const FLIP_TOKEN_ID: &[u8] = b"FLIP-123456";
const OWNER_BALANCE: u128 = 1100;
const EGLD: u128 = 1000;
const TEN_PERCENT: u64 = 10_000_000;
const HUNDRED: u64 = 100;
/// Every token of these scenarios is fungible: its nonce is zero.
const NONCE: u64 = 0;

const OWNER: &[u8] = b"owner___________________________";
const ALICE: &[u8] = b"alice___________________________";
const BOB: &[u8] = b"bob_____________________________";
const CAROL: &[u8] = b"carol___________________________";
const CONTRACT: &[u8] = b"flip-contract___________________";

/// A small chain: the contract's storage, everyone's balances and the current block.
struct FlipContractSetup {
    contract: FlipStorage,
    balances: HashMap<(Vec<u8>, Vec<u8>), u128>,
    block_nonce: u64,
    random_numbers: Vec<u8>,
}

impl FlipContractSetup {
    fn new() -> Self {
        let mut balances = HashMap::new();
        for (who, amount) in [(OWNER, OWNER_BALANCE), (ALICE, EGLD), (BOB, EGLD), (CAROL, EGLD)] {
            balances.insert((who.to_vec(), EGLD_TOKEN_ID.to_vec()), amount);
        }
        balances.insert((OWNER.to_vec(), FLIP_TOKEN_ID.to_vec()), OWNER_BALANCE);
        for who in [ALICE, BOB, CAROL] {
            balances.insert((who.to_vec(), FLIP_TOKEN_ID.to_vec()), 1000);
        }
        let mut setup = FlipContractSetup {
            contract: FlipStorage::deploy(&OWNER.to_vec(), TEN_PERCENT, TEN_PERCENT, 10).unwrap(),
            balances,
            block_nonce: 0,
            random_numbers: vec![1, 0, 1, 0, 1, 0, 1, 0],
        };
        let owner = OWNER.to_vec();
        setup.contract.set_maximum_bet_percent(&owner, &EGLD_TOKEN_ID.to_vec(), 0, TEN_PERCENT).unwrap();
        setup.contract.set_maximum_bet(&owner, &EGLD_TOKEN_ID.to_vec(), 0, 10).unwrap();
        setup.contract.set_maximum_bet_percent(&owner, &FLIP_TOKEN_ID.to_vec(), 0, TEN_PERCENT).unwrap();
        setup.contract.set_maximum_bet(&owner, &FLIP_TOKEN_ID.to_vec(), 0, 10).unwrap();
        setup.contract.set_minimum_block_bounty(&owner, 2).unwrap();
        setup
    }

    fn balance(&self, who: &[u8], token: &[u8]) -> u128 {
        *self.balances.get(&(who.to_vec(), token.to_vec())).unwrap_or(&0)
    }

    fn move_tokens(&mut self, from: &[u8], to: &[u8], token: &[u8], amount: u128) {
        let from_balance = self.balance(from, token);
        assert!(from_balance >= amount, "insufficient funds");
        self.balances.insert((from.to_vec(), token.to_vec()), from_balance - amount);
        let to_balance = self.balance(to, token);
        self.balances.insert((to.to_vec(), token.to_vec()), to_balance + amount);
    }

    fn send(&mut self, transfers: &[Transfer]) {
        for t in transfers {
            assert_eq!(t.token_nonce, NONCE);
            self.move_tokens(CONTRACT, &t.to, &t.token_identifier, t.amount);
        }
    }

    fn increase_reserve(&mut self, token: &[u8], amount: u64) -> Result<(), FlipError> {
        let payment = Payment { token_identifier: token.to_vec(), token_nonce: NONCE, amount: amount as u128 };
        let result = self.contract.increase_reserve(&payment);
        if result.is_ok() {
            self.move_tokens(OWNER, CONTRACT, token, amount as u128);
        }
        result
    }

    fn execute_flip(&mut self, address: &[u8], token: &[u8], amount: u128) -> Result<(), FlipError> {
        // In these scenarios an ESDT bet always pays 10 tokens.
        let paid = if token == EGLD_TOKEN_ID { amount } else { 10 };
        let payment = Payment { token_identifier: token.to_vec(), token_nonce: NONCE, amount: paid };
        let result = self.contract.flip(&address.to_vec(), self.block_nonce, &payment);
        match result {
            Ok(owner_fee) => {
                self.move_tokens(address, CONTRACT, token, paid);
                self.send(&[owner_fee]);
                Ok(())
            },
            Err(e) => Err(e),
        }
    }

    fn try_flip_bounty(&mut self, address: &[u8]) -> Result<(), FlipError> {
        let pending = (self.contract.last_flip_id() - self.contract.last_bounty_flip_id()) as usize;
        let mut random_numbers = self.random_numbers.clone();
        random_numbers.resize(pending.max(random_numbers.len()), 0);
        let result = self.contract.flip_bounty(&address.to_vec(), false, self.block_nonce, &random_numbers);
        match result {
            Ok(transfers) => {
                self.send(&transfers);
                Ok(())
            },
            Err(e) => Err(e),
        }
    }

    fn execute_flip_bounty(&mut self, address: &[u8]) {
        self.try_flip_bounty(address).unwrap();
    }
}

fn egld() -> Vec<u8> {
    EGLD_TOKEN_ID.to_vec()
}

fn flip_token() -> Vec<u8> {
    FLIP_TOKEN_ID.to_vec()
}

#[test]
fn deploy_test() {
    let mut setup = FlipContractSetup::new();
    assert_eq!(setup.contract.init(&OWNER.to_vec(), 10, 10, 10), Ok(()));
}

#[test]
fn increase_reserve() {
    let mut setup = FlipContractSetup::new();

    assert_eq!(setup.increase_reserve(EGLD_TOKEN_ID, HUNDRED), Ok(()));
    assert_eq!(setup.contract.token_reserve(&egld(), 0), HUNDRED as u128);

    assert_eq!(setup.increase_reserve(FLIP_TOKEN_ID, HUNDRED), Ok(()));
    assert_eq!(setup.contract.token_reserve(&flip_token(), 0), HUNDRED as u128);

    assert_eq!(setup.balance(CONTRACT, EGLD_TOKEN_ID), HUNDRED as u128);
    assert_eq!(setup.balance(CONTRACT, FLIP_TOKEN_ID), HUNDRED as u128);
}

#[test]
fn withdraw_reserve_egld() {
    let mut setup = FlipContractSetup::new();
    let amount_two_hundred: u64 = 200;
    assert_eq!(setup.increase_reserve(EGLD_TOKEN_ID, amount_two_hundred), Ok(()));

    let sent = setup
        .contract
        .withdraw_reserve(&OWNER.to_vec(), &egld(), 0, Some(HUNDRED as u128))
        .unwrap();
    setup.send(&[sent]);

    assert_eq!(setup.contract.token_reserve(&egld(), 0), HUNDRED as u128);
    assert_eq!(setup.balance(CONTRACT, EGLD_TOKEN_ID), HUNDRED as u128);
}

#[test]
fn withdraw_reserve_esdt() {
    let mut setup = FlipContractSetup::new();
    let amount_two_hundred: u64 = 200;
    assert_eq!(setup.increase_reserve(FLIP_TOKEN_ID, amount_two_hundred), Ok(()));

    let sent = setup
        .contract
        .withdraw_reserve(&OWNER.to_vec(), &flip_token(), 0, Some(HUNDRED as u128))
        .unwrap();
    setup.send(&[sent]);

    assert_eq!(setup.contract.token_reserve(&flip_token(), 0), HUNDRED as u128);
    assert_eq!(setup.balance(CONTRACT, FLIP_TOKEN_ID), HUNDRED as u128);
}

#[test]
fn flip_rust_test_set_maximum_bet_percent_test() {
    let mut setup = FlipContractSetup::new();
    assert_eq!(
        setup.contract.set_maximum_bet_percent(&OWNER.to_vec(), &flip_token(), 0, TEN_PERCENT),
        Ok(())
    );
    assert_eq!(setup.contract.maximum_bet_percent(&flip_token(), 0), TEN_PERCENT);
}

#[test]
fn flip_rust_test_set_maximum_bet_test() {
    let mut setup = FlipContractSetup::new();
    let amount: u64 = 10;
    assert_eq!(
        setup.contract.set_maximum_bet(&OWNER.to_vec(), &flip_token(), 0, amount as u128),
        Ok(())
    );
    assert_eq!(setup.contract.maximum_bet(&flip_token(), 0), amount as u128);
}

#[test]
fn flip_rust_test_set_minimum_block_bounty() {
    let mut setup = FlipContractSetup::new();
    let mini_block_bounty: u64 = 2;
    assert_eq!(setup.contract.set_minimum_block_bounty(&OWNER.to_vec(), mini_block_bounty), Ok(()));
    assert_eq!(setup.contract.minimum_block_bounty(), mini_block_bounty);
}

fn run_single_flip(token: &[u8]) {
    let mut setup = FlipContractSetup::new();
    assert_eq!(setup.increase_reserve(token, HUNDRED), Ok(()));
    setup.block_nonce = 13;
    assert_eq!(setup.execute_flip(ALICE, token, 10), Ok(()));

    let struct_flip = setup.contract.flip_for_id(1).unwrap();
    assert_eq!(struct_flip.player_address, ALICE.to_vec());
    assert_eq!(struct_flip.token_identifier, token.to_vec());
    assert_eq!(struct_flip.token_nonce, 0u64);
    assert_eq!(struct_flip.amount, 8);
    assert_eq!(struct_flip.bounty, 1);
    assert_eq!(struct_flip.block_nonce, 13);
    assert_eq!(struct_flip.minimum_block_bounty, 2);
}

#[test]
fn single_flip_egld() {
    run_single_flip(EGLD_TOKEN_ID);
}

#[test]
fn single_flip_esdt() {
    run_single_flip(FLIP_TOKEN_ID);
}

fn run_single_flip_win_lose(token: &[u8]) {
    let mut setup = FlipContractSetup::new();
    assert_eq!(setup.increase_reserve(token, HUNDRED), Ok(()));

    assert_eq!(setup.execute_flip(ALICE, token, 10), Ok(()));
    assert_eq!(setup.execute_flip(ALICE, token, 10), Ok(()));

    setup.block_nonce = 2;
    setup.execute_flip_bounty(CAROL);

    assert_eq!(setup.balance(CAROL, token), 1002);
    assert_eq!(setup.balance(ALICE, token), 996);
    assert_eq!(setup.balance(OWNER, token), 1002);
}

#[test]
fn single_flip_win_lose_egld() {
    run_single_flip_win_lose(EGLD_TOKEN_ID);
}

#[test]
fn single_flip_win_lose_esdt() {
    run_single_flip_win_lose(FLIP_TOKEN_ID);
}

#[test]
fn multiple_flip_bounty() {
    let mut setup = FlipContractSetup::new();
    assert_eq!(setup.increase_reserve(EGLD_TOKEN_ID, HUNDRED), Ok(()));
    assert_eq!(setup.increase_reserve(FLIP_TOKEN_ID, HUNDRED), Ok(()));

    assert_eq!(setup.execute_flip(ALICE, EGLD_TOKEN_ID, 10), Ok(()));
    assert_eq!(setup.execute_flip(BOB, FLIP_TOKEN_ID, 10), Ok(()));

    setup.block_nonce = 10;
    assert_eq!(setup.execute_flip(ALICE, FLIP_TOKEN_ID, 10), Ok(()));

    setup.block_nonce = 13;
    assert_eq!(setup.execute_flip(BOB, FLIP_TOKEN_ID, 10), Ok(()));

    setup.block_nonce = 14;
    assert_eq!(setup.execute_flip(ALICE, EGLD_TOKEN_ID, 10), Ok(()));

    setup.block_nonce = 16;
    setup.execute_flip_bounty(CAROL);

    assert_eq!(setup.balance(CAROL, FLIP_TOKEN_ID), 1003);
    assert_eq!(setup.balance(CAROL, EGLD_TOKEN_ID), 1002);
}

#[test]
fn multiple_flip_bounty_err() {
    let mut setup = FlipContractSetup::new();
    assert_eq!(setup.increase_reserve(EGLD_TOKEN_ID, HUNDRED), Ok(()));
    assert_eq!(setup.increase_reserve(FLIP_TOKEN_ID, HUNDRED), Ok(()));

    assert_eq!(setup.execute_flip(ALICE, EGLD_TOKEN_ID, 10), Ok(()));
    assert_eq!(setup.execute_flip(BOB, FLIP_TOKEN_ID, 10), Ok(()));

    setup.block_nonce = 10;
    assert_eq!(setup.execute_flip(ALICE, FLIP_TOKEN_ID, 10), Ok(()));

    setup.block_nonce = 13;
    assert_eq!(setup.execute_flip(BOB, FLIP_TOKEN_ID, 10), Ok(()));

    setup.block_nonce = 14;
    assert_eq!(setup.execute_flip(ALICE, EGLD_TOKEN_ID, 10), Ok(()));

    setup.execute_flip_bounty(CAROL);

    assert_eq!(setup.balance(CAROL, FLIP_TOKEN_ID), 1002);
    assert_eq!(setup.balance(CAROL, EGLD_TOKEN_ID), 1001);
}

#[test]
fn bounty_block_error() {
    let mut setup = FlipContractSetup::new();
    setup.block_nonce = 10;
    assert_eq!(setup.increase_reserve(EGLD_TOKEN_ID, HUNDRED), Ok(()));
    assert_eq!(setup.execute_flip(ALICE, EGLD_TOKEN_ID, 10), Ok(()));
    let result = setup.try_flip_bounty(BOB);
    assert_eq!(result, Err(FlipError::NoBounty));
    assert_eq!(result.unwrap_err().message(), "no bounty");
}

#[test]
fn flip_sup_max_bet_percent_error() {
    let mut setup = FlipContractSetup::new();
    assert_eq!(setup.increase_reserve(EGLD_TOKEN_ID, 50), Ok(()));
    let result = setup.execute_flip(ALICE, EGLD_TOKEN_ID, 10);
    assert_eq!(result, Err(FlipError::TooMuchBet));
    assert_eq!(result.unwrap_err().message(), "too much bet");
}

#[test]
fn flip_sup_max_bet_error() {
    let mut setup = FlipContractSetup::new();
    assert_eq!(setup.increase_reserve(EGLD_TOKEN_ID, 1000), Ok(()));
    let result = setup.execute_flip(ALICE, EGLD_TOKEN_ID, 20);
    assert_eq!(result, Err(FlipError::TooMuchBet));
    assert_eq!(result.unwrap_err().message(), "too much bet");
}

#[test]
fn mod_set_maximum_bet_percent_test() {
    let mut setup = FlipContractSetup::new();
    assert_eq!(
        setup.contract.set_maximum_bet_percent(&OWNER.to_vec(), &flip_token(), 0, TEN_PERCENT),
        Ok(())
    );
    let maximum_bet_percent = setup.contract.maximum_bet_percent(&flip_token(), 0);
    let expected = TEN_PERCENT;
    assert_eq!(maximum_bet_percent, expected);
}

#[test]
fn mod_set_maximum_bet_test() {
    let mut setup = FlipContractSetup::new();
    assert_eq!(setup.contract.set_maximum_bet(&OWNER.to_vec(), &flip_token(), 0, 10), Ok(()));
    let maximum_bet = setup.contract.maximum_bet(&flip_token(), 0);
    let expected = 10u128;
    assert_eq!(maximum_bet, expected);
}

#[test]
fn mod_set_minimum_block_bounty() {
    let mut setup = FlipContractSetup::new();
    assert_eq!(setup.contract.set_minimum_block_bounty(&OWNER.to_vec(), 2u64), Ok(()));
    let minimum_block_bounty = setup.contract.minimum_block_bounty();
    let expected = 2u64;
    assert_eq!(minimum_block_bounty, expected);
}
