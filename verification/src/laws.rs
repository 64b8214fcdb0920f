//! What holds of the contract across calls: the pending flips are exactly those after the
//! last one drawn; the tokens the contract holds for a token are its reserve plus, for each
//! pending flip, twice the stake and the bounty, for every token; flips are drawn in order,
//! only once old enough, never in the block they were placed in, and at least as far at a
//! later block; a draw's outcome is decided by its random number alone; a withdrawal undoes
//! a deposit; and a setter's value is what the storage reads afterward.
use vstd::prelude::*;

use crate::model::{
    after_transfers, amount_at, bounty_draws, flip_bounty_step, flip_step, fresh_model, increase_reserve_step,
    init_step, is_win, make_flip_step, max_allowed_bet, set_maximum_bet_percent_step,
    set_maximum_bet_step, set_minimum_block_bounty_step, withdraw_reserve_step, write_amount,
    ContractModel, Draws,
};
use crate::percent::percent_of;
use crate::structs::{FlipError, FlipView, PaymentView, TransferView};
use crate::token_map::TokenKey;

verus! {

/// The pending flips are those placed after the last one drawn: each id from
/// `last_bounty_flip_id + 1` to `last_flip_id` holds a flip stored under its own id, and no
/// id from 1 to `last_bounty_flip_id` holds one.
pub open spec fn pending_flips_valid(m: ContractModel) -> bool {
    &&& m.last_bounty_flip_id <= m.last_flip_id
    &&& forall|id: u64|
        m.last_bounty_flip_id < id <= m.last_flip_id ==> #[trigger] m.flip_for_id.contains_key(id)
            && m.flip_for_id[id].id == id
    &&& forall|id: u64|
        1 <= id <= m.last_bounty_flip_id ==> !#[trigger] m.flip_for_id.contains_key(id)
}

/// Every flip waits at least one block: the minimum block bounty is not zero, nor is that
/// of any pending flip.
pub open spec fn delays_positive(m: ContractModel) -> bool {
    &&& m.minimum_block_bounty >= 1
    &&& forall|id: u64|
        m.last_bounty_flip_id < id <= m.last_flip_id ==> #[trigger] m.flip_for_id[id].minimum_block_bounty
            >= 1
}

/// What every storage reached by deploying and calling endpoints satisfies.
pub open spec fn storage_invariants(m: ContractModel) -> bool {
    &&& pending_flips_valid(m)
    &&& reserves_positive(m.token_reserve)
    &&& delays_positive(m)
}

/// No reserve entry holds zero.
pub open spec fn reserves_positive(reserve: Map<TokenKey, u128>) -> bool {
    forall|k: TokenKey| #[trigger] reserve.contains_key(k) ==> reserve[k] > 0
}

/// Each flip stored under an id from `lo + 1` to `hi` is stored under its own id.
pub open spec fn ids_match_in(flips: Map<u64, FlipView>, lo: u64, hi: u64) -> bool {
    forall|id: u64| lo < id <= hi && #[trigger] flips.contains_key(id) ==> flips[id].id == id
}

/// The token of a flip.
pub open spec fn flip_key(f: FlipView) -> TokenKey {
    (f.token_identifier, f.token_nonce)
}

/// What the contract holds back for the flip stored under `id`, in token `k`: twice the stake
/// (the player's and the reserve's) and the bounty.
pub open spec fn stake_of(flips: Map<u64, FlipView>, k: TokenKey, id: nat) -> nat {
    if id <= u64::MAX && flips.contains_key(id as u64) && flip_key(flips[id as u64]) == k {
        2 * (flips[id as u64].amount as nat) + (flips[id as u64].bounty as nat)
    } else {
        0
    }
}

/// What the contract holds back, in token `k`, for the flips stored under the ids `lo + 1`
/// to `hi`.
pub open spec fn held_back(flips: Map<u64, FlipView>, k: TokenKey, lo: nat, hi: nat) -> nat
    decreases hi - lo,
{
    if hi <= lo {
        0
    } else {
        held_back(flips, k, lo, (hi - 1) as nat) + stake_of(flips, k, hi)
    }
}

/// What the contract owes in token `k`: its reserve and what it holds back for the pending
/// flips.
pub open spec fn committed(m: ContractModel, k: TokenKey) -> nat {
    (amount_at(m.token_reserve, k) as nat) + held_back(
        m.flip_for_id,
        k,
        m.last_bounty_flip_id as nat,
        m.last_flip_id as nat,
    )
}

/// What a list of transfers sends in token `k`.
pub open spec fn sent(transfers: Seq<TransferView>, k: TokenKey) -> nat
    decreases transfers.len(),
{
    if transfers.len() == 0 {
        0
    } else {
        let t = transfers.last();
        sent(transfers.drop_last(), k) + (if (t.token_identifier, t.token_nonce) == k {
            t.amount as nat
        } else {
            0
        })
    }
}

/// What a payment brings in token `k`.
pub open spec fn received(payment: PaymentView, k: TokenKey) -> nat {
    if (payment.token_identifier, payment.token_nonce) == k {
        payment.amount as nat
    } else {
        0
    }
}

// ---------------------------------------------------------------------------------------
// Lemmas on the sums.
proof fn lemma_sent_append(a: Seq<TransferView>, b: Seq<TransferView>, k: TokenKey)
    ensures
        sent(a + b, k) == sent(a, k) + sent(b, k),
    decreases b.len(),
{
    if b.len() == 0 {
        assert(a + b =~= a);
    } else {
        assert((a + b).drop_last() =~= a + b.drop_last());
        lemma_sent_append(a, b.drop_last(), k);
    }
}

proof fn lemma_sent_one(t: TransferView, k: TokenKey)
    ensures
        sent(seq![t], k) == (if (t.token_identifier, t.token_nonce) == k {
            t.amount as nat
        } else {
            0
        }),
{
    assert(seq![t].drop_last() =~= Seq::<TransferView>::empty());
    assert(sent(Seq::<TransferView>::empty(), k) == 0);
}

proof fn lemma_sent_two(t: TransferView, u: TransferView, k: TokenKey)
    ensures
        sent(seq![t, u], k) == sent(seq![t], k) + sent(seq![u], k),
{
    assert(seq![t, u] =~= seq![t] + seq![u]);
    lemma_sent_append(seq![t], seq![u], k);
}

/// The sum only reads the flips in its range.
proof fn lemma_held_back_frame(
    f1: Map<u64, FlipView>,
    f2: Map<u64, FlipView>,
    k: TokenKey,
    lo: nat,
    hi: nat,
)
    requires
        forall|id: nat| lo < id <= hi ==> #[trigger] stake_of(f1, k, id) == stake_of(f2, k, id),
    ensures
        held_back(f1, k, lo, hi) == held_back(f2, k, lo, hi),
    decreases hi - lo,
{
    if hi > lo {
        lemma_held_back_frame(f1, f2, k, lo, (hi - 1) as nat);
    }
}

/// Removing the flip under an id in range takes its stake off the sum.
proof fn lemma_held_back_remove(flips: Map<u64, FlipView>, k: TokenKey, lo: nat, hi: nat, j: u64)
    requires
        lo < j <= hi,
    ensures
        held_back(flips.remove(j), k, lo, hi) + stake_of(flips, k, j as nat) == held_back(
            flips,
            k,
            lo,
            hi,
        ),
    decreases hi - lo,
{
    if hi == j {
        lemma_held_back_frame(flips.remove(j), flips, k, lo, (hi - 1) as nat);
    } else {
        lemma_held_back_remove(flips, k, lo, (hi - 1) as nat, j);
    }
}

/// Ids with no flip add nothing, so the range may start after them.
proof fn lemma_held_back_skip(flips: Map<u64, FlipView>, k: TokenKey, lo: nat, mid: nat, hi: nat)
    requires
        lo <= mid <= hi,
        forall|id: nat| lo < id <= mid ==> #[trigger] stake_of(flips, k, id) == 0,
    ensures
        held_back(flips, k, lo, hi) == held_back(flips, k, mid, hi),
    decreases hi - lo,
{
    if hi == mid {
        lemma_held_back_zero(flips, k, lo, hi);
    } else {
        lemma_held_back_skip(flips, k, lo, mid, (hi - 1) as nat);
    }
}

proof fn lemma_held_back_zero(flips: Map<u64, FlipView>, k: TokenKey, lo: nat, hi: nat)
    requires
        forall|id: nat| lo < id <= hi ==> #[trigger] stake_of(flips, k, id) == 0,
    ensures
        held_back(flips, k, lo, hi) == 0,
    decreases hi - lo,
{
    if hi > lo {
        lemma_held_back_zero(flips, k, lo, (hi - 1) as nat);
    }
}

proof fn lemma_amount_at_write(m: Map<TokenKey, u128>, k0: TokenKey, v: u128, k: TokenKey)
    ensures
        amount_at(write_amount(m, k0, v), k) == if k == k0 {
            v
        } else {
            amount_at(m, k)
        },
{
}

/// The reserve of token `k` and what is held back for the flips with ids `lo + 1` to `hi`.
pub open spec fn ledger(m: ContractModel, k: TokenKey, lo: nat, hi: nat) -> nat {
    (amount_at(m.token_reserve, k) as nat) + held_back(m.flip_for_id, k, lo, hi)
}

/// The first block at which a flip may be drawn.
pub open spec fn due_block(f: FlipView) -> int {
    f.block_nonce + f.minimum_block_bounty
}

/// Drawing a flip moves what was held back for it into the reserve or out to its payees.
proof fn lemma_make_flip(
    m: ContractModel,
    bounty_address: Seq<u8>,
    j: u64,
    random: u8,
    k: TokenKey,
    lo: nat,
    hi: nat,
)
    requires
        m.flip_for_id.contains_key(j),
        m.flip_for_id[j].id == j,
        lo < j <= hi,
    ensures
        match make_flip_step(m, bounty_address, m.flip_for_id[j], random) {
            Ok((m2, ts)) => {
                &&& m2 == ContractModel {
                    token_reserve: m2.token_reserve,
                    flip_for_id: m.flip_for_id.remove(j),
                    ..m
                }
                &&& ledger(m2, k, lo, hi) + sent(ts, k) == ledger(m, k, lo, hi)
                &&& reserves_positive(m.token_reserve) ==> reserves_positive(m2.token_reserve)
            },
            Err(_) => true,
        },
{
    let f = m.flip_for_id[j];
    let fk = flip_key(f);
    lemma_held_back_remove(m.flip_for_id, k, lo, hi, j);
    let bounty_transfer = TransferView {
        to: bounty_address,
        token_identifier: f.token_identifier,
        token_nonce: f.token_nonce,
        amount: f.bounty,
    };
    lemma_sent_one(bounty_transfer, k);
    if 2 * f.amount <= u128::MAX {
        if is_win(random) {
            let prize = TransferView {
                to: f.player_address,
                token_identifier: f.token_identifier,
                token_nonce: f.token_nonce,
                amount: (2 * f.amount) as u128,
            };
            lemma_sent_two(bounty_transfer, prize, k);
            lemma_sent_one(prize, k);
        } else {
            let new_reserve = amount_at(m.token_reserve, fk) + 2 * f.amount;
            if new_reserve <= u128::MAX {
                lemma_amount_at_write(m.token_reserve, fk, new_reserve as u128, k);
            }
        }
    }
}

/// What a run of draws from `next` did, given its result `r`: it drew the flips after `next`
/// up to the id it returns, each of them due, and stopped at the end, at a missing flip, or at
/// one not yet due; it touched no other flip and no other part of the storage but the
/// reserves, and what it sent is what it moved out of the ledger.
pub open spec fn draws_facts(
    m: ContractModel,
    block_nonce: u64,
    next: u64,
    last: u64,
    k: TokenKey,
    lo: nat,
    hi: nat,
    r: Draws,
) -> bool {
    match r {
        Ok((m2, ts, n)) => {
            &&& next <= n <= last
            &&& m2 == ContractModel {
                token_reserve: m2.token_reserve,
                flip_for_id: m2.flip_for_id,
                ..m
            }
            &&& forall|id: u64| next < id <= n ==> #[trigger] m.flip_for_id.contains_key(id)
            &&& forall|id: u64| next < id <= n ==> !#[trigger] m2.flip_for_id.contains_key(id)
            &&& forall|id: u64|
                next < id <= n ==> due_block(#[trigger] m.flip_for_id[id]) <= block_nonce
            &&& forall|id: u64|
                !(next < id <= n) ==> {
                    &&& #[trigger] m2.flip_for_id.contains_key(id)
                        == m.flip_for_id.contains_key(id)
                    &&& m.flip_for_id.contains_key(id) ==> m2.flip_for_id[id]
                        == m.flip_for_id[id]
                }
            &&& n < last ==> (!m.flip_for_id.contains_key((n + 1) as u64) || block_nonce
                < due_block(m.flip_for_id[(n + 1) as u64]))
            &&& ledger(m2, k, lo, hi) + sent(ts, k) == ledger(m, k, lo, hi)
            &&& reserves_positive(m.token_reserve) ==> reserves_positive(m2.token_reserve)
        },
        Err(_) => true,
    }
}

proof fn lemma_bounty_draws(
    m: ContractModel,
    caller: Seq<u8>,
    block_nonce: u64,
    random_numbers: Seq<u8>,
    first: u64,
    next: u64,
    last: u64,
    k: TokenKey,
    lo: nat,
    hi: nat,
)
    requires
        ids_match_in(m.flip_for_id, next, last),
        next <= last,
        lo <= next,
        last <= hi,
    ensures
        draws_facts(
            m,
            block_nonce,
            next,
            last,
            k,
            lo,
            hi,
            bounty_draws(m, caller, block_nonce, random_numbers, first, next, last),
        ),
    decreases last - next,
{
    let r = bounty_draws(m, caller, block_nonce, random_numbers, first, next, last);
    assert(sent(Seq::<TransferView>::empty(), k) == 0);
    if next >= last {
        assert(r == Ok::<(ContractModel, Seq<TransferView>, u64), FlipError>((m, seq![], next)));
        assert(draws_facts(m, block_nonce, next, last, k, lo, hi, r));
        return;
    }
    let flip_id = (next + 1) as u64;
    if !m.flip_for_id.contains_key(flip_id) {
        assert(draws_facts(m, block_nonce, next, last, k, lo, hi, r));
        return;
    }
    let flip = m.flip_for_id[flip_id];
    if due_block(flip) > u64::MAX {
        return;
    }
    if block_nonce < due_block(flip) {
        assert(draws_facts(m, block_nonce, next, last, k, lo, hi, r));
        return;
    }
    let random = random_numbers[next - first];
    lemma_make_flip(m, caller, flip_id, random, k, lo, hi);
    match make_flip_step(m, caller, flip, random) {
        Ok((m1, ts1)) => {
            let rest = bounty_draws(m1, caller, block_nonce, random_numbers, first, flip_id, last);
            assert(r == after_transfers(ts1, rest));
            assert(m1.flip_for_id == m.flip_for_id.remove(flip_id));
            assert(ids_match_in(m1.flip_for_id, flip_id, last));
            lemma_bounty_draws(
                m1,
                caller,
                block_nonce,
                random_numbers,
                first,
                flip_id,
                last,
                k,
                lo,
                hi,
            );
            match rest {
                Ok((m2, ts2, n)) => {
                    lemma_sent_append(ts1, ts2, k);
                    assert forall|id: u64| next < id <= n implies #[trigger] m.flip_for_id.contains_key(
                        id,
                    ) && m.flip_for_id[id] == (if id == flip_id {
                        flip
                    } else {
                        m1.flip_for_id[id]
                    }) by {
                        if id != flip_id {
                            assert(!m2.flip_for_id.contains_key(id));
                            assert(m1.flip_for_id.contains_key(id));
                        }
                    }
                    assert forall|id: u64| next < id <= n implies !#[trigger] m2.flip_for_id.contains_key(
                        id,
                    ) by {}
                    assert forall|id: u64| next < id <= n implies due_block(
                        #[trigger] m.flip_for_id[id],
                    ) <= block_nonce by {
                        assert(m.flip_for_id.contains_key(id));
                        if id != flip_id {
                            assert(m1.flip_for_id[id] == m.flip_for_id[id]);
                        }
                    }
                    assert forall|id: u64| !(next < id <= n) implies {
                        &&& #[trigger] m2.flip_for_id.contains_key(id)
                            == m.flip_for_id.contains_key(id)
                        &&& m.flip_for_id.contains_key(id) ==> m2.flip_for_id[id]
                            == m.flip_for_id[id]
                    } by {
                        assert(m2.flip_for_id.contains_key(id) == m1.flip_for_id.contains_key(id));
                    }
                    assert(draws_facts(m, block_nonce, next, last, k, lo, hi, r));
                },
                Err(_) => {},
            }
        },
        Err(_) => {},
    }
}

/// Placing a flip under the next id adds its stake to the sum.
proof fn lemma_held_back_push(flips: Map<u64, FlipView>, k: TokenKey, lo: nat, hi: nat, f: FlipView)
    requires
        lo <= hi < u64::MAX,
    ensures
        held_back(flips.insert((hi + 1) as u64, f), k, lo, hi + 1) == held_back(flips, k, lo, hi) + (
        if flip_key(f) == k {
            2 * (f.amount as nat) + (f.bounty as nat)
        } else {
            0
        }),
{
    let flips2 = flips.insert((hi + 1) as u64, f);
    assert forall|id: nat| lo < id <= hi implies #[trigger] stake_of(flips2, k, id) == stake_of(
        flips,
        k,
        id,
    ) by {
        assert(id as u64 != (hi + 1) as u64);
    }
    lemma_held_back_frame(flips2, flips, k, lo, hi);
}


// ---------------------------------------------------------------------------------------
// The pending flips and the ledger, call by call.

/// A contract that has just been created has no pending flip, no zero reserve entry, and
/// owes nothing.
pub proof fn law_fresh_contract(owner: Seq<u8>, k: TokenKey)
    ensures
        pending_flips_valid(fresh_model(owner)),
        reserves_positive(fresh_model(owner).token_reserve),
        committed(fresh_model(owner), k) == 0,
{
}

/// Deploying a contract, which creates it and runs `init`, gives a storage that satisfies
/// every invariant and owes nothing.
pub proof fn law_deploy(
    owner: Seq<u8>,
    owner_percent_fees: u64,
    bounty_percent_fees: u64,
    minimum_block_bounty: u64,
    k: TokenKey,
)
    requires
        init_step(
            fresh_model(owner),
            owner,
            owner_percent_fees,
            bounty_percent_fees,
            minimum_block_bounty,
        ) is Ok,
    ensures
        ({
            let m = init_step(
                fresh_model(owner),
                owner,
                owner_percent_fees,
                bounty_percent_fees,
                minimum_block_bounty,
            )->Ok_0;
            &&& storage_invariants(m)
            &&& committed(m, k) == 0
        }),
{
}

/// `init` touches neither the reserves nor the flips, so it keeps the invariants and what
/// the contract owes.
pub proof fn law_init(
    m: ContractModel,
    caller: Seq<u8>,
    owner_percent_fees: u64,
    bounty_percent_fees: u64,
    minimum_block_bounty: u64,
    k: TokenKey,
)
    requires
        init_step(m, caller, owner_percent_fees, bounty_percent_fees, minimum_block_bounty) is Ok,
    ensures
        ({
            let m2 = init_step(
                m,
                caller,
                owner_percent_fees,
                bounty_percent_fees,
                minimum_block_bounty,
            )->Ok_0;
            &&& pending_flips_valid(m) ==> pending_flips_valid(m2)
            &&& reserves_positive(m.token_reserve) ==> reserves_positive(m2.token_reserve)
            &&& delays_positive(m) ==> delays_positive(m2)
            &&& committed(m2, k) == committed(m, k)
        }),
{
}

/// `increaseReserve` keeps both invariants, and what the contract owes grows by exactly what
/// it was paid.
pub proof fn law_increase_reserve(m: ContractModel, payment: PaymentView, k: TokenKey)
    requires
        increase_reserve_step(m, payment) is Ok,
    ensures
        ({
            let m2 = increase_reserve_step(m, payment)->Ok_0;
            &&& pending_flips_valid(m) ==> pending_flips_valid(m2)
            &&& reserves_positive(m.token_reserve) ==> reserves_positive(m2.token_reserve)
            &&& delays_positive(m) ==> delays_positive(m2)
            &&& committed(m2, k) == committed(m, k) + received(payment, k)
        }),
{
    let pk = (payment.token_identifier, payment.token_nonce);
    let new_reserve = amount_at(m.token_reserve, pk) + payment.amount;
    lemma_amount_at_write(m.token_reserve, pk, new_reserve as u128, k);
}

/// `withdrawReserve` keeps both invariants and leaves the flips as they are: the owner takes
/// at most the reserve, never what is held back for pending flips. What the contract owes
/// shrinks by exactly what it sends.
pub proof fn law_withdraw_reserve(
    m: ContractModel,
    caller: Seq<u8>,
    token_identifier: Seq<u8>,
    token_nonce: u64,
    amount: Option<u128>,
    k: TokenKey,
)
    requires
        withdraw_reserve_step(m, caller, token_identifier, token_nonce, amount) is Ok,
    ensures
        ({
            let (m2, ts) = withdraw_reserve_step(
                m,
                caller,
                token_identifier,
                token_nonce,
                amount,
            )->Ok_0;
            &&& pending_flips_valid(m) ==> pending_flips_valid(m2)
            &&& reserves_positive(m.token_reserve) ==> reserves_positive(m2.token_reserve)
            &&& delays_positive(m) ==> delays_positive(m2)
            &&& m2.flip_for_id == m.flip_for_id
            &&& ts[0].amount <= amount_at(m.token_reserve, (token_identifier, token_nonce))
            &&& committed(m2, k) + sent(ts, k) == committed(m, k)
        }),
{
    let (m2, ts) = withdraw_reserve_step(m, caller, token_identifier, token_nonce, amount)->Ok_0;
    let wk = (token_identifier, token_nonce);
    let reserve = amount_at(m.token_reserve, wk);
    lemma_amount_at_write(m.token_reserve, wk, (reserve - ts[0].amount) as u128, k);
    lemma_sent_one(ts[0], k);
}

/// The owner's setters touch neither the reserves nor the flips.
pub proof fn law_setters(
    m: ContractModel,
    caller: Seq<u8>,
    token_identifier: Seq<u8>,
    token_nonce: u64,
    percent: u64,
    amount: u128,
    minimum_block_bounty: u64,
    k: TokenKey,
)
    ensures
        set_maximum_bet_percent_step(m, caller, token_identifier, token_nonce, percent) matches Ok(
            m2,
        ) ==> m2.token_reserve == m.token_reserve && m2.flip_for_id == m.flip_for_id
            && m2.last_flip_id == m.last_flip_id && m2.last_bounty_flip_id
            == m.last_bounty_flip_id && committed(m2, k) == committed(m, k) && (delays_positive(m)
            ==> delays_positive(m2)),
        set_maximum_bet_step(m, caller, token_identifier, token_nonce, amount) matches Ok(m2)
            ==> m2.token_reserve == m.token_reserve && m2.flip_for_id == m.flip_for_id
            && m2.last_flip_id == m.last_flip_id && m2.last_bounty_flip_id
            == m.last_bounty_flip_id && committed(m2, k) == committed(m, k) && (delays_positive(m)
            ==> delays_positive(m2)),
        set_minimum_block_bounty_step(m, caller, minimum_block_bounty) matches Ok(m2)
            ==> m2.token_reserve == m.token_reserve && m2.flip_for_id == m.flip_for_id
            && m2.last_flip_id == m.last_flip_id && m2.last_bounty_flip_id
            == m.last_bounty_flip_id && committed(m2, k) == committed(m, k) && (delays_positive(m)
            ==> delays_positive(m2)),
{
}

/// `flip` stores the bet under the next id; its stake, bounty and the owner's fee make up
/// the payment, and the stake is at most the maximum allowed bet. It keeps both invariants,
/// and what the contract owes grows by what it was paid less the owner's fee it sends.
pub proof fn law_flip(
    m: ContractModel,
    caller: Seq<u8>,
    block_nonce: u64,
    payment: PaymentView,
    k: TokenKey,
)
    requires
        pending_flips_valid(m),
        flip_step(m, caller, block_nonce, payment) is Ok,
    ensures
        ({
            let (m2, ts) = flip_step(m, caller, block_nonce, payment)->Ok_0;
            let pk = (payment.token_identifier, payment.token_nonce);
            let f = m2.flip_for_id[m2.last_flip_id];
            &&& pending_flips_valid(m2)
            &&& reserves_positive(m.token_reserve) ==> reserves_positive(m2.token_reserve)
            &&& delays_positive(m) ==> delays_positive(m2)
            &&& m2.last_flip_id == m.last_flip_id + 1
            &&& m2.last_bounty_flip_id == m.last_bounty_flip_id
            &&& m2.flip_for_id.contains_key(m2.last_flip_id)
            &&& f.id == m2.last_flip_id
            &&& flip_key(f) == pk
            &&& f.player_address == caller
            &&& f.block_nonce == block_nonce
            &&& f.minimum_block_bounty == m.minimum_block_bounty
            &&& f.amount + f.bounty + ts[0].amount == payment.amount
            &&& f.amount <= max_allowed_bet(m, pk)
            &&& f.bounty == percent_of(payment.amount as nat, m.bounty_percent_fees as nat)
            &&& ts[0].amount == percent_of(payment.amount as nat, m.owner_percent_fees as nat)
            &&& committed(m2, k) + sent(ts, k) == committed(m, k) + received(payment, k)
        }),
{
    let (m2, ts) = flip_step(m, caller, block_nonce, payment)->Ok_0;
    let pk = (payment.token_identifier, payment.token_nonce);
    let f = m2.flip_for_id[m2.last_flip_id];
    let reserve = amount_at(m.token_reserve, pk);
    lemma_amount_at_write(m.token_reserve, pk, (reserve - f.amount) as u128, k);
    lemma_held_back_push(
        m.flip_for_id,
        k,
        m.last_bounty_flip_id as nat,
        m.last_flip_id as nat,
        f,
    );
    lemma_sent_one(ts[0], k);
    {
        assert forall|id: u64|
            m2.last_bounty_flip_id < id <= m2.last_flip_id implies #[trigger] m2.flip_for_id.contains_key(
            id,
        ) && m2.flip_for_id[id].id == id by {
            if id != m2.last_flip_id {
                assert(m.flip_for_id.contains_key(id));
            }
        }
        assert forall|id: u64| 1 <= id <= m2.last_bounty_flip_id implies !#[trigger] m2.flip_for_id.contains_key(
            id,
        ) by {
            assert(!m.flip_for_id.contains_key(id));
        }
    }
}

/// Drawing one pending flip moves what was held back for it into the reserve (a loss) or out
/// to its payees (the bounty, and on a win twice the stake): what the contract owes shrinks
/// by exactly what it sends. The flip is no longer stored; no other flip changes.
pub proof fn law_make_flip(
    m: ContractModel,
    bounty_address: Seq<u8>,
    id: u64,
    random_number: u8,
    k: TokenKey,
)
    requires
        pending_flips_valid(m),
        m.last_bounty_flip_id < id <= m.last_flip_id,
        make_flip_step(m, bounty_address, m.flip_for_id[id], random_number) is Ok,
    ensures
        ({
            let (m2, ts) = make_flip_step(
                m,
                bounty_address,
                m.flip_for_id[id],
                random_number,
            )->Ok_0;
            &&& m2.flip_for_id == m.flip_for_id.remove(id)
            &&& m2.last_flip_id == m.last_flip_id
            &&& m2.last_bounty_flip_id == m.last_bounty_flip_id
            &&& reserves_positive(m.token_reserve) ==> reserves_positive(m2.token_reserve)
            &&& committed(m2, k) + sent(ts, k) == committed(m, k)
        }),
{
    assert(m.flip_for_id.contains_key(id));
    lemma_make_flip(
        m,
        bounty_address,
        id,
        random_number,
        k,
        m.last_bounty_flip_id as nat,
        m.last_flip_id as nat,
    );
}

/// A draw decides a flip by the random number alone: a one pays the player twice the stake
/// and leaves the reserve; any other number puts twice the stake into the reserve. Both
/// send the bounty to the drawer first. A draw is refused only where twice the stake, or the
/// reserve it fills, does not fit in a `u128`.
pub proof fn law_draw_decides_outcome(
    m: ContractModel,
    bounty_address: Seq<u8>,
    flip: FlipView,
    random_number: u8,
)
    ensures
        ({
            let fk = flip_key(flip);
            let prize = 2 * flip.amount;
            let bounty_transfer = TransferView {
                to: bounty_address,
                token_identifier: flip.token_identifier,
                token_nonce: flip.token_nonce,
                amount: flip.bounty,
            };
            &&& (make_flip_step(m, bounty_address, flip, random_number) is Err) <==> (prize
                > u128::MAX || (!is_win(random_number) && amount_at(m.token_reserve, fk) + prize
                > u128::MAX))
            &&& make_flip_step(m, bounty_address, flip, random_number) matches Ok((m2, ts)) ==> {
                &&& is_win(random_number) <==> random_number == 1
                &&& is_win(random_number) ==> {
                    &&& ts == seq![
                        bounty_transfer,
                        TransferView {
                            to: flip.player_address,
                            token_identifier: flip.token_identifier,
                            token_nonce: flip.token_nonce,
                            amount: prize as u128,
                        },
                    ]
                    &&& m2.token_reserve == m.token_reserve
                }
                &&& !is_win(random_number) ==> {
                    &&& ts == seq![bounty_transfer]
                    &&& amount_at(m2.token_reserve, fk) == amount_at(m.token_reserve, fk) + prize
                }
            }
        }),
{
    let fk = flip_key(flip);
    let new_reserve = amount_at(m.token_reserve, fk) + 2 * flip.amount;
    if new_reserve <= u128::MAX {
        lemma_amount_at_write(m.token_reserve, fk, new_reserve as u128, fk);
    }
}

/// `flipBounty` draws the pending flips in order of id, from the first one on, for as long
/// as they are due at the caller's block; the first flip it leaves is not yet due, and the
/// flips it leaves are as they were. It keeps both invariants, and what the contract owes
/// shrinks by exactly what it sends.
pub proof fn law_flip_bounty(
    m: ContractModel,
    caller: Seq<u8>,
    caller_is_smart_contract: bool,
    block_nonce: u64,
    random_numbers: Seq<u8>,
    k: TokenKey,
)
    requires
        pending_flips_valid(m),
        flip_bounty_step(m, caller, caller_is_smart_contract, block_nonce, random_numbers) is Ok,
    ensures
        ({
            let (m2, ts) = flip_bounty_step(
                m,
                caller,
                caller_is_smart_contract,
                block_nonce,
                random_numbers,
            )->Ok_0;
            &&& pending_flips_valid(m2)
            &&& reserves_positive(m.token_reserve) ==> reserves_positive(m2.token_reserve)
            &&& delays_positive(m) ==> delays_positive(m2)
            &&& m.last_bounty_flip_id < m2.last_bounty_flip_id <= m.last_flip_id
            &&& m2.last_flip_id == m.last_flip_id
            &&& forall|id: u64|
                m.last_bounty_flip_id < id <= m2.last_bounty_flip_id ==> due_block(
                    #[trigger] m.flip_for_id[id],
                ) <= block_nonce
            &&& forall|id: u64|
                m.last_bounty_flip_id < id <= m2.last_bounty_flip_id ==> !#[trigger] m2.flip_for_id.contains_key(id)
            &&& m2.last_bounty_flip_id < m.last_flip_id ==> block_nonce < due_block(
                m.flip_for_id[(m2.last_bounty_flip_id + 1) as u64],
            )
            &&& forall|id: u64|
                !(m.last_bounty_flip_id < id <= m2.last_bounty_flip_id) ==> (
                #[trigger] m2.flip_for_id.contains_key(id) == m.flip_for_id.contains_key(id))
            &&& forall|id: u64| #[trigger]
                m2.flip_for_id.contains_key(id) ==> m2.flip_for_id[id] == m.flip_for_id[id]
            &&& committed(m2, k) + sent(ts, k) == committed(m, k)
        }),
{
    let lb = m.last_bounty_flip_id;
    let lf = m.last_flip_id;
    let r = bounty_draws(m, caller, block_nonce, random_numbers, lb, lb, lf);
    assert forall|id: u64| lb < id <= lf && #[trigger] m.flip_for_id.contains_key(id) implies m.flip_for_id[id].id == id by {}
    lemma_bounty_draws(
        m,
        caller,
        block_nonce,
        random_numbers,
        lb,
        lb,
        lf,
        k,
        lb as nat,
        lf as nat,
    );
    let (m1, ts, n) = r->Ok_0;
    let m2 = ContractModel { last_bounty_flip_id: n, ..m1 };
    assert forall|id: nat| lb < id <= n implies #[trigger] stake_of(m1.flip_for_id, k, id) == 0 by {
        assert(!m1.flip_for_id.contains_key(id as u64));
    }
    lemma_held_back_skip(m1.flip_for_id, k, lb as nat, n as nat, lf as nat);
    assert forall|id: u64| n < id <= lf implies #[trigger] m2.flip_for_id.contains_key(id)
        && m2.flip_for_id[id] == m.flip_for_id[id] && m2.flip_for_id[id].id == id by {
        assert(m.flip_for_id.contains_key(id));
        assert(m1.flip_for_id.contains_key(id) == m.flip_for_id.contains_key(id));
        assert(m1.flip_for_id[id] == m.flip_for_id[id]);
    }
    if delays_positive(m) {
        assert forall|id: u64| n < id <= lf implies #[trigger] m2.flip_for_id[id].minimum_block_bounty
            >= 1 by {
            assert(m2.flip_for_id.contains_key(id));
            assert(m.flip_for_id[id].minimum_block_bounty >= 1);
        }
    }
    assert forall|id: u64| 1 <= id <= n implies !#[trigger] m2.flip_for_id.contains_key(id) by {
        if id <= lb {
            assert(!m.flip_for_id.contains_key(id));
        }
    }
    assert forall|id: u64| #[trigger] m2.flip_for_id.contains_key(id) implies m2.flip_for_id[id]
        == m.flip_for_id[id] by {
        assert(!(lb < id <= n));
    }
}

/// No flip is drawn in the block in which it was placed: as every pending flip waits at
/// least one block, each flip `flipBounty` draws was placed before the caller's block.
pub proof fn law_flip_bounty_not_in_the_same_block(
    m: ContractModel,
    caller: Seq<u8>,
    block_nonce: u64,
    random_numbers: Seq<u8>,
)
    requires
        pending_flips_valid(m),
        delays_positive(m),
        flip_bounty_step(m, caller, false, block_nonce, random_numbers) is Ok,
    ensures
        ({
            let m2 = flip_bounty_step(m, caller, false, block_nonce, random_numbers)->Ok_0.0;
            forall|id: u64|
                m.last_bounty_flip_id < id <= m2.last_bounty_flip_id ==> #[trigger] m.flip_for_id[id].block_nonce
                    < block_nonce
        }),
{
    law_flip_bounty(m, caller, false, block_nonce, random_numbers, (Seq::empty(), 0));
    let m2 = flip_bounty_step(m, caller, false, block_nonce, random_numbers)->Ok_0.0;
    assert forall|id: u64| m.last_bounty_flip_id < id <= m2.last_bounty_flip_id implies #[trigger] m.flip_for_id[id].block_nonce
        < block_nonce by {
        assert(due_block(m.flip_for_id[id]) <= block_nonce);
    }
}

/// A later block draws at least as far: from the same storage, a `flipBounty` at a later
/// block that succeeds leaves no fewer flips drawn than one at an earlier block.
pub proof fn law_flip_bounty_later_block_draws_further(
    m: ContractModel,
    caller1: Seq<u8>,
    block_nonce1: u64,
    random_numbers1: Seq<u8>,
    caller2: Seq<u8>,
    block_nonce2: u64,
    random_numbers2: Seq<u8>,
)
    requires
        pending_flips_valid(m),
        block_nonce1 <= block_nonce2,
        flip_bounty_step(m, caller1, false, block_nonce1, random_numbers1) is Ok,
        flip_bounty_step(m, caller2, false, block_nonce2, random_numbers2) is Ok,
    ensures
        flip_bounty_step(m, caller1, false, block_nonce1, random_numbers1)->Ok_0.0.last_bounty_flip_id
            <= flip_bounty_step(
            m,
            caller2,
            false,
            block_nonce2,
            random_numbers2,
        )->Ok_0.0.last_bounty_flip_id,
{
    law_flip_bounty(m, caller1, false, block_nonce1, random_numbers1, (Seq::empty(), 0));
    law_flip_bounty(m, caller2, false, block_nonce2, random_numbers2, (Seq::empty(), 0));
    let k1 = flip_bounty_step(m, caller1, false, block_nonce1, random_numbers1)->Ok_0.0.last_bounty_flip_id;
    let k2 = flip_bounty_step(m, caller2, false, block_nonce2, random_numbers2)->Ok_0.0.last_bounty_flip_id;
    if k2 < k1 {
        let next = (k2 + 1) as u64;
        assert(due_block(m.flip_for_id[next]) <= block_nonce1);
    }
}

/// What the owner adds to a reserve, the owner can take back: `withdrawReserve` of the same
/// amount undoes `increaseReserve`, and sends the amount back in the same token.
pub proof fn law_withdraw_undoes_increase(m: ContractModel, payment: PaymentView)
    requires
        reserves_positive(m.token_reserve),
        increase_reserve_step(m, payment) is Ok,
    ensures
        withdraw_reserve_step(
            increase_reserve_step(m, payment)->Ok_0,
            m.owner,
            payment.token_identifier,
            payment.token_nonce,
            Some(payment.amount),
        ) == Ok::<(ContractModel, Seq<TransferView>), FlipError>(
            (
                m,
                seq![
                    TransferView {
                        to: m.owner,
                        token_identifier: payment.token_identifier,
                        token_nonce: payment.token_nonce,
                        amount: payment.amount,
                    },
                ],
            ),
        ),
{
    let pk = (payment.token_identifier, payment.token_nonce);
    let m1 = increase_reserve_step(m, payment)->Ok_0;
    let old_reserve = amount_at(m.token_reserve, pk);
    assert(amount_at(m1.token_reserve, pk) == old_reserve + payment.amount);
    let (m2, ts) = withdraw_reserve_step(
        m1,
        m.owner,
        payment.token_identifier,
        payment.token_nonce,
        Some(payment.amount),
    )->Ok_0;
    assert(m2.token_reserve =~= m.token_reserve);
}

/// Withdrawing with no amount empties the reserve and sends all of it.
pub proof fn law_withdraw_everything(
    m: ContractModel,
    caller: Seq<u8>,
    token_identifier: Seq<u8>,
    token_nonce: u64,
)
    requires
        withdraw_reserve_step(m, caller, token_identifier, token_nonce, None) is Ok,
    ensures
        ({
            let (m2, ts) = withdraw_reserve_step(
                m,
                caller,
                token_identifier,
                token_nonce,
                None,
            )->Ok_0;
            &&& !m2.token_reserve.contains_key((token_identifier, token_nonce))
            &&& ts.len() == 1
            &&& ts[0].amount == amount_at(m.token_reserve, (token_identifier, token_nonce))
        }),
{
}

/// What an owner's setter writes is what the storage reads afterward.
pub proof fn law_setters_read_back(
    m: ContractModel,
    caller: Seq<u8>,
    token_identifier: Seq<u8>,
    token_nonce: u64,
    percent: u64,
    amount: u128,
    minimum_block_bounty: u64,
)
    ensures
        set_maximum_bet_percent_step(m, caller, token_identifier, token_nonce, percent) matches Ok(
            m2,
        ) ==> m2.maximum_bet_percent[(token_identifier, token_nonce)] == percent,
        set_maximum_bet_step(m, caller, token_identifier, token_nonce, amount) matches Ok(m2)
            ==> amount_at(m2.maximum_bet, (token_identifier, token_nonce)) == amount,
        set_minimum_block_bounty_step(m, caller, minimum_block_bounty) matches Ok(m2)
            ==> m2.minimum_block_bounty == minimum_block_bounty,
{
}

/// `flipBounty` draws every flip that is due at once: called again at the same block, it
/// draws nothing.
pub proof fn law_flip_bounty_draws_all_due(
    m: ContractModel,
    caller: Seq<u8>,
    block_nonce: u64,
    random_numbers: Seq<u8>,
    caller2: Seq<u8>,
    random_numbers2: Seq<u8>,
)
    requires
        pending_flips_valid(m),
        flip_bounty_step(m, caller, false, block_nonce, random_numbers) is Ok,
    ensures
        flip_bounty_step(
            flip_bounty_step(m, caller, false, block_nonce, random_numbers)->Ok_0.0,
            caller2,
            false,
            block_nonce,
            random_numbers2,
        ) is Err,
{
    law_flip_bounty(m, caller, false, block_nonce, random_numbers, (Seq::empty(), 0));
    let m2 = flip_bounty_step(m, caller, false, block_nonce, random_numbers)->Ok_0.0;
    if m2.last_bounty_flip_id < m2.last_flip_id {
        let next = (m2.last_bounty_flip_id + 1) as u64;
        assert(m2.flip_for_id.contains_key(next));
        assert(m2.flip_for_id[next] == m.flip_for_id[next]);
        let due = due_block(m2.flip_for_id[next]);
        if due <= u64::MAX {
            assert(bounty_draws(
                m2,
                caller2,
                block_nonce,
                random_numbers2,
                m2.last_bounty_flip_id,
                m2.last_bounty_flip_id,
                m2.last_flip_id,
            ) == Ok::<(ContractModel, Seq<TransferView>, u64), FlipError>(
                (m2, seq![], m2.last_bounty_flip_id),
            ));
        }
    }
}

// ---------------------------------------------------------------------------------------
// What each endpoint accepts, and what it then does.

/// `increaseReserve` accepts any non-zero payment whose sum with its token's reserve fits in
/// a `u128`, in any state: the reserve of the payment's token grows by the payment, and
/// nothing else changes.
pub proof fn law_increase_reserve_accepts(m: ContractModel, payment: PaymentView, k: TokenKey)
    requires
        payment.amount > 0,
        amount_at(m.token_reserve, (payment.token_identifier, payment.token_nonce))
            + payment.amount <= u128::MAX,
    ensures
        increase_reserve_step(m, payment) matches Ok(m2) && {
            &&& amount_at(m2.token_reserve, (payment.token_identifier, payment.token_nonce))
                == amount_at(m.token_reserve, (payment.token_identifier, payment.token_nonce))
                + payment.amount
            &&& k != (payment.token_identifier, payment.token_nonce) ==> amount_at(
                m2.token_reserve,
                k,
            ) == amount_at(m.token_reserve, k)
            &&& m2 == ContractModel { token_reserve: m2.token_reserve, ..m }
        },
{
    let pk = (payment.token_identifier, payment.token_nonce);
    let new_reserve = amount_at(m.token_reserve, pk) + payment.amount;
    lemma_amount_at_write(m.token_reserve, pk, new_reserve as u128, pk);
    lemma_amount_at_write(m.token_reserve, pk, new_reserve as u128, k);
}

/// `withdrawReserve` by the owner accepts, in any state, any amount from one to the reserve,
/// and with no amount the whole reserve when it is not zero: it sends that amount to the
/// owner in the same token, lowers the reserve by it, and changes nothing else.
pub proof fn law_withdraw_reserve_accepts(
    m: ContractModel,
    token_identifier: Seq<u8>,
    token_nonce: u64,
    amount: Option<u128>,
)
    requires
        ({
            let reserve = amount_at(m.token_reserve, (token_identifier, token_nonce));
            match amount {
                Some(a) => 0 < a <= reserve,
                None => reserve > 0,
            }
        }),
    ensures
        ({
            let k = (token_identifier, token_nonce);
            let reserve = amount_at(m.token_reserve, k);
            let w: u128 = match amount {
                Some(a) => a,
                None => reserve,
            };
            withdraw_reserve_step(m, m.owner, token_identifier, token_nonce, amount) matches Ok(
                (m2, ts),
            ) && {
                &&& ts == seq![
                    TransferView { to: m.owner, token_identifier, token_nonce, amount: w },
                ]
                &&& amount_at(m2.token_reserve, k) == reserve - w
                &&& m2 == ContractModel { token_reserve: m2.token_reserve, ..m }
            }
        }),
{
    let k = (token_identifier, token_nonce);
    let reserve = amount_at(m.token_reserve, k);
    let w: u128 = match amount {
        Some(a) => a,
        None => reserve,
    };
    lemma_amount_at_write(m.token_reserve, k, (reserve - w) as u128, k);
}

/// The owner's setters accept any non-zero value, whatever was set before, and read it back;
/// `init` by the owner accepts any fees and any non-zero minimum block bounty.
pub proof fn law_setters_accept(
    m: ContractModel,
    token_identifier: Seq<u8>,
    token_nonce: u64,
    percent: u64,
    amount: u128,
    minimum_block_bounty: u64,
    owner_percent_fees: u64,
    bounty_percent_fees: u64,
)
    ensures
        percent > 0 ==> (set_maximum_bet_percent_step(
            m,
            m.owner,
            token_identifier,
            token_nonce,
            percent,
        ) matches Ok(m2) && m2.maximum_bet_percent.contains_key((token_identifier, token_nonce))
            && m2.maximum_bet_percent[(token_identifier, token_nonce)] == percent),
        amount > 0 ==> (set_maximum_bet_step(m, m.owner, token_identifier, token_nonce, amount)
            matches Ok(m2) && m2.maximum_bet.contains_key((token_identifier, token_nonce))
            && m2.maximum_bet[(token_identifier, token_nonce)] == amount),
        minimum_block_bounty > 0 ==> (set_minimum_block_bounty_step(
            m,
            m.owner,
            minimum_block_bounty,
        ) matches Ok(m2) && m2.minimum_block_bounty == minimum_block_bounty),
        minimum_block_bounty > 0 ==> (init_step(
            m,
            m.owner,
            owner_percent_fees,
            bounty_percent_fees,
            minimum_block_bounty,
        ) matches Ok(m2) && m2.owner_percent_fees == owner_percent_fees && m2.bounty_percent_fees
            == bounty_percent_fees && m2.minimum_block_bounty == minimum_block_bounty),
{
}

/// `flip` accepts a bet whose stake (the payment less the bounty and the owner's fee, both
/// rounded down) is at most the token's maximum bet, at most its maximum bet percentage of
/// the reserve, and at most the reserve: it stores the bet under the next id, takes the stake
/// out of the reserve and sends the owner's fee to the owner in the payment's token.
pub proof fn law_flip_accepts(
    m: ContractModel,
    caller: Seq<u8>,
    block_nonce: u64,
    payment: PaymentView,
)
    requires
        ({
            let k = (payment.token_identifier, payment.token_nonce);
            let reserve = amount_at(m.token_reserve, k);
            let fee = percent_of(payment.amount as nat, m.owner_percent_fees as nat);
            let bounty = percent_of(payment.amount as nat, m.bounty_percent_fees as nat);
            let stake = payment.amount - bounty - fee;
            &&& reserve > 0
            &&& m.maximum_bet.contains_key(k)
            &&& m.maximum_bet_percent.contains_key(k)
            &&& fee + bounty <= payment.amount
            &&& stake <= m.maximum_bet[k]
            &&& stake <= percent_of(reserve as nat, m.maximum_bet_percent[k] as nat)
            &&& stake <= reserve
            &&& m.last_flip_id < u64::MAX
        }),
    ensures
        ({
            let k = (payment.token_identifier, payment.token_nonce);
            let reserve = amount_at(m.token_reserve, k);
            let fee = percent_of(payment.amount as nat, m.owner_percent_fees as nat);
            let bounty = percent_of(payment.amount as nat, m.bounty_percent_fees as nat);
            let stake = payment.amount - bounty - fee;
            let id = (m.last_flip_id + 1) as u64;
            flip_step(m, caller, block_nonce, payment) matches Ok((m2, ts)) && {
                &&& m2.last_flip_id == id
                &&& m2.flip_for_id.contains_key(id)
                &&& m2.flip_for_id[id] == FlipView {
                    id,
                    player_address: caller,
                    token_identifier: payment.token_identifier,
                    token_nonce: payment.token_nonce,
                    amount: stake as u128,
                    bounty: bounty as u128,
                    block_nonce,
                    minimum_block_bounty: m.minimum_block_bounty,
                }
                &&& amount_at(m2.token_reserve, k) == reserve - stake
                &&& ts == seq![
                    TransferView {
                        to: m.owner,
                        token_identifier: payment.token_identifier,
                        token_nonce: payment.token_nonce,
                        amount: fee as u128,
                    },
                ]
            }
        }),
{
    let k = (payment.token_identifier, payment.token_nonce);
    let reserve = amount_at(m.token_reserve, k);
    let fee = percent_of(payment.amount as nat, m.owner_percent_fees as nat);
    let bounty = percent_of(payment.amount as nat, m.bounty_percent_fees as nat);
    let stake = payment.amount - bounty - fee;
    lemma_amount_at_write(m.token_reserve, k, (reserve - stake) as u128, k);
}

/// `flip` refuses a bet as too large exactly when its reserve and limits are set, its fees
/// fit in the payment, and its stake (the payment less the bounty and the owner's fee) is
/// above the token's maximum bet or above its maximum bet percentage of the reserve.
pub proof fn law_flip_too_much_bet(
    m: ContractModel,
    caller: Seq<u8>,
    block_nonce: u64,
    payment: PaymentView,
)
    ensures
        ({
            let k = (payment.token_identifier, payment.token_nonce);
            let reserve = amount_at(m.token_reserve, k);
            let fee = percent_of(payment.amount as nat, m.owner_percent_fees as nat);
            let bounty = percent_of(payment.amount as nat, m.bounty_percent_fees as nat);
            let stake = payment.amount - bounty - fee;
            (flip_step(m, caller, block_nonce, payment) == Err::<
                (ContractModel, Seq<TransferView>),
                FlipError,
            >(FlipError::TooMuchBet)) <==> {
                &&& reserve > 0
                &&& m.maximum_bet.contains_key(k)
                &&& m.maximum_bet_percent.contains_key(k)
                &&& fee + bounty <= payment.amount
                &&& (stake > m.maximum_bet[k] || stake > percent_of(
                    reserve as nat,
                    m.maximum_bet_percent[k] as nat,
                ))
            }
        }),
{
}

/// A draw does the same to the storage, and fails in the same way, whoever draws: the drawer
/// only decides who receives the bounty.
proof fn lemma_make_flip_any_drawer(
    m: ContractModel,
    c1: Seq<u8>,
    c2: Seq<u8>,
    flip: FlipView,
    random: u8,
)
    ensures
        make_flip_step(m, c1, flip, random) is Ok <==> make_flip_step(m, c2, flip, random) is Ok,
        make_flip_step(m, c1, flip, random) matches Ok((m1, _)) ==> (make_flip_step(
            m,
            c2,
            flip,
            random,
        ) matches Ok((m2, _)) && m1 == m2),
        make_flip_step(m, c1, flip, random) matches Err(e) ==> e == FlipError::Overflow,
{
}

/// A run of draws does the same to the storage, and fails in the same way, whoever draws;
/// it fails only on an overflow.
proof fn lemma_bounty_draws_any_drawer(
    m: ContractModel,
    c1: Seq<u8>,
    c2: Seq<u8>,
    block_nonce: u64,
    random_numbers: Seq<u8>,
    first: u64,
    next: u64,
    last: u64,
)
    ensures
        bounty_draws(m, c1, block_nonce, random_numbers, first, next, last) is Ok
            <==> bounty_draws(m, c2, block_nonce, random_numbers, first, next, last) is Ok,
        bounty_draws(m, c1, block_nonce, random_numbers, first, next, last) matches Ok(
            (m1, _, n1),
        ) ==> (bounty_draws(m, c2, block_nonce, random_numbers, first, next, last) matches Ok(
            (m2, _, n2),
        ) && m1 == m2 && n1 == n2),
        bounty_draws(m, c1, block_nonce, random_numbers, first, next, last) matches Err(e) ==> e
            == FlipError::Overflow,
    decreases last - next,
{
    if next < last {
        let flip_id = (next + 1) as u64;
        if m.flip_for_id.contains_key(flip_id) {
            let flip = m.flip_for_id[flip_id];
            if due_block(flip) <= u64::MAX && block_nonce >= due_block(flip) {
                let random = random_numbers[next - first];
                lemma_make_flip_any_drawer(m, c1, c2, flip, random);
                match make_flip_step(m, c1, flip, random) {
                    Ok((m1, ts1)) => {
                        let (m1b, ts2) = make_flip_step(m, c2, flip, random)->Ok_0;
                        lemma_bounty_draws_any_drawer(
                            m1,
                            c1,
                            c2,
                            block_nonce,
                            random_numbers,
                            first,
                            flip_id,
                            last,
                        );
                        assert(bounty_draws(m, c1, block_nonce, random_numbers, first, next, last)
                            == after_transfers(
                            ts1,
                            bounty_draws(m1, c1, block_nonce, random_numbers, first, flip_id, last),
                        ));
                        assert(bounty_draws(m, c2, block_nonce, random_numbers, first, next, last)
                            == after_transfers(
                            ts2,
                            bounty_draws(m1, c2, block_nonce, random_numbers, first, flip_id, last),
                        ));
                    },
                    Err(_) => {},
                }
            }
        }
    }
}

/// `flipBounty` treats every caller that is not a smart contract alike, the player of a
/// pending flip included: two such callers at the same block, with the same random numbers,
/// are both accepted or both refused with the same error, and leave the same storage.
pub proof fn law_flip_bounty_any_caller(
    m: ContractModel,
    c1: Seq<u8>,
    c2: Seq<u8>,
    block_nonce: u64,
    random_numbers: Seq<u8>,
)
    ensures
        flip_bounty_step(m, c1, false, block_nonce, random_numbers) is Ok <==> flip_bounty_step(
            m,
            c2,
            false,
            block_nonce,
            random_numbers,
        ) is Ok,
        flip_bounty_step(m, c1, false, block_nonce, random_numbers) matches Ok((m1, _))
            ==> (flip_bounty_step(m, c2, false, block_nonce, random_numbers) matches Ok((m2, _))
            && m1 == m2),
        flip_bounty_step(m, c1, false, block_nonce, random_numbers) matches Err(e1)
            ==> flip_bounty_step(m, c2, false, block_nonce, random_numbers) == Err::<
            (ContractModel, Seq<TransferView>),
            FlipError,
        >(e1),
{
    lemma_bounty_draws_any_drawer(
        m,
        c1,
        c2,
        block_nonce,
        random_numbers,
        m.last_bounty_flip_id,
        m.last_bounty_flip_id,
        m.last_flip_id,
    );
    let d1 = bounty_draws(
        m,
        c1,
        block_nonce,
        random_numbers,
        m.last_bounty_flip_id,
        m.last_bounty_flip_id,
        m.last_flip_id,
    );
    let d2 = bounty_draws(
        m,
        c2,
        block_nonce,
        random_numbers,
        m.last_bounty_flip_id,
        m.last_bounty_flip_id,
        m.last_flip_id,
    );
    if m.last_bounty_flip_id < m.last_flip_id {
        match d1 {
            Ok((m1, _, n1)) => {
                let (m2, _, n2) = d2->Ok_0;
                assert(m1 == m2 && n1 == n2);
            },
            Err(e1) => {
                lemma_bounty_draws_any_drawer(
                    m,
                    c2,
                    c1,
                    block_nonce,
                    random_numbers,
                    m.last_bounty_flip_id,
                    m.last_bounty_flip_id,
                    m.last_flip_id,
                );
                assert(d2 is Err);
                assert(e1 == FlipError::Overflow);
                assert(d2->Err_0 == FlipError::Overflow);
            },
        }
    }
}

/// When `flipBounty` refuses a caller that is not a smart contract, it is for one of three
/// reasons: no flip is pending; the first pending flip is not yet due; or a value overflows.
/// A due first pending flip is always drawn unless a value overflows.
pub proof fn law_flip_bounty_refusals(
    m: ContractModel,
    caller: Seq<u8>,
    block_nonce: u64,
    random_numbers: Seq<u8>,
)
    requires
        pending_flips_valid(m),
    ensures
        flip_bounty_step(m, caller, true, block_nonce, random_numbers) == Err::<
            (ContractModel, Seq<TransferView>),
            FlipError,
        >(FlipError::CallerIsSmartContract),
        ({
            let r = flip_bounty_step(m, caller, false, block_nonce, random_numbers);
            let first = m.flip_for_id[(m.last_bounty_flip_id + 1) as u64];
            &&& m.last_flip_id <= m.last_bounty_flip_id ==> r == Err::<
                (ContractModel, Seq<TransferView>),
                FlipError,
            >(FlipError::NoPendingFlip)
            &&& m.last_bounty_flip_id < m.last_flip_id && due_block(first) <= block_nonce ==> (
            r is Ok || r == Err::<(ContractModel, Seq<TransferView>), FlipError>(
                FlipError::Overflow,
            ))
            &&& m.last_bounty_flip_id < m.last_flip_id && due_block(first) <= u64::MAX
                && block_nonce < due_block(first) ==> r == Err::<
                (ContractModel, Seq<TransferView>),
                FlipError,
            >(FlipError::NoBounty)
            &&& r matches Err(e) ==> (e == FlipError::NoPendingFlip || e == FlipError::NoBounty
                || e == FlipError::Overflow)
        }),
{
    let lb = m.last_bounty_flip_id;
    let lf = m.last_flip_id;
    lemma_bounty_draws_any_drawer(m, caller, caller, block_nonce, random_numbers, lb, lb, lf);
    if lb < lf {
        let id = (lb + 1) as u64;
        assert(m.flip_for_id.contains_key(id));
        let first = m.flip_for_id[id];
        if due_block(first) <= block_nonce {
            let random = random_numbers[lb - lb];
            match make_flip_step(m, caller, first, random) {
                Ok((m1, ts1)) => {
                    assert(m1.flip_for_id == m.flip_for_id.remove(id));
                    assert(ids_match_in(m1.flip_for_id, id, lf));
                    lemma_bounty_draws(
                        m1,
                        caller,
                        block_nonce,
                        random_numbers,
                        lb,
                        id,
                        lf,
                        (Seq::empty(), 0),
                        id as nat,
                        lf as nat,
                    );
                    assert(bounty_draws(m, caller, block_nonce, random_numbers, lb, lb, lf)
                        == after_transfers(
                        ts1,
                        bounty_draws(m1, caller, block_nonce, random_numbers, lb, id, lf),
                    ));
                },
                Err(_) => {},
            }
        }
    }
}


// What each endpoint refuses.

/// Only the owner may call `init`, `withdrawReserve` and the setters: anyone else is refused
/// as not the owner, whatever the arguments.
pub proof fn law_owner_only(
    m: ContractModel,
    caller: Seq<u8>,
    token_identifier: Seq<u8>,
    token_nonce: u64,
    amount: Option<u128>,
    percent: u64,
    maximum_bet: u128,
    minimum_block_bounty: u64,
    owner_percent_fees: u64,
    bounty_percent_fees: u64,
)
    requires
        caller != m.owner,
    ensures
        init_step(m, caller, owner_percent_fees, bounty_percent_fees, minimum_block_bounty)
            == Err::<ContractModel, FlipError>(FlipError::NotOwner),
        withdraw_reserve_step(m, caller, token_identifier, token_nonce, amount) == Err::<
            (ContractModel, Seq<TransferView>),
            FlipError,
        >(FlipError::NotOwner),
        set_maximum_bet_percent_step(m, caller, token_identifier, token_nonce, percent) == Err::<
            ContractModel,
            FlipError,
        >(FlipError::NotOwner),
        set_maximum_bet_step(m, caller, token_identifier, token_nonce, maximum_bet) == Err::<
            ContractModel,
            FlipError,
        >(FlipError::NotOwner),
        set_minimum_block_bounty_step(m, caller, minimum_block_bounty) == Err::<
            ContractModel,
            FlipError,
        >(FlipError::NotOwner),
{
}

/// The owner's zero values are refused: a zero maximum bet percentage, maximum bet or
/// minimum block bounty, and `init` with a zero minimum block bounty.
pub proof fn law_setters_refuse_zero(
    m: ContractModel,
    token_identifier: Seq<u8>,
    token_nonce: u64,
    owner_percent_fees: u64,
    bounty_percent_fees: u64,
)
    ensures
        set_maximum_bet_percent_step(m, m.owner, token_identifier, token_nonce, 0) == Err::<
            ContractModel,
            FlipError,
        >(FlipError::PercentZero),
        set_maximum_bet_step(m, m.owner, token_identifier, token_nonce, 0) == Err::<
            ContractModel,
            FlipError,
        >(FlipError::AmountZero),
        set_minimum_block_bounty_step(m, m.owner, 0) == Err::<ContractModel, FlipError>(
            FlipError::MinimumBlockBountyZero,
        ),
        init_step(m, m.owner, owner_percent_fees, bounty_percent_fees, 0) == Err::<
            ContractModel,
            FlipError,
        >(FlipError::InitMinimumBlockBountyZero),
{
}

/// `increaseReserve` refuses exactly a zero payment, and a payment whose sum with the reserve
/// does not fit in a `u128`.
pub proof fn law_increase_reserve_refusals(m: ContractModel, payment: PaymentView)
    ensures
        (increase_reserve_step(m, payment) == Err::<ContractModel, FlipError>(
            FlipError::ZeroPayment,
        )) <==> payment.amount == 0,
        (increase_reserve_step(m, payment) == Err::<ContractModel, FlipError>(
            FlipError::Overflow,
        )) <==> (payment.amount > 0 && amount_at(
            m.token_reserve,
            (payment.token_identifier, payment.token_nonce),
        ) + payment.amount > u128::MAX),
        increase_reserve_step(m, payment) matches Err(e) ==> (e == FlipError::ZeroPayment || e
            == FlipError::Overflow),
{
}

/// `withdrawReserve` by the owner refuses exactly a withdrawal of nothing (an amount of zero,
/// or no amount when the reserve is empty) and an amount above the reserve.
pub proof fn law_withdraw_reserve_refusals(
    m: ContractModel,
    token_identifier: Seq<u8>,
    token_nonce: u64,
    amount: Option<u128>,
)
    ensures
        ({
            let reserve = amount_at(m.token_reserve, (token_identifier, token_nonce));
            let r = withdraw_reserve_step(m, m.owner, token_identifier, token_nonce, amount);
            &&& (r == Err::<(ContractModel, Seq<TransferView>), FlipError>(
                FlipError::InvalidWithdrawAmount,
            )) <==> (amount == Some(0u128) || (amount is None && reserve == 0))
            &&& (r == Err::<(ContractModel, Seq<TransferView>), FlipError>(
                FlipError::AmountTooHigh,
            )) <==> (amount matches Some(a) && a > reserve)
            &&& r matches Err(e) ==> (e == FlipError::InvalidWithdrawAmount || e
                == FlipError::AmountTooHigh)
        }),
{
}

/// `flip` refuses a bet in a token with no reserve, with no maximum bet, or with no maximum
/// bet percentage, in that order; then one whose fees exceed the payment, or whose stake is
/// above the reserve, as a negative amount; then one that is too large, or that would
/// overflow the flip ids. Nothing else is refused.
pub proof fn law_flip_refusals(
    m: ContractModel,
    caller: Seq<u8>,
    block_nonce: u64,
    payment: PaymentView,
)
    ensures
        ({
            let k = (payment.token_identifier, payment.token_nonce);
            let reserve = amount_at(m.token_reserve, k);
            let fee = percent_of(payment.amount as nat, m.owner_percent_fees as nat);
            let bounty = percent_of(payment.amount as nat, m.bounty_percent_fees as nat);
            let stake = payment.amount - bounty - fee;
            let limits_set = reserve > 0 && m.maximum_bet.contains_key(k)
                && m.maximum_bet_percent.contains_key(k);
            let within = stake <= m.maximum_bet[k] && stake <= percent_of(
                reserve as nat,
                m.maximum_bet_percent[k] as nat,
            );
            let r = flip_step(m, caller, block_nonce, payment);
            &&& (r == Err::<(ContractModel, Seq<TransferView>), FlipError>(
                FlipError::NoTokenReserve,
            )) <==> reserve == 0
            &&& (r == Err::<(ContractModel, Seq<TransferView>), FlipError>(
                FlipError::NoMaximumBet,
            )) <==> (reserve > 0 && !m.maximum_bet.contains_key(k))
            &&& (r == Err::<(ContractModel, Seq<TransferView>), FlipError>(
                FlipError::NoMaximumBetPercent,
            )) <==> (reserve > 0 && m.maximum_bet.contains_key(k)
                && !m.maximum_bet_percent.contains_key(k))
            &&& (r == Err::<(ContractModel, Seq<TransferView>), FlipError>(
                FlipError::NegativeAmount,
            )) <==> (limits_set && (fee + bounty > payment.amount || (within
                && m.last_flip_id < u64::MAX && stake > reserve)))
            &&& (r == Err::<(ContractModel, Seq<TransferView>), FlipError>(FlipError::Overflow))
                <==> (limits_set && fee + bounty <= payment.amount && within && m.last_flip_id
                == u64::MAX)
            &&& (r is Ok) <==> (limits_set && fee + bounty <= payment.amount && within
                && m.last_flip_id < u64::MAX && stake <= reserve)
        }),
{
}


// How `flipBounty` is built from single draws.

/// A run of draws that returns the id it started from drew nothing.
proof fn lemma_bounty_draws_progress(
    m: ContractModel,
    caller: Seq<u8>,
    block_nonce: u64,
    random_numbers: Seq<u8>,
    first: u64,
    next: u64,
    last: u64,
)
    ensures
        bounty_draws(m, caller, block_nonce, random_numbers, first, next, last) matches Ok(
            (m2, ts, n),
        ) ==> next <= n && (n == next ==> m2 == m && ts == Seq::<TransferView>::empty()),
    decreases last - next,
{
    if next < last {
        let flip_id = (next + 1) as u64;
        if m.flip_for_id.contains_key(flip_id) {
            let flip = m.flip_for_id[flip_id];
            if due_block(flip) <= u64::MAX && block_nonce >= due_block(flip) {
                let random = random_numbers[next - first];
                match make_flip_step(m, caller, flip, random) {
                    Ok((m1, ts1)) => {
                        lemma_bounty_draws_progress(
                            m1,
                            caller,
                            block_nonce,
                            random_numbers,
                            first,
                            flip_id,
                            last,
                        );
                    },
                    Err(_) => {},
                }
            }
        }
    }
}

/// A run of draws neither reads nor writes the id of the last flip drawn, and a run that
/// starts one random number later reads the same numbers from one place earlier.
proof fn lemma_bounty_draws_shift(
    m: ContractModel,
    caller: Seq<u8>,
    block_nonce: u64,
    random_numbers: Seq<u8>,
    first: u64,
    next: u64,
    last: u64,
    x: u64,
)
    requires
        first < next,
        random_numbers.len() + first >= last,
    ensures
        ({
            let a = bounty_draws(m, caller, block_nonce, random_numbers, first, next, last);
            let b = bounty_draws(
                ContractModel { last_bounty_flip_id: x, ..m },
                caller,
                block_nonce,
                random_numbers.skip(1),
                (first + 1) as u64,
                next,
                last,
            );
            match a {
                Err(e) => b == Err::<(ContractModel, Seq<TransferView>, u64), FlipError>(e),
                Ok((ma, ta, na)) => b == Ok::<(ContractModel, Seq<TransferView>, u64), FlipError>(
                    (ContractModel { last_bounty_flip_id: x, ..ma }, ta, na),
                ),
            }
        }),
    decreases last - next,
{
    let mx = ContractModel { last_bounty_flip_id: x, ..m };
    if next < last {
        let flip_id = (next + 1) as u64;
        if m.flip_for_id.contains_key(flip_id) {
            let flip = m.flip_for_id[flip_id];
            if due_block(flip) <= u64::MAX && block_nonce >= due_block(flip) {
                let random = random_numbers[next - first];
                assert(random_numbers.skip(1)[next - (first + 1)] == random);
                match make_flip_step(m, caller, flip, random) {
                    Ok((m1, ts1)) => {
                        let (m1x, ts1x) = make_flip_step(mx, caller, flip, random)->Ok_0;
                        assert(m1x == ContractModel { last_bounty_flip_id: x, ..m1 });
                        lemma_bounty_draws_shift(
                            m1,
                            caller,
                            block_nonce,
                            random_numbers,
                            first,
                            flip_id,
                            last,
                            x,
                        );
                    },
                    Err(_) => {},
                }
            }
        }
    }
}

/// `flipBounty` is one draw followed by another `flipBounty`: when the first pending flip is
/// due, the caller draws it with the first random number, receiving its bounty, and then
/// draws the flips after it with the random numbers after the first, as a `flipBounty` on the
/// storage that the first draw left would; where that one finds nothing more to draw, the
/// first draw is all, and only an overflow is passed on.
pub proof fn law_flip_bounty_first_draw(
    m: ContractModel,
    caller: Seq<u8>,
    block_nonce: u64,
    random_numbers: Seq<u8>,
)
    requires
        pending_flips_valid(m),
        random_numbers.len() + m.last_bounty_flip_id >= m.last_flip_id,
        m.last_bounty_flip_id < m.last_flip_id,
        due_block(m.flip_for_id[(m.last_bounty_flip_id + 1) as u64]) <= block_nonce,
    ensures
        ({
            let id = (m.last_bounty_flip_id + 1) as u64;
            flip_bounty_step(m, caller, false, block_nonce, random_numbers) == match make_flip_step(
                m,
                caller,
                m.flip_for_id[id],
                random_numbers[0],
            ) {
                Err(e) => Err(e),
                Ok((m1, ts1)) => {
                    let after_first = ContractModel { last_bounty_flip_id: id, ..m1 };
                    match flip_bounty_step(
                        after_first,
                        caller,
                        false,
                        block_nonce,
                        random_numbers.skip(1),
                    ) {
                        Ok((m3, ts3)) => Ok((m3, ts1 + ts3)),
                        Err(FlipError::Overflow) => Err(FlipError::Overflow),
                        Err(_) => Ok((after_first, ts1)),
                    }
                },
            }
        }),
{
    let lb = m.last_bounty_flip_id;
    let lf = m.last_flip_id;
    let id = (lb + 1) as u64;
    assert(m.flip_for_id.contains_key(id));
    let first = m.flip_for_id[id];
    let random = random_numbers[lb - lb];
    match make_flip_step(m, caller, first, random) {
        Ok((m1, ts1)) => {
            assert(bounty_draws(m, caller, block_nonce, random_numbers, lb, lb, lf)
                == after_transfers(
                ts1,
                bounty_draws(m1, caller, block_nonce, random_numbers, lb, id, lf),
            ));
            lemma_bounty_draws_shift(m1, caller, block_nonce, random_numbers, lb, id, lf, id);
            lemma_bounty_draws_progress(m1, caller, block_nonce, random_numbers, lb, id, lf);
            lemma_bounty_draws_any_drawer(
                m1,
                caller,
                caller,
                block_nonce,
                random_numbers,
                lb,
                id,
                lf,
            );
            if id < lf {
                match bounty_draws(m1, caller, block_nonce, random_numbers, lb, id, lf) {
                    Ok((ma, ta, na)) => {
                        if na == id {
                            assert(ts1 + ta =~= ts1);
                        }
                    },
                    Err(_) => {},
                }
            } else {
                assert(ts1 + Seq::<TransferView>::empty() =~= ts1);
            }
        },
        Err(_) => {},
    }
}

} // verus!
