use std::collections::HashMap;
use vstd::prelude::*;

use crate::model::{amount_at, fresh_model, write_amount, ContractModel};
use crate::laws::storage_invariants;
use crate::structs::{copy_bytes, Flip, FlipError};
use crate::token_map::TokenMap;

verus! {

broadcast use vstd::std_specs::hash::group_hash_axioms;

/// The read-only views of the contract's storage.
pub trait StorageModule: View<V = ContractModel> + Sized {
    /// The storage's own consistency, which every endpoint keeps.
    spec fn well_formed(&self) -> bool;

    /// The owner's fee on each bet.
    fn owner_percent_fees(&self) -> (r: u64)
        requires
            self.well_formed(),
        ensures
            r == self@.owner_percent_fees,
    ;

    /// The largest bet in a token; zero when none is set.
    fn maximum_bet(&self, token_identifier: &Vec<u8>, token_nonce: u64) -> (r: u128)
        requires
            self.well_formed(),
        ensures
            r == amount_at(self@.maximum_bet, (token_identifier@, token_nonce)),
    ;

    /// The largest bet in a token as a share of its reserve; zero when none is set.
    fn maximum_bet_percent(&self, token_identifier: &Vec<u8>, token_nonce: u64) -> (r: u64)
        requires
            self.well_formed(),
        ensures
            r == (if self@.maximum_bet_percent.contains_key((token_identifier@, token_nonce)) {
                self@.maximum_bet_percent[(token_identifier@, token_nonce)]
            } else {
                0
            }),
    ;

    /// How many blocks a new flip waits before it can be drawn.
    fn minimum_block_bounty(&self) -> (r: u64)
        requires
            self.well_formed(),
        ensures
            r == self@.minimum_block_bounty,
    ;

    /// The reserve of a token: what the contract can stake against the players.
    fn token_reserve(&self, token_identifier: &Vec<u8>, token_nonce: u64) -> (r: u128)
        requires
            self.well_formed(),
        ensures
            r == amount_at(self@.token_reserve, (token_identifier@, token_nonce)),
    ;

    /// The bounty reserve of a token, which no endpoint writes.
    fn bounty_reserve(&self, token_identifier: &Vec<u8>, token_nonce: u64) -> (r: u128)
        requires
            self.well_formed(),
        ensures
            r == amount_at(self@.bounty_reserve, (token_identifier@, token_nonce)),
    ;

    /// The flip stored under this id; reading an id with no flip fails to decode.
    fn flip_for_id(&self, id: u64) -> (r: Result<Flip, FlipError>)
        requires
            self.well_formed(),
        ensures
            match r {
                Ok(f) => self@.flip_for_id.contains_key(id) && f@ == self@.flip_for_id[id],
                Err(e) => !self@.flip_for_id.contains_key(id) && e == FlipError::StorageDecodeError,
            },
    ;

    /// The bounty's fee on each bet.
    fn bounty_percent_fees(&self) -> (r: u64)
        requires
            self.well_formed(),
        ensures
            r == self@.bounty_percent_fees,
    ;

    /// The id of the last flip drawn.
    fn last_bounty_flip_id(&self) -> (r: u64)
        requires
            self.well_formed(),
        ensures
            r == self@.last_bounty_flip_id,
    ;

    /// The id of the last flip placed.
    fn last_flip_id(&self) -> (r: u64)
        requires
            self.well_formed(),
        ensures
            r == self@.last_flip_id,
    ;
}

/// The storage of a flip contract, and its owner.
pub struct FlipStorage {
    pub(crate) owner: Vec<u8>,
    pub(crate) owner_percent_fees: u64,
    pub(crate) bounty_percent_fees: u64,
    pub(crate) minimum_block_bounty: u64,
    pub(crate) maximum_bet: TokenMap<u128>,
    pub(crate) maximum_bet_percent: TokenMap<u64>,
    pub(crate) token_reserve: TokenMap<u128>,
    pub(crate) bounty_reserve: TokenMap<u128>,
    pub(crate) flips: HashMap<u64, Flip>,
    pub(crate) last_flip_id: u64,
    pub(crate) last_bounty_flip_id: u64,
}

/// The values of the stored flips.
pub open spec fn flips_view(flips: Map<u64, Flip>) -> Map<u64, crate::structs::FlipView> {
    Map::new(|id: u64| flips.contains_key(id), |id: u64| flips[id]@)
}

impl View for FlipStorage {
    type V = ContractModel;

    closed spec fn view(&self) -> ContractModel {
        ContractModel {
            owner: self.owner@,
            owner_percent_fees: self.owner_percent_fees,
            bounty_percent_fees: self.bounty_percent_fees,
            minimum_block_bounty: self.minimum_block_bounty,
            maximum_bet: self.maximum_bet@,
            maximum_bet_percent: self.maximum_bet_percent@,
            token_reserve: self.token_reserve@,
            bounty_reserve: self.bounty_reserve@,
            flip_for_id: flips_view(self.flips@),
            last_flip_id: self.last_flip_id,
            last_bounty_flip_id: self.last_bounty_flip_id,
        }
    }
}

impl FlipStorage {
    /// Every per-token entry list stands for its map.
    pub closed spec fn maps_wf(&self) -> bool {
        &&& self.maximum_bet.wf()
        &&& self.maximum_bet_percent.wf()
        &&& self.token_reserve.wf()
        &&& self.bounty_reserve.wf()
    }

    /// A well-formed storage is one whose entry lists stand for its maps and whose contents
    /// satisfy the invariants that deploying and the endpoints keep.
    pub proof fn lemma_well_formed(&self)
        ensures
            self.well_formed() <==> (self.maps_wf() && storage_invariants(self@)),
    {
    }

    /// The storage of a contract that `owner` has just created, before `init` has run.
    pub(crate) fn new(owner: &Vec<u8>) -> (r: FlipStorage)
        ensures
            r.maps_wf(),
            r@ == fresh_model(owner@),
    {
        let r = FlipStorage {
            owner: copy_bytes(owner),
            owner_percent_fees: 0,
            bounty_percent_fees: 0,
            minimum_block_bounty: 0,
            maximum_bet: TokenMap::new(),
            maximum_bet_percent: TokenMap::new(),
            token_reserve: TokenMap::new(),
            bounty_reserve: TokenMap::new(),
            flips: HashMap::new(),
            last_flip_id: 0,
            last_bounty_flip_id: 0,
        };
        assert(flips_view(r.flips@) =~= Map::empty());
        r
    }

    /// A copy of this storage.
    pub fn copy(&self) -> (r: FlipStorage)
        requires
            self.maps_wf(),
        ensures
            r.maps_wf(),
            r@ == self@,
            self.well_formed() ==> r.well_formed(),
    {
        let r = FlipStorage {
            owner: copy_bytes(&self.owner),
            owner_percent_fees: self.owner_percent_fees,
            bounty_percent_fees: self.bounty_percent_fees,
            minimum_block_bounty: self.minimum_block_bounty,
            maximum_bet: self.maximum_bet.copy(),
            maximum_bet_percent: self.maximum_bet_percent.copy(),
            token_reserve: self.token_reserve.copy(),
            bounty_reserve: self.bounty_reserve.copy(),
            flips: self.flips.clone(),
            last_flip_id: self.last_flip_id,
            last_bounty_flip_id: self.last_bounty_flip_id,
        };
        assert(flips_view(r.flips@) =~= flips_view(self.flips@));
        r
    }
}

/// The storage mappers' writes, each of which changes one entry of the storage.
impl FlipStorage {
    /// The flip stored under `id`, if there is one.
    pub(crate) fn pending_flip(&self, id: u64) -> (r: Option<Flip>)
        ensures
            match r {
                Some(f) => self@.flip_for_id.contains_key(id) && f@ == self@.flip_for_id[id],
                None => !self@.flip_for_id.contains_key(id),
            },
    {
        match self.flips.get(&id) {
            Some(f) => Some(f.copy()),
            None => None,
        }
    }

    pub(crate) fn reserve_of(&self, token_identifier: &Vec<u8>, token_nonce: u64) -> (r: u128)
        requires
            self.maps_wf(),
        ensures
            r == amount_at(self@.token_reserve, (token_identifier@, token_nonce)),
    {
        match self.token_reserve.get(token_identifier, token_nonce) {
            Some(v) => v,
            None => 0,
        }
    }

    pub(crate) fn owner_address(&self) -> (r: &Vec<u8>)
        ensures
            r@ == self@.owner,
    {
        &self.owner
    }

    pub(crate) fn maximum_bet_entry(&self, token_identifier: &Vec<u8>, token_nonce: u64) -> (r:
        Option<u128>)
        requires
            self.maps_wf(),
        ensures
            r == (if self@.maximum_bet.contains_key((token_identifier@, token_nonce)) {
                Some(self@.maximum_bet[(token_identifier@, token_nonce)])
            } else {
                None::<u128>
            }),
    {
        self.maximum_bet.get(token_identifier, token_nonce)
    }

    pub(crate) fn maximum_bet_percent_entry(
        &self,
        token_identifier: &Vec<u8>,
        token_nonce: u64,
    ) -> (r: Option<u64>)
        requires
            self.maps_wf(),
        ensures
            r == (if self@.maximum_bet_percent.contains_key((token_identifier@, token_nonce)) {
                Some(self@.maximum_bet_percent[(token_identifier@, token_nonce)])
            } else {
                None::<u64>
            }),
    {
        self.maximum_bet_percent.get(token_identifier, token_nonce)
    }

    pub(crate) fn write_fees(&mut self, owner_percent_fees: u64, bounty_percent_fees: u64)
        ensures
            final(self).maps_wf() == old(self).maps_wf(),
            final(self)@ == (ContractModel {
                owner_percent_fees,
                bounty_percent_fees,
                ..old(self)@
            }),
    {
        self.owner_percent_fees = owner_percent_fees;
        self.bounty_percent_fees = bounty_percent_fees;
    }

    pub(crate) fn write_minimum_block_bounty(&mut self, minimum_block_bounty: u64)
        ensures
            final(self).maps_wf() == old(self).maps_wf(),
            final(self)@ == (ContractModel { minimum_block_bounty, ..old(self)@ }),
    {
        self.minimum_block_bounty = minimum_block_bounty;
    }

    pub(crate) fn write_maximum_bet(&mut self, token_identifier: &Vec<u8>, token_nonce: u64, amount: u128)
        requires
            old(self).maps_wf(),
        ensures
            final(self).maps_wf(),
            final(self)@ == (ContractModel {
                maximum_bet: old(self)@.maximum_bet.insert((token_identifier@, token_nonce), amount),
                ..old(self)@
            }),
    {
        self.maximum_bet.insert(token_identifier, token_nonce, amount);
    }

    pub(crate) fn write_maximum_bet_percent(
        &mut self,
        token_identifier: &Vec<u8>,
        token_nonce: u64,
        percent: u64,
    )
        requires
            old(self).maps_wf(),
        ensures
            final(self).maps_wf(),
            final(self)@ == (ContractModel {
                maximum_bet_percent: old(self)@.maximum_bet_percent.insert(
                    (token_identifier@, token_nonce),
                    percent,
                ),
                ..old(self)@
            }),
    {
        self.maximum_bet_percent.insert(token_identifier, token_nonce, percent);
    }

    /// Writes a token's reserve; writing zero empties the entry.
    pub(crate) fn write_token_reserve(&mut self, token_identifier: &Vec<u8>, token_nonce: u64, amount: u128)
        requires
            old(self).maps_wf(),
        ensures
            final(self).maps_wf(),
            final(self)@ == (ContractModel {
                token_reserve: write_amount(
                    old(self)@.token_reserve,
                    (token_identifier@, token_nonce),
                    amount,
                ),
                ..old(self)@
            }),
    {
        if amount == 0 {
            self.token_reserve.remove(token_identifier, token_nonce);
        } else {
            self.token_reserve.insert(token_identifier, token_nonce, amount);
        }
    }

    pub(crate) fn write_flip(&mut self, flip: Flip)
        ensures
            final(self).maps_wf() == old(self).maps_wf(),
            final(self)@ == (ContractModel {
                flip_for_id: old(self)@.flip_for_id.insert(flip.id, flip@),
                ..old(self)@
            }),
    {
        let ghost f = flip@;
        let id = flip.id;
        self.flips.insert(id, flip);
        assert(flips_view(self.flips@) =~= flips_view(old(self).flips@).insert(id, f));
    }

    pub(crate) fn clear_flip(&mut self, id: u64)
        ensures
            final(self).maps_wf() == old(self).maps_wf(),
            final(self)@ == (ContractModel {
                flip_for_id: old(self)@.flip_for_id.remove(id),
                ..old(self)@
            }),
    {
        self.flips.remove(&id);
        assert(flips_view(self.flips@) =~= flips_view(old(self).flips@).remove(id));
    }

    pub(crate) fn write_last_flip_id(&mut self, id: u64)
        ensures
            final(self).maps_wf() == old(self).maps_wf(),
            final(self)@ == (ContractModel { last_flip_id: id, ..old(self)@ }),
    {
        self.last_flip_id = id;
    }

    pub(crate) fn write_last_bounty_flip_id(&mut self, id: u64)
        ensures
            final(self).maps_wf() == old(self).maps_wf(),
            final(self)@ == (ContractModel { last_bounty_flip_id: id, ..old(self)@ }),
    {
        self.last_bounty_flip_id = id;
    }
}

impl StorageModule for FlipStorage {
    closed spec fn well_formed(&self) -> bool {
        &&& self.maps_wf()
        &&& storage_invariants(self@)
    }

    fn owner_percent_fees(&self) -> (r: u64) {
        self.owner_percent_fees
    }

    fn maximum_bet(&self, token_identifier: &Vec<u8>, token_nonce: u64) -> (r: u128) {
        match self.maximum_bet.get(token_identifier, token_nonce) {
            Some(v) => v,
            None => 0,
        }
    }

    fn maximum_bet_percent(&self, token_identifier: &Vec<u8>, token_nonce: u64) -> (r: u64) {
        match self.maximum_bet_percent.get(token_identifier, token_nonce) {
            Some(v) => v,
            None => 0,
        }
    }

    fn minimum_block_bounty(&self) -> (r: u64) {
        self.minimum_block_bounty
    }

    fn token_reserve(&self, token_identifier: &Vec<u8>, token_nonce: u64) -> (r: u128) {
        self.reserve_of(token_identifier, token_nonce)
    }

    fn bounty_reserve(&self, token_identifier: &Vec<u8>, token_nonce: u64) -> (r: u128) {
        match self.bounty_reserve.get(token_identifier, token_nonce) {
            Some(v) => v,
            None => 0,
        }
    }

    fn flip_for_id(&self, id: u64) -> (r: Result<Flip, FlipError>) {
        match self.pending_flip(id) {
            Some(f) => Ok(f),
            None => Err(FlipError::StorageDecodeError),
        }
    }

    fn bounty_percent_fees(&self) -> (r: u64) {
        self.bounty_percent_fees
    }

    fn last_bounty_flip_id(&self) -> (r: u64) {
        self.last_bounty_flip_id
    }

    fn last_flip_id(&self) -> (r: u64) {
        self.last_flip_id
    }
}

} // verus!
