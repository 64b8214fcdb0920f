# flip

A double-or-nothing betting contract, written as a verified library.

A player bets a payment in some token. The owner's fee is sent to the owner at once, a
bounty is kept for whoever draws the bet later, and the rest is the stake; the contract
takes the same amount out of its reserve for that token, so that it can pay twice the stake
if the player wins. Bets are drawn at least `minimum_block_bounty` blocks later, in order, by
anyone who calls `flip_bounty`; that caller earns the bounties. A lost bet puts twice the
stake back into the reserve.

A contract is created with `FlipStorage::deploy`, which runs `init`. The contract's storage
is `FlipStorage`; its endpoints are grouped as in the traits
`StorageModule` (views), `AdminModule` (funding and configuration) and `FlipContract`
(betting and drawing). Every endpoint returns what the contract sends (`Transfer`s) or a
`FlipError`, in which case nothing changed. Every storage that `deploy` and the endpoints
produce is well-formed, and well-formedness includes the invariants of `laws.rs`, so each law
applies to it. Random numbers for the draws, the caller, the
block number and incoming payments are inputs: the chain supplies them.

Layout of `src/`:

- `model.rs`: the contract as a state machine over its storage (`ContractModel`); each
  endpoint is a step function, and the executable endpoints are proved to compute exactly it.
- `storage.rs`, `admin.rs`, `contract.rs`: the executable storage and endpoints.
- `token_map.rs`: storage entries per token `(identifier, nonce)`.
- `percent.rs`: percentages on the scale where 100 000 000 is 100 %, computed exactly.
- `laws.rs`: what holds across calls, proved over the model: the pending bets are exactly
  those not yet drawn; for every token, what the contract owes (reserve plus twice each
  pending stake plus its bounty) moves exactly with what comes in and goes out, so the
  reserve is what the contract holds less what is locked for pending bets; bets are drawn in
  order, only when due and never in the block they were placed in; a draw's outcome depends
  on its random number alone; a withdrawal undoes a deposit; and setters read back.

Amounts are `u128`. A deposit, a prize or a refund to the reserve that would not fit is
refused with `FlipError::Overflow`, and the storage is left unchanged.
