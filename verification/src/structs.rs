use vstd::prelude::*;

verus! {

/// A pending bet: a player's stake waiting for someone to draw its outcome.
///
/// Addresses and token identifiers are the raw bytes the chain uses for them
/// (the native token is the identifier `EGLD`); amounts are integers in the
/// token's smallest unit.
#[derive(Clone, Debug, PartialEq, Eq)]
pub struct Flip {
    pub id: u64,
    pub player_address: Vec<u8>,
    pub token_identifier: Vec<u8>,
    pub token_nonce: u64,
    pub amount: u128,
    pub bounty: u128,
    pub block_nonce: u64,
    pub minimum_block_bounty: u64,
}

/// The mathematical value of a [`Flip`].
pub struct FlipView {
    pub id: u64,
    pub player_address: Seq<u8>,
    pub token_identifier: Seq<u8>,
    pub token_nonce: u64,
    pub amount: u128,
    pub bounty: u128,
    pub block_nonce: u64,
    pub minimum_block_bounty: u64,
}

impl View for Flip {
    type V = FlipView;

    open spec fn view(&self) -> FlipView {
        FlipView {
            id: self.id,
            player_address: self.player_address@,
            token_identifier: self.token_identifier@,
            token_nonce: self.token_nonce,
            amount: self.amount,
            bounty: self.bounty,
            block_nonce: self.block_nonce,
            minimum_block_bounty: self.minimum_block_bounty,
        }
    }
}

/// A copy of a byte string.
pub fn copy_bytes(bytes: &Vec<u8>) -> (r: Vec<u8>)
    ensures
        r@ == bytes@,
{
    let r = bytes.clone();
    assert(r@ =~= bytes@);
    r
}

impl Flip {
    /// A copy of this flip.
    pub fn copy(&self) -> (r: Flip)
        ensures
            r@ == self@,
    {
        Flip {
            id: self.id,
            player_address: copy_bytes(&self.player_address),
            token_identifier: copy_bytes(&self.token_identifier),
            token_nonce: self.token_nonce,
            amount: self.amount,
            bounty: self.bounty,
            block_nonce: self.block_nonce,
            minimum_block_bounty: self.minimum_block_bounty,
        }
    }
}

/// Tokens that the contract sends out: `amount` units of the token
/// `(token_identifier, token_nonce)` to the address `to`.
#[derive(Debug, PartialEq, Eq)]
pub struct Transfer {
    pub to: Vec<u8>,
    pub token_identifier: Vec<u8>,
    pub token_nonce: u64,
    pub amount: u128,
}

/// The mathematical value of a [`Transfer`].
pub struct TransferView {
    pub to: Seq<u8>,
    pub token_identifier: Seq<u8>,
    pub token_nonce: u64,
    pub amount: u128,
}

impl View for Transfer {
    type V = TransferView;

    open spec fn view(&self) -> TransferView {
        TransferView {
            to: self.to@,
            token_identifier: self.token_identifier@,
            token_nonce: self.token_nonce,
            amount: self.amount,
        }
    }
}

/// The values of a list of transfers, in order.
pub open spec fn transfers_view(transfers: Seq<Transfer>) -> Seq<TransferView> {
    transfers.map_values(|t: Transfer| t@)
}

/// Tokens that come in with a call: `amount` units of `(token_identifier, token_nonce)`.
#[derive(Debug, PartialEq, Eq)]
pub struct Payment {
    pub token_identifier: Vec<u8>,
    pub token_nonce: u64,
    pub amount: u128,
}

/// The mathematical value of a [`Payment`].
pub struct PaymentView {
    pub token_identifier: Seq<u8>,
    pub token_nonce: u64,
    pub amount: u128,
}

impl View for Payment {
    type V = PaymentView;

    open spec fn view(&self) -> PaymentView {
        PaymentView {
            token_identifier: self.token_identifier@,
            token_nonce: self.token_nonce,
            amount: self.amount,
        }
    }
}

/// Why a call to the contract was refused. A refused call changes nothing.
#[derive(Clone, Copy, Debug, PartialEq, Eq, Structural)]
pub enum FlipError {
    /// `increaseReserve` was called without tokens.
    ZeroPayment,
    /// An owner-only endpoint was called by someone else.
    NotOwner,
    /// A withdrawal of nothing.
    InvalidWithdrawAmount,
    /// A withdrawal of more than the reserve.
    AmountTooHigh,
    /// A maximum bet percentage of zero.
    PercentZero,
    /// A maximum bet of zero.
    AmountZero,
    /// `setMinimumBlockBounty` was given zero.
    MinimumBlockBountyZero,
    /// The contract was initialised with a minimum block bounty of zero.
    InitMinimumBlockBountyZero,
    /// A bet in a token of which the contract holds no reserve.
    NoTokenReserve,
    /// A bet in a token that has no maximum bet.
    NoMaximumBet,
    /// A bet in a token that has no maximum bet percentage.
    NoMaximumBetPercent,
    /// A bet above the maximum allowed.
    TooMuchBet,
    /// `flipBounty` was called by a smart contract.
    CallerIsSmartContract,
    /// `flipBounty` was called while no flip is pending.
    NoPendingFlip,
    /// `flipBounty` found no flip old enough to be drawn.
    NoBounty,
    /// A subtraction of big integers would have gone below zero.
    NegativeAmount,
    /// A value does not fit in its integer type.
    Overflow,
    /// A storage entry read as a flip holds none.
    StorageDecodeError,
}

impl FlipError {
    /// The message with which the contract refuses the call.
    pub fn message(&self) -> (r: &'static str)
        ensures
            r@ == error_message(*self),
    {
        match self {
            FlipError::ZeroPayment => "zero payment",
            FlipError::NotOwner => "Endpoint can only be called by owner",
            FlipError::InvalidWithdrawAmount => "Invalid withdraw amount",
            FlipError::AmountTooHigh => "amount too high",
            FlipError::PercentZero => "percent zero",
            FlipError::AmountZero => "amount zero",
            FlipError::MinimumBlockBountyZero => "minimum_block_bounty zero",
            FlipError::InitMinimumBlockBountyZero => "minimum_block_bounty is zero",
            FlipError::NoTokenReserve => "no token reserve",
            FlipError::NoMaximumBet => "no maximum bet",
            FlipError::NoMaximumBetPercent => "no maximum bet percent",
            FlipError::TooMuchBet => "too much bet",
            FlipError::CallerIsSmartContract => "caller is a smart contract",
            FlipError::NoPendingFlip => "last bounty flip id >= last flip id",
            FlipError::NoBounty => "no bounty",
            FlipError::NegativeAmount => "cannot subtract because result would be negative",
            FlipError::Overflow => "arithmetic overflow",
            FlipError::StorageDecodeError => "storage decode error: input too short",
        }
    }
}

/// The message of each refusal.
pub open spec fn error_message(e: FlipError) -> Seq<char> {
    match e {
        FlipError::ZeroPayment => "zero payment"@,
        FlipError::NotOwner => "Endpoint can only be called by owner"@,
        FlipError::InvalidWithdrawAmount => "Invalid withdraw amount"@,
        FlipError::AmountTooHigh => "amount too high"@,
        FlipError::PercentZero => "percent zero"@,
        FlipError::AmountZero => "amount zero"@,
        FlipError::MinimumBlockBountyZero => "minimum_block_bounty zero"@,
        FlipError::InitMinimumBlockBountyZero => "minimum_block_bounty is zero"@,
        FlipError::NoTokenReserve => "no token reserve"@,
        FlipError::NoMaximumBet => "no maximum bet"@,
        FlipError::NoMaximumBetPercent => "no maximum bet percent"@,
        FlipError::TooMuchBet => "too much bet"@,
        FlipError::CallerIsSmartContract => "caller is a smart contract"@,
        FlipError::NoPendingFlip => "last bounty flip id >= last flip id"@,
        FlipError::NoBounty => "no bounty"@,
        FlipError::NegativeAmount => "cannot subtract because result would be negative"@,
        FlipError::Overflow => "arithmetic overflow"@,
        FlipError::StorageDecodeError => "storage decode error: input too short"@,
    }
}

} // verus!
