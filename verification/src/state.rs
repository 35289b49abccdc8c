use vstd::prelude::*;

use crate::pubkey::Pubkey;

verus! {

/// The marketplace's configuration account.
#[derive(Clone, Copy, Debug)]
pub struct Data {
    /// The account that receives the marketplace's cut of every sale.
    pub market_place: Pubkey,
    /// The marketplace's cut, in tenths of a percent of the winning bid.
    pub market_place_cut: u64,
    pub pda_rent: Pubkey,
}

/// The state of one auction.
#[derive(Clone, Copy, Debug)]
pub struct Auction {
    pub nft_owner: Pubkey,
    pub min_req_amount: u64,
    pub nft_mint: Pubkey,
    /// The bidder of the highest bid so far.
    pub present_bidder: Pubkey,
    pub present_bid_amount: u64,
    /// The account that holds the highest bid so far.
    pub present_bid_acc: Pubkey,
    pub bids_placed: u64,
    pub escrowed_nft_bump: u8,
    pub auction_valid_till: i64,
    pub auction_complete: bool,
    pub bids_made: bool,
}

/// One bid of an auction.
#[derive(Clone, Copy, Debug)]
pub struct Bids {
    pub bid_maker: Pubkey,
    pub nft_mint: Pubkey,
    pub nft_owner: Pubkey,
    pub bid_amount: u64,
    pub auction: Pubkey,
    pub bid_number: u64,
    pub bid_bump: u8,
}

/// The errors that the program itself raises.
#[derive(Clone, Copy, Debug, PartialEq, Eq, Structural)]
pub enum ErrorCode {
    LessBidAmount,
    LessThanPreviousBid,
    AuctionComplete,
    IncorrectBidder,
    AuctionNotOver,
    WrongMarketMaker,
    InvalidCreator,
    InvalidTimeStamp,
}

/// Why an instruction fails.
#[derive(Clone, Copy, Debug, PartialEq, Eq, Structural)]
pub enum AuctionError {
    /// An error of the program's own.
    Program(ErrorCode),
    /// An account fails a `constraint` that the instruction's accounts state.
    ConstraintRaw,
    /// The token metadata account does not hold token metadata.
    InvalidMetadata,
    /// The instruction aborts: an arithmetic overflow, a lamport balance that
    /// would go below zero, or an empty metadata account.
    Aborted,
}

/// The seeds with which the escrow account signs: the auction's address and
/// the escrow's bump.
#[derive(Clone, Copy, Debug)]
pub struct EscrowSeeds {
    pub auction: Pubkey,
    pub bump: u8,
}

/// A call into the token program that an instruction asks for.
#[derive(Clone, Copy, Debug)]
pub enum TokenAction {
    /// Move `amount` tokens from `from` to `to`, signed by `authority`.
    Transfer { from: Pubkey, to: Pubkey, authority: Pubkey, amount: u64, signer: Option<EscrowSeeds> },
    /// Close `account`, handing its rent to `destination`.
    CloseAccount { account: Pubkey, destination: Pubkey, authority: Pubkey, signer: Option<EscrowSeeds> },
}

} // verus!
