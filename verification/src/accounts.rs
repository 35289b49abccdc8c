use vstd::prelude::*;

use crate::ledger::Ledger;
use crate::pubkey::Pubkey;
use crate::state::{Auction, Bids, Data, EscrowSeeds, TokenAction};

verus! {

/// The accounts of `new`: the marketplace's configuration account and the
/// addresses that it records.
pub struct Initialize {
    pub data_acc: Data,
    pub payer: Pubkey,
    pub beneficiary: Pubkey,
    pub pda_rent: Pubkey,
}

/// The accounts of `start_auction`, and the clock.
pub struct StartAuction {
    pub data_acc: Data,
    /// The auction account, created by the instruction.
    pub auction_meta: Auction,
    pub auction_meta_key: Pubkey,
    pub nft_owner: Pubkey,
    pub nft_mint: Pubkey,
    /// The owner's token account, and the mint it holds tokens of.
    pub owners_ata: Pubkey,
    pub owners_ata_mint: Pubkey,
    pub escrowed_ata: Pubkey,
    /// The opening bid account, created by the instruction.
    pub bid_account: Bids,
    pub bid_account_key: Pubkey,
    pub unix_timestamp: i64,
}

/// The accounts of `place_bid`.
pub struct MakeBid {
    pub data_acc: Data,
    pub auction_meta: Auction,
    pub bid_account: Bids,
    pub bid_account_key: Pubkey,
    pub nft_owner: Pubkey,
    pub nft_mint: Pubkey,
    pub bid_maker: Pubkey,
    pub present_bidder: Pubkey,
    pub present_bid_acc: Bids,
}

/// The accounts of `redeem`, the clock, the data of the token metadata
/// account, and the lamports of the accounts that the sale pays.
pub struct Redeem {
    pub data_acc: Data,
    pub auction_meta: Auction,
    pub auction_meta_key: Pubkey,
    pub nft_owner: Pubkey,
    pub nft_mint: Pubkey,
    pub redeemer: Pubkey,
    pub escrowed_ata: Pubkey,
    pub latest_bidder: Pubkey,
    pub latest_bidders_nft_account: Pubkey,
    /// The owner's token account, and the mint it holds tokens of.
    pub owners_ata: Pubkey,
    pub owners_ata_mint: Pubkey,
    /// The account that holds the winning bid.
    pub present_bid_acc: Pubkey,
    pub token_metadata: Vec<u8>,
    pub market_maker: Pubkey,
    pub creator0: Pubkey,
    pub creator1: Pubkey,
    pub creator2: Pubkey,
    pub creator3: Pubkey,
    pub creator4: Pubkey,
    pub unix_timestamp: i64,
    /// The lamports of the winning bid's account, the owner, the market maker
    /// and the creator accounts.
    pub lamports: Ledger,
}

impl StartAuction {
    /// The accounts' own constraint: the owner's token account holds tokens of
    /// the auctioned mint.
    pub open spec fn constraints_hold(&self) -> bool {
        self.owners_ata_mint@ == self.nft_mint@
    }

    pub fn check_constraints(&self) -> (r: bool)
        ensures
            r == self.constraints_hold(),
    {
        self.owners_ata_mint.same(&self.nft_mint)
    }
}

impl Redeem {
    /// The accounts' own constraints: owner and mint are the auction's, and
    /// the owner's token account holds tokens of that mint.
    pub open spec fn constraints_hold(&self) -> bool {
        &&& self.nft_owner@ == self.auction_meta.nft_owner@
        &&& self.nft_mint@ == self.auction_meta.nft_mint@
        &&& self.owners_ata_mint@ == self.nft_mint@
    }

    pub fn check_constraints(&self) -> (r: bool)
        ensures
            r == self.constraints_hold(),
    {
        self.nft_owner.same(&self.auction_meta.nft_owner) && self.nft_mint.same(
            &self.auction_meta.nft_mint,
        ) && self.owners_ata_mint.same(&self.nft_mint)
    }

    /// The creator account in position `y` (0 to 4).
    pub open spec fn creator_key(&self, y: int) -> Pubkey {
        if y == 0 {
            self.creator0
        } else if y == 1 {
            self.creator1
        } else if y == 2 {
            self.creator2
        } else if y == 3 {
            self.creator3
        } else {
            self.creator4
        }
    }

    /// The creator account against which the address of the `y`-th creator is
    /// checked: the account in position `y`, but for the fifth creator, which
    /// is checked against the account in position 1.
    pub open spec fn checked_creator_key(&self, y: int) -> Pubkey {
        if y == 4 {
            self.creator1
        } else {
            self.creator_key(y)
        }
    }

    pub fn creator_at(&self, y: usize) -> (k: Pubkey)
        requires
            y < 5,
        ensures
            k == self.creator_key(y as int),
    {
        if y == 0 {
            self.creator0
        } else if y == 1 {
            self.creator1
        } else if y == 2 {
            self.creator2
        } else if y == 3 {
            self.creator3
        } else {
            self.creator4
        }
    }

    pub fn checked_creator_at(&self, y: usize) -> (k: Pubkey)
        requires
            y < 5,
        ensures
            k == self.checked_creator_key(y as int),
    {
        if y == 4 {
            self.creator1
        } else {
            self.creator_at(y)
        }
    }

    /// The seeds with which the escrow account signs.
    pub open spec fn escrow_seeds(&self) -> EscrowSeeds {
        EscrowSeeds { auction: self.auction_meta_key, bump: self.auction_meta.escrowed_nft_bump }
    }

    /// The token calls that hand the escrowed token to the token account `to`
    /// and close the escrow, its rent going to the owner.
    pub open spec fn release_escrow(&self, to: Pubkey) -> Seq<TokenAction> {
        seq![
            TokenAction::Transfer {
                from: self.escrowed_ata,
                to,
                authority: self.escrowed_ata,
                amount: 1,
                signer: Some(self.escrow_seeds()),
            },
            TokenAction::CloseAccount {
                account: self.escrowed_ata,
                destination: self.nft_owner,
                authority: self.escrowed_ata,
                signer: Some(self.escrow_seeds()),
            },
        ]
    }

    pub fn release_escrow_actions(&self, to: Pubkey) -> (actions: Vec<TokenAction>)
        ensures
            actions@ == self.release_escrow(to),
    {
        let seeds = EscrowSeeds {
            auction: self.auction_meta_key,
            bump: self.auction_meta.escrowed_nft_bump,
        };
        let actions = vec![
            TokenAction::Transfer {
                from: self.escrowed_ata,
                to,
                authority: self.escrowed_ata,
                amount: 1,
                signer: Some(seeds),
            },
            TokenAction::CloseAccount {
                account: self.escrowed_ata,
                destination: self.nft_owner,
                authority: self.escrowed_ata,
                signer: Some(seeds),
            },
        ];
        assert(actions@ =~= self.release_escrow(to));
        actions
    }
}

} // verus!
