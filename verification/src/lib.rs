//! The rules of an NFT auction: escrowing the token, the settlement of the
//! winning bid between seller, marketplace and creators, and the ledger of
//! lamports that the settlement moves.

pub mod accounts;
pub mod auction;
pub mod ledger;
pub mod metadata;
pub mod pubkey;
pub mod sale_laws;
pub mod settlement;
pub mod state;

pub use accounts::{Initialize, MakeBid, Redeem, StartAuction};
pub use ledger::Ledger;
pub use metadata::{Creator, TokenMetadata};
pub use pubkey::Pubkey;
pub use state::{Auction, AuctionError, Bids, Data, ErrorCode, EscrowSeeds, TokenAction};
