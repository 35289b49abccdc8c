use auction::accounts::{Initialize, MakeBid, Redeem, StartAuction};
use auction::auction::{new, place_bid, redeem, settle, start_auction};
use auction::ledger::Ledger;
use auction::metadata::{Creator, TokenMetadata};
use auction::pubkey::Pubkey;
use auction::state::{Auction, AuctionError, Bids, Data, ErrorCode, EscrowSeeds, TokenAction};

fn key(n: u8) -> Pubkey {
    Pubkey::new([n; 32])
}

const OWNER: u8 = 1;
const MINT: u8 = 2;
const AUCTION: u8 = 3;
const ESCROW: u8 = 4;
const OWNERS_ATA: u8 = 5;
const BID_ACC: u8 = 6;
const BIDDER: u8 = 7;
const BIDDERS_ATA: u8 = 8;
const MARKET: u8 = 9;
const C0: u8 = 20;
const C1: u8 = 21;
const C2: u8 = 22;
const C3: u8 = 23;
const C4: u8 = 24;

/// Token metadata account data, laid out as the metadata program stores it.
fn metadata_bytes(fee_points: u16, creators: Option<&[(u8, u8)]>) -> Vec<u8> {
    let mut d = vec![4u8];
    d.extend_from_slice(&[0u8; 32]);
    d.extend_from_slice(&[MINT; 32]);
    for s in ["Token", "TOK", "https://example.org/t.json"] {
        d.extend_from_slice(&(s.len() as u32).to_le_bytes());
        d.extend_from_slice(s.as_bytes());
    }
    d.extend_from_slice(&fee_points.to_le_bytes());
    match creators {
        None => d.push(0),
        Some(cs) => {
            d.push(1);
            d.extend_from_slice(&(cs.len() as u32).to_le_bytes());
            for (k, share) in cs {
                d.extend_from_slice(&[*k; 32]);
                d.push(1);
                d.push(*share);
            }
        }
    }
    d.push(0);
    d.push(1);
    d.push(0);
    d.resize(679, 0);
    d
}

fn auction_state(bids_made: bool, bid: u64) -> Auction {
    Auction {
        nft_owner: key(OWNER),
        min_req_amount: 10,
        nft_mint: key(MINT),
        present_bidder: key(BIDDER),
        present_bid_amount: bid,
        present_bid_acc: key(BID_ACC),
        bids_placed: if bids_made { 1 } else { 0 },
        escrowed_nft_bump: 254,
        auction_valid_till: 1000,
        auction_complete: false,
        bids_made,
    }
}

fn ledger(bid_account_lamports: u64) -> Ledger {
    let mut l = Ledger::new();
    assert!(l.add_account(key(BID_ACC), bid_account_lamports));
    for k in [OWNER, MARKET, C0, C1, C2, C3, C4] {
        assert!(l.add_account(key(k), 100));
    }
    l
}

fn redeem_ctx(bids_made: bool, bid: u64, cut: u64, metadata: Vec<u8>) -> Redeem {
    Redeem {
        data_acc: Data { market_place: key(MARKET), market_place_cut: cut, pda_rent: key(99) },
        auction_meta: auction_state(bids_made, bid),
        auction_meta_key: key(AUCTION),
        nft_owner: key(OWNER),
        nft_mint: key(MINT),
        redeemer: key(BIDDER),
        escrowed_ata: key(ESCROW),
        latest_bidder: key(BIDDER),
        latest_bidders_nft_account: key(BIDDERS_ATA),
        owners_ata: key(OWNERS_ATA),
        owners_ata_mint: key(MINT),
        present_bid_acc: key(BID_ACC),
        token_metadata: metadata,
        market_maker: key(MARKET),
        creator0: key(C0),
        creator1: key(C1),
        creator2: key(C2),
        creator3: key(C3),
        creator4: key(C4),
        unix_timestamp: 2000,
        lamports: ledger(bid + 5000),
    }
}

fn lamports(ctx: &Redeem, k: u8) -> u64 {
    ctx.lamports.lamports_of(&key(k)).unwrap()
}

fn total(ctx: &Redeem) -> u128 {
    [BID_ACC, OWNER, MARKET, C0, C1, C2, C3, C4].iter().map(|k| lamports(ctx, *k) as u128).sum()
}

fn is_release_to(actions: &[TokenAction], to: u8) -> bool {
    let seeds = |s: &Option<EscrowSeeds>| matches!(s, Some(e) if e.auction.bytes == [AUCTION; 32] && e.bump == 254);
    actions.len() == 2
        && matches!(&actions[0], TokenAction::Transfer { from, to: t, authority, amount: 1, signer }
            if from.bytes == [ESCROW; 32] && t.bytes == [to; 32] && authority.bytes == [ESCROW; 32] && seeds(signer))
        && matches!(&actions[1], TokenAction::CloseAccount { account, destination, authority, signer }
            if account.bytes == [ESCROW; 32] && destination.bytes == [OWNER; 32] && authority.bytes == [ESCROW; 32] && seeds(signer))
}

#[test]
fn sale_pays_seller_marketplace_and_creators() {
    // 2.5% to the marketplace, 5% royalty split 70/30 between two creators.
    let mut ctx = redeem_ctx(true, 1_000_000, 25, metadata_bytes(500, Some(&[(C0, 70), (C1, 30)])));
    let before = total(&ctx);
    let r = redeem(&mut ctx, 0, 0, 0, 1000).unwrap();
    assert!(is_release_to(&r, BIDDERS_ATA));
    assert!(ctx.auction_meta.auction_complete);
    assert_eq!(lamports(&ctx, OWNER), 100 + 925_000);
    assert_eq!(lamports(&ctx, MARKET), 100 + 25_000);
    assert_eq!(lamports(&ctx, C0), 100 + 35_000);
    assert_eq!(lamports(&ctx, C1), 100 + 15_000);
    assert_eq!(lamports(&ctx, BID_ACC), 5000);
    assert_eq!(total(&ctx), before);
}

#[test]
fn fees_round_down() {
    // 1.5% of 999 is 14.985, 3.33% of 999 is 33.2667; 50% of 33 is 16.5.
    let mut ctx = redeem_ctx(true, 999, 15, metadata_bytes(333, Some(&[(C0, 50), (C1, 50)])));
    redeem(&mut ctx, 0, 0, 0, 1000).unwrap();
    assert_eq!(lamports(&ctx, MARKET), 100 + 14);
    assert_eq!(lamports(&ctx, C0), 100 + 16);
    assert_eq!(lamports(&ctx, C1), 100 + 16);
    assert_eq!(lamports(&ctx, OWNER), 100 + 999 - 14 - 33);
    // the rounding remainder stays in the bid account
    assert_eq!(lamports(&ctx, BID_ACC), 5000 + 1);
}

#[test]
fn no_royalty_pays_no_creator() {
    let mut ctx = redeem_ctx(true, 1000, 100, metadata_bytes(0, Some(&[(C0, 100)])));
    redeem(&mut ctx, 0, 0, 0, 1000).unwrap();
    assert_eq!(lamports(&ctx, C0), 100);
    assert_eq!(lamports(&ctx, OWNER), 100 + 900);
}

#[test]
fn metadata_without_creators_pays_no_creator() {
    let mut ctx = redeem_ctx(true, 10_000, 0, metadata_bytes(1000, None));
    redeem(&mut ctx, 0, 0, 0, 1000).unwrap();
    assert_eq!(lamports(&ctx, OWNER), 100 + 9000);
    assert_eq!(lamports(&ctx, C0), 100);
    // the royalty stays in the bid account
    assert_eq!(lamports(&ctx, BID_ACC), 5000 + 1000);
}

#[test]
fn redeem_before_deadline_fails() {
    let mut ctx = redeem_ctx(true, 1000, 25, metadata_bytes(500, None));
    ctx.unix_timestamp = 999;
    assert_eq!(redeem(&mut ctx, 0, 0, 0, 1000).err(), Some(AuctionError::Program(ErrorCode::AuctionNotOver)));
    assert!(!ctx.auction_meta.auction_complete);
    assert_eq!(lamports(&ctx, BID_ACC), 6000);
}

#[test]
fn redeem_at_the_deadline_goes_through() {
    let mut ctx = redeem_ctx(false, 0, 25, metadata_bytes(500, None));
    ctx.unix_timestamp = 1000;
    assert!(redeem(&mut ctx, 0, 0, 0, 1000).is_ok());
}

#[test]
fn unbid_auction_returns_token_to_owner() {
    let mut ctx = redeem_ctx(false, 0, 25, vec![]);
    let r = redeem(&mut ctx, 0, 0, 0, 1000).unwrap();
    assert!(is_release_to(&r, OWNERS_ATA));
    assert!(ctx.auction_meta.auction_complete);
    assert_eq!(lamports(&ctx, BID_ACC), 5000);
    assert_eq!(lamports(&ctx, OWNER), 100);
}

#[test]
fn wrong_market_maker_fails() {
    let mut ctx = redeem_ctx(true, 1000, 25, metadata_bytes(500, None));
    ctx.market_maker = key(C4);
    assert_eq!(redeem(&mut ctx, 0, 0, 0, 1000).err(), Some(AuctionError::Program(ErrorCode::WrongMarketMaker)));
    assert_eq!(lamports(&ctx, OWNER), 100);
    assert!(!ctx.auction_meta.auction_complete);
}

#[test]
fn wrong_creator_account_fails() {
    let mut ctx = redeem_ctx(true, 1000, 25, metadata_bytes(500, Some(&[(C0, 50), (C2, 50)])));
    assert_eq!(redeem(&mut ctx, 0, 0, 0, 1000).err(), Some(AuctionError::Program(ErrorCode::InvalidCreator)));
    assert_eq!(lamports(&ctx, C0), 100);
}

#[test]
fn fifth_creator_is_checked_against_second_account() {
    let five = [(C0, 20), (C1, 20), (C2, 20), (C3, 20), (C1, 20)];
    let mut ctx = redeem_ctx(true, 10_000, 0, metadata_bytes(1000, Some(&five)));
    redeem(&mut ctx, 0, 0, 0, 1000).unwrap();
    // paid to the fifth account all the same
    assert_eq!(lamports(&ctx, C4), 100 + 200);
    assert_eq!(lamports(&ctx, C1), 100 + 200);

    let five = [(C0, 20), (C1, 20), (C2, 20), (C3, 20), (C4, 20)];
    let mut ctx = redeem_ctx(true, 10_000, 0, metadata_bytes(1000, Some(&five)));
    assert_eq!(redeem(&mut ctx, 0, 0, 0, 1000).err(), Some(AuctionError::Program(ErrorCode::InvalidCreator)));
}

#[test]
fn sixth_creator_is_passed_over() {
    let six = [(C0, 10), (C1, 10), (C2, 10), (C3, 10), (C1, 10), (BIDDER, 50)];
    let mut ctx = redeem_ctx(true, 10_000, 0, metadata_bytes(1000, Some(&six)));
    redeem(&mut ctx, 0, 0, 0, 1000).unwrap();
    assert_eq!(lamports(&ctx, BID_ACC), 5000 + 500);
}

#[test]
fn metadata_of_wrong_length_is_invalid() {
    let mut bytes = metadata_bytes(500, None);
    bytes.push(0);
    let mut ctx = redeem_ctx(true, 1000, 25, bytes);
    assert_eq!(redeem(&mut ctx, 0, 0, 0, 1000).err(), Some(AuctionError::InvalidMetadata));
}

#[test]
fn metadata_of_wrong_kind_is_invalid() {
    let mut bytes = metadata_bytes(500, None);
    bytes[0] = 2;
    let mut ctx = redeem_ctx(true, 1000, 25, bytes);
    assert_eq!(redeem(&mut ctx, 0, 0, 0, 1000).err(), Some(AuctionError::InvalidMetadata));
}

#[test]
fn empty_metadata_account_aborts_a_sale() {
    let mut ctx = redeem_ctx(true, 1000, 25, vec![]);
    assert_eq!(redeem(&mut ctx, 0, 0, 0, 1000).err(), Some(AuctionError::Aborted));
}

#[test]
fn cut_over_the_bid_aborts() {
    // a 200% marketplace cut leaves a negative amount for the seller
    let mut ctx = redeem_ctx(true, 1000, 2000, metadata_bytes(0, None));
    assert_eq!(redeem(&mut ctx, 0, 0, 0, 1000).err(), Some(AuctionError::Aborted));
}

#[test]
fn overflowing_cut_aborts() {
    let mut ctx = redeem_ctx(true, u64::MAX / 2, 25, metadata_bytes(0, None));
    assert_eq!(redeem(&mut ctx, 0, 0, 0, 1000).err(), Some(AuctionError::Aborted));
}

#[test]
fn short_bid_account_aborts() {
    let mut ctx = redeem_ctx(true, 1000, 25, metadata_bytes(0, None));
    ctx.lamports = ledger(10);
    assert_eq!(redeem(&mut ctx, 0, 0, 0, 1000).err(), Some(AuctionError::Aborted));
    assert_eq!(lamports(&ctx, BID_ACC), 10);
}

#[test]
fn wrong_owner_breaks_a_constraint() {
    let mut ctx = redeem_ctx(true, 1000, 25, metadata_bytes(0, None));
    ctx.nft_owner = key(BIDDER);
    assert_eq!(redeem(&mut ctx, 0, 0, 0, 1000).err(), Some(AuctionError::ConstraintRaw));
}

#[test]
fn creator_who_is_the_seller_is_paid_twice_over_in_one_account() {
    // the seller is also the only creator: one account, two payments
    let mut ctx = redeem_ctx(true, 10_000, 0, metadata_bytes(1000, Some(&[(OWNER, 100)])));
    ctx.creator0 = key(OWNER);
    let before = total(&ctx) - lamports(&ctx, C0) as u128;
    redeem(&mut ctx, 0, 0, 0, 1000).unwrap();
    assert_eq!(lamports(&ctx, OWNER), 100 + 9000 + 1000);
    assert_eq!(lamports(&ctx, BID_ACC), 5000);
    assert_eq!(total(&ctx) - lamports(&ctx, C0) as u128, before);
}

#[test]
fn settle_takes_read_metadata() {
    let mut ctx = redeem_ctx(true, 1000, 0, vec![1]);
    let m = TokenMetadata {
        seller_fee_basis_points: 1000,
        creators: Some(vec![Creator { address: key(C0), share: 100 }]),
    };
    settle(&mut ctx, Some(m)).unwrap();
    assert_eq!(lamports(&ctx, C0), 100 + 100);
    assert_eq!(lamports(&ctx, OWNER), 100 + 900);
}

fn start_ctx(now: i64, owners_ata_mint: u8) -> StartAuction {
    let blank = Bids {
        bid_maker: key(0),
        nft_mint: key(0),
        nft_owner: key(0),
        bid_amount: 7,
        auction: key(0),
        bid_number: 7,
        bid_bump: 0,
    };
    StartAuction {
        data_acc: Data { market_place: key(MARKET), market_place_cut: 25, pda_rent: key(99) },
        auction_meta: auction_state(true, 5),
        auction_meta_key: key(AUCTION),
        nft_owner: key(OWNER),
        nft_mint: key(MINT),
        owners_ata: key(OWNERS_ATA),
        owners_ata_mint: key(owners_ata_mint),
        escrowed_ata: key(ESCROW),
        bid_account: blank,
        bid_account_key: key(BID_ACC),
        unix_timestamp: now,
    }
}

#[test]
fn start_auction_opens_and_escrows() {
    let mut ctx = start_ctx(500, MINT);
    let r = start_auction(&mut ctx, 1, 2, 253, 252, 1000, 42).unwrap();
    match r {
        TokenAction::Transfer { from, to, authority, amount, signer } => {
            assert_eq!(from.bytes, [OWNERS_ATA; 32]);
            assert_eq!(to.bytes, [ESCROW; 32]);
            assert_eq!(authority.bytes, [OWNER; 32]);
            assert_eq!(amount, 1);
            assert!(signer.is_none());
        }
        _ => panic!("expected a transfer"),
    }
    let a = ctx.auction_meta;
    assert_eq!(a.nft_owner.bytes, [OWNER; 32]);
    assert_eq!(a.present_bidder.bytes, [OWNER; 32]);
    assert_eq!(a.present_bid_acc.bytes, [BID_ACC; 32]);
    assert_eq!(a.min_req_amount, 42);
    assert_eq!(a.present_bid_amount, 0);
    assert_eq!(a.bids_placed, 0);
    assert_eq!(a.escrowed_nft_bump, 253);
    assert_eq!(a.auction_valid_till, 1000);
    assert!(!a.auction_complete);
    assert!(!a.bids_made);
    let b = ctx.bid_account;
    assert_eq!(b.bid_maker.bytes, [OWNER; 32]);
    assert_eq!(b.auction.bytes, [AUCTION; 32]);
    assert_eq!(b.bid_amount, 0);
    assert_eq!(b.bid_number, 0);
    assert_eq!(b.bid_bump, 252);
}

#[test]
fn start_auction_at_the_deadline_is_allowed() {
    let mut ctx = start_ctx(1000, MINT);
    assert!(start_auction(&mut ctx, 0, 0, 0, 0, 1000, 1).is_ok());
}

#[test]
fn start_auction_past_deadline_fails() {
    let mut ctx = start_ctx(1001, MINT);
    assert_eq!(
        start_auction(&mut ctx, 0, 0, 0, 0, 1000, 1).err(),
        Some(AuctionError::Program(ErrorCode::InvalidTimeStamp))
    );
    assert!(ctx.auction_meta.bids_made);
}

#[test]
fn start_auction_with_foreign_token_account_fails() {
    let mut ctx = start_ctx(500, OWNER);
    assert_eq!(start_auction(&mut ctx, 0, 0, 0, 0, 1000, 1).err(), Some(AuctionError::ConstraintRaw));
}

#[test]
fn fresh_auction_redeems_back_to_owner() {
    let mut start = start_ctx(500, MINT);
    start_auction(&mut start, 0, 0, 254, 0, 1000, 1).unwrap();
    let mut ctx = redeem_ctx(true, 0, 25, vec![]);
    ctx.auction_meta = start.auction_meta;
    let r = redeem(&mut ctx, 0, 0, 0, 1000).unwrap();
    assert!(is_release_to(&r, OWNERS_ATA));
    assert_eq!(lamports(&ctx, BID_ACC), 5000);
}

#[test]
fn new_records_marketplace() {
    let mut ctx = Initialize {
        data_acc: Data { market_place: key(0), market_place_cut: 0, pda_rent: key(0) },
        payer: key(OWNER),
        beneficiary: key(MARKET),
        pda_rent: key(99),
    };
    assert_eq!(new(&mut ctx, 255, 25), Ok(()));
    assert_eq!(ctx.data_acc.market_place.bytes, [MARKET; 32]);
    assert_eq!(ctx.data_acc.market_place_cut, 25);
    assert_eq!(ctx.data_acc.pda_rent.bytes, [99; 32]);
}

#[test]
fn place_bid_accepts_and_records_nothing() {
    let blank = Bids {
        bid_maker: key(0),
        nft_mint: key(0),
        nft_owner: key(0),
        bid_amount: 0,
        auction: key(0),
        bid_number: 0,
        bid_bump: 0,
    };
    let ctx = MakeBid {
        data_acc: Data { market_place: key(MARKET), market_place_cut: 25, pda_rent: key(99) },
        auction_meta: auction_state(false, 0),
        bid_account: blank,
        bid_account_key: key(BID_ACC),
        nft_owner: key(OWNER),
        nft_mint: key(MINT),
        bid_maker: key(BIDDER),
        present_bidder: key(OWNER),
        present_bid_acc: blank,
    };
    assert_eq!(place_bid(&ctx, 0, 0, 0, 0, 1000, 1), Ok(()));
    assert!(!ctx.auction_meta.bids_made);
    assert_eq!(ctx.auction_meta.present_bid_amount, 0);
}

#[test]
fn creator_shares_over_a_hundred_pay_more_than_the_bid() {
    let mut ctx = redeem_ctx(true, 10_000, 0, metadata_bytes(1000, Some(&[(C0, 100), (C1, 100)])));
    redeem(&mut ctx, 0, 0, 0, 1000).unwrap();
    assert_eq!(lamports(&ctx, C0), 100 + 1000);
    assert_eq!(lamports(&ctx, C1), 100 + 1000);
    // 9000 to the seller and 2000 to the creators: 1000 over the bid
    assert_eq!(lamports(&ctx, BID_ACC), 15_000 - 11_000);
}

#[test]
fn settle_without_metadata_is_invalid() {
    let mut ctx = redeem_ctx(true, 1000, 0, vec![1]);
    assert_eq!(settle(&mut ctx, None).err(), Some(AuctionError::InvalidMetadata));
    assert!(!ctx.auction_meta.auction_complete);
}
