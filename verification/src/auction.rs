use vstd::prelude::*;

use crate::accounts::{Initialize, MakeBid, Redeem, StartAuction};
use crate::ledger::LedgerView;
use crate::metadata::{metadata_fields, read_metadata, TokenMetadata};
use crate::settlement::{
    apply, apply_steps, lemma_apply_conserves, lemma_apply_debit, lemma_paid_from_concat,
    paid_from, steps_view, Settlement, Step, StepFailure, StepView,
};
use crate::state::{Auction, AuctionError, Bids, Data, ErrorCode, TokenAction};

verus! {

/// The marketplace's cut of a sale for `amount`: `market_place_cut` tenths of
/// a percent, rounded down.
pub open spec fn market_fee(market_place_cut: u64, amount: u64) -> int {
    market_place_cut * amount / 1000
}

/// The creators' royalty on a sale for `amount`: `seller_fee_basis_points`
/// hundredths of a percent, rounded down.
pub open spec fn royalty_fee(seller_fee_basis_points: u16, amount: u64) -> int {
    seller_fee_basis_points * amount / 10000
}

/// A creator's part of the royalty: `share` percent, rounded down.
pub open spec fn creator_cut(royalty: int, share: u8) -> int {
    royalty * share / 100
}

/// The checks and payments of the creators `creators` (address and share,
/// in order): each of the first five is checked against its creator account
/// (see `Redeem::checked_creator_key`) and then paid from the winning bid's
/// account (see `creator_payment`); any creator after the fifth is passed
/// over.
pub open spec fn creator_steps(ctx: Redeem, creators: Seq<(Seq<u8>, u8)>, royalty: int) -> Seq<StepView>
    decreases creators.len(),
{
    if creators.len() == 0 {
        Seq::empty()
    } else {
        let y = creators.len() - 1;
        creator_steps(ctx, creators.drop_last(), royalty) + if y < 5 {
            seq![
                StepView::Check {
                    holds: creators[y].0 == ctx.checked_creator_key(y)@,
                    error: ErrorCode::InvalidCreator,
                },
                creator_payment(ctx, y, royalty, creators[y].1),
            ]
        } else {
            Seq::empty()
        }
    }
}

/// The payment to the creator account in position `y`, of `share` percent of
/// `royalty`; an overflow where `royalty * share` passes `u64::MAX`.
pub open spec fn creator_payment(ctx: Redeem, y: int, royalty: int, share: u8) -> StepView {
    if royalty * share > u64::MAX {
        StepView::Overflow
    } else {
        StepView::Transfer {
            from: ctx.present_bid_acc@,
            to: ctx.creator_key(y)@,
            amount: creator_cut(royalty, share),
        }
    }
}

/// The lamport side of a sale: the seller gets the bid less the marketplace's
/// cut and the royalty; the market maker is checked and gets the cut; where
/// there is a royalty and the metadata names creators, they are paid.
pub open spec fn sale_steps(
    ctx: Redeem,
    market_cut: int,
    royalty: int,
    creators: Option<Seq<(Seq<u8>, u8)>>,
) -> Seq<StepView> {
    seq![
        StepView::Transfer {
            from: ctx.present_bid_acc@,
            to: ctx.nft_owner@,
            amount: ctx.auction_meta.present_bid_amount - (market_cut + royalty),
        },
        StepView::Check {
            holds: ctx.market_maker@ == ctx.data_acc.market_place@,
            error: ErrorCode::WrongMarketMaker,
        },
        StepView::Transfer { from: ctx.present_bid_acc@, to: ctx.market_maker@, amount: market_cut },
    ] + match creators {
        Some(cs) => if royalty > 0 {
            creator_steps(ctx, cs, royalty)
        } else {
            Seq::empty()
        },
        None => Seq::empty(),
    }
}

/// How `redeem` ends.
pub enum RedeemOutcome {
    Aborted,
    Failed(AuctionError),
    /// The auction is complete, with the lamports `lamports` and the token
    /// calls `actions` still to make.
    Completed { lamports: LedgerView, actions: Seq<TokenAction> },
}

/// What redeeming the auction of `ctx` comes to, given what its token
/// metadata reads as (`metadata`).
pub open spec fn redeem_outcome(
    ctx: Redeem,
    metadata: Option<(u16, Option<Seq<(Seq<u8>, u8)>>)>,
) -> RedeemOutcome {
    let auction = ctx.auction_meta;
    let bid = auction.present_bid_amount;
    if !ctx.constraints_hold() {
        RedeemOutcome::Failed(AuctionError::ConstraintRaw)
    } else if ctx.unix_timestamp < auction.auction_valid_till {
        RedeemOutcome::Failed(AuctionError::Program(ErrorCode::AuctionNotOver))
    } else if !auction.bids_made {
        RedeemOutcome::Completed {
            lamports: ctx.lamports@,
            actions: ctx.release_escrow(ctx.owners_ata),
        }
    } else if ctx.data_acc.market_place_cut * bid > u64::MAX {
        RedeemOutcome::Aborted
    } else if ctx.token_metadata@.len() == 0 {
        RedeemOutcome::Aborted
    } else {
        match metadata {
            None => RedeemOutcome::Failed(AuctionError::InvalidMetadata),
            Some((fee_points, creators)) => {
                let market_cut = market_fee(ctx.data_acc.market_place_cut, bid);
                let royalty = royalty_fee(fee_points, bid);
                if fee_points * bid > u64::MAX || market_cut + royalty > bid {
                    RedeemOutcome::Aborted
                } else {
                    match apply_steps(ctx.lamports@, sale_steps(ctx, market_cut, royalty, creators)) {
                        Settlement::Aborted => RedeemOutcome::Aborted,
                        Settlement::Failed(e) => RedeemOutcome::Failed(AuctionError::Program(e)),
                        Settlement::Done(w) => RedeemOutcome::Completed {
                            lamports: w,
                            actions: ctx.release_escrow(ctx.latest_bidders_nft_account),
                        },
                    }
                }
            },
        }
    }
}

/// `after` and `r` are what redeeming `before` to the outcome `outcome`
/// leaves: nothing changed where it aborts or fails; where it completes, the
/// auction marked complete, the lamports moved, and the token calls returned.
pub open spec fn settled(
    before: Redeem,
    after: Redeem,
    r: Result<Vec<TokenAction>, AuctionError>,
    outcome: RedeemOutcome,
) -> bool {
    match outcome {
        RedeemOutcome::Aborted => r == Err::<Vec<TokenAction>, AuctionError>(AuctionError::Aborted) && after
            == before,
        RedeemOutcome::Failed(e) => r == Err::<Vec<TokenAction>, AuctionError>(e) && after == before,
        RedeemOutcome::Completed { lamports, actions } => {
            &&& r matches Ok(a) && a@ == actions
            &&& after.lamports@ == lamports
            &&& after == (Redeem {
                auction_meta: Auction { auction_complete: true, ..before.auction_meta },
                lamports: after.lamports,
                ..before
            })
        },
    }
}

pub open spec fn metadata_view(metadata: Option<TokenMetadata>) -> Option<(u16, Option<Seq<(Seq<u8>, u8)>>)> {
    match metadata {
        Some(m) => Some(m@),
        None => None,
    }
}

/// What the metadata account's data reads as (nothing where it is empty).
pub open spec fn metadata_of(data: Seq<u8>) -> Option<(u16, Option<Seq<(Seq<u8>, u8)>>)> {
    if data.len() > 0 {
        metadata_fields(data)
    } else {
        None
    }
}

/// The steps of a sale (see `sale_steps`).
fn sale_plan(ctx: &Redeem, market_cut: u64, royalty: u64, metadata: &TokenMetadata) -> (steps: Vec<Step>)
    requires
        market_cut + royalty <= ctx.auction_meta.present_bid_amount,
    ensures
        steps_view(steps@) == sale_steps(*ctx, market_cut as int, royalty as int, metadata@.1),
{
    let bid = ctx.auction_meta.present_bid_amount;
    let mut steps: Vec<Step> = Vec::new();
    steps.push(
        Step::Transfer {
            from: ctx.present_bid_acc,
            to: ctx.nft_owner,
            amount: bid - (market_cut + royalty),
        },
    );
    steps.push(
        Step::Check {
            holds: ctx.market_maker.same(&ctx.data_acc.market_place),
            error: ErrorCode::WrongMarketMaker,
        },
    );
    steps.push(
        Step::Transfer { from: ctx.present_bid_acc, to: ctx.market_maker, amount: market_cut },
    );
    let ghost base = steps_view(steps@);
    assert(base =~= sale_steps(*ctx, market_cut as int, royalty as int, None));
    if royalty > 0 {
        match &metadata.creators {
            Some(cs) => {
                let ghost cv = cs@.map_values(|c: crate::metadata::Creator| c@);
                let n = cs.len();
                let mut y: usize = 0;
                assert(cv.take(0) =~= Seq::<(Seq<u8>, u8)>::empty());
                assert(base + Seq::<StepView>::empty() =~= base);
                while y < n
                    invariant
                        n == cs@.len(),
                        cv == cs@.map_values(|c: crate::metadata::Creator| c@),
                        0 <= y <= n,
                        royalty > 0,
                        steps_view(steps@) == base + creator_steps(*ctx, cv.take(y as int), royalty as int),
                    decreases n - y,
                {
                    let ghost before = steps_view(steps@);
                    assert(cv.take(y + 1).drop_last() =~= cv.take(y as int));
                    assert(cv.take(y + 1)[y as int] == cs@[y as int]@);
                    if y < 5 {
                        let c = cs[y];
                        let holds = c.address.same(&ctx.checked_creator_at(y));
                        let payment = match royalty.checked_mul(c.share as u64) {
                            Some(p) => Step::Transfer {
                                from: ctx.present_bid_acc,
                                to: ctx.creator_at(y),
                                amount: p / 100,
                            },
                            None => Step::Overflow,
                        };
                        steps.push(Step::Check { holds, error: ErrorCode::InvalidCreator });
                        steps.push(payment);
                        assert(steps_view(steps@) =~= before + seq![
                            StepView::Check { holds, error: ErrorCode::InvalidCreator },
                            creator_payment(*ctx, y as int, royalty as int, c.share),
                        ]);
                    } else {
                        assert(steps_view(steps@) =~= before + Seq::<StepView>::empty());
                    }
                    y = y + 1;
                }
                assert(cv.take(n as int) =~= cv);
            },
            None => {},
        }
    }
    steps
}

/// Settles the auction of `ctx` given what its token metadata reads as: the
/// no-bid case hands the token back, a sale pays seller, marketplace and
/// creators from the winning bid and hands the token to the winner (see
/// `redeem_outcome`).
pub fn settle(ctx: &mut Redeem, metadata: Option<TokenMetadata>) -> (r: Result<Vec<TokenAction>, AuctionError>)
    ensures
        settled(*old(ctx), *final(ctx), r, redeem_outcome(*old(ctx), metadata_view(metadata))),
{
    if !ctx.check_constraints() {
        return Err(AuctionError::ConstraintRaw);
    }
    if ctx.unix_timestamp < ctx.auction_meta.auction_valid_till {
        return Err(AuctionError::Program(ErrorCode::AuctionNotOver));
    }
    if !ctx.auction_meta.bids_made {
        let actions = ctx.release_escrow_actions(ctx.owners_ata);
        ctx.auction_meta.auction_complete = true;
        return Ok(actions);
    }
    let bid = ctx.auction_meta.present_bid_amount;
    let market_cut = match ctx.data_acc.market_place_cut.checked_mul(bid) {
        Some(p) => p / 1000,
        None => return Err(AuctionError::Aborted),
    };
    if ctx.token_metadata.len() == 0 {
        return Err(AuctionError::Aborted);
    }
    let m = match metadata {
        Some(m) => m,
        None => return Err(AuctionError::InvalidMetadata),
    };
    let royalty = match (m.seller_fee_basis_points as u64).checked_mul(bid) {
        Some(p) => p / 10000,
        None => return Err(AuctionError::Aborted),
    };
    if market_cut > bid || royalty > bid - market_cut {
        return Err(AuctionError::Aborted);
    }
    let steps = sale_plan(ctx, market_cut, royalty, &m);
    match apply(ctx.lamports.duplicate(), &steps) {
        Ok(ledger) => {
            let actions = ctx.release_escrow_actions(ctx.latest_bidders_nft_account);
            ctx.lamports = ledger;
            ctx.auction_meta.auction_complete = true;
            Ok(actions)
        },
        Err(StepFailure::Aborted) => Err(AuctionError::Aborted),
        Err(StepFailure::Failed(e)) => Err(AuctionError::Program(e)),
    }
}

/// Records the marketplace: the beneficiary of its cut, the cut, and the
/// rent account.
pub fn new(ctx: &mut Initialize, _data_bump: u8, mk_cut: u64) -> (r: Result<(), AuctionError>)
    ensures
        r == Ok::<(), AuctionError>(()),
        *final(ctx) == (Initialize {
            data_acc: Data {
                market_place: old(ctx).beneficiary,
                market_place_cut: mk_cut,
                pda_rent: old(ctx).pda_rent,
            },
            ..*old(ctx)
        }),
{
    ctx.data_acc.market_place = ctx.beneficiary;
    ctx.data_acc.market_place_cut = mk_cut;
    ctx.data_acc.pda_rent = ctx.pda_rent;
    Ok(())
}

/// The auction that `start_auction` opens: no bid yet, the owner standing as
/// the present bidder with the opening bid account, not complete.
pub open spec fn opened_auction(
    ctx: StartAuction,
    escrowed_ata_bump: u8,
    auction_valid_till: i64,
    min_price: u64,
) -> Auction {
    Auction {
        nft_owner: ctx.nft_owner,
        min_req_amount: min_price,
        nft_mint: ctx.nft_mint,
        present_bidder: ctx.nft_owner,
        present_bid_amount: 0,
        present_bid_acc: ctx.bid_account_key,
        bids_placed: 0,
        escrowed_nft_bump: escrowed_ata_bump,
        auction_valid_till,
        auction_complete: false,
        bids_made: false,
    }
}

/// The opening bid that `start_auction` records: the owner's, for nothing.
pub open spec fn opening_bid(ctx: StartAuction, bid_bump: u8) -> Bids {
    Bids {
        bid_maker: ctx.nft_owner,
        nft_mint: ctx.nft_mint,
        nft_owner: ctx.nft_owner,
        bid_amount: 0,
        auction: ctx.auction_meta_key,
        bid_number: 0,
        bid_bump,
    }
}

/// Opens an auction that runs until `auction_valid_till`, and asks for the
/// owner's token to go into escrow. Fails where the owner's token account
/// holds another mint, or where the deadline has passed.
pub fn start_auction(
    ctx: &mut StartAuction,
    _data_bump: u8,
    _auction_meta_bump: u8,
    escrowed_ata_bump: u8,
    bid_bump: u8,
    auction_valid_till: i64,
    min_price: u64,
) -> (r: Result<TokenAction, AuctionError>)
    ensures
        !old(ctx).constraints_hold() ==> r == Err::<TokenAction, AuctionError>(AuctionError::ConstraintRaw)
            && *final(ctx) == *old(ctx),
        old(ctx).constraints_hold() && old(ctx).unix_timestamp > auction_valid_till ==> r == Err::<
            TokenAction,
            AuctionError,
        >(AuctionError::Program(ErrorCode::InvalidTimeStamp)) && *final(ctx) == *old(ctx),
        old(ctx).constraints_hold() && old(ctx).unix_timestamp <= auction_valid_till ==> {
            &&& r == Ok::<TokenAction, AuctionError>(
                TokenAction::Transfer {
                    from: old(ctx).owners_ata,
                    to: old(ctx).escrowed_ata,
                    authority: old(ctx).nft_owner,
                    amount: 1,
                    signer: None,
                },
            )
            &&& final(ctx).bid_account.nft_mint == old(ctx).nft_mint
            &&& final(ctx).auction_meta.nft_mint == old(ctx).nft_mint
            &&& *final(ctx) == (StartAuction {
                auction_meta: opened_auction(*old(ctx), escrowed_ata_bump, auction_valid_till, min_price),
                bid_account: opening_bid(*old(ctx), bid_bump),
                ..*old(ctx)
            })
        },
{
    if !ctx.check_constraints() {
        return Err(AuctionError::ConstraintRaw);
    }
    if ctx.unix_timestamp > auction_valid_till {
        return Err(AuctionError::Program(ErrorCode::InvalidTimeStamp));
    }
    ctx.auction_meta = Auction {
        nft_owner: ctx.nft_owner,
        min_req_amount: min_price,
        nft_mint: ctx.nft_mint,
        present_bidder: ctx.nft_owner,
        present_bid_amount: 0,
        present_bid_acc: ctx.bid_account_key,
        bids_placed: 0,
        escrowed_nft_bump: escrowed_ata_bump,
        auction_valid_till,
        auction_complete: false,
        bids_made: false,
    };
    ctx.bid_account = Bids {
        bid_maker: ctx.nft_owner,
        nft_mint: ctx.nft_mint,
        nft_owner: ctx.nft_owner,
        bid_amount: 0,
        auction: ctx.auction_meta_key,
        bid_number: 0,
        bid_bump,
    };
    Ok(
        TokenAction::Transfer {
            from: ctx.owners_ata,
            to: ctx.escrowed_ata,
            authority: ctx.nft_owner,
            amount: 1,
            signer: None,
        },
    )
}

/// Takes a bid. As the program stands it records nothing and moves nothing:
/// every bid is accepted and leaves every account as it was.
#[allow(unused_variables)]
pub fn place_bid(
    ctx: &MakeBid,
    _data_bump: u8,
    _auction_meta_bump: u8,
    bid_bump: u8,
    _prev_bid_bump: u8,
    _auction_valid_till: i64,
    bid_amount: u64,
) -> (r: Result<(), AuctionError>)
    ensures
        r == Ok::<(), AuctionError>(()),
{
    Ok(())
}

/// Redeems an auction after its deadline: reads the token metadata from the
/// metadata account's data and settles (see `settle`).
pub fn redeem(
    ctx: &mut Redeem,
    _data_bump: u8,
    _auction_meta_bump: u8,
    _latest_bid_bump: u8,
    _auction_valid_till: i64,
) -> (r: Result<Vec<TokenAction>, AuctionError>)
    ensures
        settled(*old(ctx), *final(ctx), r, redeem_outcome(*old(ctx), metadata_of(old(ctx).token_metadata@))),
{
    let metadata = if ctx.token_metadata.len() > 0 {
        read_metadata(ctx.token_metadata.as_slice())
    } else {
        None
    };
    settle(ctx, metadata)
}

/// The shares of the creators that a sale pays: the first five.
pub open spec fn paid_share_total(creators: Seq<(Seq<u8>, u8)>) -> int
    decreases creators.len(),
{
    if creators.len() == 0 {
        0
    } else {
        paid_share_total(creators.drop_last()) + if creators.len() - 1 < 5 {
            creators.last().1 as int
        } else {
            0
        }
    }
}

pub proof fn lemma_creator_payments(ctx: Redeem, creators: Seq<(Seq<u8>, u8)>, royalty: int, key: Seq<u8>)
    requires
        royalty >= 0,
    ensures
        0 <= paid_share_total(creators),
        0 <= 100 * paid_from(creator_steps(ctx, creators, royalty), key) <= royalty * paid_share_total(
            creators,
        ),
    decreases creators.len(),
{
    if creators.len() > 0 {
        let y = creators.len() - 1;
        let prev = creator_steps(ctx, creators.drop_last(), royalty);
        lemma_creator_payments(ctx, creators.drop_last(), royalty, key);
        let tail: Seq<StepView> = if y < 5 {
            seq![
                StepView::Check {
                    holds: creators[y].0 == ctx.checked_creator_key(y)@,
                    error: ErrorCode::InvalidCreator,
                },
                creator_payment(ctx, y, royalty, creators[y].1),
            ]
        } else {
            Seq::empty()
        };
        lemma_paid_from_concat(prev, tail, key);
        let p = paid_from(prev, key);
        let t = paid_share_total(creators.drop_last());
        if y < 5 {
            let s = creators[y].1 as int;
            let c = creator_cut(royalty, creators[y].1);
            assert(tail.drop_first().drop_first() =~= Seq::<StepView>::empty());
            assert(0 <= 100 * c <= royalty * s) by (nonlinear_arith)
                requires
                    royalty >= 0,
                    s >= 0,
                    c == royalty * s / 100,
            ;
            let q = paid_from(tail, key);
            assert(0 <= q <= c) by {
                reveal_with_fuel(paid_from, 3);
            }
            assert(0 <= 100 * (p + q) <= royalty * (t + s)) by (nonlinear_arith)
                requires
                    0 <= 100 * p <= royalty * t,
                    0 <= 100 * q <= royalty * s,
            ;
        } else {
            assert(paid_from(tail, key) == 0);
        }
    }
}

/// Lamports are conserved: a redeem that completes moves lamports between
/// the accounts it pays and creates or destroys none.
pub proof fn law_redeem_conserves_lamports(
    ctx: Redeem,
    metadata: Option<(u16, Option<Seq<(Seq<u8>, u8)>>)>,
)
    ensures
        redeem_outcome(ctx, metadata) matches RedeemOutcome::Completed { lamports, .. } ==> {
            &&& lamports.total() == ctx.lamports@.total()
            &&& lamports.keys() == ctx.lamports@.keys()
        },
{
    if let Some((fee_points, creators)) = metadata {
        let bid = ctx.auction_meta.present_bid_amount;
        let market_cut = market_fee(ctx.data_acc.market_place_cut, bid);
        let royalty = royalty_fee(fee_points, bid);
        lemma_apply_conserves(ctx.lamports@, sale_steps(ctx, market_cut, royalty, creators));
    }
}

/// A sale never pays out more than the winning bid: where the shares of the
/// creators it pays add up to at most 100 percent, the account of the winning
/// bid ends no lower than its balance less the bid.
pub proof fn law_redeem_pays_at_most_the_bid(
    ctx: Redeem,
    metadata: Option<(u16, Option<Seq<(Seq<u8>, u8)>>)>,
)
    requires
        metadata matches Some((_, Some(creators))) ==> paid_share_total(creators) <= 100,
    ensures
        redeem_outcome(ctx, metadata) matches RedeemOutcome::Completed { lamports, .. } ==> lamports.balance(
            ctx.present_bid_acc@,
        ) >= ctx.lamports@.balance(ctx.present_bid_acc@) - ctx.auction_meta.present_bid_amount,
{
    if let Some((fee_points, creators)) = metadata {
        let bid = ctx.auction_meta.present_bid_amount;
        let market_cut = market_fee(ctx.data_acc.market_place_cut, bid);
        let royalty = royalty_fee(fee_points, bid);
        let key = ctx.present_bid_acc@;
        let steps = sale_steps(ctx, market_cut, royalty, creators);
        if redeem_outcome(ctx, metadata) is Completed && ctx.auction_meta.bids_made {
            assert(market_cut >= 0 && royalty >= 0) by (nonlinear_arith)
                requires
                    market_cut == ctx.data_acc.market_place_cut * bid / 1000,
                    royalty == fee_points * bid / 10000,
                    bid >= 0,
            ;
            let base = seq![
                StepView::Transfer {
                    from: ctx.present_bid_acc@,
                    to: ctx.nft_owner@,
                    amount: bid - (market_cut + royalty),
                },
                StepView::Check {
                    holds: ctx.market_maker@ == ctx.data_acc.market_place@,
                    error: ErrorCode::WrongMarketMaker,
                },
                StepView::Transfer { from: ctx.present_bid_acc@, to: ctx.market_maker@, amount: market_cut },
            ];
            let rest = match creators {
                Some(cs) => if royalty > 0 {
                    creator_steps(ctx, cs, royalty)
                } else {
                    Seq::empty()
                },
                None => Seq::empty(),
            };
            assert(steps == base + rest);
            lemma_paid_from_concat(base, rest, key);
            assert(base.drop_first().drop_first().drop_first() =~= Seq::<StepView>::empty());
            assert(paid_from(base, key) == bid - royalty) by {
                reveal_with_fuel(paid_from, 4);
            }
            match creators {
                Some(cs) => {
                    if royalty > 0 {
                        lemma_creator_payments(ctx, cs, royalty, key);
                        let t = paid_share_total(cs);
                        let p = paid_from(rest, key);
                        assert(p <= royalty) by (nonlinear_arith)
                            requires
                                0 <= 100 * p <= royalty * t,
                                t <= 100,
                                royalty >= 0,
                        ;
                    }
                },
                None => {},
            }
            assert(ctx.lamports@.contains(key));
            lemma_apply_debit(ctx.lamports@, steps, key);
        }
    }
}

/// An auction that nobody has bid on hands the token back: once the deadline
/// of an auction as `start_auction` opened it has passed, `redeem` returns the
/// escrowed token to the owner's token account, closes the escrow and moves
/// no lamports.
pub proof fn law_unbid_auction_returns_token(
    start: StartAuction,
    escrowed_ata_bump: u8,
    auction_valid_till: i64,
    min_price: u64,
    ctx: Redeem,
    metadata: Option<(u16, Option<Seq<(Seq<u8>, u8)>>)>,
)
    requires
        ctx.auction_meta == opened_auction(start, escrowed_ata_bump, auction_valid_till, min_price),
        ctx.constraints_hold(),
        ctx.unix_timestamp >= auction_valid_till,
    ensures
        redeem_outcome(ctx, metadata) == (RedeemOutcome::Completed {
            lamports: ctx.lamports@,
            actions: ctx.release_escrow(ctx.owners_ata),
        }),
{
}

} // verus!
