use vstd::prelude::*;

use crate::accounts::{Redeem, StartAuction};
use crate::auction::{
    lemma_creator_payments, creator_cut, creator_payment, creator_steps, opened_auction, opening_bid, paid_share_total,
    redeem_outcome, sale_steps, settled, RedeemOutcome,
};
use crate::ledger::LedgerView;
use crate::settlement::{
    apply_steps, behaved, lemma_apply_balance, lemma_apply_succeeds, lemma_behaved_concat,
    lemma_paid_from_concat, lemma_paid_only_from, lemma_paid_to_concat, paid_from, paid_only_from,
    paid_to, StepView,
};
use crate::state::{AuctionError, ErrorCode, TokenAction};

verus! {

/// The creator accounts in positions 0 to 4 are five different accounts.
pub open spec fn distinct_creator_accounts(ctx: Redeem) -> bool {
    forall|j: int, k: int|
        0 <= j < 5 && 0 <= k < 5 && j != k ==> #[trigger] ctx.creator_key(j)@ != #[trigger] ctx.creator_key(k)@
}

proof fn lemma_creator_steps_paid_from(ctx: Redeem, creators: Seq<(Seq<u8>, u8)>, royalty: int)
    ensures
        paid_only_from(creator_steps(ctx, creators, royalty), ctx.present_bid_acc@),
    decreases creators.len(),
{
    if creators.len() > 0 {
        let y = creators.len() - 1;
        let prev = creator_steps(ctx, creators.drop_last(), royalty);
        lemma_creator_steps_paid_from(ctx, creators.drop_last(), royalty);
        let steps = creator_steps(ctx, creators, royalty);
        assert forall|i: int| 0 <= i < steps.len() implies (#[trigger] steps[i] matches StepView::Transfer {
            from,
            ..
        } ==> from == ctx.present_bid_acc@) by {
            if i < prev.len() {
                assert(steps[i] == prev[i]);
            }
        }
    }
}

/// What the creator payments pay into the creator account in position `y`:
/// that creator's cut where the metadata names a creator in that position.
proof fn lemma_paid_to_creator(ctx: Redeem, creators: Seq<(Seq<u8>, u8)>, royalty: int, y: int)
    requires
        distinct_creator_accounts(ctx),
        0 <= y < 5,
        0 <= royalty,
        royalty * 255 <= u64::MAX,
    ensures
        paid_to(creator_steps(ctx, creators, royalty), ctx.creator_key(y)@) == if y < creators.len() {
            creator_cut(royalty, creators[y].1)
        } else {
            0
        },
    decreases creators.len(),
{
    if creators.len() > 0 {
        let m = creators.len() - 1;
        let prev = creator_steps(ctx, creators.drop_last(), royalty);
        lemma_paid_to_creator(ctx, creators.drop_last(), royalty, y);
        if m < 5 {
            let share = creators[m].1;
            assert(royalty * share <= u64::MAX) by (nonlinear_arith)
                requires
                    0 <= royalty,
                    royalty * 255 <= u64::MAX,
                    0 <= share <= 255,
            ;
            let tail = seq![
                StepView::Check {
                    holds: creators[m].0 == ctx.checked_creator_key(m)@,
                    error: ErrorCode::InvalidCreator,
                },
                creator_payment(ctx, m, royalty, share),
            ];
            lemma_paid_to_concat(prev, tail, ctx.creator_key(y)@);
            assert(paid_to(tail, ctx.creator_key(y)@) == if m == y {
                creator_cut(royalty, share)
            } else {
                0
            }) by {
                reveal_with_fuel(paid_to, 3);
                if m != y {
                    assert(ctx.creator_key(m)@ != ctx.creator_key(y)@);
                }
            }
        } else {
            assert(creator_steps(ctx, creators, royalty) == prev + Seq::<StepView>::empty());
            assert(prev + Seq::<StepView>::empty() =~= prev);
        }
    }
}

/// The creator payments pay nothing into an account that is not a creator
/// account.
proof fn lemma_paid_to_other(ctx: Redeem, creators: Seq<(Seq<u8>, u8)>, royalty: int, key: Seq<u8>)
    requires
        forall|y: int| 0 <= y < 5 ==> #[trigger] ctx.creator_key(y)@ != key,
    ensures
        paid_to(creator_steps(ctx, creators, royalty), key) == 0,
    decreases creators.len(),
{
    if creators.len() > 0 {
        let m = creators.len() - 1;
        let prev = creator_steps(ctx, creators.drop_last(), royalty);
        lemma_paid_to_other(ctx, creators.drop_last(), royalty, key);
        if m < 5 {
            let tail = seq![
                StepView::Check {
                    holds: creators[m].0 == ctx.checked_creator_key(m)@,
                    error: ErrorCode::InvalidCreator,
                },
                creator_payment(ctx, m, royalty, creators[m].1),
            ];
            lemma_paid_to_concat(prev, tail, key);
            assert(ctx.creator_key(m)@ != key);
            assert(paid_to(tail, key) == 0) by {
                reveal_with_fuel(paid_to, 3);
            }
        } else {
            assert(creator_steps(ctx, creators, royalty) =~= prev);
        }
    }
}

/// The creator payments are well behaved where every creator named matches
/// its account, no payment overflows, and every creator account can take
/// `bound` more lamports.
proof fn lemma_creator_steps_behaved(
    ctx: Redeem,
    creators: Seq<(Seq<u8>, u8)>,
    royalty: int,
    v: LedgerView,
    bound: int,
)
    requires
        0 <= royalty,
        royalty * 255 <= u64::MAX,
        forall|y: int|
            0 <= y < creators.len() && y < 5 ==> #[trigger] creators[y].0 == ctx.checked_creator_key(y)@,
        forall|y: int|
            0 <= y < 5 ==> v.contains(#[trigger] ctx.creator_key(y)@) && (ctx.creator_key(y)@
                != ctx.present_bid_acc@ ==> v.balance(ctx.creator_key(y)@) + bound <= u64::MAX),
    ensures
        behaved(v, creator_steps(ctx, creators, royalty), ctx.present_bid_acc@, bound),
    decreases creators.len(),
{
    if creators.len() > 0 {
        let m = creators.len() - 1;
        let prev = creator_steps(ctx, creators.drop_last(), royalty);
        assert forall|y: int| 0 <= y < creators.drop_last().len() && y < 5 implies #[trigger] creators.drop_last()[y].0
            == ctx.checked_creator_key(y)@ by {
            assert(creators.drop_last()[y] == creators[y]);
        }
        lemma_creator_steps_behaved(ctx, creators.drop_last(), royalty, v, bound);
        if m < 5 {
            let share = creators[m].1;
            assert(royalty * share <= u64::MAX && royalty * share >= 0) by (nonlinear_arith)
                requires
                    0 <= royalty,
                    royalty * 255 <= u64::MAX,
                    0 <= share <= 255,
            ;
            assert(creator_cut(royalty, share) >= 0) by (nonlinear_arith)
                requires
                    royalty * share >= 0,
                    creator_cut(royalty, share) == royalty * share / 100,
            ;
            assert(creators[m].0 == ctx.checked_creator_key(m)@);
            assert(v.contains(ctx.creator_key(m)@));
            let tail = seq![
                StepView::Check {
                    holds: creators[m].0 == ctx.checked_creator_key(m)@,
                    error: ErrorCode::InvalidCreator,
                },
                creator_payment(ctx, m, royalty, share),
            ];
            assert(behaved(v, tail, ctx.present_bid_acc@, bound));
            lemma_behaved_concat(v, prev, tail, ctx.present_bid_acc@, bound);
        } else {
            assert(creator_steps(ctx, creators, royalty) =~= prev);
        }
    }
}

/// Each party of a sale gets exactly its due. Where the winning bid's
/// account, the seller, the market maker and the five creator accounts are
/// eight different accounts of the ledger, a completed sale for the bid `bid`
/// credits the seller with the bid less the marketplace's cut
/// (`market_place_cut * bid / 1000`) and the royalty
/// (`seller_fee_basis_points * bid / 10000`), the market maker with the cut,
/// and the creator account in each position below five with `share` percent
/// of the royalty of the creator that the metadata names in that position;
/// a creator account with no creator in its position gets nothing.
pub proof fn law_sale_credits_each_party(
    ctx: Redeem,
    fee_points: u16,
    creators: Seq<(Seq<u8>, u8)>,
)
    requires
        ({
            let keys = seq![
                ctx.present_bid_acc@,
                ctx.nft_owner@,
                ctx.market_maker@,
                ctx.creator0@,
                ctx.creator1@,
                ctx.creator2@,
                ctx.creator3@,
                ctx.creator4@,
            ];
            &&& forall|i: int, j: int| 0 <= i < j < 8 ==> keys[i] != keys[j]
            &&& forall|i: int| 0 <= i < 8 ==> ctx.lamports@.contains(#[trigger] keys[i])
        }),
    ensures
        ({
            let v = ctx.lamports@;
            let bid = ctx.auction_meta.present_bid_amount;
            let cut = ctx.data_acc.market_place_cut * bid / 1000;
            let royalty = fee_points * bid / 10000;
            let outcome = redeem_outcome(ctx, Some((fee_points, Some(creators))));
            let w = outcome->lamports;
            outcome is Completed && ctx.auction_meta.bids_made ==> {
                &&& w.balance(ctx.nft_owner@) == v.balance(ctx.nft_owner@) + bid - cut - royalty
                &&& w.balance(ctx.market_maker@) == v.balance(ctx.market_maker@) + cut
                &&& w.balance(ctx.creator0@) == v.balance(ctx.creator0@) + if 0 < creators.len() {
                    royalty * creators[0].1 / 100
                } else {
                    0
                }
                &&& w.balance(ctx.creator1@) == v.balance(ctx.creator1@) + if 1 < creators.len() {
                    royalty * creators[1].1 / 100
                } else {
                    0
                }
                &&& w.balance(ctx.creator2@) == v.balance(ctx.creator2@) + if 2 < creators.len() {
                    royalty * creators[2].1 / 100
                } else {
                    0
                }
                &&& w.balance(ctx.creator3@) == v.balance(ctx.creator3@) + if 3 < creators.len() {
                    royalty * creators[3].1 / 100
                } else {
                    0
                }
                &&& w.balance(ctx.creator4@) == v.balance(ctx.creator4@) + if 4 < creators.len() {
                    royalty * creators[4].1 / 100
                } else {
                    0
                }
            }
        }),
{
    let v = ctx.lamports@;
    let bid = ctx.auction_meta.present_bid_amount;
    let cut = ctx.data_acc.market_place_cut * bid / 1000;
    let royalty = fee_points * bid / 10000;
    let keys = seq![
        ctx.present_bid_acc@,
        ctx.nft_owner@,
        ctx.market_maker@,
        ctx.creator0@,
        ctx.creator1@,
        ctx.creator2@,
        ctx.creator3@,
        ctx.creator4@,
    ];
    let outcome = redeem_outcome(ctx, Some((fee_points, Some(creators))));
    if outcome is Completed && ctx.auction_meta.bids_made {
        let w = outcome->lamports;
        let steps = sale_steps(ctx, cut, royalty, Some(creators));
        assert(apply_steps(v, steps) == crate::settlement::Settlement::Done(w));
        assert(fee_points * bid <= u64::MAX);
        assert(0 <= royalty && royalty * 255 <= u64::MAX && 0 <= cut) by (nonlinear_arith)
            requires
                fee_points * bid <= u64::MAX,
                royalty == fee_points * bid / 10000,
                cut == ctx.data_acc.market_place_cut * bid / 1000,
                fee_points >= 0,
                bid >= 0,
                ctx.data_acc.market_place_cut >= 0,
        ;
        let base = seq![
            StepView::Transfer {
                from: ctx.present_bid_acc@,
                to: ctx.nft_owner@,
                amount: bid - (cut + royalty),
            },
            StepView::Check {
                holds: ctx.market_maker@ == ctx.data_acc.market_place@,
                error: ErrorCode::WrongMarketMaker,
            },
            StepView::Transfer { from: ctx.present_bid_acc@, to: ctx.market_maker@, amount: cut },
        ];
        let rest = if royalty > 0 {
            creator_steps(ctx, creators, royalty)
        } else {
            Seq::empty()
        };
        assert(steps == base + rest);
        lemma_creator_steps_paid_from(ctx, creators, royalty);
        assert(paid_only_from(steps, ctx.present_bid_acc@)) by {
            assert forall|i: int| 0 <= i < steps.len() implies (#[trigger] steps[i] matches StepView::Transfer {
                from,
                ..
            } ==> from == ctx.present_bid_acc@) by {
                if i >= 3 {
                    assert(steps[i] == rest[i - 3]);
                }
            }
        }
        assert(distinct_creator_accounts(ctx)) by {
            assert forall|j: int, k: int| 0 <= j < 5 && 0 <= k < 5 && j != k implies #[trigger] ctx.creator_key(j)@
                != #[trigger] ctx.creator_key(k)@ by {
                assert(ctx.creator_key(j)@ == keys[j + 3]);
                assert(ctx.creator_key(k)@ == keys[k + 3]);
            }
        }
        assert forall|k: Seq<u8>| v.contains(k) && k != ctx.present_bid_acc@ implies w.balance(k) == v.balance(k)
            + paid_to(base, k) + paid_to(rest, k) by {
            lemma_apply_balance(v, steps, k);
            lemma_paid_only_from(steps, ctx.present_bid_acc@, k);
            lemma_paid_to_concat(base, rest, k);
        }
        assert forall|k: Seq<u8>| #![trigger paid_to(base, k)] true implies paid_to(base, k) == (if k
            == ctx.nft_owner@ {
            bid - (cut + royalty)
        } else {
            0
        }) + (if k == ctx.market_maker@ {
            cut
        } else {
            0
        }) by {
            reveal_with_fuel(paid_to, 4);
        }
        assert forall|y: int| 0 <= y < 5 implies paid_to(rest, #[trigger] ctx.creator_key(y)@) == if y
            < creators.len() {
            royalty * creators[y].1 / 100
        } else {
            0
        } by {
            if royalty > 0 {
                lemma_paid_to_creator(ctx, creators, royalty, y);
            } else {
                if y < creators.len() {
                    assert(royalty * creators[y].1 / 100 == 0) by (nonlinear_arith)
                        requires
                            royalty == 0,
                    ;
                }
            }
        }
        if royalty > 0 {
            lemma_paid_to_other(ctx, creators, royalty, ctx.nft_owner@);
            lemma_paid_to_other(ctx, creators, royalty, ctx.market_maker@);
        }
        assert(paid_to(rest, ctx.nft_owner@) == 0);
        assert(paid_to(rest, ctx.market_maker@) == 0);
        assert(keys[0] != keys[1] && keys[0] != keys[2] && keys[1] != keys[2]);
        assert(keys[1] != keys[3] && keys[1] != keys[4] && keys[1] != keys[5] && keys[1] != keys[6]
            && keys[1] != keys[7]);
        assert(keys[2] != keys[3] && keys[2] != keys[4] && keys[2] != keys[5] && keys[2] != keys[6]
            && keys[2] != keys[7]);
        assert(keys[0] != keys[3] && keys[0] != keys[4] && keys[0] != keys[5] && keys[0] != keys[6]
            && keys[0] != keys[7]);
        assert(v.contains(keys[1]) && v.contains(keys[2]) && v.contains(keys[3]) && v.contains(keys[4])
            && v.contains(keys[5]) && v.contains(keys[6]) && v.contains(keys[7]));
        assert(ctx.creator_key(0)@ == ctx.creator0@);
        assert(ctx.creator_key(1)@ == ctx.creator1@);
        assert(ctx.creator_key(2)@ == ctx.creator2@);
        assert(ctx.creator_key(3)@ == ctx.creator3@);
        assert(ctx.creator_key(4)@ == ctx.creator4@);
    }
}

/// A sale that nothing stops goes through. Where the constraints hold, the
/// deadline has passed, a bid was made, the products `market_place_cut * bid`
/// and `seller_fee_basis_points * bid` fit in a `u64` and the two cuts add up
/// to at most the bid, the market maker is the marketplace's, each of the
/// first five creators that the metadata names is the creator account of its
/// position (the fifth is checked against the second account), their shares
/// add up to at most 100, the winning bid's account holds the bid, and every
/// account paid can take the bid on top of its balance, the redeem completes
/// and hands the token to the winner's token account.
pub proof fn law_sale_completes(ctx: Redeem, fee_points: u16, creators: Seq<(Seq<u8>, u8)>)
    requires
        ctx.nft_owner@ == ctx.auction_meta.nft_owner@,
        ctx.nft_mint@ == ctx.auction_meta.nft_mint@,
        ctx.owners_ata_mint@ == ctx.nft_mint@,
        ctx.unix_timestamp >= ctx.auction_meta.auction_valid_till,
        ctx.auction_meta.bids_made,
        ctx.token_metadata@.len() > 0,
        ctx.data_acc.market_place_cut * ctx.auction_meta.present_bid_amount <= u64::MAX,
        fee_points * ctx.auction_meta.present_bid_amount <= u64::MAX,
        ctx.data_acc.market_place_cut * ctx.auction_meta.present_bid_amount / 1000 + fee_points
            * ctx.auction_meta.present_bid_amount / 10000 <= ctx.auction_meta.present_bid_amount,
        ctx.market_maker@ == ctx.data_acc.market_place@,
        creators.len() > 0 ==> creators[0].0 == ctx.creator0@,
        creators.len() > 1 ==> creators[1].0 == ctx.creator1@,
        creators.len() > 2 ==> creators[2].0 == ctx.creator2@,
        creators.len() > 3 ==> creators[3].0 == ctx.creator3@,
        creators.len() > 4 ==> creators[4].0 == ctx.creator1@,
        paid_share_total(creators) <= 100,
        ({
            let keys = seq![
                ctx.nft_owner@,
                ctx.market_maker@,
                ctx.creator0@,
                ctx.creator1@,
                ctx.creator2@,
                ctx.creator3@,
                ctx.creator4@,
            ];
            forall|i: int|
                0 <= i < 7 ==> ctx.lamports@.contains(#[trigger] keys[i]) && ctx.lamports@.balance(keys[i])
                    + ctx.auction_meta.present_bid_amount <= u64::MAX
        }),
        ctx.lamports@.contains(ctx.present_bid_acc@),
        ctx.lamports@.balance(ctx.present_bid_acc@) >= ctx.auction_meta.present_bid_amount,
    ensures
        ({
            let outcome = redeem_outcome(ctx, Some((fee_points, Some(creators))));
            &&& outcome is Completed
            &&& outcome->actions[0] matches TokenAction::Transfer { to, .. } && to
                == ctx.latest_bidders_nft_account
        }),
{
    let v = ctx.lamports@;
    let src = ctx.present_bid_acc@;
    let bid = ctx.auction_meta.present_bid_amount;
    let cut = ctx.data_acc.market_place_cut * bid / 1000;
    let royalty = fee_points * bid / 10000;
    let keys = seq![
        ctx.nft_owner@,
        ctx.market_maker@,
        ctx.creator0@,
        ctx.creator1@,
        ctx.creator2@,
        ctx.creator3@,
        ctx.creator4@,
    ];
    assert(0 <= royalty && royalty * 255 <= u64::MAX && 0 <= cut) by (nonlinear_arith)
        requires
            fee_points * bid <= u64::MAX,
            royalty == fee_points * bid / 10000,
            cut == ctx.data_acc.market_place_cut * bid / 1000,
            fee_points >= 0,
            bid >= 0,
            ctx.data_acc.market_place_cut >= 0,
    ;
    let steps = sale_steps(ctx, cut, royalty, Some(creators));
    let base = seq![
        StepView::Transfer { from: src, to: ctx.nft_owner@, amount: bid - (cut + royalty) },
        StepView::Check {
            holds: ctx.market_maker@ == ctx.data_acc.market_place@,
            error: ErrorCode::WrongMarketMaker,
        },
        StepView::Transfer { from: src, to: ctx.market_maker@, amount: cut },
    ];
    let rest = if royalty > 0 {
        creator_steps(ctx, creators, royalty)
    } else {
        Seq::empty()
    };
    assert(steps == base + rest);
    lemma_paid_from_concat(base, rest, src);
    assert(paid_from(base, src) == bid - royalty) by {
        reveal_with_fuel(paid_from, 4);
    }
    if royalty > 0 {
        lemma_creator_payments(ctx, creators, royalty, src);
        let t = paid_share_total(creators);
        let p = paid_from(rest, src);
        assert(p <= royalty) by (nonlinear_arith)
            requires
                0 <= 100 * p <= royalty * t,
                t <= 100,
                royalty >= 0,
        ;
    }
    let total = paid_from(steps, src);
    assert(0 <= total <= bid);
    assert(v.contains(keys[0]) && v.balance(keys[0]) + bid <= u64::MAX);
    assert(v.contains(keys[1]) && v.balance(keys[1]) + bid <= u64::MAX);
    assert(behaved(v, base, src, total));
    if royalty > 0 {
        assert forall|y: int| 0 <= y < creators.len() && y < 5 implies #[trigger] creators[y].0
            == ctx.checked_creator_key(y)@ by {
            if y == 0 {
            } else if y == 1 {
            } else if y == 2 {
            } else if y == 3 {
            } else {
            }
        }
        assert forall|y: int| 0 <= y < 5 implies v.contains(#[trigger] ctx.creator_key(y)@) && (
        ctx.creator_key(y)@ != src ==> v.balance(ctx.creator_key(y)@) + total <= u64::MAX) by {
            assert(ctx.creator_key(y)@ == keys[y + 2]);
            assert(v.contains(keys[y + 2]) && v.balance(keys[y + 2]) + bid <= u64::MAX);
        }
        lemma_creator_steps_behaved(ctx, creators, royalty, v, total);
    } else {
        assert(behaved(v, rest, src, total));
    }
    lemma_behaved_concat(v, base, rest, src, total);
    lemma_apply_succeeds(v, steps, src);
}

/// No auction is redeemed before its deadline: where the constraints hold and
/// the clock reads before `auction_valid_till`, redeeming fails with
/// `AuctionNotOver` and changes nothing, whether or not bids were made.
pub proof fn law_redeem_waits_for_the_deadline(
    before: Redeem,
    after: Redeem,
    r: Result<Vec<TokenAction>, AuctionError>,
    metadata: Option<(u16, Option<Seq<(Seq<u8>, u8)>>)>,
)
    requires
        settled(before, after, r, redeem_outcome(before, metadata)),
        before.nft_owner@ == before.auction_meta.nft_owner@,
        before.nft_mint@ == before.auction_meta.nft_mint@,
        before.owners_ata_mint@ == before.nft_mint@,
        before.unix_timestamp < before.auction_meta.auction_valid_till,
    ensures
        r == Err::<Vec<TokenAction>, AuctionError>(AuctionError::Program(ErrorCode::AuctionNotOver)),
        after == before,
{
}

/// Without a royalty the creators play no part in a sale: where
/// `seller_fee_basis_points * bid / 10000` is zero, redeeming comes to the
/// same, whatever creators the metadata names and whatever creator accounts
/// are passed.
pub proof fn law_no_royalty_ignores_creators(
    ctx: Redeem,
    other: Redeem,
    fee_points: u16,
    creators: Option<Seq<(Seq<u8>, u8)>>,
    other_creators: Option<Seq<(Seq<u8>, u8)>>,
)
    requires
        other == (Redeem {
            creator0: other.creator0,
            creator1: other.creator1,
            creator2: other.creator2,
            creator3: other.creator3,
            creator4: other.creator4,
            ..ctx
        }),
        fee_points * ctx.auction_meta.present_bid_amount / 10000 == 0,
    ensures
        redeem_outcome(ctx, Some((fee_points, creators))) == redeem_outcome(
            other,
            Some((fee_points, other_creators)),
        ),
{
    let bid = ctx.auction_meta.present_bid_amount;
    let cut = ctx.data_acc.market_place_cut * bid / 1000;
    assert(sale_steps(ctx, cut, 0, creators) =~= sale_steps(other, cut, 0, other_creators));
    assert(ctx.release_escrow(ctx.owners_ata) == other.release_escrow(other.owners_ata));
    assert(ctx.release_escrow(ctx.latest_bidders_nft_account) == other.release_escrow(
        other.latest_bidders_nft_account,
    ));
}

/// An auction and its opening bid agree: the bid is the owner's, for nothing,
/// on the auctioned mint, recorded against the auction; the auction names the
/// owner, the mint and the opening bid's account, takes its price, deadline
/// and escrow bump from the call, and starts with no bids and not complete.
pub proof fn law_opening_bid_matches_the_auction(
    ctx: StartAuction,
    escrowed_ata_bump: u8,
    auction_valid_till: i64,
    min_price: u64,
    bid_bump: u8,
)
    ensures
        ({
            let a = opened_auction(ctx, escrowed_ata_bump, auction_valid_till, min_price);
            let b = opening_bid(ctx, bid_bump);
            &&& b.nft_mint == ctx.nft_mint && a.nft_mint == ctx.nft_mint
            &&& b.nft_owner == ctx.nft_owner && a.nft_owner == ctx.nft_owner
            &&& b.bid_maker == ctx.nft_owner && a.present_bidder == ctx.nft_owner
            &&& b.auction == ctx.auction_meta_key && a.present_bid_acc == ctx.bid_account_key
            &&& b.bid_amount == 0 && a.present_bid_amount == 0
            &&& b.bid_number == 0 && a.bids_placed == 0
            &&& b.bid_bump == bid_bump && a.escrowed_nft_bump == escrowed_ata_bump
            &&& a.min_req_amount == min_price && a.auction_valid_till == auction_valid_till
            &&& !a.bids_made && !a.auction_complete
        }),
{
}

} // verus!
