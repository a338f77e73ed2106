use crate::address::Address;
use crate::auction::{initialize_auction_spec, AssetDestination, Auction, AuctionError};
use vstd::prelude::*;

verus! {

/// A bid that does not exceed the current bid never succeeds, an equal bid
/// included; once the caller, the auction state and the clock pass their
/// checks, it fails with `BidTooLow`.
pub proof fn lemma_low_bid_rejected(
    a: Auction,
    bidder: Address,
    bidder_signed: bool,
    bid_amount: u64,
    now: i64,
)
    requires
        bid_amount <= a.current_bid,
    ensures
        a.place_bid_spec(bidder, bidder_signed, bid_amount, now) is Err,
        bidder_signed && bidder != Address::nobody() && !a.ended && a.start_time <= now
            < a.end_time ==> a.place_bid_spec(bidder, bidder_signed, bid_amount, now) == Err::<
            crate::auction::BidOutcome,
            AuctionError,
        >(AuctionError::BidTooLow),
{
}

/// Settling an auction that never received a bid returns the asset to the
/// seller and moves no currency.
pub proof fn lemma_unbid_auction_returns_asset(a: Auction, caller: Address, caller_signed: bool, now: i64)
    requires
        !a.has_bidder(),
    ensures
        a.end_auction_spec(caller, caller_signed, now) matches Ok(s) ==> s.asset_to
            == AssetDestination::Seller && s.seller_payout is None && a.escrow() == 0,
{
}

/// An auction settled straight after it was opened, with no bid in between,
/// returns the asset to the seller and moves no currency.
pub proof fn lemma_open_then_end_returns_asset(
    derived: Option<(Seq<u8>, u8)>,
    seller: Address,
    seller_signed: bool,
    auction_key: Address,
    record_in_use: bool,
    storage_funded: bool,
    property_mint: Address,
    start_price: u64,
    end_time: i64,
    opened_at: i64,
    caller: Address,
    caller_signed: bool,
    now: i64,
)
    requires
        initialize_auction_spec(
            derived,
            seller,
            seller_signed,
            auction_key,
            record_in_use,
            storage_funded,
            property_mint,
            start_price,
            end_time,
            opened_at,
        ) is Ok,
    ensures
        ({
            let a = initialize_auction_spec(
                derived,
                seller,
                seller_signed,
                auction_key,
                record_in_use,
                storage_funded,
                property_mint,
                start_price,
                end_time,
                opened_at,
            )->Ok_0;
            a.end_auction_spec(caller, caller_signed, now) matches Ok(s) ==> s.asset_to
                == AssetDestination::Seller && s.seller_payout is None
        }),
{
}

} // verus!
