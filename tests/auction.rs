use auction_pool::address::Address;
use auction_pool::auction::{
    initialize_auction, initialize_auction_with, AssetDestination, Auction, AuctionError,
    AuctionInstruction, AUCTION_LEN,
};
use solana_program::pubkey::Pubkey;

const T: i64 = 1_700_000_000;

fn addr(b: u8) -> Address {
    Address::new([b; 32])
}

fn seller() -> Address {
    addr(5)
}

fn open(start_price: u64, end_time: i64) -> Auction {
    initialize_auction_with(
        Some((addr(9), 250)),
        &seller(),
        true,
        &addr(9),
        false,
        true,
        &addr(1),
        start_price,
        end_time,
        T,
    )
    .unwrap()
}

#[test]
fn bid_scenario_raises_and_refunds() {
    let a = open(100, T + 3600);
    assert_eq!((a.start_price, a.current_bid, a.start_time, a.end_time), (100, 100, T, T + 3600));
    assert!(a.highest_bidder.is_nobody() && !a.ended && a.bump_seed == 250);
    let first = a.place_bid(&addr(20), true, 150, T + 10).unwrap();
    assert_eq!(first.auction.current_bid, 150);
    assert!(first.auction.highest_bidder == addr(20));
    assert_eq!(first.deposit, 150);
    assert!(first.refund.is_none());
    let same = first.auction.place_bid(&addr(21), true, 150, T + 20);
    assert_eq!(same.unwrap_err(), AuctionError::BidTooLow);
    let second = first.auction.place_bid(&addr(21), true, 151, T + 30).unwrap();
    assert_eq!(second.auction.current_bid, 151);
    assert!(second.auction.highest_bidder == addr(21));
    assert_eq!(second.deposit, 151);
    let refund = second.refund.unwrap();
    assert_eq!(refund.amount, 150);
    assert!(refund.bidder == addr(20));
}

#[test]
fn bids_at_or_below_current_fail() {
    let a = open(100, T + 3600);
    assert_eq!(a.place_bid(&addr(20), true, 99, T).unwrap_err(), AuctionError::BidTooLow);
    assert_eq!(a.place_bid(&addr(20), true, 100, T).unwrap_err(), AuctionError::BidTooLow);
    assert_eq!(a.place_bid(&addr(20), true, 0, T).unwrap_err(), AuctionError::BidTooLow);
    assert!(a.place_bid(&addr(20), true, 101, T).is_ok());
}

#[test]
fn bid_rejections() {
    let a = open(100, T + 3600);
    assert_eq!(a.place_bid(&addr(20), false, 500, T).unwrap_err(), AuctionError::MissingSignature);
    assert_eq!(a.place_bid(&Address::none(), true, 500, T).unwrap_err(), AuctionError::InvalidBidder);
    assert_eq!(a.place_bid(&addr(20), true, 500, T - 1).unwrap_err(), AuctionError::NotStarted);
    assert_eq!(a.place_bid(&addr(20), true, 500, T + 3600).unwrap_err(), AuctionError::AuctionClosed);
    let ended = a.end_auction(&seller(), true, T + 3600).unwrap().auction;
    assert_eq!(ended.place_bid(&addr(20), true, 500, T + 10).unwrap_err(), AuctionError::AuctionEnded);
}

#[test]
fn unbid_auction_returns_asset_to_seller() {
    let a = open(100, T + 3600);
    let s = a.end_auction(&seller(), true, T + 3600).unwrap();
    assert_eq!(s.asset_to, AssetDestination::Seller);
    assert!(s.seller_payout.is_none());
    assert!(s.auction.ended);
}

#[test]
fn settlement_pays_seller_and_sends_asset_to_winner() {
    let a = open(100, T + 3600);
    let b = a.place_bid(&addr(20), true, 175, T + 1).unwrap().auction;
    let s = b.end_auction(&seller(), true, T + 4000).unwrap();
    assert_eq!(s.asset_to, AssetDestination::Winner);
    assert_eq!(s.seller_payout, Some(175));
    assert!(s.auction.ended && s.auction.current_bid == 175);
}

#[test]
fn settlement_rejections() {
    let a = open(100, T + 3600);
    assert_eq!(a.end_auction(&seller(), true, T + 3599).unwrap_err(), AuctionError::NotYetEndable);
    assert_eq!(a.end_auction(&addr(6), true, T + 3600).unwrap_err(), AuctionError::MissingSignature);
    assert_eq!(a.end_auction(&seller(), false, T + 3600).unwrap_err(), AuctionError::MissingSignature);
    let ended = a.end_auction(&seller(), true, T + 3600).unwrap().auction;
    assert_eq!(ended.end_auction(&seller(), true, T + 9000).unwrap_err(), AuctionError::AlreadyEnded);
}

#[test]
fn open_rejections() {
    let go = |derived: Option<(Address, u8)>, signed: bool, in_use: bool, funded: bool, end: i64| {
        initialize_auction_with(derived, &seller(), signed, &addr(9), in_use, funded, &addr(1), 100, end, T)
    };
    let d = Some((addr(9), 1));
    assert_eq!(go(d, false, false, true, T + 1).unwrap_err(), AuctionError::MissingSignature);
    assert_eq!(go(Some((addr(8), 1)), true, false, true, T + 1).unwrap_err(), AuctionError::SeedMismatch);
    assert_eq!(go(None, true, false, true, T + 1).unwrap_err(), AuctionError::SeedMismatch);
    assert_eq!(go(d, true, true, true, T + 1).unwrap_err(), AuctionError::AlreadyInitialized);
    assert_eq!(go(d, true, false, false, T + 1).unwrap_err(), AuctionError::UnderfundedStorage);
    assert_eq!(go(d, true, false, true, T).unwrap_err(), AuctionError::InvalidEndTime);
    assert!(go(d, true, false, true, T + 1).is_ok());
}

#[test]
fn open_checks_the_derived_address() {
    let program = Pubkey::new_from_array([3u8; 32]);
    let mint = [1u8; 32];
    let (pda, bump) = Pubkey::find_program_address(&[b"auction", &mint], &program);
    let program_id = Address::new(program.to_bytes());
    let a = initialize_auction(
        &program_id, &seller(), true, &Address::new(pda.to_bytes()), false, true, &Address::new(mint), 100, T + 60, T,
    )
    .unwrap();
    assert_eq!(a.bump_seed, bump);
    assert_eq!(a.signer_seeds(), vec![b"auction".to_vec(), mint.to_vec(), vec![bump]]);
    let wrong = initialize_auction(
        &program_id, &seller(), true, &Address::new(mint), false, true, &Address::new(mint), 100, T + 60, T,
    );
    assert_eq!(wrong.unwrap_err(), AuctionError::SeedMismatch);
}

#[test]
fn auction_record_round_trip() {
    let mut a = open(100, T + 3600);
    a.start_time = -2;
    let bytes = a.pack();
    assert_eq!(bytes.len(), AUCTION_LEN);
    assert_eq!(&bytes[112..120], &[0xfe, 0xff, 0xff, 0xff, 0xff, 0xff, 0xff, 0xff]);
    assert_eq!(&bytes[64..72], &[100, 0, 0, 0, 0, 0, 0, 0]);
    assert_eq!((bytes[128], bytes[129]), (0, 250));
    let back = Auction::unpack(&bytes).unwrap();
    assert_eq!((back.start_time, back.end_time, back.current_bid), (-2, T + 3600, 100));
    assert!(back.seller == seller() && back.property_mint == addr(1) && back.highest_bidder.is_nobody());
    assert_eq!(Auction::unpack(&bytes[1..]).unwrap_err(), AuctionError::InvalidRecord);
    let mut bad = bytes.clone();
    bad[128] = 7;
    assert_eq!(Auction::unpack(&bad).unwrap_err(), AuctionError::InvalidRecord);
}

#[test]
fn auction_instruction_bytes() {
    let i = AuctionInstruction::InitializeAuction { start_price: 100, end_time: -1 };
    let b = i.pack();
    assert_eq!(b.len(), 17);
    assert_eq!(b[0], 0);
    assert_eq!(&b[9..17], &[0xff; 8]);
    assert_eq!(AuctionInstruction::unpack(&b).unwrap(), i);
    assert_eq!(AuctionInstruction::unpack(&[2]).unwrap(), AuctionInstruction::EndAuction);
    assert_eq!(
        AuctionInstruction::unpack(&[1, 44, 1, 0, 0, 0, 0, 0, 0]).unwrap(),
        AuctionInstruction::PlaceBid { bid_amount: 300 }
    );
    assert_eq!(AuctionInstruction::unpack(&[2, 0]).unwrap_err(), AuctionError::InvalidInstruction);
    assert_eq!(AuctionInstruction::unpack(&[3]).unwrap_err(), AuctionError::InvalidInstruction);
}

#[test]
fn auction_error_codes() {
    assert_eq!(AuctionError::InvalidInstruction.code(), 0);
    assert_eq!(AuctionError::BidTooLow.code(), 9);
    assert_eq!(AuctionError::InvalidRecord.code(), 13);
}
