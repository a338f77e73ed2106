use crate::address::{
    auction_tag, auction_tag_bytes, find_program_address, found_program_address,
    lemma_bytes_deep_view, Address,
};
use crate::codec::{
    bool_byte, i64_bits, lemma_i64_le_injective, lemma_u64_le_injective, lemma_u64_round_trip, i64_from_bits, i64_le_bytes, i64_to_bits, lemma_u64_bytes_round_trip,
    push_bytes32, push_u64_le, read_bytes32, read_u64_le, u64_le_bytes,
};
use vstd::prelude::*;

verus! {

/// The persisted record of one auction.
#[derive(Clone, Copy, Debug)]
pub struct Auction {
    /// The auctioned asset.
    pub property_mint: Address,
    pub seller: Address,
    pub start_price: u64,
    pub current_bid: u64,
    /// The all-zero address until a bid lands.
    pub highest_bidder: Address,
    pub start_time: i64,
    pub end_time: i64,
    pub ended: bool,
    pub bump_seed: u8,
}

/// The instructions an auction accepts.
#[derive(Clone, Copy, Debug, PartialEq, Eq, Structural)]
pub enum AuctionInstruction {
    InitializeAuction { start_price: u64, end_time: i64 },
    PlaceBid { bid_amount: u64 },
    EndAuction,
}

/// Why an auction instruction was refused.
#[derive(Clone, Copy, Debug, PartialEq, Eq, Structural)]
pub enum AuctionError {
    /// The instruction bytes do not decode.
    InvalidInstruction,
    /// The caller did not sign, or is not the seller.
    MissingSignature,
    /// The record address is not the one derived from the asset.
    SeedMismatch,
    AlreadyInitialized,
    /// The record's storage is not funded for permanent retention.
    UnderfundedStorage,
    /// The end time is not in the future.
    InvalidEndTime,
    /// A bid on an auction that has been settled.
    AuctionEnded,
    NotStarted,
    /// A bid at or after the end time.
    AuctionClosed,
    /// A bid that does not exceed the current bid.
    BidTooLow,
    /// A bid from the all-zero address, which records use for "nobody".
    InvalidBidder,
    /// Settling an auction twice.
    AlreadyEnded,
    /// Settling before the end time.
    NotYetEndable,
    /// The record bytes do not decode.
    InvalidRecord,
}

impl AuctionError {
    /// The error's number in the ledger's custom-error space: its position in
    /// the declaration.
    pub open spec fn code_spec(self) -> u32 {
        match self {
            AuctionError::InvalidInstruction => 0,
            AuctionError::MissingSignature => 1,
            AuctionError::SeedMismatch => 2,
            AuctionError::AlreadyInitialized => 3,
            AuctionError::UnderfundedStorage => 4,
            AuctionError::InvalidEndTime => 5,
            AuctionError::AuctionEnded => 6,
            AuctionError::NotStarted => 7,
            AuctionError::AuctionClosed => 8,
            AuctionError::BidTooLow => 9,
            AuctionError::InvalidBidder => 10,
            AuctionError::AlreadyEnded => 11,
            AuctionError::NotYetEndable => 12,
            AuctionError::InvalidRecord => 13,
        }
    }

    pub fn code(&self) -> (r: u32)
        ensures
            r == self.code_spec(),
    {
        match *self {
            AuctionError::InvalidInstruction => 0,
            AuctionError::MissingSignature => 1,
            AuctionError::SeedMismatch => 2,
            AuctionError::AlreadyInitialized => 3,
            AuctionError::UnderfundedStorage => 4,
            AuctionError::InvalidEndTime => 5,
            AuctionError::AuctionEnded => 6,
            AuctionError::NotStarted => 7,
            AuctionError::AuctionClosed => 8,
            AuctionError::BidTooLow => 9,
            AuctionError::InvalidBidder => 10,
            AuctionError::AlreadyEnded => 11,
            AuctionError::NotYetEndable => 12,
            AuctionError::InvalidRecord => 13,
        }
    }
}

/// Native currency returned to the bidder who was outbid.
#[derive(Clone, Copy, Debug)]
pub struct Refund {
    pub bidder: Address,
    pub amount: u64,
}

/// An accepted bid: the new record, what the bidder pays into escrow, and
/// the refund owed to the previous highest bidder, if there was one.
#[derive(Clone, Copy, Debug)]
pub struct BidOutcome {
    pub auction: Auction,
    pub deposit: u64,
    pub refund: Option<Refund>,
}

/// Who receives the auctioned asset at settlement.
#[derive(Clone, Copy, Debug, PartialEq, Eq, Structural)]
pub enum AssetDestination {
    Winner,
    Seller,
}

/// A settlement: the ended record, the escrow released to the seller, if any,
/// and where the asset goes.
#[derive(Clone, Copy, Debug)]
pub struct Settlement {
    pub auction: Auction,
    pub seller_payout: Option<u64>,
    pub asset_to: AssetDestination,
}

/// Size of an encoded auction record.
pub const AUCTION_LEN: usize = 130;

/// An auction record's bytes: its fields in declared order, integers
/// little-endian, the flag as one byte.
pub open spec fn auction_bytes(a: Auction) -> Seq<u8> {
    a.property_mint.bytes@ + a.seller.bytes@ + u64_le_bytes(a.start_price) + u64_le_bytes(
        a.current_bid,
    ) + a.highest_bidder.bytes@ + i64_le_bytes(a.start_time) + i64_le_bytes(a.end_time) + seq![
        bool_byte(a.ended),
        a.bump_seed,
    ]
}

/// Whether `data` holds an encoded auction record.
pub open spec fn is_auction_record(data: Seq<u8>) -> bool {
    data.len() == AUCTION_LEN && data[128] <= 1
}

/// An instruction's bytes: a variant tag, then its fields little-endian.
pub open spec fn auction_instruction_bytes(i: AuctionInstruction) -> Seq<u8> {
    match i {
        AuctionInstruction::InitializeAuction { start_price, end_time } => seq![0u8] + u64_le_bytes(
            start_price,
        ) + i64_le_bytes(end_time),
        AuctionInstruction::PlaceBid { bid_amount } => seq![1u8] + u64_le_bytes(bid_amount),
        AuctionInstruction::EndAuction => seq![2u8],
    }
}

/// Whether `data` holds exactly one encoded instruction.
pub open spec fn is_auction_instruction(data: Seq<u8>) -> bool {
    ||| data.len() == 17 && data[0] == 0
    ||| data.len() == 9 && data[0] == 1
    ||| data.len() == 1 && data[0] == 2
}

/// Every instruction encodes to bytes that decode, and no other instruction
/// encodes to the same bytes.
pub proof fn lemma_auction_instruction_round_trip(i: AuctionInstruction, j: AuctionInstruction)
    ensures
        is_auction_instruction(auction_instruction_bytes(i)),
        auction_instruction_bytes(j) == auction_instruction_bytes(i) ==> j == i,
{
    instruction_layout(i);
    instruction_layout(j);
    if auction_instruction_bytes(j) == auction_instruction_bytes(i) {
        match (i, j) {
            (
                AuctionInstruction::InitializeAuction { start_price: price_i, end_time: end_i },
                AuctionInstruction::InitializeAuction { start_price: price_j, end_time: end_j },
            ) => {
                lemma_u64_le_injective(price_i, price_j);
                lemma_i64_le_injective(end_i, end_j);
            },
            (
                AuctionInstruction::PlaceBid { bid_amount: bid_i },
                AuctionInstruction::PlaceBid { bid_amount: bid_j },
            ) => {
                lemma_u64_le_injective(bid_i, bid_j);
            },
            _ => {},
        }
    }
}

/// Where each field of an instruction sits in its bytes.
proof fn instruction_layout(i: AuctionInstruction)
    ensures
        ({
            let x = auction_instruction_bytes(i);
            match i {
                AuctionInstruction::InitializeAuction { start_price, end_time } => x.len() == 17
                    && x[0] == 0 && x.subrange(1, 9) == u64_le_bytes(start_price) && x.subrange(9, 17)
                    == i64_le_bytes(end_time),
                AuctionInstruction::PlaceBid { bid_amount } => x.len() == 9 && x[0] == 1
                    && x.subrange(1, 9) == u64_le_bytes(bid_amount),
                AuctionInstruction::EndAuction => x.len() == 1 && x[0] == 2,
            }
        }),
{
    let x = auction_instruction_bytes(i);
    match i {
        AuctionInstruction::InitializeAuction { start_price, end_time } => {
            lemma_u64_round_trip(start_price);
            lemma_u64_round_trip(i64_bits(end_time));
            assert(x.subrange(1, 9) =~= u64_le_bytes(start_price));
            assert(x.subrange(9, 17) =~= i64_le_bytes(end_time));
        },
        AuctionInstruction::PlaceBid { bid_amount } => {
            lemma_u64_round_trip(bid_amount);
            assert(x.subrange(1, 9) =~= u64_le_bytes(bid_amount));
        },
        AuctionInstruction::EndAuction => {},
    }
}

impl AuctionInstruction {
    /// Encodes the instruction.
    pub fn pack(&self) -> (r: Vec<u8>)
        ensures
            r@ == auction_instruction_bytes(*self),
    {
        let mut out: Vec<u8> = Vec::new();
        match *self {
            AuctionInstruction::InitializeAuction { start_price, end_time } => {
                out.push(0u8);
                push_u64_le(&mut out, start_price);
                push_u64_le(&mut out, i64_to_bits(end_time));
            },
            AuctionInstruction::PlaceBid { bid_amount } => {
                out.push(1u8);
                push_u64_le(&mut out, bid_amount);
            },
            AuctionInstruction::EndAuction => {
                out.push(2u8);
            },
        }
        assert(out@ =~= auction_instruction_bytes(*self));
        out
    }

    /// Decodes an instruction; fails unless `data` is exactly one encoded
    /// instruction.
    pub fn unpack(data: &[u8]) -> (r: Result<AuctionInstruction, AuctionError>)
        ensures
            r is Ok <==> is_auction_instruction(data@),
            r matches Ok(i) ==> auction_instruction_bytes(i) == data@,
            r matches Err(e) ==> e == AuctionError::InvalidInstruction,
    {
        let len = data.len();
        if len == 17 && data[0] == 0 {
            let start_price = read_u64_le(data, 1);
            let end_bits = read_u64_le(data, 9);
            let end_time = i64_from_bits(end_bits);
            proof {
                let d = data@;
                lemma_u64_bytes_round_trip(d.subrange(1, 9));
                lemma_u64_bytes_round_trip(d.subrange(9, 17));
                assert(d =~= seq![d[0]] + d.subrange(1, 9) + d.subrange(9, 17));
            }
            Ok(AuctionInstruction::InitializeAuction { start_price, end_time })
        } else if len == 9 && data[0] == 1 {
            let bid_amount = read_u64_le(data, 1);
            proof {
                let d = data@;
                lemma_u64_bytes_round_trip(d.subrange(1, 9));
                assert(d =~= seq![d[0]] + d.subrange(1, 9));
            }
            Ok(AuctionInstruction::PlaceBid { bid_amount })
        } else if len == 1 && data[0] == 2 {
            assert(data@ =~= seq![2u8]);
            Ok(AuctionInstruction::EndAuction)
        } else {
            Err(AuctionError::InvalidInstruction)
        }
    }
}

/// Where each field of a record sits in its bytes.
proof fn lemma_auction_layout(a: Auction)
    ensures
        auction_bytes(a).len() == AUCTION_LEN,
        auction_bytes(a).subrange(0, 32) == a.property_mint.bytes@,
        auction_bytes(a).subrange(32, 64) == a.seller.bytes@,
        auction_bytes(a).subrange(64, 72) == u64_le_bytes(a.start_price),
        auction_bytes(a).subrange(72, 80) == u64_le_bytes(a.current_bid),
        auction_bytes(a).subrange(80, 112) == a.highest_bidder.bytes@,
        auction_bytes(a).subrange(112, 120) == i64_le_bytes(a.start_time),
        auction_bytes(a).subrange(120, 128) == i64_le_bytes(a.end_time),
        auction_bytes(a)[128] == bool_byte(a.ended),
        auction_bytes(a)[129] == a.bump_seed,
{
    lemma_u64_round_trip(a.start_price);
    lemma_u64_round_trip(a.current_bid);
    lemma_u64_round_trip(i64_bits(a.start_time));
    lemma_u64_round_trip(i64_bits(a.end_time));
    let x = auction_bytes(a);
    assert(x.subrange(0, 32) =~= a.property_mint.bytes@);
    assert(x.subrange(32, 64) =~= a.seller.bytes@);
    assert(x.subrange(64, 72) =~= u64_le_bytes(a.start_price));
    assert(x.subrange(72, 80) =~= u64_le_bytes(a.current_bid));
    assert(x.subrange(80, 112) =~= a.highest_bidder.bytes@);
    assert(x.subrange(112, 120) =~= i64_le_bytes(a.start_time));
    assert(x.subrange(120, 128) =~= i64_le_bytes(a.end_time));
}

/// Every record encodes to bytes that decode, and no other record encodes to
/// the same bytes: decoding an encoded record gives that record back.
pub proof fn lemma_auction_bytes_round_trip(a: Auction, b: Auction)
    ensures
        is_auction_record(auction_bytes(a)),
        auction_bytes(b) == auction_bytes(a) ==> b == a,
{
    lemma_auction_layout(a);
    lemma_auction_layout(b);
    if auction_bytes(b) == auction_bytes(a) {
        lemma_u64_le_injective(a.start_price, b.start_price);
        lemma_u64_le_injective(a.current_bid, b.current_bid);
        lemma_i64_le_injective(a.start_time, b.start_time);
        lemma_i64_le_injective(a.end_time, b.end_time);
        assert(a.property_mint.bytes =~= b.property_mint.bytes);
        assert(a.seller.bytes =~= b.seller.bytes);
        assert(a.highest_bidder.bytes =~= b.highest_bidder.bytes);
    }
}

/// The seeds that determine an auction's record address.
pub open spec fn auction_seeds(property_mint: Address) -> Seq<Seq<u8>> {
    seq![auction_tag(), property_mint.bytes@]
}

/// Auction creation, given what the address search returned for its seeds.
pub open spec fn initialize_auction_spec(
    derived: Option<(Seq<u8>, u8)>,
    seller: Address,
    seller_signed: bool,
    auction_key: Address,
    record_in_use: bool,
    storage_funded: bool,
    property_mint: Address,
    start_price: u64,
    end_time: i64,
    now: i64,
) -> Result<Auction, AuctionError> {
    if !seller_signed {
        Err(AuctionError::MissingSignature)
    } else if derived.is_none() || derived.unwrap().0 != auction_key.bytes@ {
        Err(AuctionError::SeedMismatch)
    } else if record_in_use {
        Err(AuctionError::AlreadyInitialized)
    } else if !storage_funded {
        Err(AuctionError::UnderfundedStorage)
    } else if end_time <= now {
        Err(AuctionError::InvalidEndTime)
    } else {
        Ok(
            Auction {
                property_mint,
                seller,
                start_price,
                current_bid: start_price,
                highest_bidder: Address::nobody(),
                start_time: now,
                end_time,
                ended: false,
                bump_seed: derived.unwrap().1,
            },
        )
    }
}

impl Auction {
    /// The record's invariant: the bid to beat never falls below the starting
    /// price, and the auction closes after it opens.
    pub open spec fn wf(self) -> bool {
        self.current_bid >= self.start_price && self.start_time < self.end_time
    }

    /// Whether a bid has landed.
    pub open spec fn has_bidder(self) -> bool {
        self.highest_bidder != Address::nobody()
    }

    /// The native currency the auction holds in escrow for its highest bidder.
    pub open spec fn escrow(self) -> int {
        if self.has_bidder() {
            self.current_bid as int
        } else {
            0
        }
    }

    /// A bid of `bid_amount` by `bidder` at time `now`.
    pub open spec fn place_bid_spec(self, bidder: Address, bidder_signed: bool, bid_amount: u64, now: i64) -> Result<
        BidOutcome,
        AuctionError,
    > {
        if !bidder_signed {
            Err(AuctionError::MissingSignature)
        } else if bidder == Address::nobody() {
            Err(AuctionError::InvalidBidder)
        } else if self.ended {
            Err(AuctionError::AuctionEnded)
        } else if now < self.start_time {
            Err(AuctionError::NotStarted)
        } else if now >= self.end_time {
            Err(AuctionError::AuctionClosed)
        } else if bid_amount <= self.current_bid {
            Err(AuctionError::BidTooLow)
        } else {
            Ok(
                BidOutcome {
                    auction: Auction { current_bid: bid_amount, highest_bidder: bidder, ..self },
                    deposit: bid_amount,
                    refund: if self.has_bidder() {
                        Some(Refund { bidder: self.highest_bidder, amount: self.current_bid })
                    } else {
                        None
                    },
                },
            )
        }
    }

    /// Settlement requested by `caller` at time `now`.
    pub open spec fn end_auction_spec(self, caller: Address, caller_signed: bool, now: i64) -> Result<
        Settlement,
        AuctionError,
    > {
        if self.ended {
            Err(AuctionError::AlreadyEnded)
        } else if now < self.end_time {
            Err(AuctionError::NotYetEndable)
        } else if !caller_signed || caller != self.seller {
            Err(AuctionError::MissingSignature)
        } else if self.has_bidder() {
            Ok(
                Settlement {
                    auction: Auction { ended: true, ..self },
                    seller_payout: Some(self.current_bid),
                    asset_to: AssetDestination::Winner,
                },
            )
        } else {
            Ok(
                Settlement {
                    auction: Auction { ended: true, ..self },
                    seller_payout: None,
                    asset_to: AssetDestination::Seller,
                },
            )
        }
    }
}

/// The seeds of an auction's record address, as byte strings.
pub fn auction_address_seeds(property_mint: &Address) -> (r: Vec<Vec<u8>>)
    ensures
        r.deep_view() == auction_seeds(*property_mint),
{
    let tag = auction_tag_bytes();
    let mint = property_mint.to_vec();
    proof {
        lemma_bytes_deep_view(&tag);
        lemma_bytes_deep_view(&mint);
    }
    let r: Vec<Vec<u8>> = vec![tag, mint];
    assert(r.deep_view() =~= auction_seeds(*property_mint));
    r
}

/// Opens an auction from what the address search returned for its seeds
/// (`derived`): checks the seller, the record and the end time, and records
/// the starting price as the bid to beat.
pub fn initialize_auction_with(
    derived: Option<(Address, u8)>,
    seller: &Address,
    seller_signed: bool,
    auction_key: &Address,
    record_in_use: bool,
    storage_funded: bool,
    property_mint: &Address,
    start_price: u64,
    end_time: i64,
    now: i64,
) -> (r: Result<Auction, AuctionError>)
    ensures
        r == initialize_auction_spec(
            match derived {
                Some((a, bump)) => Some((a.bytes@, bump)),
                None => None,
            },
            *seller,
            seller_signed,
            *auction_key,
            record_in_use,
            storage_funded,
            *property_mint,
            start_price,
            end_time,
            now,
        ),
        r matches Ok(a) ==> a.wf() && !a.has_bidder() && a.escrow() == 0,
{
    if !seller_signed {
        return Err(AuctionError::MissingSignature);
    }
    let bump = match derived {
        Some((address, bump)) => {
            if address != *auction_key {
                return Err(AuctionError::SeedMismatch);
            }
            bump
        },
        None => {
            return Err(AuctionError::SeedMismatch);
        },
    };
    if record_in_use {
        return Err(AuctionError::AlreadyInitialized);
    }
    if !storage_funded {
        return Err(AuctionError::UnderfundedStorage);
    }
    if end_time <= now {
        return Err(AuctionError::InvalidEndTime);
    }
    Ok(
        Auction {
            property_mint: *property_mint,
            seller: *seller,
            start_price,
            current_bid: start_price,
            highest_bidder: Address::none(),
            start_time: now,
            end_time,
            ended: false,
            bump_seed: bump,
        },
    )
}

/// Opens an auction whose record lives at `auction_key`, which must be the
/// address derived for `program_id` from the auctioned asset.
pub fn initialize_auction(
    program_id: &Address,
    seller: &Address,
    seller_signed: bool,
    auction_key: &Address,
    record_in_use: bool,
    storage_funded: bool,
    property_mint: &Address,
    start_price: u64,
    end_time: i64,
    now: i64,
) -> (r: Result<Auction, AuctionError>)
    ensures
        r == initialize_auction_spec(
            found_program_address(auction_seeds(*property_mint), program_id.bytes@),
            *seller,
            seller_signed,
            *auction_key,
            record_in_use,
            storage_funded,
            *property_mint,
            start_price,
            end_time,
            now,
        ),
        r matches Ok(a) ==> a.wf() && !a.has_bidder() && a.escrow() == 0,
{
    let seeds = auction_address_seeds(property_mint);
    let derived = find_program_address(&seeds, program_id);
    initialize_auction_with(
        derived,
        seller,
        seller_signed,
        auction_key,
        record_in_use,
        storage_funded,
        property_mint,
        start_price,
        end_time,
        now,
    )
}

impl Auction {
    /// The seeds with which the auction signs for its escrowed asset: the
    /// address seeds and the stored bump byte.
    pub fn signer_seeds(&self) -> (r: Vec<Vec<u8>>)
        ensures
            r.deep_view() == auction_seeds(self.property_mint).push(seq![self.bump_seed]),
    {
        let mut r = auction_address_seeds(&self.property_mint);
        let bump: Vec<u8> = vec![self.bump_seed];
        proof {
            lemma_bytes_deep_view(&bump);
            assert(bump@ =~= seq![self.bump_seed]);
        }
        let ghost before = r.deep_view();
        r.push(bump);
        assert(r.deep_view() =~= before.push(seq![self.bump_seed]));
        r
    }

    /// Encodes the record.
    pub fn pack(&self) -> (r: Vec<u8>)
        ensures
            r@ == auction_bytes(*self),
            r@.len() == AUCTION_LEN,
    {
        let mut out: Vec<u8> = Vec::new();
        push_bytes32(&mut out, &self.property_mint.bytes);
        push_bytes32(&mut out, &self.seller.bytes);
        push_u64_le(&mut out, self.start_price);
        push_u64_le(&mut out, self.current_bid);
        push_bytes32(&mut out, &self.highest_bidder.bytes);
        push_u64_le(&mut out, i64_to_bits(self.start_time));
        push_u64_le(&mut out, i64_to_bits(self.end_time));
        out.push(if self.ended {
            1u8
        } else {
            0u8
        });
        out.push(self.bump_seed);
        assert(out@ =~= auction_bytes(*self));
        out
    }

    /// Decodes a record; fails unless `data` is exactly one encoded record.
    pub fn unpack(data: &[u8]) -> (r: Result<Auction, AuctionError>)
        ensures
            r is Ok <==> is_auction_record(data@),
            r matches Ok(a) ==> auction_bytes(a) == data@,
            r matches Err(e) ==> e == AuctionError::InvalidRecord,
    {
        if data.len() != AUCTION_LEN || data[128] > 1 {
            return Err(AuctionError::InvalidRecord);
        }
        let property_mint = Address { bytes: read_bytes32(data, 0) };
        let seller = Address { bytes: read_bytes32(data, 32) };
        let start_price = read_u64_le(data, 64);
        let current_bid = read_u64_le(data, 72);
        let highest_bidder = Address { bytes: read_bytes32(data, 80) };
        let start_bits = read_u64_le(data, 112);
        let end_bits = read_u64_le(data, 120);
        let a = Auction {
            property_mint,
            seller,
            start_price,
            current_bid,
            highest_bidder,
            start_time: i64_from_bits(start_bits),
            end_time: i64_from_bits(end_bits),
            ended: data[128] == 1,
            bump_seed: data[129],
        };
        proof {
            let d = data@;
            lemma_u64_bytes_round_trip(d.subrange(64, 72));
            lemma_u64_bytes_round_trip(d.subrange(72, 80));
            lemma_u64_bytes_round_trip(d.subrange(112, 120));
            lemma_u64_bytes_round_trip(d.subrange(120, 128));
            assert(i64_bits(a.start_time) == start_bits);
            assert(i64_bits(a.end_time) == end_bits);
            assert(d =~= d.subrange(0, 32) + d.subrange(32, 64) + d.subrange(64, 72) + d.subrange(
                72,
                80,
            ) + d.subrange(80, 112) + d.subrange(112, 120) + d.subrange(120, 128) + seq![
                d[128],
                d[129],
            ]);
        }
        Ok(a)
    }

    /// Places a bid: it must come from a signer while the auction is open and
    /// exceed the current bid. The previous highest bidder, if any, is owed
    /// back exactly the previous bid.
    pub fn place_bid(&self, bidder: &Address, bidder_signed: bool, bid_amount: u64, now: i64) -> (r:
        Result<BidOutcome, AuctionError>)
        ensures
            r == self.place_bid_spec(*bidder, bidder_signed, bid_amount, now),
            self.wf() ==> (r matches Ok(o) ==> o.auction.wf()),
            r matches Ok(o) ==> self.escrow() + o.deposit - match o.refund {
                Some(f) => f.amount as int,
                None => 0,
            } == o.auction.escrow(),
    {
        if !bidder_signed {
            return Err(AuctionError::MissingSignature);
        }
        if bidder.is_nobody() {
            return Err(AuctionError::InvalidBidder);
        }
        if self.ended {
            return Err(AuctionError::AuctionEnded);
        }
        if now < self.start_time {
            return Err(AuctionError::NotStarted);
        }
        if now >= self.end_time {
            return Err(AuctionError::AuctionClosed);
        }
        if bid_amount <= self.current_bid {
            return Err(AuctionError::BidTooLow);
        }
        let refund = if self.highest_bidder.is_nobody() {
            None
        } else {
            Some(Refund { bidder: self.highest_bidder, amount: self.current_bid })
        };
        Ok(
            BidOutcome {
                auction: Auction { current_bid: bid_amount, highest_bidder: *bidder, ..*self },
                deposit: bid_amount,
                refund,
            },
        )
    }

    /// Settles the auction once its end time has passed, at the seller's
    /// request: the escrow goes to the seller and the asset to the winner, or,
    /// with no bid, the asset goes back to the seller and no currency moves.
    pub fn end_auction(&self, caller: &Address, caller_signed: bool, now: i64) -> (r: Result<
        Settlement,
        AuctionError,
    >)
        ensures
            r == self.end_auction_spec(*caller, caller_signed, now),
            self.wf() ==> (r matches Ok(s) ==> s.auction.wf()),
            r matches Ok(s) ==> s.auction.ended && match s.seller_payout {
                Some(p) => p == self.escrow(),
                None => self.escrow() == 0,
            },
    {
        if self.ended {
            return Err(AuctionError::AlreadyEnded);
        }
        if now < self.end_time {
            return Err(AuctionError::NotYetEndable);
        }
        if !caller_signed || !(*caller == self.seller) {
            return Err(AuctionError::MissingSignature);
        }
        if self.highest_bidder.is_nobody() {
            Ok(
                Settlement {
                    auction: Auction { ended: true, ..*self },
                    seller_payout: None,
                    asset_to: AssetDestination::Seller,
                },
            )
        } else {
            Ok(
                Settlement {
                    auction: Auction { ended: true, ..*self },
                    seller_payout: Some(self.current_bid),
                    asset_to: AssetDestination::Winner,
                },
            )
        }
    }
}

} // verus!
