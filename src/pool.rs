use crate::address::{lemma_bytes_deep_view, found_program_address, find_program_address, pool_tag, pool_tag_bytes, Address};
use crate::math::{floor_sqrt, floor_sqrt_spec, lemma_product_fits, min_int, mul_div_floor};
use crate::codec::{
    bool_byte, lemma_u64_le_injective, lemma_u64_round_trip, lemma_u64_bytes_round_trip, push_bytes32, push_u64_le, read_bytes32, read_u64_le,
    u64_le_bytes,
};
#[allow(deprecated)]
use spl_token::error::TokenError;
use vstd::prelude::*;

verus! {

/// The persisted record of one constant-product pool.
#[derive(Clone, Copy, Debug)]
pub struct PoolState {
    pub is_initialized: bool,
    pub token_a_mint: Address,
    pub token_b_mint: Address,
    pub token_a_reserve: u64,
    pub token_b_reserve: u64,
    /// Mint of the pool's liquidity shares.
    pub lp_mint: Address,
    /// Shares outstanding.
    pub lp_supply: u64,
    pub bump_seed: u8,
}

/// The instructions a pool accepts.
#[derive(Clone, Copy, Debug, PartialEq, Eq, Structural)]
pub enum LiquidityPoolInstruction {
    InitializePool { initial_amount_a: u64, initial_amount_b: u64 },
    AddLiquidity { amount_a: u64, amount_b: u64 },
    RemoveLiquidity { lp_token_amount: u64 },
    SwapAforB { amount_a_in: u64 },
    SwapBforA { amount_b_in: u64 },
}

/// Why a pool instruction was refused.
#[derive(Clone, Copy, Debug, PartialEq, Eq, Structural)]
pub enum LiquidityPoolError {
    /// The instruction bytes do not decode.
    InvalidInstruction,
    /// The caller did not sign.
    MissingSignature,
    /// The record address is not the one derived from the two mints.
    SeedMismatch,
    /// Both sides of the pool name the same mint.
    IdenticalAssets,
    AlreadyInitialized,
    NotInitialized,
    /// The record's storage is not funded for permanent retention.
    UnderfundedStorage,
    ZeroAmount,
    /// A deposit that would mint no shares.
    DegenerateDeposit,
    /// No shares are outstanding.
    NoLiquidity,
    /// A withdrawal that pays nothing on one side, burns more shares than exist,
    /// or a swap that would empty a reserve.
    InsufficientLiquidity,
    ZeroReserves,
    /// A swap that would pay nothing.
    InsufficientOutput,
    /// A reserve or the share supply would exceed 64 bits.
    Overflow,
    /// The record bytes do not decode.
    InvalidRecord,
}

impl LiquidityPoolError {
    /// The error's number in the ledger's custom-error space: its position in
    /// the declaration.
    pub open spec fn code_spec(self) -> u32 {
        match self {
            LiquidityPoolError::InvalidInstruction => 0,
            LiquidityPoolError::MissingSignature => 1,
            LiquidityPoolError::SeedMismatch => 2,
            LiquidityPoolError::IdenticalAssets => 3,
            LiquidityPoolError::AlreadyInitialized => 4,
            LiquidityPoolError::NotInitialized => 5,
            LiquidityPoolError::UnderfundedStorage => 6,
            LiquidityPoolError::ZeroAmount => 7,
            LiquidityPoolError::DegenerateDeposit => 8,
            LiquidityPoolError::NoLiquidity => 9,
            LiquidityPoolError::InsufficientLiquidity => 10,
            LiquidityPoolError::ZeroReserves => 11,
            LiquidityPoolError::InsufficientOutput => 12,
            LiquidityPoolError::Overflow => 13,
            LiquidityPoolError::InvalidRecord => 14,
        }
    }

    pub fn code(&self) -> (r: u32)
        ensures
            r == self.code_spec(),
    {
        match *self {
            LiquidityPoolError::InvalidInstruction => 0,
            LiquidityPoolError::MissingSignature => 1,
            LiquidityPoolError::SeedMismatch => 2,
            LiquidityPoolError::IdenticalAssets => 3,
            LiquidityPoolError::AlreadyInitialized => 4,
            LiquidityPoolError::NotInitialized => 5,
            LiquidityPoolError::UnderfundedStorage => 6,
            LiquidityPoolError::ZeroAmount => 7,
            LiquidityPoolError::DegenerateDeposit => 8,
            LiquidityPoolError::NoLiquidity => 9,
            LiquidityPoolError::InsufficientLiquidity => 10,
            LiquidityPoolError::ZeroReserves => 11,
            LiquidityPoolError::InsufficientOutput => 12,
            LiquidityPoolError::Overflow => 13,
            LiquidityPoolError::InvalidRecord => 14,
        }
    }
}

/// Declares spl-token's `TokenError`, a fieldless enum, so that verified code
/// can match on its variants.
#[verifier::external_type_specification]
pub struct ExTokenError(TokenError);

impl From<TokenError> for LiquidityPoolError {
    /// A ledger refusal for want of funds is a shortage of liquidity; any other
    /// ledger refusal is an invalid instruction.
    fn from(e: TokenError) -> (r: LiquidityPoolError)
        ensures
            r == token_error_kind(e),
    {
        match e {
            TokenError::InsufficientFunds => LiquidityPoolError::InsufficientLiquidity,
            _ => LiquidityPoolError::InvalidInstruction,
        }
    }
}

/// The pool error that stands for a refusal by the token ledger.
pub open spec fn token_error_kind(e: TokenError) -> LiquidityPoolError {
    match e {
        TokenError::InsufficientFunds => LiquidityPoolError::InsufficientLiquidity,
        _ => LiquidityPoolError::InvalidInstruction,
    }
}

impl vstd::std_specs::convert::FromSpecImpl<TokenError> for LiquidityPoolError {
    open spec fn obeys_from_spec() -> bool {
        true
    }

    open spec fn from_spec(e: TokenError) -> LiquidityPoolError {
        token_error_kind(e)
    }
}

/// A new pool and the shares minted to its initializer.
#[derive(Clone, Copy, Debug)]
pub struct PoolInit {
    pub state: PoolState,
    pub shares: u64,
}

/// The pool after a deposit and the shares minted to the provider.
#[derive(Clone, Copy, Debug)]
pub struct Deposit {
    pub state: PoolState,
    pub shares: u64,
}

/// The pool after a withdrawal and what is paid out on each side.
#[derive(Clone, Copy, Debug)]
pub struct Withdrawal {
    pub state: PoolState,
    pub amount_a: u64,
    pub amount_b: u64,
}

/// The pool after a swap and what the swapper receives.
#[derive(Clone, Copy, Debug)]
pub struct SwapResult {
    pub state: PoolState,
    pub amount_out: u64,
}

/// Size of an encoded pool record.
pub const POOL_LEN: usize = 122;

/// A pool record's bytes: its fields in declared order, integers
/// little-endian, the flag as one byte.
pub open spec fn pool_bytes(p: PoolState) -> Seq<u8> {
    seq![bool_byte(p.is_initialized)] + p.token_a_mint.bytes@ + p.token_b_mint.bytes@
        + u64_le_bytes(p.token_a_reserve) + u64_le_bytes(p.token_b_reserve) + p.lp_mint.bytes@
        + u64_le_bytes(p.lp_supply) + seq![p.bump_seed]
}

/// Where each field of a record sits in its bytes.
proof fn lemma_pool_layout(p: PoolState)
    ensures
        pool_bytes(p).len() == POOL_LEN,
        pool_bytes(p)[0] == bool_byte(p.is_initialized),
        pool_bytes(p).subrange(1, 33) == p.token_a_mint.bytes@,
        pool_bytes(p).subrange(33, 65) == p.token_b_mint.bytes@,
        pool_bytes(p).subrange(65, 73) == u64_le_bytes(p.token_a_reserve),
        pool_bytes(p).subrange(73, 81) == u64_le_bytes(p.token_b_reserve),
        pool_bytes(p).subrange(81, 113) == p.lp_mint.bytes@,
        pool_bytes(p).subrange(113, 121) == u64_le_bytes(p.lp_supply),
        pool_bytes(p)[121] == p.bump_seed,
{
    lemma_u64_round_trip(p.token_a_reserve);
    lemma_u64_round_trip(p.token_b_reserve);
    lemma_u64_round_trip(p.lp_supply);
    let x = pool_bytes(p);
    assert(x.subrange(1, 33) =~= p.token_a_mint.bytes@);
    assert(x.subrange(33, 65) =~= p.token_b_mint.bytes@);
    assert(x.subrange(65, 73) =~= u64_le_bytes(p.token_a_reserve));
    assert(x.subrange(73, 81) =~= u64_le_bytes(p.token_b_reserve));
    assert(x.subrange(81, 113) =~= p.lp_mint.bytes@);
    assert(x.subrange(113, 121) =~= u64_le_bytes(p.lp_supply));
}

/// Every record encodes to bytes that decode, and no other record encodes to
/// the same bytes: decoding an encoded record gives that record back.
pub proof fn lemma_pool_bytes_round_trip(p: PoolState, q: PoolState)
    ensures
        is_pool_record(pool_bytes(p)),
        pool_bytes(q) == pool_bytes(p) ==> q == p,
{
    lemma_pool_layout(p);
    lemma_pool_layout(q);
    if pool_bytes(q) == pool_bytes(p) {
        lemma_u64_le_injective(p.token_a_reserve, q.token_a_reserve);
        lemma_u64_le_injective(p.token_b_reserve, q.token_b_reserve);
        lemma_u64_le_injective(p.lp_supply, q.lp_supply);
        assert(p.token_a_mint.bytes =~= q.token_a_mint.bytes);
        assert(p.token_b_mint.bytes =~= q.token_b_mint.bytes);
        assert(p.lp_mint.bytes =~= q.lp_mint.bytes);
    }
}

/// Whether `data` holds an encoded pool record.
pub open spec fn is_pool_record(data: Seq<u8>) -> bool {
    data.len() == POOL_LEN && data[0] <= 1
}

/// An instruction's bytes: a variant tag, then its fields little-endian.
pub open spec fn pool_instruction_bytes(i: LiquidityPoolInstruction) -> Seq<u8> {
    match i {
        LiquidityPoolInstruction::InitializePool { initial_amount_a, initial_amount_b } => seq![0u8]
            + u64_le_bytes(initial_amount_a) + u64_le_bytes(initial_amount_b),
        LiquidityPoolInstruction::AddLiquidity { amount_a, amount_b } => seq![1u8] + u64_le_bytes(
            amount_a,
        ) + u64_le_bytes(amount_b),
        LiquidityPoolInstruction::RemoveLiquidity { lp_token_amount } => seq![2u8] + u64_le_bytes(
            lp_token_amount,
        ),
        LiquidityPoolInstruction::SwapAforB { amount_a_in } => seq![3u8] + u64_le_bytes(amount_a_in),
        LiquidityPoolInstruction::SwapBforA { amount_b_in } => seq![4u8] + u64_le_bytes(amount_b_in),
    }
}

/// Whether `data` holds exactly one encoded instruction.
pub open spec fn is_pool_instruction(data: Seq<u8>) -> bool {
    ||| data.len() == 17 && (data[0] == 0 || data[0] == 1)
    ||| data.len() == 9 && (data[0] == 2 || data[0] == 3 || data[0] == 4)
}

/// The tag and the fields of an instruction, as the bytes carry them.
pub open spec fn pool_instruction_parts(i: LiquidityPoolInstruction) -> (u8, Seq<u64>) {
    match i {
        LiquidityPoolInstruction::InitializePool { initial_amount_a, initial_amount_b } => (
            0,
            seq![initial_amount_a, initial_amount_b],
        ),
        LiquidityPoolInstruction::AddLiquidity { amount_a, amount_b } => (1, seq![amount_a, amount_b]),
        LiquidityPoolInstruction::RemoveLiquidity { lp_token_amount } => (2, seq![lp_token_amount]),
        LiquidityPoolInstruction::SwapAforB { amount_a_in } => (3, seq![amount_a_in]),
        LiquidityPoolInstruction::SwapBforA { amount_b_in } => (4, seq![amount_b_in]),
    }
}

/// Where each field of an instruction sits in its bytes.
proof fn pool_instruction_layout(i: LiquidityPoolInstruction)
    ensures
        ({
            let x = pool_instruction_bytes(i);
            let (tag, fields) = pool_instruction_parts(i);
            &&& x.len() == 1 + 8 * fields.len()
            &&& x[0] == tag
            &&& fields.len() >= 1 ==> x.subrange(1, 9) == u64_le_bytes(fields[0])
            &&& fields.len() == 2 ==> x.subrange(9, 17) == u64_le_bytes(fields[1])
        }),
{
    let x = pool_instruction_bytes(i);
    let (tag, fields) = pool_instruction_parts(i);
    lemma_u64_round_trip(fields[0]);
    assert(x.subrange(1, 9) =~= u64_le_bytes(fields[0]));
    if fields.len() == 2 {
        lemma_u64_round_trip(fields[1]);
        assert(x.subrange(9, 17) =~= u64_le_bytes(fields[1]));
    }
}

/// Every instruction encodes to bytes that decode, and no other instruction
/// encodes to the same bytes.
pub proof fn lemma_pool_instruction_round_trip(i: LiquidityPoolInstruction, j: LiquidityPoolInstruction)
    ensures
        is_pool_instruction(pool_instruction_bytes(i)),
        pool_instruction_bytes(j) == pool_instruction_bytes(i) ==> j == i,
{
    pool_instruction_layout(i);
    pool_instruction_layout(j);
    if pool_instruction_bytes(j) == pool_instruction_bytes(i) {
        let (_, fi) = pool_instruction_parts(i);
        let (_, fj) = pool_instruction_parts(j);
        lemma_u64_le_injective(fi[0], fj[0]);
        if fi.len() == 2 {
            lemma_u64_le_injective(fi[1], fj[1]);
        }
    }
}

impl LiquidityPoolInstruction {
    /// Encodes the instruction.
    pub fn pack(&self) -> (r: Vec<u8>)
        ensures
            r@ == pool_instruction_bytes(*self),
    {
        let mut out: Vec<u8> = Vec::new();
        match *self {
            LiquidityPoolInstruction::InitializePool { initial_amount_a, initial_amount_b } => {
                out.push(0u8);
                push_u64_le(&mut out, initial_amount_a);
                push_u64_le(&mut out, initial_amount_b);
            },
            LiquidityPoolInstruction::AddLiquidity { amount_a, amount_b } => {
                out.push(1u8);
                push_u64_le(&mut out, amount_a);
                push_u64_le(&mut out, amount_b);
            },
            LiquidityPoolInstruction::RemoveLiquidity { lp_token_amount } => {
                out.push(2u8);
                push_u64_le(&mut out, lp_token_amount);
            },
            LiquidityPoolInstruction::SwapAforB { amount_a_in } => {
                out.push(3u8);
                push_u64_le(&mut out, amount_a_in);
            },
            LiquidityPoolInstruction::SwapBforA { amount_b_in } => {
                out.push(4u8);
                push_u64_le(&mut out, amount_b_in);
            },
        }
        assert(out@ =~= pool_instruction_bytes(*self));
        out
    }

    /// Decodes an instruction; fails unless `data` is exactly one encoded
    /// instruction.
    pub fn unpack(data: &[u8]) -> (r: Result<LiquidityPoolInstruction, LiquidityPoolError>)
        ensures
            r is Ok <==> is_pool_instruction(data@),
            r matches Ok(i) ==> pool_instruction_bytes(i) == data@,
            r matches Err(e) ==> e == LiquidityPoolError::InvalidInstruction,
    {
        let len = data.len();
        if len == 17 && (data[0] == 0 || data[0] == 1) {
            let x = read_u64_le(data, 1);
            let y = read_u64_le(data, 9);
            proof {
                let d = data@;
                lemma_u64_bytes_round_trip(d.subrange(1, 9));
                lemma_u64_bytes_round_trip(d.subrange(9, 17));
                assert(d =~= seq![d[0]] + d.subrange(1, 9) + d.subrange(9, 17));
            }
            if data[0] == 0 {
                Ok(LiquidityPoolInstruction::InitializePool { initial_amount_a: x, initial_amount_b: y })
            } else {
                Ok(LiquidityPoolInstruction::AddLiquidity { amount_a: x, amount_b: y })
            }
        } else if len == 9 && (data[0] == 2 || data[0] == 3 || data[0] == 4) {
            let x = read_u64_le(data, 1);
            proof {
                let d = data@;
                lemma_u64_bytes_round_trip(d.subrange(1, 9));
                assert(d =~= seq![d[0]] + d.subrange(1, 9));
            }
            if data[0] == 2 {
                Ok(LiquidityPoolInstruction::RemoveLiquidity { lp_token_amount: x })
            } else if data[0] == 3 {
                Ok(LiquidityPoolInstruction::SwapAforB { amount_a_in: x })
            } else {
                Ok(LiquidityPoolInstruction::SwapBforA { amount_b_in: x })
            }
        } else {
            Err(LiquidityPoolError::InvalidInstruction)
        }
    }
}

/// The seeds that determine a pool's record address.
pub open spec fn pool_seeds(mint_a: Address, mint_b: Address) -> Seq<Seq<u8>> {
    seq![pool_tag(), mint_a.bytes@, mint_b.bytes@]
}

/// Shares minted for a deposit: the smaller of the two proportional claims.
pub open spec fn deposit_shares(
    amount_a: int,
    amount_b: int,
    reserve_a: int,
    reserve_b: int,
    supply: int,
) -> int {
    if reserve_a == 0 || reserve_b == 0 {
        0
    } else {
        min_int(amount_a * supply / reserve_a, amount_b * supply / reserve_b)
    }
}

/// One side's payout for burning `shares` of `supply`.
pub open spec fn withdrawal_amount(shares: int, reserve: int, supply: int) -> int {
    shares * reserve / supply
}

/// What a swap pays: the output reserve less what keeps the product at most `k`.
pub open spec fn swap_output(reserve_in: int, reserve_out: int, amount_in: int) -> int {
    reserve_out - (reserve_in * reserve_out) / (reserve_in + amount_in)
}

/// A `u64` quantity.
pub open spec fn fits_u64(x: int) -> bool {
    0 <= x <= u64::MAX
}

/// Pool creation, given what the address search returned for the pool's seeds.
pub open spec fn initialize_pool_spec(
    derived: Option<(Seq<u8>, u8)>,
    initializer_signed: bool,
    pool_key: Address,
    record: PoolState,
    storage_funded: bool,
    mint_a: Address,
    mint_b: Address,
    lp_mint: Address,
    amount_a: u64,
    amount_b: u64,
) -> Result<PoolInit, LiquidityPoolError> {
    if !initializer_signed {
        Err(LiquidityPoolError::MissingSignature)
    } else if derived.is_none() || derived.unwrap().0 != pool_key.bytes@ {
        Err(LiquidityPoolError::SeedMismatch)
    } else if mint_a.bytes@ == mint_b.bytes@ {
        Err(LiquidityPoolError::IdenticalAssets)
    } else if record.is_initialized {
        Err(LiquidityPoolError::AlreadyInitialized)
    } else if !storage_funded {
        Err(LiquidityPoolError::UnderfundedStorage)
    } else if amount_a == 0 || amount_b == 0 {
        Err(LiquidityPoolError::ZeroAmount)
    } else {
        let shares = floor_sqrt_spec(amount_a * amount_b) as u64;
        Ok(
            PoolInit {
                state: PoolState {
                    is_initialized: true,
                    token_a_mint: mint_a,
                    token_b_mint: mint_b,
                    token_a_reserve: amount_a,
                    token_b_reserve: amount_b,
                    lp_mint,
                    lp_supply: shares,
                    bump_seed: derived.unwrap().1,
                },
                shares,
            },
        )
    }
}

/// The pool's swap arithmetic keeps the output within the output reserve.
pub proof fn lemma_swap_quotient(reserve_in: int, reserve_out: int, amount_in: int)
    requires
        reserve_in > 0,
        reserve_out >= 0,
        amount_in >= 0,
    ensures
        0 <= (reserve_in * reserve_out) / (reserve_in + amount_in) <= reserve_out,
{
    let k = reserve_in * reserve_out;
    let d = reserve_in + amount_in;
    let q = k / d;
    assert(k >= 0) by (nonlinear_arith)
        requires
            k == reserve_in * reserve_out,
            reserve_in > 0,
            reserve_out >= 0,
    ;
    assert(q * d <= k && q >= 0) by (nonlinear_arith)
        requires
            d > 0,
            k >= 0,
            q == k / d,
    ;
    assert(q <= reserve_out) by (nonlinear_arith)
        requires
            q * d <= k,
            k == reserve_in * reserve_out,
            d >= reserve_in,
            reserve_in > 0,
            q >= 0,
    ;
}

/// A payout for at most the whole supply stays within the reserve.
pub proof fn lemma_withdrawal_bounded(shares: int, reserve: int, supply: int)
    requires
        0 <= shares <= supply,
        supply > 0,
        reserve >= 0,
    ensures
        0 <= withdrawal_amount(shares, reserve, supply) <= reserve,
{
    let q = shares * reserve / supply;
    assert(q * supply <= shares * reserve && q >= 0) by (nonlinear_arith)
        requires
            supply > 0,
            shares >= 0,
            reserve >= 0,
            q == shares * reserve / supply,
    ;
    assert(q <= reserve) by (nonlinear_arith)
        requires
            q * supply <= shares * reserve,
            shares <= supply,
            supply > 0,
            reserve >= 0,
            q >= 0,
    ;
}

/// The seeds of a pool's record address, as byte strings.
pub fn pool_address_seeds(mint_a: &Address, mint_b: &Address) -> (r: Vec<Vec<u8>>)
    ensures
        r.deep_view() == pool_seeds(*mint_a, *mint_b),
{
    let tag = pool_tag_bytes();
    let a = mint_a.to_vec();
    let b = mint_b.to_vec();
    proof {
        lemma_bytes_deep_view(&tag);
        lemma_bytes_deep_view(&a);
        lemma_bytes_deep_view(&b);
    }
    let r: Vec<Vec<u8>> = vec![tag, a, b];
    assert(r.deep_view() =~= pool_seeds(*mint_a, *mint_b));
    r
}

/// Creates a pool from what the address search returned for its seeds
/// (`derived`): checks the caller, the record and the amounts, and seeds the
/// share supply with the integer geometric mean of the two deposits.
pub fn initialize_pool_with(
    derived: Option<(Address, u8)>,
    initializer_signed: bool,
    pool_key: &Address,
    record: &PoolState,
    storage_funded: bool,
    mint_a: &Address,
    mint_b: &Address,
    lp_mint: &Address,
    amount_a: u64,
    amount_b: u64,
) -> (r: Result<PoolInit, LiquidityPoolError>)
    ensures
        r == initialize_pool_spec(
            match derived {
                Some((a, bump)) => Some((a.bytes@, bump)),
                None => None,
            },
            initializer_signed,
            *pool_key,
            *record,
            storage_funded,
            *mint_a,
            *mint_b,
            *lp_mint,
            amount_a,
            amount_b,
        ),
        r matches Ok(p) ==> p.state.wf() && p.shares > 0,
{
    if !initializer_signed {
        return Err(LiquidityPoolError::MissingSignature);
    }
    let bump = match derived {
        Some((address, bump)) => {
            if address != *pool_key {
                return Err(LiquidityPoolError::SeedMismatch);
            }
            bump
        },
        None => {
            return Err(LiquidityPoolError::SeedMismatch);
        },
    };
    if *mint_a == *mint_b {
        return Err(LiquidityPoolError::IdenticalAssets);
    }
    if record.is_initialized {
        return Err(LiquidityPoolError::AlreadyInitialized);
    }
    if !storage_funded {
        return Err(LiquidityPoolError::UnderfundedStorage);
    }
    if amount_a == 0 || amount_b == 0 {
        return Err(LiquidityPoolError::ZeroAmount);
    }
    proof {
        lemma_product_fits(amount_a, amount_b);
        assert((amount_a as int) * (amount_b as int) >= 1) by (nonlinear_arith)
            requires
                amount_a >= 1,
                amount_b >= 1,
        ;
    }
    let shares = floor_sqrt((amount_a as u128) * (amount_b as u128));
    proof {
        let n = (amount_a as int) * (amount_b as int);
        assert(shares > 0) by (nonlinear_arith)
            requires
                n < (shares + 1) * (shares + 1),
                n >= 1,
                shares >= 0,
        ;
    }
    Ok(
        PoolInit {
            state: PoolState {
                is_initialized: true,
                token_a_mint: *mint_a,
                token_b_mint: *mint_b,
                token_a_reserve: amount_a,
                token_b_reserve: amount_b,
                lp_mint: *lp_mint,
                lp_supply: shares,
                bump_seed: bump,
            },
            shares,
        },
    )
}

/// Creates a pool whose record lives at `pool_key`, which must be the address
/// derived for `program_id` from the two mints.
pub fn initialize_pool(
    program_id: &Address,
    initializer_signed: bool,
    pool_key: &Address,
    record: &PoolState,
    storage_funded: bool,
    mint_a: &Address,
    mint_b: &Address,
    lp_mint: &Address,
    amount_a: u64,
    amount_b: u64,
) -> (r: Result<PoolInit, LiquidityPoolError>)
    ensures
        r == initialize_pool_spec(
            found_program_address(pool_seeds(*mint_a, *mint_b), program_id.bytes@),
            initializer_signed,
            *pool_key,
            *record,
            storage_funded,
            *mint_a,
            *mint_b,
            *lp_mint,
            amount_a,
            amount_b,
        ),
        r matches Ok(p) ==> p.state.wf() && p.shares > 0,
{
    let seeds = pool_address_seeds(mint_a, mint_b);
    let derived = find_program_address(&seeds, program_id);
    initialize_pool_with(
        derived,
        initializer_signed,
        pool_key,
        record,
        storage_funded,
        mint_a,
        mint_b,
        lp_mint,
        amount_a,
        amount_b,
    )
}

/// Burning part of the supply leaves part of each non-empty reserve; burning
/// all of it takes all of each reserve.
pub proof fn lemma_withdrawal_partial(shares: int, reserve: int, supply: int)
    requires
        0 <= shares <= supply,
        supply > 0,
        reserve >= 0,
    ensures
        shares < supply && reserve > 0 ==> withdrawal_amount(shares, reserve, supply) < reserve,
        shares == supply ==> withdrawal_amount(shares, reserve, supply) == reserve,
{
    let q = shares * reserve / supply;
    assert(q * supply <= shares * reserve) by (nonlinear_arith)
        requires
            supply > 0,
            q == shares * reserve / supply,
    ;
    if shares < supply && reserve > 0 {
        assert(q < reserve) by (nonlinear_arith)
            requires
                q * supply <= shares * reserve,
                shares < supply,
                reserve > 0,
                supply > 0,
        ;
    }
    if shares == supply {
        assert(q == reserve) by (nonlinear_arith)
            requires
                shares == supply,
                supply > 0,
                q == shares * reserve / supply,
        ;
    }
}

impl PoolState {
    /// Whether the record holds a live pool.
    pub fn is_initialized(&self) -> (r: bool)
        ensures
            r == self.is_initialized,
    {
        self.is_initialized
    }

    /// The seeds with which the pool signs for its custody accounts: the
    /// address seeds and the stored bump byte.
    pub fn signer_seeds(&self) -> (r: Vec<Vec<u8>>)
        ensures
            r.deep_view() == pool_seeds(self.token_a_mint, self.token_b_mint).push(
                seq![self.bump_seed],
            ),
    {
        let mut r = pool_address_seeds(&self.token_a_mint, &self.token_b_mint);
        let bump: Vec<u8> = vec![self.bump_seed];
        proof {
            lemma_bytes_deep_view(&bump);
            assert(bump@ =~= seq![self.bump_seed]);
        }
        let ghost before = r.deep_view();
        r.push(bump);
        assert(r.deep_view() =~= before.push(seq![self.bump_seed]));
        r
    }

    /// Encodes the record.
    pub fn pack(&self) -> (r: Vec<u8>)
        ensures
            r@ == pool_bytes(*self),
            r@.len() == POOL_LEN,
    {
        let mut out: Vec<u8> = Vec::new();
        out.push(if self.is_initialized {
            1u8
        } else {
            0u8
        });
        push_bytes32(&mut out, &self.token_a_mint.bytes);
        push_bytes32(&mut out, &self.token_b_mint.bytes);
        push_u64_le(&mut out, self.token_a_reserve);
        push_u64_le(&mut out, self.token_b_reserve);
        push_bytes32(&mut out, &self.lp_mint.bytes);
        push_u64_le(&mut out, self.lp_supply);
        out.push(self.bump_seed);
        assert(out@ =~= pool_bytes(*self));
        out
    }

    /// Encodes the record into `dst`, which holds exactly one record.
    pub fn pack_into_slice(&self, dst: &mut [u8])
        requires
            old(dst)@.len() == POOL_LEN,
        ensures
            final(dst)@ == pool_bytes(*self),
    {
        let bytes = self.pack();
        let mut i: usize = 0;
        while i < POOL_LEN
            invariant
                0 <= i <= POOL_LEN,
                bytes@ == pool_bytes(*self),
                bytes@.len() == POOL_LEN,
                dst@.len() == POOL_LEN,
                forall|j: int| 0 <= j < i ==> dst@[j] == bytes@[j],
            decreases POOL_LEN - i,
        {
            dst[i] = bytes[i];
            i = i + 1;
        }
        assert(dst@ =~= bytes@);
    }

    /// Decodes a record; fails unless `src` is exactly one encoded record.
    pub fn unpack_from_slice(src: &[u8]) -> (r: Result<PoolState, LiquidityPoolError>)
        ensures
            r is Ok <==> is_pool_record(src@),
            r matches Ok(p) ==> pool_bytes(p) == src@,
            r matches Err(e) ==> e == LiquidityPoolError::InvalidRecord,
    {
        if src.len() != POOL_LEN || src[0] > 1 {
            return Err(LiquidityPoolError::InvalidRecord);
        }
        let p = PoolState {
            is_initialized: src[0] == 1,
            token_a_mint: Address { bytes: read_bytes32(src, 1) },
            token_b_mint: Address { bytes: read_bytes32(src, 33) },
            token_a_reserve: read_u64_le(src, 65),
            token_b_reserve: read_u64_le(src, 73),
            lp_mint: Address { bytes: read_bytes32(src, 81) },
            lp_supply: read_u64_le(src, 113),
            bump_seed: src[121],
        };
        proof {
            let d = src@;
            lemma_u64_bytes_round_trip(d.subrange(65, 73));
            lemma_u64_bytes_round_trip(d.subrange(73, 81));
            lemma_u64_bytes_round_trip(d.subrange(113, 121));
            assert(d =~= seq![d[0]] + d.subrange(1, 33) + d.subrange(33, 65) + d.subrange(65, 73)
                + d.subrange(73, 81) + d.subrange(81, 113) + d.subrange(113, 121) + seq![d[121]]);
        }
        Ok(p)
    }
}

impl PoolState {
    /// Deposits `amount_a` and `amount_b` and mints shares in proportion to the
    /// weaker side of the deposit.
    pub fn add_liquidity(&self, provider_signed: bool, amount_a: u64, amount_b: u64) -> (r: Result<
        Deposit,
        LiquidityPoolError,
    >)
        ensures
            r == self.add_liquidity_spec(provider_signed, amount_a, amount_b),
            self.wf() ==> (r matches Ok(d) ==> d.state.wf()),
    {
        if !provider_signed {
            return Err(LiquidityPoolError::MissingSignature);
        }
        if !self.is_initialized {
            return Err(LiquidityPoolError::NotInitialized);
        }
        if amount_a == 0 || amount_b == 0 {
            return Err(LiquidityPoolError::ZeroAmount);
        }
        let shares: u128 = if self.token_a_reserve == 0 || self.token_b_reserve == 0 {
            0
        } else {
            let from_a = mul_div_floor(amount_a, self.lp_supply, self.token_a_reserve);
            let from_b = mul_div_floor(amount_b, self.lp_supply, self.token_b_reserve);
            if from_a <= from_b {
                from_a
            } else {
                from_b
            }
        };
        if shares == 0 {
            return Err(LiquidityPoolError::DegenerateDeposit);
        }
        let new_a = match self.token_a_reserve.checked_add(amount_a) {
            Some(v) => v,
            None => {
                return Err(LiquidityPoolError::Overflow);
            },
        };
        let new_b = match self.token_b_reserve.checked_add(amount_b) {
            Some(v) => v,
            None => {
                return Err(LiquidityPoolError::Overflow);
            },
        };
        if shares > (u64::MAX - self.lp_supply) as u128 {
            return Err(LiquidityPoolError::Overflow);
        }
        let minted = shares as u64;
        Ok(
            Deposit {
                state: PoolState {
                    token_a_reserve: new_a,
                    token_b_reserve: new_b,
                    lp_supply: self.lp_supply + minted,
                    ..*self
                },
                shares: minted,
            },
        )
    }

    /// Burns `lp_amount` shares and pays out the matching slice of each reserve.
    pub fn remove_liquidity(&self, provider_signed: bool, lp_amount: u64) -> (r: Result<
        Withdrawal,
        LiquidityPoolError,
    >)
        ensures
            r == self.remove_liquidity_spec(provider_signed, lp_amount),
            self.wf() ==> (r matches Ok(w) ==> w.state.wf()),
    {
        if !provider_signed {
            return Err(LiquidityPoolError::MissingSignature);
        }
        if !self.is_initialized {
            return Err(LiquidityPoolError::NotInitialized);
        }
        if lp_amount == 0 {
            return Err(LiquidityPoolError::ZeroAmount);
        }
        if self.lp_supply == 0 {
            return Err(LiquidityPoolError::NoLiquidity);
        }
        if lp_amount > self.lp_supply {
            return Err(LiquidityPoolError::InsufficientLiquidity);
        }
        proof {
            lemma_withdrawal_bounded(lp_amount as int, self.token_a_reserve as int, self.lp_supply as int);
            lemma_withdrawal_bounded(lp_amount as int, self.token_b_reserve as int, self.lp_supply as int);
            lemma_withdrawal_partial(lp_amount as int, self.token_a_reserve as int, self.lp_supply as int);
            lemma_withdrawal_partial(lp_amount as int, self.token_b_reserve as int, self.lp_supply as int);
        }
        let out_a = mul_div_floor(lp_amount, self.token_a_reserve, self.lp_supply) as u64;
        let out_b = mul_div_floor(lp_amount, self.token_b_reserve, self.lp_supply) as u64;
        if out_a == 0 || out_b == 0 {
            return Err(LiquidityPoolError::InsufficientLiquidity);
        }
        Ok(
            Withdrawal {
                state: PoolState {
                    token_a_reserve: self.token_a_reserve - out_a,
                    token_b_reserve: self.token_b_reserve - out_b,
                    lp_supply: self.lp_supply - lp_amount,
                    ..*self
                },
                amount_a: out_a,
                amount_b: out_b,
            },
        )
    }

    /// Swaps `amount_a_in` of asset A for asset B.
    pub fn swap_a_for_b(&self, swapper_signed: bool, amount_a_in: u64) -> (r: Result<
        SwapResult,
        LiquidityPoolError,
    >)
        ensures
            r == self.swap_spec(swapper_signed, true, amount_a_in),
            self.wf() ==> (r matches Ok(t) ==> t.state.wf()),
    {
        self.swap(swapper_signed, true, amount_a_in)
    }

    /// Swaps `amount_b_in` of asset B for asset A.
    pub fn swap_b_for_a(&self, swapper_signed: bool, amount_b_in: u64) -> (r: Result<
        SwapResult,
        LiquidityPoolError,
    >)
        ensures
            r == self.swap_spec(swapper_signed, false, amount_b_in),
            self.wf() ==> (r matches Ok(t) ==> t.state.wf()),
    {
        self.swap(swapper_signed, false, amount_b_in)
    }

    /// Swaps `amount_in` into the pool on one side and pays out the other so that
    /// the reserve product does not grow past its value before the swap.
    pub fn swap(&self, swapper_signed: bool, a_for_b: bool, amount_in: u64) -> (r: Result<
        SwapResult,
        LiquidityPoolError,
    >)
        ensures
            r == self.swap_spec(swapper_signed, a_for_b, amount_in),
            self.wf() ==> (r matches Ok(t) ==> t.state.wf()),
    {
        if !swapper_signed {
            return Err(LiquidityPoolError::MissingSignature);
        }
        if !self.is_initialized {
            return Err(LiquidityPoolError::NotInitialized);
        }
        if amount_in == 0 {
            return Err(LiquidityPoolError::ZeroAmount);
        }
        if self.token_a_reserve == 0 || self.token_b_reserve == 0 {
            return Err(LiquidityPoolError::ZeroReserves);
        }
        let (reserve_in, reserve_out) = if a_for_b {
            (self.token_a_reserve, self.token_b_reserve)
        } else {
            (self.token_b_reserve, self.token_a_reserve)
        };
        proof {
            lemma_product_fits(reserve_in, reserve_out);
            lemma_swap_quotient(reserve_in as int, reserve_out as int, amount_in as int);
        }
        let k: u128 = (reserve_in as u128) * (reserve_out as u128);
        let new_in: u128 = (reserve_in as u128) + (amount_in as u128);
        let kept: u128 = k / new_in;
        let out: u64 = (reserve_out as u128 - kept) as u64;
        if out == 0 {
            return Err(LiquidityPoolError::InsufficientOutput);
        }
        if out == reserve_out {
            return Err(LiquidityPoolError::InsufficientLiquidity);
        }
        let grown = match reserve_in.checked_add(amount_in) {
            Some(v) => v,
            None => {
                return Err(LiquidityPoolError::Overflow);
            },
        };
        let shrunk = reserve_out - out;
        let state = if a_for_b {
            PoolState { token_a_reserve: grown, token_b_reserve: shrunk, ..*self }
        } else {
            PoolState { token_a_reserve: shrunk, token_b_reserve: grown, ..*self }
        };
        Ok(SwapResult { state, amount_out: out })
    }
}

impl PoolState {
    /// The record's invariant: a live pool either holds both assets and has
    /// shares outstanding, or has been emptied on both sides with no shares left.
    pub open spec fn wf(self) -> bool {
        self.is_initialized ==> {
            &&& (self.token_a_reserve == 0) == (self.token_b_reserve == 0)
            &&& (self.token_a_reserve == 0) == (self.lp_supply == 0)
        }
    }

    /// A deposit of `amount_a` and `amount_b` by a provider.
    pub open spec fn add_liquidity_spec(self, provider_signed: bool, amount_a: u64, amount_b: u64) -> Result<
        Deposit,
        LiquidityPoolError,
    > {
        let shares = deposit_shares(
            amount_a as int,
            amount_b as int,
            self.token_a_reserve as int,
            self.token_b_reserve as int,
            self.lp_supply as int,
        );
        if !provider_signed {
            Err(LiquidityPoolError::MissingSignature)
        } else if !self.is_initialized {
            Err(LiquidityPoolError::NotInitialized)
        } else if amount_a == 0 || amount_b == 0 {
            Err(LiquidityPoolError::ZeroAmount)
        } else if shares == 0 {
            Err(LiquidityPoolError::DegenerateDeposit)
        } else if !fits_u64(self.token_a_reserve + amount_a) || !fits_u64(
            self.token_b_reserve + amount_b,
        ) || !fits_u64(self.lp_supply + shares) {
            Err(LiquidityPoolError::Overflow)
        } else {
            Ok(
                Deposit {
                    state: PoolState {
                        token_a_reserve: (self.token_a_reserve + amount_a) as u64,
                        token_b_reserve: (self.token_b_reserve + amount_b) as u64,
                        lp_supply: (self.lp_supply + shares) as u64,
                        ..self
                    },
                    shares: shares as u64,
                },
            )
        }
    }

    /// A withdrawal that burns `lp_amount` shares.
    pub open spec fn remove_liquidity_spec(self, provider_signed: bool, lp_amount: u64) -> Result<
        Withdrawal,
        LiquidityPoolError,
    > {
        let out_a = withdrawal_amount(
            lp_amount as int,
            self.token_a_reserve as int,
            self.lp_supply as int,
        );
        let out_b = withdrawal_amount(
            lp_amount as int,
            self.token_b_reserve as int,
            self.lp_supply as int,
        );
        if !provider_signed {
            Err(LiquidityPoolError::MissingSignature)
        } else if !self.is_initialized {
            Err(LiquidityPoolError::NotInitialized)
        } else if lp_amount == 0 {
            Err(LiquidityPoolError::ZeroAmount)
        } else if self.lp_supply == 0 {
            Err(LiquidityPoolError::NoLiquidity)
        } else if lp_amount > self.lp_supply {
            Err(LiquidityPoolError::InsufficientLiquidity)
        } else if out_a == 0 || out_b == 0 {
            Err(LiquidityPoolError::InsufficientLiquidity)
        } else {
            Ok(
                Withdrawal {
                    state: PoolState {
                        token_a_reserve: (self.token_a_reserve - out_a) as u64,
                        token_b_reserve: (self.token_b_reserve - out_b) as u64,
                        lp_supply: (self.lp_supply - lp_amount) as u64,
                        ..self
                    },
                    amount_a: out_a as u64,
                    amount_b: out_b as u64,
                },
            )
        }
    }

    /// A swap of `amount_in` into one side; `a_for_b` says the input is asset A.
    pub open spec fn swap_spec(self, swapper_signed: bool, a_for_b: bool, amount_in: u64) -> Result<
        SwapResult,
        LiquidityPoolError,
    > {
        let reserve_in = if a_for_b {
            self.token_a_reserve
        } else {
            self.token_b_reserve
        };
        let reserve_out = if a_for_b {
            self.token_b_reserve
        } else {
            self.token_a_reserve
        };
        let out = swap_output(reserve_in as int, reserve_out as int, amount_in as int);
        if !swapper_signed {
            Err(LiquidityPoolError::MissingSignature)
        } else if !self.is_initialized {
            Err(LiquidityPoolError::NotInitialized)
        } else if amount_in == 0 {
            Err(LiquidityPoolError::ZeroAmount)
        } else if self.token_a_reserve == 0 || self.token_b_reserve == 0 {
            Err(LiquidityPoolError::ZeroReserves)
        } else if out == 0 {
            Err(LiquidityPoolError::InsufficientOutput)
        } else if out == reserve_out {
            Err(LiquidityPoolError::InsufficientLiquidity)
        } else if !fits_u64(reserve_in + amount_in) {
            Err(LiquidityPoolError::Overflow)
        } else if a_for_b {
            Ok(
                SwapResult {
                    state: PoolState {
                        token_a_reserve: (reserve_in + amount_in) as u64,
                        token_b_reserve: (reserve_out - out) as u64,
                        ..self
                    },
                    amount_out: out as u64,
                },
            )
        } else {
            Ok(
                SwapResult {
                    state: PoolState {
                        token_a_reserve: (reserve_out - out) as u64,
                        token_b_reserve: (reserve_in + amount_in) as u64,
                        ..self
                    },
                    amount_out: out as u64,
                },
            )
        }
    }
}

} // verus!
