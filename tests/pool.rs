use auction_pool::address::Address;
use auction_pool::pool::{
    initialize_pool, initialize_pool_with, LiquidityPoolError, LiquidityPoolInstruction, PoolState,
    POOL_LEN,
};
use solana_program::pubkey::Pubkey;
#[allow(deprecated)]
use spl_token::error::TokenError;

fn addr(b: u8) -> Address {
    Address::new([b; 32])
}

fn live_pool(reserve_a: u64, reserve_b: u64, supply: u64) -> PoolState {
    PoolState {
        is_initialized: true,
        token_a_mint: addr(1),
        token_b_mint: addr(2),
        token_a_reserve: reserve_a,
        token_b_reserve: reserve_b,
        lp_mint: addr(3),
        lp_supply: supply,
        bump_seed: 254,
    }
}

fn blank_record() -> PoolState {
    PoolState {
        is_initialized: false,
        token_a_mint: Address::none(),
        token_b_mint: Address::none(),
        token_a_reserve: 0,
        token_b_reserve: 0,
        lp_mint: Address::none(),
        lp_supply: 0,
        bump_seed: 0,
    }
}

fn init(amount_a: u64, amount_b: u64) -> Result<auction_pool::pool::PoolInit, LiquidityPoolError> {
    initialize_pool_with(
        Some((addr(9), 253)),
        true,
        &addr(9),
        &blank_record(),
        true,
        &addr(1),
        &addr(2),
        &addr(3),
        amount_a,
        amount_b,
    )
}

#[test]
fn initial_shares_are_geometric_mean_then_swap_pays_364() {
    let created = init(1000, 4000).unwrap();
    assert_eq!(created.shares, 2000);
    let s = created.state;
    assert!(s.is_initialized);
    assert_eq!((s.token_a_reserve, s.token_b_reserve, s.lp_supply, s.bump_seed), (1000, 4000, 2000, 253));
    assert!(s.token_a_mint == addr(1) && s.token_b_mint == addr(2) && s.lp_mint == addr(3));
    let swapped = s.swap_a_for_b(true, 100).unwrap();
    assert_eq!(swapped.amount_out, 364);
    assert_eq!(swapped.state.token_a_reserve, 1100);
    assert_eq!(swapped.state.token_b_reserve, 3636);
    assert_eq!(swapped.state.lp_supply, 2000);
}

#[test]
fn initial_shares_round_down() {
    assert_eq!(init(2, 3).unwrap().shares, 2);
    assert_eq!(init(u64::MAX, u64::MAX).unwrap().shares, u64::MAX);
    assert_eq!(init(1, 1).unwrap().shares, 1);
}

#[test]
fn initialize_rejections() {
    let ok = |signed: bool, derived: Option<(Address, u8)>, rec: PoolState, funded: bool, b: Address, x: u64, y: u64| {
        initialize_pool_with(derived, signed, &addr(9), &rec, funded, &addr(1), &b, &addr(3), x, y)
    };
    let d = Some((addr(9), 1));
    assert_eq!(ok(false, d, blank_record(), true, addr(2), 1, 1).unwrap_err(), LiquidityPoolError::MissingSignature);
    assert_eq!(ok(true, Some((addr(8), 1)), blank_record(), true, addr(2), 1, 1).unwrap_err(), LiquidityPoolError::SeedMismatch);
    assert_eq!(ok(true, None, blank_record(), true, addr(2), 1, 1).unwrap_err(), LiquidityPoolError::SeedMismatch);
    assert_eq!(ok(true, d, blank_record(), true, addr(1), 1, 1).unwrap_err(), LiquidityPoolError::IdenticalAssets);
    assert_eq!(ok(true, d, live_pool(1, 1, 1), true, addr(2), 1, 1).unwrap_err(), LiquidityPoolError::AlreadyInitialized);
    assert_eq!(ok(true, d, blank_record(), false, addr(2), 1, 1).unwrap_err(), LiquidityPoolError::UnderfundedStorage);
    assert_eq!(ok(true, d, blank_record(), true, addr(2), 0, 1).unwrap_err(), LiquidityPoolError::ZeroAmount);
    assert_eq!(ok(true, d, blank_record(), true, addr(2), 1, 0).unwrap_err(), LiquidityPoolError::ZeroAmount);
}

#[test]
fn initialize_checks_the_derived_address() {
    let program = Pubkey::new_from_array([7u8; 32]);
    let mint_a = [1u8; 32];
    let mint_b = [2u8; 32];
    let (pda, bump) = Pubkey::find_program_address(&[b"liquidity_pool", &mint_a, &mint_b], &program);
    let program_id = Address::new(program.to_bytes());
    let key = Address::new(pda.to_bytes());
    let created = initialize_pool(
        &program_id, true, &key, &blank_record(), true, &Address::new(mint_a), &Address::new(mint_b), &addr(3), 1000, 4000,
    )
    .unwrap();
    assert_eq!(created.state.bump_seed, bump);
    let wrong = initialize_pool(
        &program_id, true, &Address::new(program.to_bytes()), &blank_record(), true, &Address::new(mint_a), &Address::new(mint_b), &addr(3), 1000, 4000,
    );
    assert_eq!(wrong.unwrap_err(), LiquidityPoolError::SeedMismatch);
    let swapped_mints = initialize_pool(
        &program_id, true, &key, &blank_record(), true, &Address::new(mint_b), &Address::new(mint_a), &addr(3), 1000, 4000,
    );
    assert_eq!(swapped_mints.unwrap_err(), LiquidityPoolError::SeedMismatch);
}

#[test]
fn signer_seeds_carry_the_bump() {
    let s = live_pool(1, 1, 1);
    let seeds = s.signer_seeds();
    assert_eq!(seeds, vec![b"liquidity_pool".to_vec(), vec![1u8; 32], vec![2u8; 32], vec![254u8]]);
}

#[test]
fn add_liquidity_mints_by_the_weaker_side() {
    let s = live_pool(1000, 4000, 2000);
    let d = s.add_liquidity(true, 100, 800).unwrap();
    assert_eq!(d.shares, 200);
    assert_eq!((d.state.token_a_reserve, d.state.token_b_reserve, d.state.lp_supply), (1100, 4800, 2200));
    let d = s.add_liquidity(true, 500, 400).unwrap();
    assert_eq!(d.shares, 200);
}

#[test]
fn add_liquidity_rejections() {
    let s = live_pool(1000, 4000, 2000);
    assert_eq!(s.add_liquidity(false, 1, 1).unwrap_err(), LiquidityPoolError::MissingSignature);
    assert_eq!(blank_record().add_liquidity(true, 1, 1).unwrap_err(), LiquidityPoolError::NotInitialized);
    assert_eq!(s.add_liquidity(true, 0, 1).unwrap_err(), LiquidityPoolError::ZeroAmount);
    assert_eq!(s.add_liquidity(true, 1, 1).unwrap_err(), LiquidityPoolError::DegenerateDeposit);
    assert_eq!(live_pool(0, 0, 0).add_liquidity(true, 10, 10).unwrap_err(), LiquidityPoolError::DegenerateDeposit);
    let full = live_pool(u64::MAX - 1, 4000, 2000);
    assert_eq!(full.add_liquidity(true, u64::MAX / 2, 4000).unwrap_err(), LiquidityPoolError::Overflow);
}

#[test]
fn remove_liquidity_pays_proportionally() {
    let s = live_pool(1000, 4000, 2000);
    let w = s.remove_liquidity(true, 500).unwrap();
    assert_eq!((w.amount_a, w.amount_b), (250, 1000));
    assert_eq!((w.state.token_a_reserve, w.state.token_b_reserve, w.state.lp_supply), (750, 3000, 1500));
    let all = s.remove_liquidity(true, 2000).unwrap();
    assert_eq!((all.amount_a, all.amount_b, all.state.lp_supply), (1000, 4000, 0));
    let w = live_pool(1000, 4001, 3).remove_liquidity(true, 1).unwrap();
    assert_eq!((w.amount_a, w.amount_b), (333, 1333));
}

#[test]
fn remove_more_than_supply_fails() {
    let s = live_pool(1000, 4000, 2000);
    assert_eq!(s.remove_liquidity(true, 2001).unwrap_err(), LiquidityPoolError::InsufficientLiquidity);
    assert_eq!(s.remove_liquidity(true, u64::MAX).unwrap_err(), LiquidityPoolError::InsufficientLiquidity);
}

#[test]
fn remove_liquidity_rejections() {
    let s = live_pool(1000, 4000, 2000);
    assert_eq!(s.remove_liquidity(false, 1).unwrap_err(), LiquidityPoolError::MissingSignature);
    assert_eq!(blank_record().remove_liquidity(true, 1).unwrap_err(), LiquidityPoolError::NotInitialized);
    assert_eq!(s.remove_liquidity(true, 0).unwrap_err(), LiquidityPoolError::ZeroAmount);
    assert_eq!(live_pool(0, 0, 0).remove_liquidity(true, 1).unwrap_err(), LiquidityPoolError::NoLiquidity);
    assert_eq!(live_pool(1, 4000, 2000).remove_liquidity(true, 1).unwrap_err(), LiquidityPoolError::InsufficientLiquidity);
}

#[test]
fn withdraw_then_deposit_mints_no_more_than_burned() {
    let s = live_pool(1000, 4000, 2000);
    let w = s.remove_liquidity(true, 500).unwrap();
    let d = w.state.add_liquidity(true, w.amount_a, w.amount_b).unwrap();
    assert_eq!(d.shares, 500);
    let s = live_pool(1001, 4003, 2000);
    let w = s.remove_liquidity(true, 7).unwrap();
    let d = w.state.add_liquidity(true, w.amount_a, w.amount_b).unwrap();
    assert!(d.shares <= 7);
}

#[test]
fn swap_keeps_product_when_exact_and_loses_rounding_otherwise() {
    let s = live_pool(1000, 4000, 2000);
    let exact = s.swap_a_for_b(true, 1000).unwrap();
    assert_eq!(exact.amount_out, 2000);
    let after = exact.state.token_a_reserve as u128 * exact.state.token_b_reserve as u128;
    assert_eq!(after, 4_000_000);
    let rounded = s.swap_a_for_b(true, 100).unwrap();
    let after = rounded.state.token_a_reserve as u128 * rounded.state.token_b_reserve as u128;
    assert_eq!(after, 3_999_600);
}

#[test]
fn swap_b_for_a_pays_out_asset_a() {
    let s = live_pool(1000, 4000, 2000);
    let r = s.swap_b_for_a(true, 400).unwrap();
    assert_eq!(r.amount_out, 91);
    assert_eq!((r.state.token_a_reserve, r.state.token_b_reserve), (909, 4400));
}

#[test]
fn swap_rejections() {
    let s = live_pool(1000, 4000, 2000);
    assert_eq!(s.swap_a_for_b(false, 1).unwrap_err(), LiquidityPoolError::MissingSignature);
    assert_eq!(blank_record().swap_a_for_b(true, 1).unwrap_err(), LiquidityPoolError::NotInitialized);
    assert_eq!(s.swap_b_for_a(true, 0).unwrap_err(), LiquidityPoolError::ZeroAmount);
    assert_eq!(live_pool(0, 5, 1).swap_a_for_b(true, 1).unwrap_err(), LiquidityPoolError::ZeroReserves);
    assert_eq!(live_pool(1, 1, 1).swap_a_for_b(true, 1).unwrap_err(), LiquidityPoolError::InsufficientLiquidity);
    let deep = live_pool(u64::MAX - 1, u64::MAX, 1);
    assert_eq!(deep.swap_a_for_b(true, u64::MAX).unwrap_err(), LiquidityPoolError::Overflow);
}

#[test]
fn pool_record_round_trip() {
    let s = live_pool(0x0102_0304_0506_0708, u64::MAX, 42);
    let bytes = s.pack();
    assert_eq!(bytes.len(), POOL_LEN);
    assert_eq!(bytes[0], 1);
    assert_eq!(&bytes[65..73], &[8, 7, 6, 5, 4, 3, 2, 1]);
    assert_eq!(bytes[121], 254);
    let back = PoolState::unpack_from_slice(&bytes).unwrap();
    assert_eq!(back.token_a_reserve, s.token_a_reserve);
    assert_eq!(back.token_b_reserve, u64::MAX);
    assert_eq!(back.lp_supply, 42);
    assert!(back.token_a_mint == s.token_a_mint && back.lp_mint == s.lp_mint);
    let mut slot = vec![0u8; POOL_LEN];
    s.pack_into_slice(&mut slot);
    assert_eq!(slot, bytes);
    assert!(PoolState::unpack_from_slice(&bytes[..121]).is_err());
    let mut bad = bytes.clone();
    bad[0] = 2;
    assert_eq!(PoolState::unpack_from_slice(&bad).unwrap_err(), LiquidityPoolError::InvalidRecord);
    assert!(!PoolState::unpack_from_slice(&vec![0u8; POOL_LEN]).unwrap().is_initialized());
}

#[test]
fn pool_instruction_bytes() {
    let i = LiquidityPoolInstruction::AddLiquidity { amount_a: 5, amount_b: 256 };
    let b = i.pack();
    assert_eq!(b, vec![1, 5, 0, 0, 0, 0, 0, 0, 0, 0, 1, 0, 0, 0, 0, 0, 0]);
    assert_eq!(LiquidityPoolInstruction::unpack(&b).unwrap(), i);
    let r = LiquidityPoolInstruction::unpack(&[4, 9, 0, 0, 0, 0, 0, 0, 0]).unwrap();
    assert_eq!(r, LiquidityPoolInstruction::SwapBforA { amount_b_in: 9 });
    assert_eq!(LiquidityPoolInstruction::unpack(&[5, 9, 0, 0, 0, 0, 0, 0, 0]).unwrap_err(), LiquidityPoolError::InvalidInstruction);
    assert_eq!(LiquidityPoolInstruction::unpack(&[2, 9]).unwrap_err(), LiquidityPoolError::InvalidInstruction);
    assert_eq!(LiquidityPoolInstruction::unpack(&[]).unwrap_err(), LiquidityPoolError::InvalidInstruction);
}

#[test]
fn token_errors_map_to_pool_errors() {
    assert_eq!(LiquidityPoolError::from(TokenError::InsufficientFunds), LiquidityPoolError::InsufficientLiquidity);
    assert_eq!(LiquidityPoolError::from(TokenError::OwnerMismatch), LiquidityPoolError::InvalidInstruction);
}

#[test]
fn pool_error_codes() {
    assert_eq!(LiquidityPoolError::InvalidInstruction.code(), 0);
    assert_eq!(LiquidityPoolError::InsufficientLiquidity.code(), 10);
    assert_eq!(LiquidityPoolError::InvalidRecord.code(), 14);
}
