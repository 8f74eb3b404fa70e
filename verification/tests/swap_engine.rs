use amm_core::errors::AmmError;
use amm_core::pool::{Pool, Side, SwapResult};

fn pool(reserve_x: u64, reserve_y: u64, fee_bps: u16) -> Pool {
    Pool {
        reserve_x,
        reserve_y,
        lp_supply: 1_000_000,
        fee_bps,
        locked: false,
        seed: 7,
        config_bump: 254,
        decimals: 6,
        authority: None,
    }
}

fn assert_unchanged(p: &Pool, reserve_x: u64, reserve_y: u64) {
    assert_eq!(p.reserve_x, reserve_x);
    assert_eq!(p.reserve_y, reserve_y);
}

#[test]
fn swap_thirty_bps_example() {
    // 0.3% fee on 1000 keeps 997 working; the pool rounds its own side up.
    let mut p = pool(1_000_000, 1_000_000, 30);
    let r = p.swap(Side::X, 1000, 0);
    assert_eq!(r, Ok(SwapResult { amount_deposited: 1000, amount_withdrawn: 996 }));
    assert_eq!(p.reserve_x, 1_001_000);
    assert_eq!(p.reserve_y, 999_004);
}

#[test]
fn swap_side_y_exact() {
    let mut p = pool(2000, 500, 100);
    let r = p.swap(Side::Y, 100, 330);
    assert_eq!(r, Ok(SwapResult { amount_deposited: 100, amount_withdrawn: 330 }));
    assert_eq!(p.reserve_x, 1670);
    assert_eq!(p.reserve_y, 600);
}

#[test]
fn output_stays_below_reserve() {
    // Even a huge trade against a one-unit reserve cannot drain it.
    let mut p = pool(1, 1, 0);
    let r = p.swap(Side::X, u64::MAX - 1, 0);
    assert_eq!(r, Ok(SwapResult { amount_deposited: u64::MAX - 1, amount_withdrawn: 0 }));
    assert_eq!(p.reserve_y, 1);

    let mut q = pool(1_000_000, 1_000_000, 30);
    let r = q.swap(Side::X, u64::MAX / 2, 0);
    let out = r.unwrap().amount_withdrawn;
    assert!(out < 1_000_000);
}

#[test]
fn invariant_never_shrinks() {
    let cases: [(u64, u64, u16, u64); 5] = [
        (1_000_000, 1_000_000, 30, 1000),
        (2000, 500, 100, 100),
        (1, 1, 9999, 12345),
        (123_456_789, 987, 1, 55_555),
        (10, 10_000_000_000, 500, 3),
    ];
    for (rx, ry, fee, amount) in cases {
        let mut p = pool(rx, ry, fee);
        let r = p.swap(Side::X, amount, 0).unwrap();
        let before = rx as u128 * ry as u128;
        let after = p.reserve_x as u128 * p.reserve_y as u128;
        assert!(after >= before);
        if fee > 0 && r.amount_withdrawn < ry {
            assert!(after > before);
        }
    }
}

#[test]
fn invariant_equality_at_zero_fee() {
    // With no fee and exact division the product is preserved exactly.
    let mut p = pool(100, 100, 0);
    let r = p.swap(Side::X, 100, 0);
    assert_eq!(r, Ok(SwapResult { amount_deposited: 100, amount_withdrawn: 50 }));
    assert_eq!(p.reserve_x as u128 * p.reserve_y as u128, 100u128 * 100);
}

#[test]
fn zero_amount_rejected() {
    let mut p = pool(1_000_000, 1_000_000, 30);
    let r = p.swap(Side::X, 0, 0);
    assert_eq!(r, Err(AmmError::InvalidAmount));
    assert_unchanged(&p, 1_000_000, 1_000_000);
    assert!(!p.locked);
}

#[test]
fn locked_pool_rejected() {
    let mut p = pool(1_000_000, 1_000_000, 30);
    p.locked = true;
    // The lock guard fires before any other check, whatever the parameters.
    assert_eq!(p.swap(Side::X, 1000, 0), Err(AmmError::PoolLocked));
    assert_eq!(p.swap(Side::Y, 0, 0), Err(AmmError::PoolLocked));
    assert_eq!(p.swap(Side::Y, u64::MAX, u64::MAX), Err(AmmError::PoolLocked));
    assert_unchanged(&p, 1_000_000, 1_000_000);
}

#[test]
fn slippage_floor_enforced() {
    let mut p = pool(1_000_000, 1_000_000, 30);
    let r = p.swap(Side::X, 1000, 997);
    assert_eq!(r, Err(AmmError::SlippageExceeded));
    assert_unchanged(&p, 1_000_000, 1_000_000);
    // The floor is inclusive: the exact quote passes.
    let r = p.swap(Side::X, 1000, 996);
    assert_eq!(r, Ok(SwapResult { amount_deposited: 1000, amount_withdrawn: 996 }));
}

#[test]
fn empty_reserve_rejected() {
    let mut p = pool(0, 1_000_000, 30);
    assert_eq!(p.swap(Side::X, 1000, 0), Err(AmmError::InsufficientLiquidity));
    assert_unchanged(&p, 0, 1_000_000);
    let mut q = pool(1_000_000, 0, 30);
    assert_eq!(q.swap(Side::X, 1000, 0), Err(AmmError::InsufficientLiquidity));
    assert_unchanged(&q, 1_000_000, 0);
}

#[test]
fn receiving_vault_overflow_rejected() {
    let mut p = pool(u64::MAX, 1_000_000, 30);
    assert_eq!(p.swap(Side::X, 1, 0), Err(AmmError::MathOverflow));
    assert_unchanged(&p, u64::MAX, 1_000_000);
}

#[test]
fn round_trip_returns_less() {
    let mut p = pool(1_000_000, 1_000_000, 30);
    let first = p.swap(Side::X, 1000, 0).unwrap();
    assert_eq!(first.amount_withdrawn, 996);
    let second = p.swap(Side::Y, first.amount_withdrawn, 0).unwrap();
    assert_eq!(second.amount_withdrawn, 993);
    assert!(second.amount_withdrawn < 1000);
}

#[test]
fn settlement_legs_move_exact_amounts() {
    let mut p = pool(500, 500, 0);
    p.deposit_tokens(true, 25).unwrap();
    assert_unchanged(&p, 525, 500);
    p.deposit_tokens(false, 10).unwrap();
    assert_unchanged(&p, 525, 510);
    p.withdraw_tokens(true, 25).unwrap();
    assert_unchanged(&p, 500, 510);
    p.withdraw_tokens(false, 510).unwrap();
    assert_unchanged(&p, 500, 0);
    assert_eq!(p.withdraw_tokens(false, 1), Err(AmmError::InsufficientLiquidity));
    assert_eq!(p.deposit_tokens(true, u64::MAX), Err(AmmError::MathOverflow));
    assert_unchanged(&p, 500, 0);
}
