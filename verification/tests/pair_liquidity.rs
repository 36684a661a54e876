use amm_pair::pair::{
    Config, LockCtx, LockState, Pair, PairError, PairEvent, ReplyOutcome, TokenAction,
};
use amm_pair::u256::U256;

const TOKEN0: u64 = 1;
const TOKEN1: u64 = 2;
const ADMIN: u64 = 9;
const FACTORY: u64 = 8;
const USER: u64 = 42;
const E18: u128 = 1_000_000_000_000_000_000;

fn u(x: u128) -> U256 {
    U256::from_u128(x)
}

fn cfg() -> Config {
    Config { gas_for_token_ops: 10, gas_for_reply_deposit: 5, reply_timeout: 100, gas_for_full_tx: 50 }
}

fn new_pair(fee_to: u64, treasury: u64) -> Pair {
    Pair::init(cfg(), TOKEN0, TOKEN1, fee_to, treasury, ADMIN, FACTORY)
}

/// Runs an add-liquidity to completion with both transfers succeeding.
fn add_liquidity_ok(pair: &mut Pair, user: u64, a: u128, b: u128) -> PairEvent {
    pair.add_liquidity(user, u(a), u(b), u(0), u(0), 0, 10).unwrap();
    match pair.handle_token_reply(true) {
        ReplyOutcome::Next(_) => {}
        other => panic!("expected the token1 leg, got {:?}", other),
    }
    match pair.handle_token_reply(true) {
        ReplyOutcome::Completed(ev) => ev,
        other => panic!("expected completion, got {:?}", other),
    }
}

#[test]
fn test_add_liquidity_expired_deadline() {
    let mut pair = new_pair(0, 0);
    let r = pair.add_liquidity(USER, u(10 * E18), u(10 * E18), u(0), u(0), 11, 10);
    assert_eq!(r, Err(PairError::DeadlineExpired));
    assert_eq!(pair.lock(), LockState::Free);
}

#[test]
fn first_deposit_one_to_one() {
    // deposit (10e18, 10e18) into an empty pool
    let mut pair = new_pair(0, 0);
    let act = pair.add_liquidity(USER, u(10 * E18), u(10 * E18), u(5 * E18), u(5 * E18), 0, 10);
    assert_eq!(
        act,
        Ok(TokenAction::TransferFrom { token: TOKEN0, from: USER, amount: u(10 * E18) })
    );
    let next = pair.handle_token_reply(true);
    assert_eq!(
        next,
        ReplyOutcome::Next(TokenAction::TransferFrom {
            token: TOKEN1,
            from: USER,
            amount: u(10 * E18)
        })
    );
    let done = pair.handle_token_reply(true);
    let expected_lp = u(10 * E18 - 1000);
    assert_eq!(
        done,
        ReplyOutcome::Completed(PairEvent::LiquidityAdded {
            user: USER,
            amount_a: u(10 * E18),
            amount_b: u(10 * E18),
            liquidity: expected_lp
        })
    );
    assert_eq!(pair.get_reserves(), (u(10 * E18), u(10 * E18)));
    assert_eq!(pair.lp.total_supply(), u(10 * E18));
    assert_eq!(pair.lp.balance_of(USER), expected_lp);
    // the minimum liquidity sits at the zero identity forever
    assert_eq!(pair.lp.balance_of(0), u(1000));
    assert_eq!(pair.lock(), LockState::Free);
}

#[test]
fn test_first_liquidity_balanced_amounts() {
    let mut pair = new_pair(0, 0);
    let ev = add_liquidity_ok(&mut pair, USER, 10 * E18, 15 * E18);
    let expected = u(12_247_448_713_915_889_490);
    assert_eq!(
        ev,
        PairEvent::LiquidityAdded {
            user: USER,
            amount_a: u(10 * E18),
            amount_b: u(15 * E18),
            liquidity: expected
        }
    );
    assert_eq!(pair.lp.total_supply(), expected.checked_add(&u(1000)).unwrap());
}

#[test]
fn test_first_liquidity_minimum_amounts() {
    let mut pair = new_pair(0, 0);
    pair.add_liquidity(USER, u(1000), u(1000), u(1000), u(1000), 0, 10).unwrap();
    pair.handle_token_reply(true);
    let done = pair.handle_token_reply(true);
    assert_eq!(done, ReplyOutcome::Failed(PairError::InsufficientLiquidityMinted));
    assert_eq!(pair.lock(), LockState::Free);
    assert_eq!(pair.get_reserves(), (u(0), u(0)));
}

#[test]
fn test_add_liquidity_subsequent_perfect_ratio() {
    let mut pair = new_pair(0, 0);
    add_liquidity_ok(&mut pair, USER, 10_000 * E18, 20_000 * E18);
    let supply_before = pair.lp.total_supply();
    let ev = add_liquidity_ok(&mut pair, 43, 5_000 * E18, 10_000 * E18);
    // a 1:2 deposit against 1:2 reserves is used in full
    assert_eq!(
        ev,
        PairEvent::LiquidityAdded {
            user: 43,
            amount_a: u(5_000 * E18),
            amount_b: u(10_000 * E18),
            liquidity: u(7_071_067_811_865_475_244_008)
        }
    );
    assert_eq!(supply_before, u(14_142_135_623_730_950_488_016));
    assert_eq!(pair.get_reserves(), (u(15_000 * E18), u(30_000 * E18)));
}

#[test]
fn second_deposit_perfect_ratio_small() {
    // after a (10e18, 10e18) pool, a 123456e12 deposit mints 1:1
    let mut pair = new_pair(0, 0);
    add_liquidity_ok(&mut pair, USER, 10 * E18, 10 * E18);
    let amt = 123_456 * 1_000_000_000_000u128;
    let ev = add_liquidity_ok(&mut pair, 43, amt, amt);
    assert_eq!(
        ev,
        PairEvent::LiquidityAdded {
            user: 43,
            amount_a: u(amt),
            amount_b: u(amt),
            liquidity: u(amt)
        }
    );
    assert_eq!(pair.get_reserves(), (u(10 * E18 + amt), u(10 * E18 + amt)));
    assert_eq!(pair.lp.total_supply(), u(10 * E18 + amt));
}

#[test]
fn test_add_liquidity_subsequent_excess_token_a() {
    let mut pair = new_pair(0, 0);
    add_liquidity_ok(&mut pair, USER, 10_000 * E18, 20_000 * E18);
    // desired 2:2 against 1:2 reserves: only (1000, 2000) of (2000, 2000) used
    let ev = add_liquidity_ok(&mut pair, 43, 2_000 * E18, 2_000 * E18);
    match ev {
        PairEvent::LiquidityAdded { amount_a, amount_b, .. } => {
            assert_eq!(amount_a, u(1_000 * E18));
            assert_eq!(amount_b, u(2_000 * E18));
        }
        other => panic!("unexpected event {:?}", other),
    }
}

#[test]
fn test_add_liquidity_insufficient_minimum_amounts() {
    let mut pair = new_pair(0, 0);
    add_liquidity_ok(&mut pair, USER, 10_000 * E18, 20_000 * E18);
    // the B side would be 2000e18, under the 2001e18 minimum
    let r = pair.add_liquidity(43, u(1_000 * E18), u(3_000 * E18), u(0), u(2_001 * E18), 0, 10);
    assert_eq!(r, Err(PairError::InsufficientAmountB));
    assert_eq!(pair.lock(), LockState::Free);
}

#[test]
fn test_add_liquidity_zero_amounts() {
    let mut pair = new_pair(0, 0);
    pair.add_liquidity(USER, u(0), u(0), u(0), u(0), 0, 10).unwrap();
    pair.handle_token_reply(true);
    let done = pair.handle_token_reply(true);
    assert_eq!(done, ReplyOutcome::Failed(PairError::InsufficientLiquidityMinted));
}

#[test]
fn add_liquidity_rejected_while_busy() {
    let mut pair = new_pair(0, 0);
    pair.add_liquidity(USER, u(10 * E18), u(10 * E18), u(0), u(0), 0, 10).unwrap();
    let r = pair.add_liquidity(43, u(10 * E18), u(10 * E18), u(0), u(0), 0, 10);
    assert_eq!(r, Err(PairError::AnotherTxInProgress));
}

#[test]
fn add_liquidity_first_leg_failure_frees_the_lock() {
    let mut pair = new_pair(0, 0);
    pair.add_liquidity(USER, u(10 * E18), u(10 * E18), u(0), u(0), 0, 10).unwrap();
    let out = pair.handle_token_reply(false);
    assert_eq!(out, ReplyOutcome::Failed(PairError::TokenTransferFailed));
    assert_eq!(pair.lock(), LockState::Free);
    assert_eq!(pair.get_reserves(), (u(0), u(0)));
}

#[test]
fn add_liquidity_recovery() {
    // token1 leg fails, the refund of token0 also fails: the pair pauses
    // until the operator replays the refund
    let mut pair = new_pair(0, 0);
    pair.add_liquidity(USER, u(10 * E18), u(10 * E18), u(0), u(0), 0, 10).unwrap();
    pair.handle_token_reply(true);
    let refund = pair.handle_token_reply(false);
    assert_eq!(
        refund,
        ReplyOutcome::Next(TokenAction::Transfer { token: TOKEN0, to: USER, amount: u(10 * E18) })
    );
    let paused = pair.handle_token_reply(false);
    assert_eq!(paused, ReplyOutcome::Paused(PairError::TokenTransferFailed));
    match pair.lock() {
        LockState::Paused(LockCtx::AddLiqRefund { user, amount_a, .. }) => {
            assert_eq!(user, USER);
            assert_eq!(amount_a, u(10 * E18));
        }
        other => panic!("expected a paused refund, got {:?}", other),
    }
    // only the admin may recover
    assert_eq!(pair.recover_paused(USER), Err(PairError::Unauthorized));
    let act = pair.recover_paused(ADMIN);
    assert_eq!(
        act,
        Ok(TokenAction::Transfer { token: TOKEN0, to: USER, amount: u(10 * E18) })
    );
    let out = pair.handle_token_reply(true);
    assert_eq!(out, ReplyOutcome::Failed(PairError::TokenTransferFailed));
    assert_eq!(pair.lock(), LockState::Free);
    assert_eq!(pair.get_reserves(), (u(0), u(0)));
}

#[test]
fn test_remove_liquidity_basic() {
    // P: removing the whole first deposit pays back a*L/(L+1000) of each
    let mut pair = new_pair(0, 0);
    add_liquidity_ok(&mut pair, USER, 10 * E18, 10 * E18);
    let l = u(10 * E18 - 1000);
    let act = pair.remove_liquidity(USER, l, u(0), u(0), 0, 10);
    let expected = u(10 * E18 - 1000);
    assert_eq!(
        act,
        Ok(TokenAction::Transfer { token: TOKEN0, to: USER, amount: expected })
    );
    // shares burn at entry
    assert_eq!(pair.lp.balance_of(USER), u(0));
    assert_eq!(pair.lp.total_supply(), u(1000));
    let next = pair.handle_token_reply(true);
    assert_eq!(
        next,
        ReplyOutcome::Next(TokenAction::Transfer { token: TOKEN1, to: USER, amount: expected })
    );
    let done = pair.handle_token_reply(true);
    assert_eq!(
        done,
        ReplyOutcome::Completed(PairEvent::LiquidityRemoved {
            user: USER,
            amount_a: expected,
            amount_b: expected,
            liquidity: l
        })
    );
    // strictly less than the deposit: the minimum liquidity stays locked
    assert_eq!(pair.get_reserves(), (u(1000), u(1000)));
}

#[test]
fn test_remove_liquidity_insufficient_minimum() {
    let mut pair = new_pair(0, 0);
    add_liquidity_ok(&mut pair, USER, 10 * E18, 10 * E18);
    let l = u(E18);
    let r = pair.remove_liquidity(USER, l, u(2 * E18), u(0), 0, 10);
    assert_eq!(r, Err(PairError::InsufficientAmountA));
    assert_eq!(pair.lp.balance_of(USER), u(10 * E18 - 1000));
}

#[test]
fn test_remove_liquidity_expired_deadline() {
    let mut pair = new_pair(0, 0);
    add_liquidity_ok(&mut pair, USER, 10 * E18, 10 * E18);
    let r = pair.remove_liquidity(USER, u(E18), u(0), u(0), 99, 10);
    assert_eq!(r, Err(PairError::DeadlineExpired));
}

#[test]
fn remove_liquidity_rejects_zero_shares() {
    let mut pair = new_pair(0, 0);
    add_liquidity_ok(&mut pair, USER, 10 * E18, 10 * E18);
    let r = pair.remove_liquidity(USER, u(0), u(0), u(0), 0, 10);
    assert_eq!(r, Err(PairError::ZeroLiquidity));
}

#[test]
fn remove_liquidity_rejects_more_than_held() {
    let mut pair = new_pair(0, 0);
    add_liquidity_ok(&mut pair, USER, 10 * E18, 10 * E18);
    let r = pair.remove_liquidity(USER, u(10 * E18), u(0), u(0), 0, 10);
    assert_eq!(r, Err(PairError::InsufficientLiquidity));
}

#[test]
fn remove_liquidity_recovery_unlock_b() {
    // the token1 payout fails after shares burned: the pair pauses, and the
    // operator replays the leg to completion
    let mut pair = new_pair(0, 0);
    add_liquidity_ok(&mut pair, USER, 10 * E18, 10 * E18);
    let l = u(4 * E18);
    pair.remove_liquidity(USER, l, u(0), u(0), 0, 10).unwrap();
    pair.handle_token_reply(true);
    let paused = pair.handle_token_reply(false);
    assert_eq!(paused, ReplyOutcome::Paused(PairError::TokenTransferFailed));
    // reserves untouched while paused
    assert_eq!(pair.get_reserves(), (u(10 * E18), u(10 * E18)));
    let act = pair.recover_paused(ADMIN).unwrap();
    assert_eq!(act, TokenAction::Transfer { token: TOKEN1, to: USER, amount: u(4 * E18) });
    let done = pair.handle_token_reply(true);
    assert_eq!(
        done,
        ReplyOutcome::Completed(PairEvent::LiquidityRemoved {
            user: USER,
            amount_a: u(4 * E18),
            amount_b: u(4 * E18),
            liquidity: l
        })
    );
    assert_eq!(pair.get_reserves(), (u(6 * E18), u(6 * E18)));
}

#[test]
fn protocol_fee_accrues_to_fee_to_on_growth() {
    // with fee_to set, k_last tracks the product and later growth mints
    let fee_to: u64 = 77;
    let mut pair = new_pair(fee_to, 0);
    add_liquidity_ok(&mut pair, USER, 10_000 * E18, 10_000 * E18);
    let k = pair.k_last;
    assert_eq!(k, u(10_000 * E18).checked_mul(&u(10_000 * E18)).unwrap());
    // swap to grow k
    pair.swap_exact_tokens_for_tokens(USER, u(100 * E18), u(0), true, 0, 10).unwrap();
    pair.handle_token_reply(true);
    match pair.handle_token_reply(true) {
        ReplyOutcome::Completed(PairEvent::Swap { .. }) => {}
        other => panic!("unexpected {:?}", other),
    }
    let fee = pair.calculate_protocol_fee();
    assert!(!fee.is_zero());
    // the next liquidity event mints it
    add_liquidity_ok(&mut pair, USER, 100 * E18, 100 * E18);
    assert_eq!(pair.lp.balance_of(fee_to), fee);
}

#[test]
fn test_migrate_all_liquidity_transfers_funds_and_disables_pool() {
    let mut pair = new_pair(0, 0);
    add_liquidity_ok(&mut pair, USER, 10 * E18, 10 * E18);
    let act = pair.migrate_all_liquidity(ADMIN, 55, u(10 * E18), u(10 * E18));
    assert_eq!(
        act,
        Ok(TokenAction::Transfer { token: TOKEN0, to: 55, amount: u(10 * E18) })
    );
    let next = pair.handle_token_reply(true);
    assert_eq!(
        next,
        ReplyOutcome::Next(TokenAction::Transfer { token: TOKEN1, to: 55, amount: u(10 * E18) })
    );
    let done = pair.handle_token_reply(true);
    assert_eq!(
        done,
        ReplyOutcome::Completed(PairEvent::LiquidityMigrated {
            target: 55,
            amount0: u(10 * E18),
            amount1: u(10 * E18)
        })
    );
    assert!(pair.migrated());
    assert_eq!(pair.get_reserves(), (u(0), u(0)));
    assert_eq!(pair.k_last, u(0));
    // every later mutator rejects
    let r = pair.add_liquidity(USER, u(E18), u(E18), u(0), u(0), 0, 10);
    assert_eq!(r, Err(PairError::PoolMigrated));
    let r = pair.swap_exact_tokens_for_tokens(USER, u(E18), u(0), true, 0, 10);
    assert_eq!(r, Err(PairError::PoolMigrated));
    let r = pair.remove_liquidity(USER, u(E18), u(0), u(0), 0, 10);
    assert_eq!(r, Err(PairError::PoolMigrated));
    let r = pair.migrate_all_liquidity(ADMIN, 55, u(E18), u(E18));
    assert_eq!(r, Err(PairError::PoolMigrated));
}

#[test]
fn test_migrate_all_liquidity_only_admin_can_call() {
    let mut pair = new_pair(0, 0);
    add_liquidity_ok(&mut pair, USER, 10 * E18, 10 * E18);
    let r = pair.migrate_all_liquidity(USER, 55, u(10 * E18), u(10 * E18));
    assert_eq!(r, Err(PairError::Unauthorized));
}

#[test]
fn migrate_rejects_an_empty_pool() {
    let mut pair = new_pair(0, 0);
    let r = pair.migrate_all_liquidity(ADMIN, 55, u(0), u(0));
    assert_eq!(r, Err(PairError::NoLiquidityToMigrate));
}

#[test]
fn migration_recovery_send_token1() {
    let mut pair = new_pair(0, 0);
    add_liquidity_ok(&mut pair, USER, 10 * E18, 10 * E18);
    pair.migrate_all_liquidity(ADMIN, 55, u(10 * E18), u(10 * E18)).unwrap();
    pair.handle_token_reply(true);
    let paused = pair.handle_token_reply(false);
    assert_eq!(paused, ReplyOutcome::Paused(PairError::TokenTransferFailed));
    assert!(!pair.migrated());
    let act = pair.recover_paused(ADMIN).unwrap();
    assert_eq!(act, TokenAction::Transfer { token: TOKEN1, to: 55, amount: u(10 * E18) });
    match pair.handle_token_reply(true) {
        ReplyOutcome::Completed(PairEvent::LiquidityMigrated { .. }) => {}
        other => panic!("unexpected {:?}", other),
    }
    assert!(pair.migrated());
}

#[test]
fn emergency_gate_blocks_new_operations() {
    let mut pair = new_pair(0, 0);
    add_liquidity_ok(&mut pair, USER, 10 * E18, 10 * E18);
    assert_eq!(pair.set_lock(USER, true), Err(PairError::Unauthorized));
    pair.set_lock(ADMIN, true).unwrap();
    let r = pair.add_liquidity(USER, u(E18), u(E18), u(0), u(0), 0, 10);
    assert_eq!(r, Err(PairError::AnotherTxInProgress));
    pair.set_lock(ADMIN, false).unwrap();
    add_liquidity_ok(&mut pair, USER, E18, E18);
}

#[test]
fn admin_setters_check_their_callers() {
    let mut pair = new_pair(0, 0);
    assert_eq!(pair.change_fee_to(ADMIN, 7), Err(PairError::Unauthorized));
    assert_eq!(pair.change_fee_to(FACTORY, 7), Ok(()));
    assert_eq!(pair.fee_to, 7);
    assert_eq!(pair.change_treasury_id(FACTORY, 3), Err(PairError::Unauthorized));
    assert_eq!(pair.change_treasury_id(ADMIN, 3), Ok(()));
    assert_eq!(pair.get_treasury_info().0, 3);
}

#[test]
fn gas_budget_is_enforced_at_entry() {
    let pair = new_pair(0, 0);
    assert_eq!(pair.ensure_gas(49), Err(PairError::NotEnoughAttachedGas));
    assert_eq!(pair.ensure_gas(50), Ok(()));
}

#[test]
fn test_remove_liquidity_after_price_change() {
    // fee_to on: a swap grows k, and removing liquidity first mints the
    // protocol's 1/6 share of the growth, then pays out pro rata of the
    // diluted supply and re-anchors k_last
    let fee_to: u64 = 77;
    let mut pair = new_pair(fee_to, 0);
    add_liquidity_ok(&mut pair, USER, 10_000 * E18, 10_000 * E18);
    pair.swap_exact_tokens_for_tokens(USER, u(100 * E18), u(0), true, 0, 10).unwrap();
    pair.handle_token_reply(true);
    pair.handle_token_reply(true);
    assert_eq!(
        pair.get_reserves(),
        (u(10_100 * E18), u(9_901_284_196_560_293_870_115))
    );
    // the quoting views agree on the pending fee
    let pf = u(24_752_720_325_328_543);
    assert_eq!(pair.calculate_protocol_fee(), pf);
    assert_eq!(pair.calculate_lp_fee(), Ok(u(123_763_601_626_642_715)));
    assert_eq!(pair.calculate_lp_user_fee(USER), u(123_763_601_626_642_714));
    assert_eq!(
        pair.calculate_remove_liquidity(u(1_000 * E18)),
        Ok((u(1_009_997_499_981_435_367_851), u(990_125_968_824_910_070_214)))
    );
    // the removal pays exactly the quoted amounts
    let act = pair.remove_liquidity(USER, u(1_000 * E18), u(0), u(0), 0, 10);
    assert_eq!(
        act,
        Ok(TokenAction::Transfer {
            token: TOKEN0,
            to: USER,
            amount: u(1_009_997_499_981_435_367_851)
        })
    );
    assert_eq!(pair.lp.balance_of(fee_to), pf);
    assert_eq!(pair.lp.total_supply(), u(9_000_024_752_720_325_328_543));
    pair.handle_token_reply(true);
    pair.handle_token_reply(true);
    assert_eq!(
        pair.get_reserves(),
        (u(9_090_002_500_018_564_632_149), u(8_911_158_227_735_383_799_901))
    );
    // k_last again equals the product of the reserves
    assert_eq!(
        pair.k_last,
        pair.reserve0.checked_mul(&pair.reserve1).unwrap()
    );
}

#[test]
fn fee_views_are_zero_when_fee_is_off() {
    let mut pair = new_pair(0, 0);
    add_liquidity_ok(&mut pair, USER, 10_000 * E18, 10_000 * E18);
    pair.swap_exact_tokens_for_tokens(USER, u(100 * E18), u(0), true, 0, 10).unwrap();
    pair.handle_token_reply(true);
    pair.handle_token_reply(true);
    assert_eq!(pair.calculate_protocol_fee(), u(0));
    assert_eq!(pair.calculate_lp_fee(), Ok(u(0)));
    assert_eq!(pair.calculate_lp_user_fee(USER), u(0));
    assert_eq!(pair.k_last, u(0));
}
