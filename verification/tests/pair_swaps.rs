use amm_pair::pair::{
    Config, LockCtx, LockState, Pair, PairError, PairEvent, ReplyOutcome, SwapPhase, TokenAction,
};
use amm_pair::u256::U256;

const TOKEN0: u64 = 1;
const TOKEN1: u64 = 2;
const ADMIN: u64 = 9;
const FACTORY: u64 = 8;
const TREASURY: u64 = 5;
const USER: u64 = 42;
const E18: u128 = 1_000_000_000_000_000_000;

fn u(x: u128) -> U256 {
    U256::from_u128(x)
}

fn cfg() -> Config {
    Config { gas_for_token_ops: 10, gas_for_reply_deposit: 5, reply_timeout: 100, gas_for_full_tx: 50 }
}

fn new_pool(treasury: u64, reserve: u128) -> Pair {
    let mut pair = Pair::init(cfg(), TOKEN0, TOKEN1, 0, treasury, ADMIN, FACTORY);
    pair.add_liquidity(USER, u(reserve), u(reserve), u(0), u(0), 0, 10).unwrap();
    pair.handle_token_reply(true);
    match pair.handle_token_reply(true) {
        ReplyOutcome::Completed(_) => {}
        other => panic!("setup failed: {:?}", other),
    }
    pair
}

#[test]
fn test_exact_input_swap_a_to_b_basic() {
    // reserves (1e24, 1e24), aIn = 5e17, no treasury
    let mut pair = new_pool(0, 1_000_000 * E18);
    let ain = u(5 * E18 / 10);
    let aout = u(498_499_751_497_873_878);
    let act = pair.swap_exact_tokens_for_tokens(USER, ain, u(0), true, 0, 10);
    assert_eq!(act, Ok(TokenAction::TransferFrom { token: TOKEN0, from: USER, amount: ain }));
    let next = pair.handle_token_reply(true);
    assert_eq!(next, ReplyOutcome::Next(TokenAction::Transfer { token: TOKEN1, to: USER, amount: aout }));
    let done = pair.handle_token_reply(true);
    assert_eq!(
        done,
        ReplyOutcome::Completed(PairEvent::Swap {
            user: USER,
            amount_in: ain,
            amount_out: aout,
            is_token0_to_token1: true
        })
    );
    assert_eq!(
        pair.get_reserves(),
        (u(1_000_000_500_000_000_000_000_000), u(999_999_501_500_248_502_126_122))
    );
    // no treasury: nothing accrued
    let (_, f0, f1) = pair.get_treasury_info();
    assert_eq!((f0, f1), (u(0), u(0)));
}

#[test]
fn test_exact_input_swap_b_to_a_basic() {
    let mut pair = new_pool(0, 1_000_000 * E18);
    let ain = u(5 * E18 / 10);
    let aout = u(498_499_751_497_873_878);
    let act = pair.swap_exact_tokens_for_tokens(USER, ain, u(0), false, 0, 10);
    assert_eq!(act, Ok(TokenAction::TransferFrom { token: TOKEN1, from: USER, amount: ain }));
    pair.handle_token_reply(true);
    pair.handle_token_reply(true);
    // the mirror image of the a-to-b swap
    assert_eq!(
        pair.get_reserves(),
        (u(999_999_501_500_248_502_126_122), u(1_000_000_500_000_000_000_000_000))
    );
    assert_eq!(pair.get_amount_out(u(0), true), u(0));
}

#[test]
fn swap_product_never_decreases() {
    let mut pair = new_pool(0, 1_000_000 * E18);
    let k_before = pair.reserve0.checked_mul(&pair.reserve1).unwrap();
    pair.swap_exact_tokens_for_tokens(USER, u(5 * E18 / 10), u(0), true, 0, 10).unwrap();
    pair.handle_token_reply(true);
    pair.handle_token_reply(true);
    let k_after = pair.reserve0.checked_mul(&pair.reserve1).unwrap();
    assert!(k_before.le(&k_after));
}

#[test]
fn test_exact_input_swap_exceeds_slippage_tolerance() {
    let mut pair = new_pool(0, 1_000_000 * E18);
    let ain = u(5 * E18 / 10);
    let r = pair.swap_exact_tokens_for_tokens(USER, ain, u(5 * E18 / 10), true, 0, 10);
    assert_eq!(r, Err(PairError::InsufficientAmount));
    assert_eq!(pair.lock(), LockState::Free);
}

#[test]
fn test_exact_output_swap_with_fee() {
    // reserves (1e22, 1e22), aOut = 1e17, no treasury
    let mut pair = new_pool(0, 10_000 * E18);
    let aout = u(E18 / 10);
    let ain = u(100_301_905_727_181_645);
    let act = pair.swap_tokens_for_exact_tokens(USER, aout, u(E18), true, 0, 10);
    assert_eq!(act, Ok(TokenAction::TransferFrom { token: TOKEN0, from: USER, amount: ain }));
    pair.handle_token_reply(true);
    let done = pair.handle_token_reply(true);
    assert_eq!(
        done,
        ReplyOutcome::Completed(PairEvent::Swap {
            user: USER,
            amount_in: ain,
            amount_out: aout,
            is_token0_to_token1: true
        })
    );
    assert_eq!(
        pair.get_reserves(),
        (u(10_000_100_301_905_727_181_645), u(9_999_900_000_000_000_000_000))
    );
}

#[test]
fn exact_output_swap_with_treasury() {
    // reserves (1e22, 1e22), aOut = 1e17, tBps = 5: the gross-up lands in
    // the treasury counter and only the pool part moves the reserve
    let mut pair = new_pool(TREASURY, 10_000 * E18);
    let aout = u(E18 / 10);
    let ain_pool = u(100_301_905_727_181_645);
    let ain_total = u(100_352_081_768_065_678);
    let tfee = u(50_176_040_884_033);
    let act = pair.swap_tokens_for_exact_tokens(USER, aout, u(E18), true, 0, 10);
    assert_eq!(
        act,
        Ok(TokenAction::TransferFrom { token: TOKEN0, from: USER, amount: ain_total })
    );
    pair.handle_token_reply(true);
    pair.handle_token_reply(true);
    assert_eq!(
        pair.get_reserves(),
        (
            u(10_000 * E18).checked_add(&ain_pool).unwrap(),
            u(10_000 * E18).checked_sub(&aout).unwrap()
        )
    );
    let (who, f0, f1) = pair.get_treasury_info();
    assert_eq!(who, TREASURY);
    assert_eq!(f0, tfee);
    assert_eq!(f1, u(0));
    assert_eq!(ain_total.checked_sub(&ain_pool).unwrap(), tfee);
}

#[test]
fn test_exact_output_swap_edge_case_insufficient_liquidity() {
    let mut pair = new_pool(0, 10_000 * E18);
    let r = pair.swap_tokens_for_exact_tokens(USER, u(10_000 * E18), u(u128::MAX), true, 0, 10);
    assert_eq!(r, Err(PairError::InsufficientLiquidity));
}

#[test]
fn exact_output_swap_above_input_cap_is_rejected() {
    let mut pair = new_pool(0, 10_000 * E18);
    let aout = u(E18 / 10);
    let r = pair.swap_tokens_for_exact_tokens(USER, aout, u(E18 / 100), true, 0, 10);
    assert_eq!(r, Err(PairError::ExcessiveInputAmount));
}

#[test]
fn swap_on_empty_pool_is_rejected() {
    let mut pair = Pair::init(cfg(), TOKEN0, TOKEN1, 0, 0, ADMIN, FACTORY);
    let r = pair.swap_exact_tokens_for_tokens(USER, u(E18), u(0), true, 0, 10);
    assert_eq!(r, Err(PairError::InsufficientLiquidity));
}

#[test]
fn swap_expired_deadline_is_rejected() {
    let mut pair = new_pool(0, 10_000 * E18);
    let r = pair.swap_exact_tokens_for_tokens(USER, u(E18), u(0), true, 11, 10);
    assert_eq!(r, Err(PairError::DeadlineExpired));
}

#[test]
fn test_failed_swap_does_not_change_treasury() {
    let mut pair = new_pool(TREASURY, 1_000_000 * E18);
    pair.swap_exact_tokens_for_tokens(USER, u(E18), u(0), true, 0, 10).unwrap();
    // taking the input from the user fails: nothing happened
    let out = pair.handle_token_reply(false);
    assert_eq!(out, ReplyOutcome::Failed(PairError::TokenTransferFailed));
    let (_, f0, f1) = pair.get_treasury_info();
    assert_eq!((f0, f1), (u(0), u(0)));
    assert_eq!(pair.get_reserves(), (u(1_000_000 * E18), u(1_000_000 * E18)));
}

#[test]
fn test_treasury_accumulates_over_multiple_swaps_and_single_collect() {
    let mut pair = new_pool(TREASURY, 1_000_000 * E18);
    let ain = u(10_000 * E18);
    let mut expected = u(0);
    for _ in 0..3 {
        pair.swap_exact_tokens_for_tokens(USER, ain, u(0), true, 0, 10).unwrap();
        pair.handle_token_reply(true);
        pair.handle_token_reply(true);
        let fee = ain.checked_mul(&U256::from_u64(5)).unwrap().div(&U256::from_u64(10_000));
        expected = expected.checked_add(&fee).unwrap();
        // monotone between payouts
        let (_, f0, _) = pair.get_treasury_info();
        assert_eq!(f0, expected);
    }
    // only the treasury identity may collect
    assert_eq!(pair.send_treasury_fees(USER), Err(PairError::NotTreasuryId));
    let act = pair.send_treasury_fees(TREASURY);
    assert_eq!(
        act,
        Ok(TokenAction::Transfer { token: TOKEN0, to: TREASURY, amount: expected })
    );
    // only the token0 side accrued: collection completes in one leg
    let done = pair.handle_token_reply(true);
    assert_eq!(
        done,
        ReplyOutcome::Completed(PairEvent::TreasuryFeesCollected {
            treasury: TREASURY,
            amount0: expected,
            amount1: u(0)
        })
    );
    let (_, f0, f1) = pair.get_treasury_info();
    assert_eq!((f0, f1), (u(0), u(0)));
    // nothing left to collect
    assert_eq!(pair.send_treasury_fees(TREASURY), Err(PairError::NoTreasuryFees));
}

#[test]
fn treasury_payout_recovery_send_token1() {
    // both sides accrued; the token1 leg fails and is replayed
    let mut pair = new_pool(TREASURY, 1_000_000 * E18);
    let ain = u(10_000 * E18);
    pair.swap_exact_tokens_for_tokens(USER, ain, u(0), true, 0, 10).unwrap();
    pair.handle_token_reply(true);
    pair.handle_token_reply(true);
    pair.swap_exact_tokens_for_tokens(USER, ain, u(0), false, 0, 10).unwrap();
    pair.handle_token_reply(true);
    pair.handle_token_reply(true);
    let (_, f0, f1) = pair.get_treasury_info();
    assert!(!f0.is_zero() && !f1.is_zero());
    pair.send_treasury_fees(TREASURY).unwrap();
    let next = pair.handle_token_reply(true);
    assert_eq!(
        next,
        ReplyOutcome::Next(TokenAction::Transfer { token: TOKEN1, to: TREASURY, amount: f1 })
    );
    let paused = pair.handle_token_reply(false);
    assert_eq!(paused, ReplyOutcome::Paused(PairError::TokenTransferFailed));
    // counters untouched while paused
    let (_, g0, g1) = pair.get_treasury_info();
    assert_eq!((g0, g1), (f0, f1));
    let act = pair.recover_paused(ADMIN).unwrap();
    assert_eq!(act, TokenAction::Transfer { token: TOKEN1, to: TREASURY, amount: f1 });
    match pair.handle_token_reply(true) {
        ReplyOutcome::Completed(PairEvent::TreasuryFeesCollected { .. }) => {}
        other => panic!("unexpected {:?}", other),
    }
    let (_, g0, g1) = pair.get_treasury_info();
    assert_eq!((g0, g1), (u(0), u(0)));
}

#[test]
fn swap_recovery_exact_input() {
    // outbound transfer fails, the refund fails too: Paused(SwapRefund)
    // with reserves unchanged; recovery refunds the user in full
    let mut pair = new_pool(0, 1_000_000 * E18);
    let ain = u(5 * E18 / 10);
    pair.swap_exact_tokens_for_tokens(USER, ain, u(0), true, 0, 10).unwrap();
    pair.handle_token_reply(true);
    let refund = pair.handle_token_reply(false);
    assert_eq!(
        refund,
        ReplyOutcome::Next(TokenAction::Transfer { token: TOKEN0, to: USER, amount: ain })
    );
    let paused = pair.handle_token_reply(false);
    assert_eq!(paused, ReplyOutcome::Paused(PairError::TokenTransferFailed));
    match pair.lock() {
        LockState::Paused(LockCtx::SwapRefund { user, amount_in, phase, .. }) => {
            assert_eq!(user, USER);
            assert_eq!(amount_in, ain);
            assert_eq!(phase, SwapPhase::ReturnTokenIn);
        }
        other => panic!("expected a paused swap refund, got {:?}", other),
    }
    assert_eq!(pair.get_reserves(), (u(1_000_000 * E18), u(1_000_000 * E18)));
    let act = pair.recover_paused(ADMIN).unwrap();
    assert_eq!(act, TokenAction::Transfer { token: TOKEN0, to: USER, amount: ain });
    let out = pair.handle_token_reply(true);
    assert_eq!(out, ReplyOutcome::Failed(PairError::TokenTransferFailed));
    assert_eq!(pair.lock(), LockState::Free);
    assert_eq!(pair.get_reserves(), (u(1_000_000 * E18), u(1_000_000 * E18)));
}

#[test]
fn swap_recovery_exact_output() {
    let mut pair = new_pool(TREASURY, 10_000 * E18);
    let aout = u(E18 / 10);
    let ain_total = u(100_352_081_768_065_678);
    pair.swap_tokens_for_exact_tokens(USER, aout, u(E18), true, 0, 10).unwrap();
    pair.handle_token_reply(true);
    pair.handle_token_reply(false);
    let paused = pair.handle_token_reply(false);
    assert_eq!(paused, ReplyOutcome::Paused(PairError::TokenTransferFailed));
    let act = pair.recover_paused(ADMIN).unwrap();
    assert_eq!(act, TokenAction::Transfer { token: TOKEN0, to: USER, amount: ain_total });
    pair.handle_token_reply(true);
    // nothing committed, nothing accrued
    assert_eq!(pair.get_reserves(), (u(10_000 * E18), u(10_000 * E18)));
    let (_, f0, f1) = pair.get_treasury_info();
    assert_eq!((f0, f1), (u(0), u(0)));
}

#[test]
fn reply_with_nothing_in_flight_changes_nothing() {
    let mut pair = new_pool(0, 10_000 * E18);
    let out = pair.handle_token_reply(true);
    assert_eq!(out, ReplyOutcome::Failed(PairError::InvalidMessageStatus));
    assert_eq!(pair.get_reserves(), (u(10_000 * E18), u(10_000 * E18)));
}

#[test]
fn view_quotes_match_the_math() {
    let pair = new_pool(0, 1_000_000 * E18);
    assert_eq!(pair.get_amount_out(u(5 * E18 / 10), true), u(498_499_751_497_873_878));
    assert_eq!(pair.get_amount_in(u(E18 / 10), true), pair.get_amount_in(u(E18 / 10), false));
    assert_eq!(pair.get_tokens(), (TOKEN0, TOKEN1));
    // a rejected quote reads as zero
    assert_eq!(pair.get_amount_out(u(0), true), u(0));
}

#[test]
fn test_exact_input_different_swap_sizes() {
    // swaps from 1% to 90% of the pool: the quoted output always matches
    // the formula, and k never decreases
    let sizes_percent: [u128; 8] = [1, 5, 10, 20, 30, 50, 75, 90];
    for pct in sizes_percent {
        let mut pair = new_pool(0, 1_000 * E18);
        let ain = u(1_000 * E18 * pct / 100);
        let (r0, r1) = pair.get_reserves();
        let k_before = r0.checked_mul(&r1).unwrap();
        let fee_part = ain.checked_mul(&u(997)).unwrap();
        let expected_out = fee_part
            .checked_mul(&r1)
            .unwrap()
            .div(&r0.checked_mul(&u(1000)).unwrap().checked_add(&fee_part).unwrap());
        pair.swap_exact_tokens_for_tokens(USER, ain, u(0), true, 0, 10).unwrap();
        let next = pair.handle_token_reply(true);
        assert_eq!(
            next,
            ReplyOutcome::Next(TokenAction::Transfer {
                token: TOKEN1,
                to: USER,
                amount: expected_out
            })
        );
        pair.handle_token_reply(true);
        let (n0, n1) = pair.get_reserves();
        let k_after = n0.checked_mul(&n1).unwrap();
        assert!(k_before.le(&k_after));
    }
}

#[test]
fn test_edge_case_extreme_price_ratios() {
    // a pool priced 1 : 1e6 still quotes and settles exactly
    let mut pair = Pair::init(cfg(), TOKEN0, TOKEN1, 0, 0, ADMIN, FACTORY);
    pair.add_liquidity(USER, u(E18), u(1_000_000 * E18), u(0), u(0), 0, 10).unwrap();
    pair.handle_token_reply(true);
    match pair.handle_token_reply(true) {
        ReplyOutcome::Completed(_) => {}
        other => panic!("setup failed: {:?}", other),
    }
    let ain = u(E18 / 100);
    let quoted = pair.get_amount_out(ain, true);
    assert!(!quoted.is_zero());
    pair.swap_exact_tokens_for_tokens(USER, ain, quoted, true, 0, 10).unwrap();
    pair.handle_token_reply(true);
    match pair.handle_token_reply(true) {
        ReplyOutcome::Completed(PairEvent::Swap { amount_out, .. }) => {
            assert_eq!(amount_out, quoted);
        }
        other => panic!("unexpected {:?}", other),
    }
}

#[test]
fn test_multiple_lps_with_swap_fees_and_withdrawal() {
    // two providers, some trading, then both withdraw everything: only the
    // permanently locked shares remain, and the pool keeps the fees
    let mut pair = new_pool(0, 1_000 * E18);
    let second: u64 = 43;
    pair.add_liquidity(second, u(500 * E18), u(500 * E18), u(0), u(0), 0, 10).unwrap();
    pair.handle_token_reply(true);
    match pair.handle_token_reply(true) {
        ReplyOutcome::Completed(_) => {}
        other => panic!("setup failed: {:?}", other),
    }
    for _ in 0..5 {
        pair.swap_exact_tokens_for_tokens(USER, u(10 * E18), u(0), true, 0, 10).unwrap();
        pair.handle_token_reply(true);
        pair.handle_token_reply(true);
    }
    let (r0, r1) = pair.get_reserves();
    // fees stayed in the pool: more token0 than deposited, k grew
    assert!(u(1_500 * E18).lt(&r0));
    let bal_user = pair.lp.balance_of(USER);
    let bal_second = pair.lp.balance_of(second);
    for (who, bal) in [(USER, bal_user), (second, bal_second)] {
        pair.remove_liquidity(who, bal, u(0), u(0), 0, 10).unwrap();
        pair.handle_token_reply(true);
        match pair.handle_token_reply(true) {
            ReplyOutcome::Completed(PairEvent::LiquidityRemoved { .. }) => {}
            other => panic!("unexpected {:?}", other),
        }
    }
    assert_eq!(pair.lp.total_supply(), u(1000));
    assert_eq!(pair.lp.balance_of(0), u(1000));
    let (e0, e1) = pair.get_reserves();
    assert!(!e0.is_zero() && !e1.is_zero());
    let _ = r1;
}
