use amm_pair::ledger::LpToken;
use amm_pair::pair::PairError;
use amm_pair::tracker::{fetch_transfer_result, MessageStatus, MessageTracker};
use amm_pair::u256::U256;

const ADMIN: u64 = 9;

fn u(x: u128) -> U256 {
    U256::from_u128(x)
}

#[test]
fn mint_and_burn_move_supply_with_balances() {
    let mut lp = LpToken::seed(ADMIN);
    assert_eq!(lp.total_supply(), u(0));
    lp.mint(10, u(500)).unwrap();
    lp.mint(11, u(200)).unwrap();
    lp.mint(10, u(50)).unwrap();
    assert_eq!(lp.balance_of(10), u(550));
    assert_eq!(lp.balance_of(11), u(200));
    assert_eq!(lp.balance_of(12), u(0));
    assert_eq!(lp.total_supply(), u(750));
    lp.burn(10, u(100)).unwrap();
    assert_eq!(lp.balance_of(10), u(450));
    assert_eq!(lp.total_supply(), u(650));
}

#[test]
fn burn_more_than_held_is_rejected() {
    let mut lp = LpToken::seed(ADMIN);
    lp.mint(10, u(500)).unwrap();
    assert_eq!(lp.burn(10, u(501)), Err(PairError::InsufficientLiquidity));
    assert_eq!(lp.burn(11, u(1)), Err(PairError::InsufficientLiquidity));
    assert_eq!(lp.balance_of(10), u(500));
    assert_eq!(lp.total_supply(), u(500));
}

#[test]
fn mint_overflowing_the_supply_is_rejected() {
    let mut lp = LpToken::seed(ADMIN);
    let max = U256 { lo: u128::MAX, hi: u128::MAX };
    lp.mint(10, max).unwrap();
    assert_eq!(lp.mint(11, u(1)), Err(PairError::Overflow));
    assert_eq!(lp.balance_of(11), u(0));
    assert_eq!(lp.total_supply(), max);
}

#[test]
fn roles_are_granted_and_revoked_by_admins_only() {
    let mut lp = LpToken::seed(ADMIN);
    assert_eq!(lp.admins(), vec![ADMIN]);
    assert_eq!(lp.minters(), vec![ADMIN]);
    assert_eq!(lp.burners(), vec![ADMIN]);
    assert_eq!(lp.grant_minter_role(3, 4), Err(PairError::Unauthorized));
    lp.grant_minter_role(ADMIN, 4).unwrap();
    assert_eq!(lp.minters(), vec![ADMIN, 4]);
    // granting twice changes nothing
    lp.grant_minter_role(ADMIN, 4).unwrap();
    assert_eq!(lp.minters(), vec![ADMIN, 4]);
    lp.grant_admin_role(ADMIN, 5).unwrap();
    assert_eq!(lp.admins(), vec![ADMIN, 5]);
    // the new admin can act
    lp.grant_burner_role(5, 6).unwrap();
    assert_eq!(lp.burners(), vec![ADMIN, 6]);
    assert_eq!(lp.revoke_minter_role(4, 4), Err(PairError::Unauthorized));
    lp.revoke_minter_role(5, 4).unwrap();
    assert_eq!(lp.minters(), vec![ADMIN]);
    lp.revoke_burner_role(ADMIN, 6).unwrap();
    assert_eq!(lp.burners(), vec![ADMIN]);
    lp.revoke_admin_role(ADMIN, 5).unwrap();
    assert_eq!(lp.admins(), vec![ADMIN]);
}

#[test]
fn tracker_follows_a_request_through_its_stages() {
    let mut t = MessageTracker::new();
    assert_eq!(t.get_msg_status(7), None);
    t.insert_msg_status(7, MessageStatus::SendingMsgToLockTokenA);
    assert_eq!(t.get_msg_status(7), Some(MessageStatus::SendingMsgToLockTokenA));
    t.update_msg_status(7, MessageStatus::TokenALocked(true));
    assert_eq!(t.get_msg_status(7), Some(MessageStatus::TokenALocked(true)));
    // an unknown id is left alone
    t.update_msg_status(8, MessageStatus::TokenBLocked(false));
    assert_eq!(t.get_msg_status(8), None);
    let removed = t.remove_msg_status(7);
    assert_eq!(removed, Some(MessageStatus::TokenALocked(true)));
    assert_eq!(t.get_msg_status(7), None);
}

#[test]
fn tracker_keeps_one_entry_per_request() {
    let mut t = MessageTracker::new();
    t.insert_msg_status(1, MessageStatus::SendingMsgToTransferTokenIn);
    t.insert_msg_status(2, MessageStatus::SendingMsgToTransferTokenOut);
    t.insert_msg_status(1, MessageStatus::TokenInTransferred(false));
    assert_eq!(t.get_msg_status(1), Some(MessageStatus::TokenInTransferred(false)));
    assert_eq!(t.get_msg_status(2), Some(MessageStatus::SendingMsgToTransferTokenOut));
}

#[test]
fn transfer_result_classifies_replies() {
    let mut t = MessageTracker::new();
    assert_eq!(fetch_transfer_result(&t, 1), Err(PairError::MessageNotFound));
    t.insert_msg_status(1, MessageStatus::SendingMsgToUnlockTokenA);
    assert_eq!(fetch_transfer_result(&t, 1), Err(PairError::InvalidMessageStatus));
    t.update_msg_status(1, MessageStatus::TokenAUnlocked(true));
    assert_eq!(fetch_transfer_result(&t, 1), Ok(()));
    t.update_msg_status(1, MessageStatus::TokenAUnlocked(false));
    assert_eq!(fetch_transfer_result(&t, 1), Err(PairError::TokenTransferFailed));
    t.insert_msg_status(2, MessageStatus::TreasuryTokenBSent(true));
    assert_eq!(fetch_transfer_result(&t, 2), Ok(()));
}

#[test]
fn u256_arithmetic_basics() {
    let a = u(5);
    let b = u(3);
    assert_eq!(a.checked_add(&b), Some(u(8)));
    assert_eq!(b.checked_sub(&a), None);
    assert_eq!(a.checked_mul(&b), Some(u(15)));
    assert_eq!(a.div(&b), u(1));
    assert_eq!(u(144).integer_sqrt(), u(12));
    assert_eq!(u(145).integer_sqrt(), u(12));
    let max = U256 { lo: u128::MAX, hi: u128::MAX };
    assert_eq!(max.checked_add(&u(1)), None);
    assert_eq!(max.checked_mul(&u(2)), None);
    assert!(u(2).lt(&a) && a.le(&a) && !a.lt(&a));
    // carries across the 128-bit halves
    let half = u(u128::MAX);
    let sum = half.checked_add(&u(1)).unwrap();
    assert_eq!(sum, U256 { lo: 0, hi: 1 });
    assert_eq!(sum.checked_sub(&u(1)).unwrap(), half);
    assert_eq!(half.checked_mul(&half).unwrap().integer_sqrt(), half);
}
