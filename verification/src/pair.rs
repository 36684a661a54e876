//! The pair engine: the authoritative pool record, the lock-state machine
//! that serialises multi-step operations and survives failed token
//! transfers, and the operations themselves.
//!
//! The pair never performs token transfers: an operation that needs one
//! returns the [`TokenAction`] the host must carry out, and the host feeds
//! the boolean outcome back through [`Pair::handle_token_reply`], which
//! drives the lock machine to the next action, to completion, or into the
//! `Paused` state that only [`Pair::recover_paused`] leaves.

use vstd::prelude::*;

use crate::ledger::{bal_of, LpToken};
use crate::math;
use crate::math::{
    spec_constant_product_check, spec_get_amount_in, spec_get_amount_in_with_treasury,
    spec_get_amount_out, spec_get_amount_out_with_treasury, spec_optimal_amounts,
    spec_calculate_liquidity, FEE_DENOM_BPS, MINIMUM_LIQUIDITY, TREASURY_FEE_BPS,
};
use crate::u256::{pow256, sqrt_nat, U256};

verus! {

/// Everything that can go wrong in the pair engine, surfaced to callers.
#[derive(Clone, Copy, PartialEq, Eq, Structural, Debug)]
pub enum PairError {
    InsufficientLiquidity,
    InsufficientLiquidityMinted,
    InsufficientAmount,
    InsufficientAmountA,
    InsufficientAmountB,
    Overflow,
    DeadlineExpired,
    ExcessiveInputAmount,
    InvariantViolation,
    SendFailure,
    ReplyTimeout,
    ReplyFailure,
    UnableToDecode,
    TokenTransferFailed,
    AnotherTxInProgress,
    MessageNotFound,
    InvalidMessageStatus,
    ZeroLiquidity,
    Unauthorized,
    NoTreasuryFees,
    NotTreasuryId,
    NoLiquidityToMigrate,
    PoolMigrated,
    NotEnoughAttachedGas,
}

/// Gas and timeout budget for messages to the token programs; immutable
/// after construction.
#[derive(Clone, Copy, PartialEq, Eq, Structural, Debug)]
pub struct Config {
    /// Gas limit for one outbound token operation.
    pub gas_for_token_ops: u64,
    /// Gas reserved for processing the reply.
    pub gas_for_reply_deposit: u64,
    /// Blocks to wait for a token program's reply.
    pub reply_timeout: u32,
    /// Budget the whole transaction must bring at entry.
    pub gas_for_full_tx: u64,
}

/// Which of the two outbound transfers of a payout-style operation is next.
#[derive(Clone, Copy, PartialEq, Eq, Structural, Debug)]
pub enum SendTokenStage {
    SendToken0,
    SendToken1,
}

/// Which leg of add-liquidity is in flight.
#[derive(Clone, Copy, PartialEq, Eq, Structural, Debug)]
pub enum AddLiqPhase {
    /// Taking token0 from the user.
    LockTokenA,
    /// Taking token1 from the user.
    LockTokenB,
    /// Refunding token0 after the token1 leg failed.
    ReturnTokenA,
}

/// Which leg of a swap is in flight.
#[derive(Clone, Copy, PartialEq, Eq, Structural, Debug)]
pub enum SwapPhase {
    /// Taking the input token from the user.
    TransferTokenIn,
    /// Sending the output token to the user.
    TransferTokenOut,
    /// Refunding the input token after the output leg failed.
    ReturnTokenIn,
}

/// The durable continuation of the one in-flight operation: everything
/// needed to finish, refund, or recover it without reading derived state.
#[derive(Clone, Copy, PartialEq, Eq, Structural, Debug)]
#[allow(inconsistent_fields)]
pub enum LockCtx {
    AddLiqRefund {
        user: u64,
        amount_a: U256,
        amount_b: U256,
        new_reserve0: U256,
        new_reserve1: U256,
        phase: AddLiqPhase,
    },
    SwapRefund {
        user: u64,
        is_token0_to_token1: bool,
        amount_in: U256,
        amount_out: U256,
        new_reserve_in: U256,
        new_reserve_out: U256,
        new_accrued_in: U256,
        phase: SwapPhase,
    },
    RemLiq {
        user: u64,
        liquidity: U256,
        amount_a: U256,
        amount_b: U256,
        fee_on: bool,
        stage: SendTokenStage,
    },
    TreasuryPayout { treasury: u64, amount0: U256, amount1: U256, stage: SendTokenStage },
    MigrateAllLiquidity { target: u64, amount0: U256, amount1: U256, stage: SendTokenStage },
}

/// The pair's lock: only `Free` admits new operations; `Busy` carries the
/// in-flight continuation; `Paused` preserves it for operator recovery.
#[derive(Clone, Copy, PartialEq, Eq, Structural, Debug)]
pub enum LockState {
    Free,
    Busy(LockCtx),
    Paused(LockCtx),
}

/// A token transfer the host must perform for the pair. `TransferFrom`
/// pulls into the pool; `Transfer` pays out of the pool.
#[derive(Clone, Copy, PartialEq, Eq, Structural, Debug)]
pub enum TokenAction {
    TransferFrom { token: u64, from: u64, amount: U256 },
    Transfer { token: u64, to: u64, amount: U256 },
}

/// Notification emitted on a successful terminal transition.
#[derive(Clone, Copy, PartialEq, Eq, Structural, Debug)]
pub enum PairEvent {
    LiquidityAdded { user: u64, amount_a: U256, amount_b: U256, liquidity: U256 },
    LiquidityRemoved { user: u64, amount_a: U256, amount_b: U256, liquidity: U256 },
    Swap { user: u64, amount_in: U256, amount_out: U256, is_token0_to_token1: bool },
    TreasuryFeesCollected { treasury: u64, amount0: U256, amount1: U256 },
    LiquidityMigrated { target: u64, amount0: U256, amount1: U256 },
}

/// What a token reply did to the in-flight operation.
#[derive(Clone, Copy, PartialEq, Eq, Structural, Debug)]
pub enum ReplyOutcome {
    /// The operation goes on: the host must perform this next transfer.
    Next(TokenAction),
    /// The operation committed; the lock is `Free` again.
    Completed(PairEvent),
    /// The operation failed without leaving anything owed; the lock is
    /// `Free` (or was never `Busy`, for an unexpected reply).
    Failed(PairError),
    /// A recovery-phase transfer failed: the lock is `Paused` and an
    /// operator must call `recover_paused`.
    Paused(PairError),
}

/// The single authoritative record of one trading pair.
pub struct Pair {
    pub token0: u64,
    pub token1: u64,
    pub reserve0: U256,
    pub reserve1: U256,
    pub k_last: U256,
    pub fee_to: u64,
    pub treasury: u64,
    pub admin: u64,
    pub factory: u64,
    pub lock: LockState,
    pub accrued_fee0: U256,
    pub accrued_fee1: U256,
    pub migrated: bool,
    pub entry_gate: bool,
    pub lp: LpToken,
    pub config: Config,
}

impl Pair {
    /// The pair's invariant: canonical token order, a well-formed ledger,
    /// the permanently locked minimum liquidity, live reserves while shares
    /// exist, and nothing left behind after migration.
    pub open spec fn wf(&self) -> bool {
        &&& self.token0 < self.token1
        &&& self.lp.wf()
        &&& (self.lp.spec_total_supply() > 0 ==> bal_of(self.lp@, 0u64)
            >= MINIMUM_LIQUIDITY as nat && self.lp.spec_total_supply() >= MINIMUM_LIQUIDITY as nat)
        &&& (self.lp.spec_total_supply() > 0 && !self.migrated ==> self.reserve0.as_nat() > 0
            && self.reserve1.as_nat() > 0)
        &&& (self.migrated ==> self.reserve0.as_nat() == 0 && self.reserve1.as_nat() == 0
            && self.k_last.as_nat() == 0 && self.accrued_fee0.as_nat() == 0
            && self.accrued_fee1.as_nat() == 0)
        &&& (self.migrated ==> self.lock matches LockState::Free)
        &&& self.spec_ctx_consistent()
    }

    /// The in-flight continuation agrees with the state it will commit to:
    /// the reserves an add-liquidity will install are the current ones plus
    /// the deposit, a swap commits positive reserves, and a remove-liquidity
    /// pays out strictly less than each reserve.
    pub open spec fn spec_ctx_consistent(&self) -> bool {
        match self.lock {
            LockState::Busy(ctx) | LockState::Paused(ctx) => match ctx {
                LockCtx::AddLiqRefund {
                    amount_a,
                    amount_b,
                    new_reserve0,
                    new_reserve1,
                    ..
                } => new_reserve0.as_nat() == self.reserve0.as_nat() + amount_a.as_nat()
                    && new_reserve1.as_nat() == self.reserve1.as_nat() + amount_b.as_nat(),
                LockCtx::SwapRefund {
                    new_reserve_in,
                    new_reserve_out,
                    ..
                } => new_reserve_in.as_nat() > 0 && new_reserve_out.as_nat() > 0,
                LockCtx::RemLiq { amount_a, amount_b, .. } => amount_a.as_nat()
                    < self.reserve0.as_nat() && amount_b.as_nat() < self.reserve1.as_nat(),
                _ => true,
            },
            LockState::Free => true,
        }
    }

    /// A fresh pair: empty reserves, free lock, nothing accrued. The ledger
    /// is owned by the pair, with `admin` holding its roles.
    pub fn init(
        config: Config,
        token0: u64,
        token1: u64,
        fee_to: u64,
        treasury: u64,
        admin: u64,
        factory: u64,
    ) -> (r: Pair)
        requires
            token0 < token1,
        ensures
            r.wf(),
            r.token0 == token0 && r.token1 == token1,
            r.fee_to == fee_to && r.treasury == treasury,
            r.admin == admin && r.factory == factory,
            r.config == config,
            r.reserve0.as_nat() == 0 && r.reserve1.as_nat() == 0,
            r.k_last.as_nat() == 0,
            r.accrued_fee0.as_nat() == 0 && r.accrued_fee1.as_nat() == 0,
            r.lock == LockState::Free,
            !r.migrated,
            !r.entry_gate,
            r.lp.spec_total_supply() == 0,
    {
        Pair {
            token0,
            token1,
            reserve0: U256::zero(),
            reserve1: U256::zero(),
            k_last: U256::zero(),
            fee_to,
            treasury,
            admin,
            factory,
            lock: LockState::Free,
            accrued_fee0: U256::zero(),
            accrued_fee1: U256::zero(),
            migrated: false,
            entry_gate: false,
            lp: LpToken::seed(admin),
            config,
        }
    }

    /// The error every user-facing mutator rejects with before doing
    /// anything, or `None` when it may proceed: the lock must be free, the
    /// emergency gate open, the pool not migrated, the deadline not passed.
    pub open spec fn spec_entry_guard(self, now: u64, deadline: u64) -> Option<PairError> {
        if !(self.lock matches LockState::Free) {
            Some(PairError::AnotherTxInProgress)
        } else if self.entry_gate {
            Some(PairError::AnotherTxInProgress)
        } else if self.migrated {
            Some(PairError::PoolMigrated)
        } else if now > deadline {
            Some(PairError::DeadlineExpired)
        } else {
            None
        }
    }

    fn entry_guard(&self, now: u64, deadline: u64) -> (r: Option<PairError>)
        ensures
            r == self.spec_entry_guard(now, deadline),
    {
        match self.lock {
            LockState::Free => {},
            _ => {
                return Some(PairError::AnotherTxInProgress);
            },
        }
        if self.entry_gate {
            return Some(PairError::AnotherTxInProgress);
        }
        if self.migrated {
            return Some(PairError::PoolMigrated);
        }
        if now > deadline {
            return Some(PairError::DeadlineExpired);
        }
        None
    }

    /// Rejects a transaction that brings less gas than the configured
    /// full-transaction budget.
    pub fn ensure_gas(&self, attached_gas: u64) -> (r: Result<(), PairError>)
        ensures
            r matches Ok(()) <==> attached_gas >= self.config.gas_for_full_tx,
            r matches Err(e) ==> e == PairError::NotEnoughAttachedGas,
    {
        if attached_gas < self.config.gas_for_full_tx {
            Err(PairError::NotEnoughAttachedGas)
        } else {
            Ok(())
        }
    }

    /// Currently accounted reserves.
    pub fn get_reserves(&self) -> (r: (U256, U256))
        ensures
            r.0 == self.reserve0 && r.1 == self.reserve1,
    {
        (self.reserve0, self.reserve1)
    }

    /// The two token programs, in canonical order.
    pub fn get_tokens(&self) -> (r: (u64, u64))
        ensures
            r.0 == self.token0 && r.1 == self.token1,
    {
        (self.token0, self.token1)
    }

    /// The treasury identity and the fees accrued to it so far.
    pub fn get_treasury_info(&self) -> (r: (u64, U256, U256))
        ensures
            r.0 == self.treasury && r.1 == self.accrued_fee0 && r.2 == self.accrued_fee1,
    {
        (self.treasury, self.accrued_fee0, self.accrued_fee1)
    }

    /// Current lock state.
    pub fn lock(&self) -> (r: LockState)
        ensures
            r == self.lock,
    {
        self.lock
    }

    /// Whether the pool has been migrated away.
    pub fn migrated(&self) -> (r: bool)
        ensures
            r == self.migrated,
    {
        self.migrated
    }

    /// Points future protocol-fee mintings at `fee_to`; only the factory may
    /// call this.
    pub fn change_fee_to(&mut self, caller: u64, fee_to: u64) -> (r: Result<(), PairError>)
        ensures
            r matches Ok(()) <==> caller == old(self).factory,
            r is Ok ==> *final(self) == (Pair { fee_to, ..*old(self) }),
            r matches Err(e) ==> e == PairError::Unauthorized && *final(self) == *old(self),
    {
        if caller != self.factory {
            return Err(PairError::Unauthorized);
        }
        self.fee_to = fee_to;
        Ok(())
    }

    /// Points the treasury surcharge at `treasury` (the zero identity
    /// disables it); only the admin may call this.
    pub fn change_treasury_id(&mut self, caller: u64, treasury: u64) -> (r: Result<(), PairError>)
        ensures
            r matches Ok(()) <==> caller == old(self).admin,
            r is Ok ==> *final(self) == (Pair { treasury, ..*old(self) }),
            r matches Err(e) ==> e == PairError::Unauthorized && *final(self) == *old(self),
    {
        if caller != self.admin {
            return Err(PairError::Unauthorized);
        }
        self.treasury = treasury;
        Ok(())
    }

    /// Emergency gate: when set, new operations are rejected at entry, but
    /// an in-flight or paused operation is untouched; only the admin may
    /// call this.
    pub fn set_lock(&mut self, caller: u64, locked: bool) -> (r: Result<(), PairError>)
        ensures
            r matches Ok(()) <==> caller == old(self).admin,
            r is Ok ==> *final(self) == (Pair { entry_gate: locked, ..*old(self) }),
            r matches Err(e) ==> e == PairError::Unauthorized && *final(self) == *old(self),
    {
        if caller != self.admin {
            return Err(PairError::Unauthorized);
        }
        self.entry_gate = locked;
        Ok(())
    }

    /// Output of the other token for an exact input at the current
    /// reserves; 0 when the pool formula rejects the input.
    pub fn get_amount_out(&self, amount_in: U256, is_token0_to_token1: bool) -> (r: U256)
        ensures
            r.as_nat() == (match spec_get_amount_out(
                amount_in.as_nat(),
                self.spec_reserve_in(is_token0_to_token1),
                self.spec_reserve_out(is_token0_to_token1),
            ) {
                Ok(v) => v,
                Err(_) => 0,
            }),
    {
        let (reserve_in, reserve_out) = if is_token0_to_token1 {
            (self.reserve0, self.reserve1)
        } else {
            (self.reserve1, self.reserve0)
        };
        match math::get_amount_out(amount_in, reserve_in, reserve_out) {
            Ok(v) => v,
            Err(_) => U256::zero(),
        }
    }

    /// Input of one token required for an exact output of the other at the
    /// current reserves; 0 when the pool formula rejects the output.
    pub fn get_amount_in(&self, amount_out: U256, is_token0_to_token1: bool) -> (r: U256)
        ensures
            r.as_nat() == (match spec_get_amount_in(
                amount_out.as_nat(),
                self.spec_reserve_in(is_token0_to_token1),
                self.spec_reserve_out(is_token0_to_token1),
            ) {
                Ok(v) => v,
                Err(_) => 0,
            }),
    {
        let (reserve_in, reserve_out) = if is_token0_to_token1 {
            (self.reserve0, self.reserve1)
        } else {
            (self.reserve1, self.reserve0)
        };
        match math::get_amount_in(amount_out, reserve_in, reserve_out) {
            Ok(v) => v,
            Err(_) => U256::zero(),
        }
    }

    /// The reserve of the input token for the given swap direction.
    pub open spec fn spec_reserve_in(self, is_token0_to_token1: bool) -> nat {
        if is_token0_to_token1 {
            self.reserve0.as_nat()
        } else {
            self.reserve1.as_nat()
        }
    }

    /// The reserve of the output token for the given swap direction.
    pub open spec fn spec_reserve_out(self, is_token0_to_token1: bool) -> nat {
        if is_token0_to_token1 {
            self.reserve1.as_nat()
        } else {
            self.reserve0.as_nat()
        }
    }
}

/// The configuration and identities of `post` are those of `pre`.
pub open spec fn spec_same_static(pre: Pair, post: Pair) -> bool {
    &&& post.token0 == pre.token0
    &&& post.token1 == pre.token1
    &&& post.fee_to == pre.fee_to
    &&& post.treasury == pre.treasury
    &&& post.admin == pre.admin
    &&& post.factory == pre.factory
    &&& post.config == pre.config
    &&& post.entry_gate == pre.entry_gate
}

/// The ledger roles of `post` are those of `pre`.
pub open spec fn spec_same_roles(pre: Pair, post: Pair) -> bool {
    &&& post.lp.spec_admins() == pre.lp.spec_admins()
    &&& post.lp.spec_minters() == pre.lp.spec_minters()
    &&& post.lp.spec_burners() == pre.lp.spec_burners()
}

/// The pool bookkeeping of `post` (reserves, `k_last`, accrued treasury
/// fees, migration flag) is that of `pre`.
pub open spec fn spec_same_pool(pre: Pair, post: Pair) -> bool {
    &&& post.reserve0 == pre.reserve0
    &&& post.reserve1 == pre.reserve1
    &&& post.k_last == pre.k_last
    &&& post.accrued_fee0 == pre.accrued_fee0
    &&& post.accrued_fee1 == pre.accrued_fee1
    &&& post.migrated == pre.migrated
}

/// The liquidity shares a protocol-fee accrual would mint to `fee_to` on the
/// current state: `totalSupply·(√k − √k_last) / (5·√k + √k_last)` when `√k`
/// has grown, an error when a product leaves 256 bits.
pub open spec fn spec_protocol_fee(p: Pair) -> Result<nat, PairError> {
    if p.fee_to == 0 {
        Ok(0)
    } else if p.k_last.as_nat() == 0 {
        Ok(0)
    } else if p.reserve0.as_nat() * p.reserve1.as_nat() >= pow256() {
        Err(PairError::Overflow)
    } else {
        let rk = sqrt_nat(p.reserve0.as_nat() * p.reserve1.as_nat());
        let rkl = sqrt_nat(p.k_last.as_nat());
        if rk <= rkl {
            Ok(0)
        } else {
            let ts = p.lp.spec_total_supply();
            if ts * (rk - rkl) >= pow256() {
                Err(PairError::Overflow)
            } else {
                Ok((ts * (rk - rkl) / (5 * rk + rkl) as int) as nat)
            }
        }
    }
}

/// `spec_protocol_fee` with every error reported as 0, as the read view
/// returns it.
pub open spec fn spec_protocol_fee_view(p: Pair) -> nat {
    match spec_protocol_fee(p) {
        Ok(v) => v,
        Err(_) => 0,
    }
}

/// What `mint_fee` commits: `Ok((fee_on, minted))` mints `minted` shares to
/// `fee_to`; the additional error case is a minting that would overflow the
/// total supply.
pub open spec fn spec_mint_fee_outcome(p: Pair) -> Result<(bool, nat), PairError> {
    if p.fee_to == 0 {
        Ok((false, 0))
    } else {
        match spec_protocol_fee(p) {
            Err(e) => Err(e),
            Ok(l) => if l > 0 && p.lp.spec_total_supply() + l >= pow256() {
                Err(PairError::Overflow)
            } else {
                Ok((true, l))
            },
        }
    }
}

impl Pair {
    /// Protocol-fee accrual as a pure quantity, without minting.
    fn protocol_fee(&self) -> (r: Result<U256, PairError>)
        ensures
            (match r {
                Ok(v) => spec_protocol_fee(*self) == Ok::<nat, PairError>(v.as_nat()),
                Err(e) => spec_protocol_fee(*self) == Err::<nat, PairError>(e),
            }),
    {
        if self.fee_to == 0 {
            return Ok(U256::zero());
        }
        if self.k_last.is_zero() {
            return Ok(U256::zero());
        }
        let current_k = match self.reserve0.checked_mul(&self.reserve1) {
            Some(k) => k,
            None => {
                return Err(PairError::Overflow);
            },
        };
        let root_k = current_k.integer_sqrt();
        let root_k_last = self.k_last.integer_sqrt();
        if root_k.le(&root_k_last) {
            return Ok(U256::zero());
        }
        let diff = root_k.checked_sub(&root_k_last).unwrap();
        let total_supply = self.lp.total_supply();
        let numerator = match total_supply.checked_mul(&diff) {
            Some(v) => v,
            None => {
                return Err(PairError::Overflow);
            },
        };
        proof {
            crate::u256::lemma_sqrt_fits_128(current_k.as_nat());
            crate::u256::lemma_sqrt_fits_128(self.k_last.as_nat());
        }
        let root_k_times_5 = root_k.checked_mul(&U256::from_u64(5)).unwrap();
        let denominator = root_k_times_5.checked_add(&root_k_last).unwrap();
        Ok(numerator.div(&denominator))
    }

    /// Mints the accrued protocol fee to `fee_to` (a 1/6 share of the pool's
    /// growth since `k_last`), or resets `k_last` when the fee is switched
    /// off. Returns whether the fee is on.
    pub fn mint_fee(&mut self) -> (r: Result<bool, PairError>)
        requires
            old(self).wf(),
        ensures
            final(self).wf(),
            spec_same_static(*old(self), *final(self)),
            spec_same_roles(*old(self), *final(self)),
            final(self).reserve0 == old(self).reserve0,
            final(self).reserve1 == old(self).reserve1,
            final(self).accrued_fee0 == old(self).accrued_fee0,
            final(self).accrued_fee1 == old(self).accrued_fee1,
            final(self).migrated == old(self).migrated,
            final(self).lock == old(self).lock,
            (match spec_mint_fee_outcome(*old(self)) {
                Err(e) => {
                    &&& r == Err::<bool, PairError>(e)
                    &&& *final(self) == *old(self)
                },
                Ok((fee_on, minted)) => {
                    &&& r == Ok::<bool, PairError>(fee_on)
                    &&& final(self).lp.spec_total_supply() == old(self).lp.spec_total_supply()
                        + minted
                    &&& bal_of(final(self).lp@, old(self).fee_to) == bal_of(
                        old(self).lp@,
                        old(self).fee_to,
                    ) + minted
                    &&& forall|o: u64|
                        o != old(self).fee_to ==> bal_of(final(self).lp@, o) == bal_of(
                            old(self).lp@,
                            o,
                        )
                    &&& final(self).k_last.as_nat() == (if fee_on {
                        old(self).k_last.as_nat()
                    } else {
                        0
                    })
                },
            }),
    {
        if self.fee_to == 0 {
            if !self.k_last.is_zero() {
                self.k_last = U256::zero();
            }
            return Ok(false);
        }
        let liquidity = match self.protocol_fee() {
            Ok(v) => v,
            Err(e) => {
                return Err(e);
            },
        };
        if liquidity.is_zero() {
            return Ok(true);
        }
        proof {
            if self.lp.spec_total_supply() == 0 {
                lemma_protocol_fee_needs_supply(*self);
            }
        }
        match self.lp.mint(self.fee_to, liquidity) {
            Ok(()) => Ok(true),
            Err(e) => Err(e),
        }
    }

    /// The protocol fee a fee accrual would mint right now; 0 on overflow,
    /// as this read view never fails.
    pub fn calculate_protocol_fee(&self) -> (r: U256)
        ensures
            r.as_nat() == spec_protocol_fee_view(*self),
    {
        match self.protocol_fee() {
            Ok(v) => v,
            Err(_) => U256::zero(),
        }
    }

    /// The share of accumulated swap-fee growth belonging to all liquidity
    /// providers together: five times the protocol share.
    pub fn calculate_lp_fee(&self) -> (r: Result<U256, PairError>)
        ensures
            (match r {
                Ok(v) => spec_calculate_lp_fee(*self) == Ok::<nat, PairError>(v.as_nat()),
                Err(e) => spec_calculate_lp_fee(*self) == Err::<nat, PairError>(e),
            }),
    {
        let protocol_fee = match self.protocol_fee() {
            Ok(v) => v,
            Err(e) => {
                return Err(e);
            },
        };
        if protocol_fee.is_zero() {
            return Ok(U256::zero());
        }
        match protocol_fee.checked_mul(&U256::from_u64(5)) {
            Some(v) => Ok(v),
            None => Err(PairError::Overflow),
        }
    }

    /// The pro-rata share of the accumulated provider fees for `user`; 0 on
    /// any overflow, as this read view never fails.
    pub fn calculate_lp_user_fee(&self, user: u64) -> (r: U256)
        requires
            self.wf(),
        ensures
            r.as_nat() == spec_lp_user_fee_view(*self, user),
    {
        let total_lp_fee = match self.calculate_lp_fee() {
            Ok(v) => v,
            Err(_) => {
                return U256::zero();
            },
        };
        if total_lp_fee.is_zero() {
            return U256::zero();
        }
        let total_supply = self.lp.total_supply();
        if total_supply.is_zero() {
            return U256::zero();
        }
        let user_balance = self.lp.balance_of(user);
        let scaled = match user_balance.checked_mul(&total_lp_fee) {
            Some(v) => v,
            None => {
                return U256::zero();
            },
        };
        scaled.div(&total_supply)
    }

    /// The token amounts a removal of `liquidity` shares would pay out,
    /// after simulating the protocol-fee dilution.
    pub fn calculate_remove_liquidity(&self, liquidity: U256) -> (r: Result<(U256, U256), PairError>)
        ensures
            (match r {
                Ok(v) => spec_calculate_remove_liquidity(*self, liquidity.as_nat()) == Ok::<
                    (nat, nat),
                    PairError,
                >((v.0.as_nat(), v.1.as_nat())),
                Err(e) => spec_calculate_remove_liquidity(*self, liquidity.as_nat()) == Err::<
                    (nat, nat),
                    PairError,
                >(e),
            }),
    {
        if liquidity.is_zero() {
            return Ok((U256::zero(), U256::zero()));
        }
        let protocol_fee = match self.protocol_fee() {
            Ok(v) => v,
            Err(e) => {
                return Err(e);
            },
        };
        let simulated_total_supply = match self.lp.total_supply().checked_add(&protocol_fee) {
            Some(v) => v,
            None => {
                return Err(PairError::Overflow);
            },
        };
        let scaled0 = match liquidity.checked_mul(&self.reserve0) {
            Some(v) => v,
            None => {
                return Err(PairError::Overflow);
            },
        };
        if simulated_total_supply.is_zero() {
            return Err(PairError::Overflow);
        }
        let scaled1 = match liquidity.checked_mul(&self.reserve1) {
            Some(v) => v,
            None => {
                return Err(PairError::Overflow);
            },
        };
        Ok((scaled0.div(&simulated_total_supply), scaled1.div(&simulated_total_supply)))
    }
}

/// The deposit an add-liquidity accepts before its first transfer:
/// the actual amounts and the reserves they will bring, or the error the
/// request is rejected with while the lock is still free.
pub open spec fn spec_add_liquidity_begin(
    p: Pair,
    a_des: nat,
    b_des: nat,
    a_min: nat,
    b_min: nat,
    now: u64,
    deadline: u64,
) -> Result<(nat, nat, nat, nat), PairError> {
    match p.spec_entry_guard(now, deadline) {
        Some(e) => Err(e),
        None => match spec_optimal_amounts(
            p.reserve0.as_nat(),
            p.reserve1.as_nat(),
            a_des,
            b_des,
            a_min,
            b_min,
        ) {
            Err(e) => Err(e),
            Ok((aa, ab)) => if p.reserve0.as_nat() + aa >= pow256() {
                Err(PairError::Overflow)
            } else if p.reserve1.as_nat() + ab >= pow256() {
                Err(PairError::Overflow)
            } else {
                Ok(
                    (
                        aa,
                        ab,
                        (p.reserve0.as_nat() + aa) as nat,
                        (p.reserve1.as_nat() + ab) as nat,
                    ),
                )
            },
        },
    }
}

impl Pair {
    /// Starts an add-liquidity: validates the request, computes the deposit,
    /// takes the lock, and hands back the first transfer (token0 from the
    /// user). Nothing else changes until the replies arrive.
    pub fn add_liquidity(
        &mut self,
        user: u64,
        amount_a_desired: U256,
        amount_b_desired: U256,
        amount_a_min: U256,
        amount_b_min: U256,
        now: u64,
        deadline: u64,
    ) -> (r: Result<TokenAction, PairError>)
        requires
            old(self).wf(),
            user != 0,
        ensures
            final(self).wf(),
            (match spec_add_liquidity_begin(
                *old(self),
                amount_a_desired.as_nat(),
                amount_b_desired.as_nat(),
                amount_a_min.as_nat(),
                amount_b_min.as_nat(),
                now,
                deadline,
            ) {
                Err(e) => r == Err::<TokenAction, PairError>(e) && *final(self) == *old(self),
                Ok((aa, ab, nr0, nr1)) => {
                    &&& (r matches Ok(act) && act matches TokenAction::TransferFrom {
                        token,
                        from,
                        amount,
                    } && token == old(self).token0 && from == user && amount.as_nat() == aa)
                    &&& (final(self).lock matches LockState::Busy(LockCtx::AddLiqRefund {
                        user: cu,
                        amount_a,
                        amount_b,
                        new_reserve0,
                        new_reserve1,
                        phase,
                    }) && cu == user && amount_a.as_nat() == aa && amount_b.as_nat() == ab
                        && new_reserve0.as_nat() == nr0 && new_reserve1.as_nat() == nr1 && phase
                        == AddLiqPhase::LockTokenA)
                    &&& spec_same_static(*old(self), *final(self))
                    &&& spec_same_pool(*old(self), *final(self))
                    &&& final(self).lp == old(self).lp
                },
            }),
    {
        if let Some(e) = self.entry_guard(now, deadline) {
            return Err(e);
        }
        let (amount_a, amount_b) = match math::calculate_optimal_amounts(
            self.reserve0,
            self.reserve1,
            amount_a_desired,
            amount_b_desired,
            amount_a_min,
            amount_b_min,
        ) {
            Ok(v) => v,
            Err(e) => {
                return Err(e);
            },
        };
        let new_reserve0 = match self.reserve0.checked_add(&amount_a) {
            Some(v) => v,
            None => {
                return Err(PairError::Overflow);
            },
        };
        let new_reserve1 = match self.reserve1.checked_add(&amount_b) {
            Some(v) => v,
            None => {
                return Err(PairError::Overflow);
            },
        };
        self.lock = LockState::Busy(
            LockCtx::AddLiqRefund {
                user,
                amount_a,
                amount_b,
                new_reserve0,
                new_reserve1,
                phase: AddLiqPhase::LockTokenA,
            },
        );
        Ok(TokenAction::TransferFrom { token: self.token0, from: user, amount: amount_a })
    }
}

/// What committing an add-liquidity does once both deposits arrived: the
/// protocol fee is minted first (and persists even when a later step
/// fails), then the user's shares, then the reserves and `k_last`. Every
/// failure leaves the lock free.
pub open spec fn spec_add_commit_rel(
    pre: Pair,
    user: u64,
    amount_a: U256,
    amount_b: U256,
    nr0: U256,
    nr1: U256,
    post: Pair,
    out: ReplyOutcome,
) -> bool {
    match spec_mint_fee_outcome(pre) {
        Err(e) => post == (Pair { lock: LockState::Free, ..pre }) && out == ReplyOutcome::Failed(
            e,
        ),
        Ok((fee_on, minted)) => {
            let ts1 = pre.lp.spec_total_supply() + minted;
            let kl1: nat = if fee_on {
                pre.k_last.as_nat()
            } else {
                0
            };
            &&& spec_same_static(pre, post)
            &&& spec_same_roles(pre, post)
            &&& post.lock == LockState::Free
            &&& post.accrued_fee0 == pre.accrued_fee0
            &&& post.accrued_fee1 == pre.accrued_fee1
            &&& post.migrated == pre.migrated
            &&& (match spec_calculate_liquidity(
                pre.reserve0.as_nat(),
                pre.reserve1.as_nat(),
                amount_a.as_nat(),
                amount_b.as_nat(),
                ts1 as nat,
            ) {
                Err(e) => {
                    &&& out == ReplyOutcome::Failed(e)
                    &&& post.reserve0 == pre.reserve0
                    &&& post.reserve1 == pre.reserve1
                    &&& post.k_last.as_nat() == kl1
                    &&& spec_lp_minted(pre, post, user, 0, 0, minted)
                },
                Ok(l) => {
                    let zero_mint: nat = if ts1 == 0 {
                        MINIMUM_LIQUIDITY as nat
                    } else {
                        0
                    };
                    if ts1 + zero_mint + l >= pow256() {
                        // the user's minting overflows the supply; the fee
                        // and minimum-liquidity mints persist
                        &&& out == ReplyOutcome::Failed(PairError::Overflow)
                        &&& post.reserve0 == pre.reserve0
                        &&& post.reserve1 == pre.reserve1
                        &&& post.k_last.as_nat() == kl1
                        &&& spec_lp_minted(pre, post, user, 0, zero_mint, minted)
                    } else {
                        &&& post.reserve0 == nr0
                        &&& post.reserve1 == nr1
                        &&& spec_lp_minted(pre, post, user, l, zero_mint, minted)
                        &&& (if fee_on {
                            if nr0.as_nat() * nr1.as_nat() < pow256() {
                                post.k_last.as_nat() == nr0.as_nat() * nr1.as_nat() && (
                                out matches ReplyOutcome::Completed(PairEvent::LiquidityAdded {
                                    user: eu,
                                    amount_a: ea,
                                    amount_b: eb,
                                    liquidity,
                                }) && eu == user && ea == amount_a && eb == amount_b
                                    && liquidity.as_nat() == l)
                            } else {
                                post.k_last.as_nat() == kl1 && out == ReplyOutcome::Failed(
                                    PairError::Overflow,
                                )
                            }
                        } else {
                            post.k_last.as_nat() == kl1 && (
                            out matches ReplyOutcome::Completed(PairEvent::LiquidityAdded {
                                user: eu,
                                amount_a: ea,
                                amount_b: eb,
                                liquidity,
                            }) && eu == user && ea == amount_a && eb == amount_b
                                && liquidity.as_nat() == l)
                        })
                    }
                },
            })
        },
    }
}

/// The ledger of `post` is that of `pre` with `l` shares minted to `user`,
/// `zero_mint` to the zero identity and `fee_mint` to `fee_to`.
pub open spec fn spec_lp_minted(
    pre: Pair,
    post: Pair,
    user: u64,
    l: nat,
    zero_mint: nat,
    fee_mint: nat,
) -> bool {
    &&& post.lp.spec_total_supply() == pre.lp.spec_total_supply() + fee_mint + zero_mint + l
    &&& forall|o: u64|
        bal_of(post.lp@, o) == bal_of(pre.lp@, o) + (if o == user {
            l
        } else {
            0
        }) + (if o == 0 {
            zero_mint
        } else {
            0
        }) + (if o == pre.fee_to {
            fee_mint
        } else {
            0
        })
}

/// A minted liquidity amount is only ever computed from deposits of both
/// tokens.
proof fn lemma_liquidity_needs_amounts(ra: nat, rb: nat, a: nat, b: nat, ts: nat)
    requires
        spec_calculate_liquidity(ra, rb, a, b, ts) is Ok,
        ts > 0 ==> ra > 0 && rb > 0,
    ensures
        a > 0 && b > 0,
{
    if ts == 0 {
        let s = sqrt_nat(a * b);
        crate::u256::lemma_sqrt_nat_is_sqrt(a * b);
        assert(s > MINIMUM_LIQUIDITY);
        assert(s * s >= 1) by (nonlinear_arith)
            requires
                s >= 1,
        ;
        if a == 0 || b == 0 {
            assert(a * b == 0) by (nonlinear_arith)
                requires
                    a == 0 || b == 0,
            ;
        }
    } else {
        let la = a * ts / ra;
        let lb = b * ts / rb;
        vstd::arithmetic::div_mod::lemma_fundamental_div_mod((a * ts) as int, ra as int);
        vstd::arithmetic::div_mod::lemma_mod_division_less_than_divisor((a * ts) as int, ra as int);
        vstd::arithmetic::div_mod::lemma_fundamental_div_mod((b * ts) as int, rb as int);
        vstd::arithmetic::div_mod::lemma_mod_division_less_than_divisor((b * ts) as int, rb as int);
        assert(la >= 1 && lb >= 1);
        assert(ra * la >= ra) by (nonlinear_arith)
            requires
                la >= 1,
                ra >= 0,
        ;
        assert(rb * lb >= rb) by (nonlinear_arith)
            requires
                lb >= 1,
                rb >= 0,
        ;
        if a == 0 {
            assert(a * ts == 0) by (nonlinear_arith)
                requires
                    a == 0,
            ;
        }
        if b == 0 {
            assert(b * ts == 0) by (nonlinear_arith)
                requires
                    b == 0,
            ;
        }
    }
}

impl Pair {
    /// Commits an add-liquidity once both deposits arrived: protocol fee,
    /// minimum-liquidity lock on the first deposit, the user's shares, then
    /// reserves and `k_last`.
    #[verifier::rlimit(100)]
    fn add_liq_commit(
        &mut self,
        user: u64,
        amount_a: U256,
        amount_b: U256,
        new_reserve0: U256,
        new_reserve1: U256,
    ) -> (out: ReplyOutcome)
        requires
            old(self).wf(),
            !old(self).migrated,
            new_reserve0.as_nat() == old(self).reserve0.as_nat() + amount_a.as_nat(),
            new_reserve1.as_nat() == old(self).reserve1.as_nat() + amount_b.as_nat(),
        ensures
            final(self).wf(),
            spec_add_commit_rel(
                (Pair { lock: LockState::Free, ..*old(self) }),
                user,
                amount_a,
                amount_b,
                new_reserve0,
                new_reserve1,
                *final(self),
                out,
            ),
    {
        self.lock = LockState::Free;
        let ghost pre = *self;
        let fee_on = match self.mint_fee() {
            Ok(b) => b,
            Err(e) => {
                return ReplyOutcome::Failed(e);
            },
        };
        proof {
            if self.lp.spec_total_supply() > 0 && old(self).lp.spec_total_supply() == 0 {
                lemma_protocol_fee_needs_supply(pre);
            }
        }
        let total_supply = self.lp.total_supply();
        let liquidity = match math::calculate_liquidity(
            self.reserve0,
            self.reserve1,
            amount_a,
            amount_b,
            total_supply,
        ) {
            Ok(l) => l,
            Err(e) => {
                return ReplyOutcome::Failed(e);
            },
        };
        proof {
            lemma_liquidity_needs_amounts(
                self.reserve0.as_nat(),
                self.reserve1.as_nat(),
                amount_a.as_nat(),
                amount_b.as_nat(),
                total_supply.as_nat(),
            );
        }
        proof {
            if total_supply.as_nat() == 0 {
                crate::u256::lemma_sqrt_fits_128(amount_a.as_nat() * amount_b.as_nat());
            }
        }
        if total_supply.is_zero() {
            match self.lp.mint(0, U256::from_u64(MINIMUM_LIQUIDITY)) {
                Ok(()) => {},
                Err(_) => {
                    return ReplyOutcome::Failed(PairError::Overflow);
                },
            }
        }
        match self.lp.mint(user, liquidity) {
            Ok(()) => {},
            Err(e) => {
                return ReplyOutcome::Failed(e);
            },
        }
        self.reserve0 = new_reserve0;
        self.reserve1 = new_reserve1;
        if fee_on {
            match self.reserve0.checked_mul(&self.reserve1) {
                Some(k) => {
                    self.k_last = k;
                },
                None => {
                    return ReplyOutcome::Failed(PairError::Overflow);
                },
            }
        }
        ReplyOutcome::Completed(
            PairEvent::LiquidityAdded { user, amount_a, amount_b, liquidity },
        )
    }
}

/// The type of a swap request: fix the input and take what comes out, or
/// fix the output and pay what it takes.
#[derive(Clone, Copy, PartialEq, Eq, Structural, Debug)]
pub enum SwapType {
    ExactInput { amount_in: U256, amount_out_min: U256 },
    ExactOutput { amount_out: U256, amount_in_max: U256 },
}

/// The amounts a swap settles on before anything moves:
/// `(aInTotal, aInPool, aOut, tFee)`, or the quoting / slippage error.
pub open spec fn spec_swap_amounts(p: Pair, swap_type: SwapType, is01: bool) -> Result<
    (nat, nat, nat, nat),
    PairError,
> {
    let tbps: nat = if p.treasury != 0 {
        TREASURY_FEE_BPS as nat
    } else {
        0
    };
    let rin = p.spec_reserve_in(is01);
    let rout = p.spec_reserve_out(is01);
    match swap_type {
        SwapType::ExactInput { amount_in, amount_out_min } => match spec_get_amount_out_with_treasury(
            amount_in.as_nat(),
            rin,
            rout,
            tbps,
        ) {
            Err(e) => Err(e),
            Ok((ain_pool, aout, tfee)) => if aout < amount_out_min.as_nat() {
                Err(PairError::InsufficientAmount)
            } else {
                Ok((amount_in.as_nat(), ain_pool, aout, tfee))
            },
        },
        SwapType::ExactOutput { amount_out, amount_in_max } => match spec_get_amount_in_with_treasury(
            amount_out.as_nat(),
            rin,
            rout,
            tbps,
        ) {
            Err(e) => Err(e),
            Ok((ain_pool, ain_total, tfee)) => if ain_total > amount_in_max.as_nat() {
                Err(PairError::ExcessiveInputAmount)
            } else {
                Ok((ain_total, ain_pool, amount_out.as_nat(), tfee))
            },
        },
    }
}

/// Everything a swap decides before its first transfer:
/// `(aInTotal, aOut, newRIn, newROut, newAccruedIn)`, or the error the
/// request is rejected with while the lock is still free.
pub open spec fn spec_swap_begin(
    p: Pair,
    swap_type: SwapType,
    is01: bool,
    now: u64,
    deadline: u64,
) -> Result<(nat, nat, nat, nat, nat), PairError> {
    match p.spec_entry_guard(now, deadline) {
        Some(e) => Err(e),
        None => match spec_swap_amounts(p, swap_type, is01) {
            Err(e) => Err(e),
            Ok((ain_total, ain_pool, aout, tfee)) => {
                let rin = p.spec_reserve_in(is01);
                let rout = p.spec_reserve_out(is01);
                if aout > rout {
                    Err(PairError::InsufficientLiquidity)
                } else if rin + ain_pool >= pow256() {
                    Err(PairError::Overflow)
                } else {
                    let nri = (rin + ain_pool) as nat;
                    let nro = (rout - aout) as nat;
                    let b0: nat = if is01 {
                        nri
                    } else {
                        nro
                    };
                    let b1: nat = if is01 {
                        nro
                    } else {
                        nri
                    };
                    let a0in: nat = if is01 {
                        ain_pool
                    } else {
                        0
                    };
                    let a1in: nat = if is01 {
                        0
                    } else {
                        ain_pool
                    };
                    match spec_constant_product_check(
                        b0,
                        b1,
                        a0in,
                        a1in,
                        p.reserve0.as_nat(),
                        p.reserve1.as_nat(),
                    ) {
                        Err(e) => Err(e),
                        Ok(()) => {
                            let acc = if is01 {
                                p.accrued_fee0.as_nat()
                            } else {
                                p.accrued_fee1.as_nat()
                            };
                            if acc + tfee >= pow256() {
                                Err(PairError::Overflow)
                            } else {
                                Ok((ain_total, aout, nri, nro, (acc + tfee) as nat))
                            }
                        },
                    }
                }
            },
        },
    }
}

/// What committing a swap does once both transfers went through: the
/// direction's reserves become the precomputed ones and the treasury
/// surcharge is added to the input side's accrued fees.
pub open spec fn spec_swap_commit_rel(
    pre: Pair,
    user: u64,
    is01: bool,
    amount_in: U256,
    amount_out: U256,
    nri: U256,
    nro: U256,
    nacc: U256,
    post: Pair,
    out: ReplyOutcome,
) -> bool {
    &&& post == (Pair {
        lock: LockState::Free,
        reserve0: if is01 {
            nri
        } else {
            nro
        },
        reserve1: if is01 {
            nro
        } else {
            nri
        },
        accrued_fee0: if is01 {
            nacc
        } else {
            pre.accrued_fee0
        },
        accrued_fee1: if is01 {
            pre.accrued_fee1
        } else {
            nacc
        },
        ..pre
    })
    &&& out == ReplyOutcome::Completed(
        PairEvent::Swap { user, amount_in, amount_out, is_token0_to_token1: is01 },
    )
}

impl Pair {
    /// Swaps an exact amount of the input token for at least
    /// `amount_out_min` of the other; the swap settles when the host has
    /// carried out both transfers.
    pub fn swap_exact_tokens_for_tokens(
        &mut self,
        user: u64,
        amount_in: U256,
        amount_out_min: U256,
        is_token0_to_token1: bool,
        now: u64,
        deadline: u64,
    ) -> (r: Result<TokenAction, PairError>)
        requires
            old(self).wf(),
            user != 0,
        ensures
            final(self).wf(),
            spec_swap_begin_rel(
                *old(self),
                user,
                (SwapType::ExactInput { amount_in, amount_out_min }),
                is_token0_to_token1,
                now,
                deadline,
                *final(self),
                r,
            ),
    {
        self.swap_tokens(
            user,
            SwapType::ExactInput { amount_in, amount_out_min },
            is_token0_to_token1,
            now,
            deadline,
        )
    }

    /// Swaps at most `amount_in_max` of the input token for an exact amount
    /// of the other; the swap settles when the host has carried out both
    /// transfers.
    pub fn swap_tokens_for_exact_tokens(
        &mut self,
        user: u64,
        amount_out: U256,
        amount_in_max: U256,
        is_token0_to_token1: bool,
        now: u64,
        deadline: u64,
    ) -> (r: Result<TokenAction, PairError>)
        requires
            old(self).wf(),
            user != 0,
        ensures
            final(self).wf(),
            spec_swap_begin_rel(
                *old(self),
                user,
                (SwapType::ExactOutput { amount_out, amount_in_max }),
                is_token0_to_token1,
                now,
                deadline,
                *final(self),
                r,
            ),
    {
        self.swap_tokens(
            user,
            SwapType::ExactOutput { amount_out, amount_in_max },
            is_token0_to_token1,
            now,
            deadline,
        )
    }

    /// The shared swap engine: validates, quotes, checks the
    /// constant-product invariant on the prospective balances, takes the
    /// lock and hands back the inbound transfer.
    pub fn swap_tokens(
        &mut self,
        user: u64,
        swap_type: SwapType,
        is_token0_to_token1: bool,
        now: u64,
        deadline: u64,
    ) -> (r: Result<TokenAction, PairError>)
        requires
            old(self).wf(),
            user != 0,
        ensures
            final(self).wf(),
            spec_swap_begin_rel(
                *old(self),
                user,
                swap_type,
                is_token0_to_token1,
                now,
                deadline,
                *final(self),
                r,
            ),
    {
        if let Some(e) = self.entry_guard(now, deadline) {
            return Err(e);
        }
        let treasury_bps: u64 = if self.treasury != 0 {
            TREASURY_FEE_BPS
        } else {
            0
        };
        let (reserve_in, reserve_out) = if is_token0_to_token1 {
            (self.reserve0, self.reserve1)
        } else {
            (self.reserve1, self.reserve0)
        };
        let (amount_in, amount_in_pool, amount_out) = match swap_type {
            SwapType::ExactInput { amount_in, amount_out_min } => {
                let (ain_pool, aout, _tfee) = match math::get_amount_out_with_treasury(
                    amount_in,
                    reserve_in,
                    reserve_out,
                    treasury_bps,
                ) {
                    Ok(v) => v,
                    Err(e) => {
                        return Err(e);
                    },
                };
                if aout.lt(&amount_out_min) {
                    return Err(PairError::InsufficientAmount);
                }
                (amount_in, ain_pool, aout)
            },
            SwapType::ExactOutput { amount_out, amount_in_max } => {
                let (ain_pool, ain_total, _tfee) = match math::get_amount_in_with_treasury(
                    amount_out,
                    reserve_in,
                    reserve_out,
                    treasury_bps,
                ) {
                    Ok(v) => v,
                    Err(e) => {
                        return Err(e);
                    },
                };
                if amount_in_max.lt(&ain_total) {
                    return Err(PairError::ExcessiveInputAmount);
                }
                (ain_total, ain_pool, amount_out)
            },
        };
        proof {
            match swap_type {
                SwapType::ExactOutput { .. } => {
                    if treasury_bps > 0 {
                        math::lemma_gross_up_covers(
                            amount_in_pool.as_nat(),
                            (FEE_DENOM_BPS - treasury_bps) as nat,
                            amount_in.as_nat(),
                        );
                    }
                },
                SwapType::ExactInput { .. } => {
                    math::lemma_amount_out_lt_reserve(
                        amount_in_pool.as_nat(),
                        reserve_in.as_nat(),
                        reserve_out.as_nat(),
                    );
                },
            }
        }
        let treasury_fee = match amount_in.checked_sub(&amount_in_pool) {
            Some(v) => v,
            None => {
                return Err(PairError::Overflow);
            },
        };
        if reserve_out.lt(&amount_out) {
            return Err(PairError::InsufficientLiquidity);
        }
        let new_reserve_in = match reserve_in.checked_add(&amount_in_pool) {
            Some(v) => v,
            None => {
                return Err(PairError::Overflow);
            },
        };
        let new_reserve_out = reserve_out.checked_sub(&amount_out).unwrap();
        let (balance0, balance1) = if is_token0_to_token1 {
            (new_reserve_in, new_reserve_out)
        } else {
            (new_reserve_out, new_reserve_in)
        };
        let (amount0_in, amount1_in) = if is_token0_to_token1 {
            (amount_in_pool, U256::zero())
        } else {
            (U256::zero(), amount_in_pool)
        };
        match math::verify_constant_product_invariant(
            balance0,
            balance1,
            amount0_in,
            amount1_in,
            self.reserve0,
            self.reserve1,
        ) {
            Ok(()) => {},
            Err(e) => {
                return Err(e);
            },
        }
        let accrued = if is_token0_to_token1 {
            self.accrued_fee0
        } else {
            self.accrued_fee1
        };
        let new_accrued_in = match accrued.checked_add(&treasury_fee) {
            Some(v) => v,
            None => {
                return Err(PairError::Overflow);
            },
        };
        let token_in = if is_token0_to_token1 {
            self.token0
        } else {
            self.token1
        };
        self.lock = LockState::Busy(
            LockCtx::SwapRefund {
                user,
                is_token0_to_token1,
                amount_in,
                amount_out,
                new_reserve_in,
                new_reserve_out,
                new_accrued_in,
                phase: SwapPhase::TransferTokenIn,
            },
        );
        Ok(TokenAction::TransferFrom { token: token_in, from: user, amount: amount_in })
    }

    /// Commits a swap once both transfers went through.
    fn swap_commit(
        &mut self,
        user: u64,
        is_token0_to_token1: bool,
        amount_in: U256,
        amount_out: U256,
        new_reserve_in: U256,
        new_reserve_out: U256,
        new_accrued_in: U256,
    ) -> (out: ReplyOutcome)
        requires
            old(self).wf(),
            !old(self).migrated,
            new_reserve_in.as_nat() > 0,
            new_reserve_out.as_nat() > 0,
        ensures
            final(self).wf(),
            spec_swap_commit_rel(
                *old(self),
                user,
                is_token0_to_token1,
                amount_in,
                amount_out,
                new_reserve_in,
                new_reserve_out,
                new_accrued_in,
                *final(self),
                out,
            ),
    {
        if is_token0_to_token1 {
            self.reserve0 = new_reserve_in;
            self.reserve1 = new_reserve_out;
            self.accrued_fee0 = new_accrued_in;
        } else {
            self.reserve1 = new_reserve_in;
            self.reserve0 = new_reserve_out;
            self.accrued_fee1 = new_accrued_in;
        }
        self.lock = LockState::Free;
        ReplyOutcome::Completed(
            PairEvent::Swap { user, amount_in, amount_out, is_token0_to_token1 },
        )
    }
}

/// The lock and action a beginning swap leaves behind: on any error nothing
/// has changed, otherwise the continuation carries the settled amounts and
/// the host owes the pool the inbound transfer.
pub open spec fn spec_swap_begin_rel(
    pre: Pair,
    user: u64,
    swap_type: SwapType,
    is01: bool,
    now: u64,
    deadline: u64,
    post: Pair,
    r: Result<TokenAction, PairError>,
) -> bool {
    match spec_swap_begin(pre, swap_type, is01, now, deadline) {
        Err(e) => r == Err::<TokenAction, PairError>(e) && post == pre,
        Ok((ain_total, aout, nri, nro, nacc)) => {
            &&& (r matches Ok(act) && act matches TokenAction::TransferFrom { token, from, amount }
                && token == (if is01 {
                    pre.token0
                } else {
                    pre.token1
                }) && from == user && amount.as_nat() == ain_total)
            &&& (post.lock matches LockState::Busy(LockCtx::SwapRefund {
                user: cu,
                is_token0_to_token1: c01,
                amount_in,
                amount_out,
                new_reserve_in,
                new_reserve_out,
                new_accrued_in,
                phase,
            }) && cu == user && c01 == is01 && amount_in.as_nat() == ain_total
                && amount_out.as_nat() == aout && new_reserve_in.as_nat() == nri
                && new_reserve_out.as_nat() == nro && new_accrued_in.as_nat() == nacc && phase
                == SwapPhase::TransferTokenIn)
            &&& spec_same_static(pre, post)
            &&& spec_same_pool(pre, post)
            &&& post.lp == pre.lp
        },
    }
}

/// The validation of a remove-liquidity and the amounts it will pay out,
/// while nothing has changed yet: `(amountA, amountB)` by pro-rata share of
/// the fee-diluted supply, or the error the request is rejected with.
pub open spec fn spec_remove_checks(
    p: Pair,
    user: u64,
    liq: nat,
    a_min: nat,
    b_min: nat,
    now: u64,
    deadline: u64,
) -> Result<(nat, nat), PairError> {
    match p.spec_entry_guard(now, deadline) {
        Some(e) => Err(e),
        None => if liq == 0 {
            Err(PairError::ZeroLiquidity)
        } else if bal_of(p.lp@, user) < liq {
            Err(PairError::InsufficientLiquidity)
        } else {
            match spec_protocol_fee(p) {
                Err(e) => Err(e),
                Ok(pf) => {
                    let ts2 = p.lp.spec_total_supply() + pf;
                    if ts2 >= pow256() {
                        Err(PairError::Overflow)
                    } else if liq * p.reserve0.as_nat() >= pow256() {
                        Err(PairError::Overflow)
                    } else if liq * p.reserve1.as_nat() >= pow256() {
                        Err(PairError::Overflow)
                    } else {
                        let aa = liq * p.reserve0.as_nat() / ts2;
                        let ab = liq * p.reserve1.as_nat() / ts2;
                        if aa < a_min {
                            Err(PairError::InsufficientAmountA)
                        } else if ab < b_min {
                            Err(PairError::InsufficientAmountB)
                        } else if aa > p.reserve0.as_nat() || ab > p.reserve1.as_nat() {
                            Err(PairError::InsufficientLiquidity)
                        } else {
                            Ok((aa, ab))
                        }
                    }
                },
            }
        },
    }
}

/// What a begun remove-liquidity has already committed when its first
/// transfer goes out: the protocol fee is minted, the user's shares are
/// burned, and the continuation carries the amounts owed.
pub open spec fn spec_remove_begin_rel(
    pre: Pair,
    user: u64,
    liq: U256,
    a_min: U256,
    b_min: U256,
    now: u64,
    deadline: u64,
    post: Pair,
    r: Result<TokenAction, PairError>,
) -> bool {
    match spec_remove_checks(
        pre,
        user,
        liq.as_nat(),
        a_min.as_nat(),
        b_min.as_nat(),
        now,
        deadline,
    ) {
        Err(e) => r == Err::<TokenAction, PairError>(e) && post == pre,
        Ok((aa, ab)) => {
            let fee_on = pre.fee_to != 0;
            let minted = spec_protocol_fee_view(pre);
            &&& spec_same_static(pre, post)
            &&& spec_same_roles(pre, post)
            &&& post.reserve0 == pre.reserve0
            &&& post.reserve1 == pre.reserve1
            &&& post.accrued_fee0 == pre.accrued_fee0
            &&& post.accrued_fee1 == pre.accrued_fee1
            &&& post.migrated == pre.migrated
            &&& post.k_last.as_nat() == (if fee_on {
                pre.k_last.as_nat()
            } else {
                0
            })
            &&& post.lp.spec_total_supply() == pre.lp.spec_total_supply() + minted - liq.as_nat()
            &&& forall|o: u64|
                bal_of(post.lp@, o) == bal_of(pre.lp@, o) + (if o == pre.fee_to {
                    minted
                } else {
                    0
                }) - (if o == user {
                    liq.as_nat()
                } else {
                    0
                })
            &&& (post.lock matches LockState::Busy(LockCtx::RemLiq {
                user: cu,
                liquidity,
                amount_a,
                amount_b,
                fee_on: cf,
                stage,
            }) && cu == user && liquidity == liq && amount_a.as_nat() == aa && amount_b.as_nat()
                == ab && cf == fee_on && stage == SendTokenStage::SendToken0)
            &&& (r matches Ok(act) && act matches TokenAction::Transfer { token, to, amount }
                && token == pre.token0 && to == user && amount.as_nat() == aa)
        },
    }
}

/// What committing a remove-liquidity does once both payouts went out: the
/// reserves drop by the amounts paid and `k_last` tracks the new product
/// when the fee is on.
pub open spec fn spec_rem_commit_rel(
    pre: Pair,
    user: u64,
    liquidity: U256,
    amount_a: U256,
    amount_b: U256,
    fee_on: bool,
    post: Pair,
    out: ReplyOutcome,
) -> bool {
    let nr0 = (pre.reserve0.as_nat() - amount_a.as_nat()) as nat;
    let nr1 = (pre.reserve1.as_nat() - amount_b.as_nat()) as nat;
    &&& spec_same_static(pre, post)
    &&& spec_same_roles(pre, post)
    &&& post.lp == pre.lp
    &&& post.accrued_fee0 == pre.accrued_fee0
    &&& post.accrued_fee1 == pre.accrued_fee1
    &&& post.migrated == pre.migrated
    &&& post.lock == LockState::Free
    &&& post.reserve0.as_nat() == nr0
    &&& post.reserve1.as_nat() == nr1
    &&& (if fee_on {
        if nr0 * nr1 < pow256() {
            post.k_last.as_nat() == nr0 * nr1 && out == ReplyOutcome::Completed(
                PairEvent::LiquidityRemoved { user, amount_a, amount_b, liquidity },
            )
        } else {
            post.k_last == pre.k_last && out == ReplyOutcome::Failed(PairError::Overflow)
        }
    } else {
        post.k_last == pre.k_last && out == ReplyOutcome::Completed(
            PairEvent::LiquidityRemoved { user, amount_a, amount_b, liquidity },
        )
    })
}

impl Pair {
    /// Starts a remove-liquidity: validates the request against the
    /// fee-diluted supply, mints the protocol fee, burns the user's shares,
    /// takes the lock and hands back the first payout (token0 to the user).
    /// Once shares are burned, a failed payout pauses the pair rather than
    /// lose what is owed.
    pub fn remove_liquidity(
        &mut self,
        user: u64,
        liquidity: U256,
        amount_a_min: U256,
        amount_b_min: U256,
        now: u64,
        deadline: u64,
    ) -> (r: Result<TokenAction, PairError>)
        requires
            old(self).wf(),
            user != 0,
        ensures
            final(self).wf(),
            spec_remove_begin_rel(
                *old(self),
                user,
                liquidity,
                amount_a_min,
                amount_b_min,
                now,
                deadline,
                *final(self),
                r,
            ),
    {
        if let Some(e) = self.entry_guard(now, deadline) {
            return Err(e);
        }
        if liquidity.is_zero() {
            return Err(PairError::ZeroLiquidity);
        }
        let user_balance = self.lp.balance_of(user);
        if user_balance.lt(&liquidity) {
            return Err(PairError::InsufficientLiquidity);
        }
        let protocol_fee = match self.protocol_fee() {
            Ok(v) => v,
            Err(e) => {
                return Err(e);
            },
        };
        let simulated_total_supply = match self.lp.total_supply().checked_add(&protocol_fee) {
            Some(v) => v,
            None => {
                return Err(PairError::Overflow);
            },
        };
        let scaled0 = match liquidity.checked_mul(&self.reserve0) {
            Some(v) => v,
            None => {
                return Err(PairError::Overflow);
            },
        };
        let scaled1 = match liquidity.checked_mul(&self.reserve1) {
            Some(v) => v,
            None => {
                return Err(PairError::Overflow);
            },
        };
        proof {
            crate::ledger::lemma_one_entry_le_sum(self.lp@, user);
        }
        let amount_a = scaled0.div(&simulated_total_supply);
        let amount_b = scaled1.div(&simulated_total_supply);
        if amount_a.lt(&amount_a_min) {
            return Err(PairError::InsufficientAmountA);
        }
        if amount_b.lt(&amount_b_min) {
            return Err(PairError::InsufficientAmountB);
        }
        if self.reserve0.lt(&amount_a) || self.reserve1.lt(&amount_b) {
            return Err(PairError::InsufficientLiquidity);
        }
        proof {
            crate::ledger::lemma_two_entries_le_sum(self.lp@, user, 0);
            lemma_payout_lt_reserve(
                liquidity.as_nat(),
                self.reserve0.as_nat(),
                simulated_total_supply.as_nat(),
            );
            lemma_payout_lt_reserve(
                liquidity.as_nat(),
                self.reserve1.as_nat(),
                simulated_total_supply.as_nat(),
            );
        }
        let fee_on = match self.mint_fee() {
            Ok(b) => b,
            Err(e) => {
                // cannot happen: the simulation above already priced the fee
                proof {
                    assert(false);
                }
                return Err(e);
            },
        };
        match self.lp.burn(user, liquidity) {
            Ok(()) => {},
            Err(e) => {
                // cannot happen: the balance check above covers the burn
                proof {
                    assert(false);
                }
                return Err(e);
            },
        }
        self.lock = LockState::Busy(
            LockCtx::RemLiq {
                user,
                liquidity,
                amount_a,
                amount_b,
                fee_on,
                stage: SendTokenStage::SendToken0,
            },
        );
        Ok(TokenAction::Transfer { token: self.token0, to: user, amount: amount_a })
    }

    /// Commits a remove-liquidity once both payouts went out.
    fn rem_liq_commit(
        &mut self,
        user: u64,
        liquidity: U256,
        amount_a: U256,
        amount_b: U256,
        fee_on: bool,
    ) -> (out: ReplyOutcome)
        requires
            old(self).wf(),
            !old(self).migrated,
            amount_a.as_nat() < old(self).reserve0.as_nat(),
            amount_b.as_nat() < old(self).reserve1.as_nat(),
        ensures
            final(self).wf(),
            spec_rem_commit_rel(
                *old(self),
                user,
                liquidity,
                amount_a,
                amount_b,
                fee_on,
                *final(self),
                out,
            ),
    {
        self.reserve0 = self.reserve0.checked_sub(&amount_a).unwrap();
        self.reserve1 = self.reserve1.checked_sub(&amount_b).unwrap();
        self.lock = LockState::Free;
        if fee_on {
            match self.reserve0.checked_mul(&self.reserve1) {
                Some(k) => {
                    self.k_last = k;
                },
                None => {
                    return ReplyOutcome::Failed(PairError::Overflow);
                },
            }
        }
        ReplyOutcome::Completed(
            PairEvent::LiquidityRemoved { user, amount_a, amount_b, liquidity },
        )
    }
}

/// A pro-rata payout of fewer shares than the whole supply stays strictly
/// under the reserve it draws from.
proof fn lemma_payout_lt_reserve(liq: nat, r: nat, ts: nat)
    requires
        0 < liq < ts,
        r > 0,
        liq * r < pow256(),
    ensures
        liq * r / ts < r,
{
    assert(liq * r < ts * r) by (nonlinear_arith)
        requires
            liq < ts,
            r > 0,
    ;
    vstd::arithmetic::div_mod::lemma_multiply_divide_lt((liq * r) as int, ts as int, r as int);
}

/// The validation of a treasury payout: only the configured, non-zero
/// treasury may collect, the pair must be idle, and there must be something
/// accrued. The first stage skips an empty token0 leg.
pub open spec fn spec_treasury_begin(p: Pair, caller: u64) -> Result<SendTokenStage, PairError> {
    if p.treasury == 0 || caller != p.treasury {
        Err(PairError::NotTreasuryId)
    } else if !(p.lock matches LockState::Free) {
        Err(PairError::AnotherTxInProgress)
    } else if p.entry_gate {
        Err(PairError::AnotherTxInProgress)
    } else if p.accrued_fee0.as_nat() == 0 && p.accrued_fee1.as_nat() == 0 {
        Err(PairError::NoTreasuryFees)
    } else if p.accrued_fee0.as_nat() > 0 {
        Ok(SendTokenStage::SendToken0)
    } else {
        Ok(SendTokenStage::SendToken1)
    }
}

/// The validation of a migration: admin-only, once, on an idle pair, and
/// only when the queried pool balances hold something to move. The first
/// stage skips an empty token0 leg.
pub open spec fn spec_migrate_begin(
    p: Pair,
    caller: u64,
    balance0: U256,
    balance1: U256,
) -> Result<SendTokenStage, PairError> {
    if caller != p.admin {
        Err(PairError::Unauthorized)
    } else if p.migrated {
        Err(PairError::PoolMigrated)
    } else if !(p.lock matches LockState::Free) {
        Err(PairError::AnotherTxInProgress)
    } else if balance0.as_nat() == 0 && balance1.as_nat() == 0 {
        Err(PairError::NoLiquidityToMigrate)
    } else if balance0.as_nat() > 0 {
        Ok(SendTokenStage::SendToken0)
    } else {
        Ok(SendTokenStage::SendToken1)
    }
}

/// The transfer still owed by an in-flight continuation: the one the
/// current phase or stage is waiting on.
pub open spec fn spec_ctx_action(p: Pair, ctx: LockCtx) -> TokenAction {
    match ctx {
        LockCtx::AddLiqRefund { user, amount_a, amount_b, phase, .. } => match phase {
            AddLiqPhase::LockTokenA => TokenAction::TransferFrom {
                token: p.token0,
                from: user,
                amount: amount_a,
            },
            AddLiqPhase::LockTokenB => TokenAction::TransferFrom {
                token: p.token1,
                from: user,
                amount: amount_b,
            },
            AddLiqPhase::ReturnTokenA => TokenAction::Transfer {
                token: p.token0,
                to: user,
                amount: amount_a,
            },
        },
        LockCtx::SwapRefund { user, is_token0_to_token1, amount_in, amount_out, phase, .. } => {
            let token_in = if is_token0_to_token1 {
                p.token0
            } else {
                p.token1
            };
            let token_out = if is_token0_to_token1 {
                p.token1
            } else {
                p.token0
            };
            match phase {
                SwapPhase::TransferTokenIn => TokenAction::TransferFrom {
                    token: token_in,
                    from: user,
                    amount: amount_in,
                },
                SwapPhase::TransferTokenOut => TokenAction::Transfer {
                    token: token_out,
                    to: user,
                    amount: amount_out,
                },
                SwapPhase::ReturnTokenIn => TokenAction::Transfer {
                    token: token_in,
                    to: user,
                    amount: amount_in,
                },
            }
        },
        LockCtx::RemLiq { user, amount_a, amount_b, stage, .. } => match stage {
            SendTokenStage::SendToken0 => TokenAction::Transfer {
                token: p.token0,
                to: user,
                amount: amount_a,
            },
            SendTokenStage::SendToken1 => TokenAction::Transfer {
                token: p.token1,
                to: user,
                amount: amount_b,
            },
        },
        LockCtx::TreasuryPayout { treasury, amount0, amount1, stage } => match stage {
            SendTokenStage::SendToken0 => TokenAction::Transfer {
                token: p.token0,
                to: treasury,
                amount: amount0,
            },
            SendTokenStage::SendToken1 => TokenAction::Transfer {
                token: p.token1,
                to: treasury,
                amount: amount1,
            },
        },
        LockCtx::MigrateAllLiquidity { target, amount0, amount1, stage } => match stage {
            SendTokenStage::SendToken0 => TokenAction::Transfer {
                token: p.token0,
                to: target,
                amount: amount0,
            },
            SendTokenStage::SendToken1 => TokenAction::Transfer {
                token: p.token1,
                to: target,
                amount: amount1,
            },
        },
    }
}

/// A committed treasury payout: both accrued counters are zero again.
pub open spec fn spec_treasury_commit_rel(
    pre: Pair,
    treasury: u64,
    amount0: U256,
    amount1: U256,
    post: Pair,
    out: ReplyOutcome,
) -> bool {
    &&& spec_same_static(pre, post)
    &&& spec_same_roles(pre, post)
    &&& post.lp == pre.lp
    &&& post.lock == LockState::Free
    &&& post.reserve0 == pre.reserve0
    &&& post.reserve1 == pre.reserve1
    &&& post.k_last == pre.k_last
    &&& post.migrated == pre.migrated
    &&& post.accrued_fee0.as_nat() == 0
    &&& post.accrued_fee1.as_nat() == 0
    &&& out == ReplyOutcome::Completed(
        PairEvent::TreasuryFeesCollected { treasury, amount0, amount1 },
    )
}

/// A committed migration: nothing is left in the pool and the pair is
/// terminally disabled.
pub open spec fn spec_migrate_commit_rel(
    pre: Pair,
    target: u64,
    amount0: U256,
    amount1: U256,
    post: Pair,
    out: ReplyOutcome,
) -> bool {
    &&& spec_same_static(pre, post)
    &&& spec_same_roles(pre, post)
    &&& post.lp == pre.lp
    &&& post.lock == LockState::Free
    &&& post.reserve0.as_nat() == 0
    &&& post.reserve1.as_nat() == 0
    &&& post.k_last.as_nat() == 0
    &&& post.accrued_fee0.as_nat() == 0
    &&& post.accrued_fee1.as_nat() == 0
    &&& post.migrated
    &&& out == ReplyOutcome::Completed(
        PairEvent::LiquidityMigrated { target, amount0, amount1 },
    )
}

impl Pair {
    /// Pays the accrued treasury fees out to the treasury, one token leg at
    /// a time; callable by the treasury identity only.
    pub fn send_treasury_fees(&mut self, caller: u64) -> (r: Result<TokenAction, PairError>)
        requires
            old(self).wf(),
        ensures
            final(self).wf(),
            (match spec_treasury_begin(*old(self), caller) {
                Err(e) => r == Err::<TokenAction, PairError>(e) && *final(self) == *old(self),
                Ok(stage) => {
                    let ctx = (LockCtx::TreasuryPayout {
                        treasury: old(self).treasury,
                        amount0: old(self).accrued_fee0,
                        amount1: old(self).accrued_fee1,
                        stage,
                    });
                    &&& *final(self) == (Pair { lock: LockState::Busy(ctx), ..*old(self) })
                    &&& r == Ok::<TokenAction, PairError>(spec_ctx_action(*old(self), ctx))
                },
            }),
    {
        if self.treasury == 0 || caller != self.treasury {
            return Err(PairError::NotTreasuryId);
        }
        match self.lock {
            LockState::Free => {},
            _ => {
                return Err(PairError::AnotherTxInProgress);
            },
        }
        if self.entry_gate {
            return Err(PairError::AnotherTxInProgress);
        }
        let amount0 = self.accrued_fee0;
        let amount1 = self.accrued_fee1;
        if amount0.is_zero() && amount1.is_zero() {
            return Err(PairError::NoTreasuryFees);
        }
        let treasury = self.treasury;
        if !amount0.is_zero() {
            self.lock = LockState::Busy(
                LockCtx::TreasuryPayout {
                    treasury,
                    amount0,
                    amount1,
                    stage: SendTokenStage::SendToken0,
                },
            );
            Ok(TokenAction::Transfer { token: self.token0, to: treasury, amount: amount0 })
        } else {
            self.lock = LockState::Busy(
                LockCtx::TreasuryPayout {
                    treasury,
                    amount0,
                    amount1,
                    stage: SendTokenStage::SendToken1,
                },
            );
            Ok(TokenAction::Transfer { token: self.token1, to: treasury, amount: amount1 })
        }
    }

    /// Moves the pool's entire token holdings (as queried from the token
    /// programs by the host) to `target` and terminally disables the pair;
    /// admin only.
    pub fn migrate_all_liquidity(
        &mut self,
        caller: u64,
        target: u64,
        balance0: U256,
        balance1: U256,
    ) -> (r: Result<TokenAction, PairError>)
        requires
            old(self).wf(),
        ensures
            final(self).wf(),
            (match spec_migrate_begin(*old(self), caller, balance0, balance1) {
                Err(e) => r == Err::<TokenAction, PairError>(e) && *final(self) == *old(self),
                Ok(stage) => {
                    let ctx = (LockCtx::MigrateAllLiquidity {
                        target,
                        amount0: balance0,
                        amount1: balance1,
                        stage,
                    });
                    &&& *final(self) == (Pair { lock: LockState::Busy(ctx), ..*old(self) })
                    &&& r == Ok::<TokenAction, PairError>(spec_ctx_action(*old(self), ctx))
                },
            }),
    {
        if caller != self.admin {
            return Err(PairError::Unauthorized);
        }
        if self.migrated {
            return Err(PairError::PoolMigrated);
        }
        match self.lock {
            LockState::Free => {},
            _ => {
                return Err(PairError::AnotherTxInProgress);
            },
        }
        if balance0.is_zero() && balance1.is_zero() {
            return Err(PairError::NoLiquidityToMigrate);
        }
        if !balance0.is_zero() {
            self.lock = LockState::Busy(
                LockCtx::MigrateAllLiquidity {
                    target,
                    amount0: balance0,
                    amount1: balance1,
                    stage: SendTokenStage::SendToken0,
                },
            );
            Ok(TokenAction::Transfer { token: self.token0, to: target, amount: balance0 })
        } else {
            self.lock = LockState::Busy(
                LockCtx::MigrateAllLiquidity {
                    target,
                    amount0: balance0,
                    amount1: balance1,
                    stage: SendTokenStage::SendToken1,
                },
            );
            Ok(TokenAction::Transfer { token: self.token1, to: target, amount: balance1 })
        }
    }

    /// Re-issues the transfer a paused operation is stuck on and puts the
    /// pair back in flight; admin only. The reply then advances the
    /// operation under the same rules as before the pause.
    pub fn recover_paused(&mut self, caller: u64) -> (r: Result<TokenAction, PairError>)
        requires
            old(self).wf(),
        ensures
            final(self).wf(),
            caller != old(self).admin ==> r == Err::<TokenAction, PairError>(
                PairError::Unauthorized,
            ) && *final(self) == *old(self),
            caller == old(self).admin ==> (match old(self).lock {
                LockState::Paused(ctx) => {
                    &&& *final(self) == (Pair { lock: LockState::Busy(ctx), ..*old(self) })
                    &&& r == Ok::<TokenAction, PairError>(spec_ctx_action(*old(self), ctx))
                },
                _ => r == Err::<TokenAction, PairError>(PairError::InvalidMessageStatus)
                    && *final(self) == *old(self),
            }),
    {
        if caller != self.admin {
            return Err(PairError::Unauthorized);
        }
        let ctx = match self.lock {
            LockState::Paused(ctx) => ctx,
            _ => {
                return Err(PairError::InvalidMessageStatus);
            },
        };
        self.lock = LockState::Busy(ctx);
        Ok(self.ctx_action(ctx))
    }

    /// The transfer an in-flight continuation is waiting on.
    fn ctx_action(&self, ctx: LockCtx) -> (r: TokenAction)
        ensures
            r == spec_ctx_action(*self, ctx),
    {
        match ctx {
            LockCtx::AddLiqRefund { user, amount_a, amount_b, phase, .. } => match phase {
                AddLiqPhase::LockTokenA => TokenAction::TransferFrom {
                    token: self.token0,
                    from: user,
                    amount: amount_a,
                },
                AddLiqPhase::LockTokenB => TokenAction::TransferFrom {
                    token: self.token1,
                    from: user,
                    amount: amount_b,
                },
                AddLiqPhase::ReturnTokenA => TokenAction::Transfer {
                    token: self.token0,
                    to: user,
                    amount: amount_a,
                },
            },
            LockCtx::SwapRefund { user, is_token0_to_token1, amount_in, amount_out, phase, .. } => {
                let token_in = if is_token0_to_token1 {
                    self.token0
                } else {
                    self.token1
                };
                let token_out = if is_token0_to_token1 {
                    self.token1
                } else {
                    self.token0
                };
                match phase {
                    SwapPhase::TransferTokenIn => TokenAction::TransferFrom {
                        token: token_in,
                        from: user,
                        amount: amount_in,
                    },
                    SwapPhase::TransferTokenOut => TokenAction::Transfer {
                        token: token_out,
                        to: user,
                        amount: amount_out,
                    },
                    SwapPhase::ReturnTokenIn => TokenAction::Transfer {
                        token: token_in,
                        to: user,
                        amount: amount_in,
                    },
                }
            },
            LockCtx::RemLiq { user, amount_a, amount_b, stage, .. } => match stage {
                SendTokenStage::SendToken0 => TokenAction::Transfer {
                    token: self.token0,
                    to: user,
                    amount: amount_a,
                },
                SendTokenStage::SendToken1 => TokenAction::Transfer {
                    token: self.token1,
                    to: user,
                    amount: amount_b,
                },
            },
            LockCtx::TreasuryPayout { treasury, amount0, amount1, stage } => match stage {
                SendTokenStage::SendToken0 => TokenAction::Transfer {
                    token: self.token0,
                    to: treasury,
                    amount: amount0,
                },
                SendTokenStage::SendToken1 => TokenAction::Transfer {
                    token: self.token1,
                    to: treasury,
                    amount: amount1,
                },
            },
            LockCtx::MigrateAllLiquidity { target, amount0, amount1, stage } => match stage {
                SendTokenStage::SendToken0 => TokenAction::Transfer {
                    token: self.token0,
                    to: target,
                    amount: amount0,
                },
                SendTokenStage::SendToken1 => TokenAction::Transfer {
                    token: self.token1,
                    to: target,
                    amount: amount1,
                },
            },
        }
    }
}

/// How a token reply advances an in-flight add-liquidity.
pub open spec fn spec_reply_add_liq(
    pre: Pair,
    user: u64,
    amount_a: U256,
    amount_b: U256,
    nr0: U256,
    nr1: U256,
    phase: AddLiqPhase,
    ok: bool,
    post: Pair,
    out: ReplyOutcome,
) -> bool {
    match phase {
        AddLiqPhase::LockTokenA => if ok {
            let ctx = (LockCtx::AddLiqRefund {
                user,
                amount_a,
                amount_b,
                new_reserve0: nr0,
                new_reserve1: nr1,
                phase: AddLiqPhase::LockTokenB,
            });
            &&& post == (Pair { lock: LockState::Busy(ctx), ..pre })
            &&& out == ReplyOutcome::Next(
                TokenAction::TransferFrom { token: pre.token1, from: user, amount: amount_b },
            )
        } else {
            post == (Pair { lock: LockState::Free, ..pre }) && out == ReplyOutcome::Failed(
                PairError::TokenTransferFailed,
            )
        },
        AddLiqPhase::LockTokenB => if ok {
            spec_add_commit_rel(
                (Pair { lock: LockState::Free, ..pre }),
                user,
                amount_a,
                amount_b,
                nr0,
                nr1,
                post,
                out,
            )
        } else {
            let ctx = (LockCtx::AddLiqRefund {
                user,
                amount_a,
                amount_b,
                new_reserve0: nr0,
                new_reserve1: nr1,
                phase: AddLiqPhase::ReturnTokenA,
            });
            &&& post == (Pair { lock: LockState::Busy(ctx), ..pre })
            &&& out == ReplyOutcome::Next(
                TokenAction::Transfer { token: pre.token0, to: user, amount: amount_a },
            )
        },
        AddLiqPhase::ReturnTokenA => if ok {
            post == (Pair { lock: LockState::Free, ..pre }) && out == ReplyOutcome::Failed(
                PairError::TokenTransferFailed,
            )
        } else {
            let ctx = (LockCtx::AddLiqRefund {
                user,
                amount_a,
                amount_b,
                new_reserve0: nr0,
                new_reserve1: nr1,
                phase: AddLiqPhase::ReturnTokenA,
            });
            &&& post == (Pair { lock: LockState::Paused(ctx), ..pre })
            &&& out == ReplyOutcome::Paused(PairError::TokenTransferFailed)
        },
    }
}

/// How a token reply advances an in-flight swap.
pub open spec fn spec_reply_swap(
    pre: Pair,
    user: u64,
    is01: bool,
    amount_in: U256,
    amount_out: U256,
    nri: U256,
    nro: U256,
    nacc: U256,
    phase: SwapPhase,
    ok: bool,
    post: Pair,
    out: ReplyOutcome,
) -> bool {
    let token_in = if is01 {
        pre.token0
    } else {
        pre.token1
    };
    let token_out = if is01 {
        pre.token1
    } else {
        pre.token0
    };
    match phase {
        SwapPhase::TransferTokenIn => if ok {
            let ctx = (LockCtx::SwapRefund {
                user,
                is_token0_to_token1: is01,
                amount_in,
                amount_out,
                new_reserve_in: nri,
                new_reserve_out: nro,
                new_accrued_in: nacc,
                phase: SwapPhase::TransferTokenOut,
            });
            &&& post == (Pair { lock: LockState::Busy(ctx), ..pre })
            &&& out == ReplyOutcome::Next(
                TokenAction::Transfer { token: token_out, to: user, amount: amount_out },
            )
        } else {
            post == (Pair { lock: LockState::Free, ..pre }) && out == ReplyOutcome::Failed(
                PairError::TokenTransferFailed,
            )
        },
        SwapPhase::TransferTokenOut => if ok {
            spec_swap_commit_rel(
                (Pair { lock: LockState::Free, ..pre }),
                user,
                is01,
                amount_in,
                amount_out,
                nri,
                nro,
                nacc,
                post,
                out,
            )
        } else {
            let ctx = (LockCtx::SwapRefund {
                user,
                is_token0_to_token1: is01,
                amount_in,
                amount_out,
                new_reserve_in: nri,
                new_reserve_out: nro,
                new_accrued_in: nacc,
                phase: SwapPhase::ReturnTokenIn,
            });
            &&& post == (Pair { lock: LockState::Busy(ctx), ..pre })
            &&& out == ReplyOutcome::Next(
                TokenAction::Transfer { token: token_in, to: user, amount: amount_in },
            )
        },
        SwapPhase::ReturnTokenIn => if ok {
            post == (Pair { lock: LockState::Free, ..pre }) && out == ReplyOutcome::Failed(
                PairError::TokenTransferFailed,
            )
        } else {
            let ctx = (LockCtx::SwapRefund {
                user,
                is_token0_to_token1: is01,
                amount_in,
                amount_out,
                new_reserve_in: nri,
                new_reserve_out: nro,
                new_accrued_in: nacc,
                phase: SwapPhase::ReturnTokenIn,
            });
            &&& post == (Pair { lock: LockState::Paused(ctx), ..pre })
            &&& out == ReplyOutcome::Paused(PairError::TokenTransferFailed)
        },
    }
}

/// How a token reply advances an in-flight remove-liquidity: shares are
/// already burned, so a failed payout pauses the pair.
pub open spec fn spec_reply_rem_liq(
    pre: Pair,
    user: u64,
    liquidity: U256,
    amount_a: U256,
    amount_b: U256,
    fee_on: bool,
    stage: SendTokenStage,
    ok: bool,
    post: Pair,
    out: ReplyOutcome,
) -> bool {
    match stage {
        SendTokenStage::SendToken0 => if ok {
            let ctx = (LockCtx::RemLiq {
                user,
                liquidity,
                amount_a,
                amount_b,
                fee_on,
                stage: SendTokenStage::SendToken1,
            });
            &&& post == (Pair { lock: LockState::Busy(ctx), ..pre })
            &&& out == ReplyOutcome::Next(
                TokenAction::Transfer { token: pre.token1, to: user, amount: amount_b },
            )
        } else {
            let ctx = (LockCtx::RemLiq {
                user,
                liquidity,
                amount_a,
                amount_b,
                fee_on,
                stage: SendTokenStage::SendToken0,
            });
            &&& post == (Pair { lock: LockState::Paused(ctx), ..pre })
            &&& out == ReplyOutcome::Paused(PairError::TokenTransferFailed)
        },
        SendTokenStage::SendToken1 => if ok {
            spec_rem_commit_rel(
                (Pair { lock: LockState::Free, ..pre }),
                user,
                liquidity,
                amount_a,
                amount_b,
                fee_on,
                post,
                out,
            )
        } else {
            let ctx = (LockCtx::RemLiq {
                user,
                liquidity,
                amount_a,
                amount_b,
                fee_on,
                stage: SendTokenStage::SendToken1,
            });
            &&& post == (Pair { lock: LockState::Paused(ctx), ..pre })
            &&& out == ReplyOutcome::Paused(PairError::TokenTransferFailed)
        },
    }
}

/// How a token reply advances an in-flight treasury payout; an empty
/// token1 leg is skipped.
pub open spec fn spec_reply_treasury(
    pre: Pair,
    treasury: u64,
    amount0: U256,
    amount1: U256,
    stage: SendTokenStage,
    ok: bool,
    post: Pair,
    out: ReplyOutcome,
) -> bool {
    match stage {
        SendTokenStage::SendToken0 => if ok {
            if amount1.as_nat() == 0 {
                spec_treasury_commit_rel(
                    (Pair { lock: LockState::Free, ..pre }),
                    treasury,
                    amount0,
                    amount1,
                    post,
                    out,
                )
            } else {
                let ctx = (LockCtx::TreasuryPayout {
                    treasury,
                    amount0,
                    amount1,
                    stage: SendTokenStage::SendToken1,
                });
                &&& post == (Pair { lock: LockState::Busy(ctx), ..pre })
                &&& out == ReplyOutcome::Next(
                    TokenAction::Transfer { token: pre.token1, to: treasury, amount: amount1 },
                )
            }
        } else {
            let ctx = (LockCtx::TreasuryPayout {
                treasury,
                amount0,
                amount1,
                stage: SendTokenStage::SendToken0,
            });
            &&& post == (Pair { lock: LockState::Paused(ctx), ..pre })
            &&& out == ReplyOutcome::Paused(PairError::TokenTransferFailed)
        },
        SendTokenStage::SendToken1 => if ok {
            spec_treasury_commit_rel(
                (Pair { lock: LockState::Free, ..pre }),
                treasury,
                amount0,
                amount1,
                post,
                out,
            )
        } else {
            let ctx = (LockCtx::TreasuryPayout {
                treasury,
                amount0,
                amount1,
                stage: SendTokenStage::SendToken1,
            });
            &&& post == (Pair { lock: LockState::Paused(ctx), ..pre })
            &&& out == ReplyOutcome::Paused(PairError::TokenTransferFailed)
        },
    }
}

/// How a token reply advances an in-flight migration; an empty token1 leg
/// is skipped.
pub open spec fn spec_reply_migrate(
    pre: Pair,
    target: u64,
    amount0: U256,
    amount1: U256,
    stage: SendTokenStage,
    ok: bool,
    post: Pair,
    out: ReplyOutcome,
) -> bool {
    match stage {
        SendTokenStage::SendToken0 => if ok {
            if amount1.as_nat() == 0 {
                spec_migrate_commit_rel(
                    (Pair { lock: LockState::Free, ..pre }),
                    target,
                    amount0,
                    amount1,
                    post,
                    out,
                )
            } else {
                let ctx = (LockCtx::MigrateAllLiquidity {
                    target,
                    amount0,
                    amount1,
                    stage: SendTokenStage::SendToken1,
                });
                &&& post == (Pair { lock: LockState::Busy(ctx), ..pre })
                &&& out == ReplyOutcome::Next(
                    TokenAction::Transfer { token: pre.token1, to: target, amount: amount1 },
                )
            }
        } else {
            let ctx = (LockCtx::MigrateAllLiquidity {
                target,
                amount0,
                amount1,
                stage: SendTokenStage::SendToken0,
            });
            &&& post == (Pair { lock: LockState::Paused(ctx), ..pre })
            &&& out == ReplyOutcome::Paused(PairError::TokenTransferFailed)
        },
        SendTokenStage::SendToken1 => if ok {
            spec_migrate_commit_rel(
                (Pair { lock: LockState::Free, ..pre }),
                target,
                amount0,
                amount1,
                post,
                out,
            )
        } else {
            let ctx = (LockCtx::MigrateAllLiquidity {
                target,
                amount0,
                amount1,
                stage: SendTokenStage::SendToken1,
            });
            &&& post == (Pair { lock: LockState::Paused(ctx), ..pre })
            &&& out == ReplyOutcome::Paused(PairError::TokenTransferFailed)
        },
    }
}

/// How a decoded token reply advances the pair, whatever is in flight. A
/// reply with nothing in flight changes nothing.
pub open spec fn spec_reply_rel(pre: Pair, ok: bool, post: Pair, out: ReplyOutcome) -> bool {
    match pre.lock {
        LockState::Busy(ctx) => match ctx {
            LockCtx::AddLiqRefund {
                user,
                amount_a,
                amount_b,
                new_reserve0,
                new_reserve1,
                phase,
            } => spec_reply_add_liq(
                pre,
                user,
                amount_a,
                amount_b,
                new_reserve0,
                new_reserve1,
                phase,
                ok,
                post,
                out,
            ),
            LockCtx::SwapRefund {
                user,
                is_token0_to_token1,
                amount_in,
                amount_out,
                new_reserve_in,
                new_reserve_out,
                new_accrued_in,
                phase,
            } => spec_reply_swap(
                pre,
                user,
                is_token0_to_token1,
                amount_in,
                amount_out,
                new_reserve_in,
                new_reserve_out,
                new_accrued_in,
                phase,
                ok,
                post,
                out,
            ),
            LockCtx::RemLiq { user, liquidity, amount_a, amount_b, fee_on, stage } => spec_reply_rem_liq(
                pre,
                user,
                liquidity,
                amount_a,
                amount_b,
                fee_on,
                stage,
                ok,
                post,
                out,
            ),
            LockCtx::TreasuryPayout { treasury, amount0, amount1, stage } => spec_reply_treasury(
                pre,
                treasury,
                amount0,
                amount1,
                stage,
                ok,
                post,
                out,
            ),
            LockCtx::MigrateAllLiquidity { target, amount0, amount1, stage } => spec_reply_migrate(
                pre,
                target,
                amount0,
                amount1,
                stage,
                ok,
                post,
                out,
            ),
        },
        _ => post == pre && out == ReplyOutcome::Failed(PairError::InvalidMessageStatus),
    }
}

impl Pair {
    /// Feeds the decoded outcome of the transfer the pair was waiting on
    /// into the lock machine: the operation goes on with its next transfer,
    /// commits, fails cleanly, or pauses for the operator.
    pub fn handle_token_reply(&mut self, success: bool) -> (out: ReplyOutcome)
        requires
            old(self).wf(),
        ensures
            final(self).wf(),
            spec_reply_rel(*old(self), success, *final(self), out),
    {
        let ctx = match self.lock {
            LockState::Busy(c) => c,
            _ => {
                return ReplyOutcome::Failed(PairError::InvalidMessageStatus);
            },
        };
        match ctx {
            LockCtx::AddLiqRefund {
                user,
                amount_a,
                amount_b,
                new_reserve0,
                new_reserve1,
                phase,
            } => match phase {
                AddLiqPhase::LockTokenA => {
                    if success {
                        self.lock = LockState::Busy(
                            LockCtx::AddLiqRefund {
                                user,
                                amount_a,
                                amount_b,
                                new_reserve0,
                                new_reserve1,
                                phase: AddLiqPhase::LockTokenB,
                            },
                        );
                        ReplyOutcome::Next(
                            TokenAction::TransferFrom {
                                token: self.token1,
                                from: user,
                                amount: amount_b,
                            },
                        )
                    } else {
                        self.lock = LockState::Free;
                        ReplyOutcome::Failed(PairError::TokenTransferFailed)
                    }
                },
                AddLiqPhase::LockTokenB => {
                    if success {
                        self.add_liq_commit(user, amount_a, amount_b, new_reserve0, new_reserve1)
                    } else {
                        self.lock = LockState::Busy(
                            LockCtx::AddLiqRefund {
                                user,
                                amount_a,
                                amount_b,
                                new_reserve0,
                                new_reserve1,
                                phase: AddLiqPhase::ReturnTokenA,
                            },
                        );
                        ReplyOutcome::Next(
                            TokenAction::Transfer {
                                token: self.token0,
                                to: user,
                                amount: amount_a,
                            },
                        )
                    }
                },
                AddLiqPhase::ReturnTokenA => {
                    if success {
                        self.lock = LockState::Free;
                        ReplyOutcome::Failed(PairError::TokenTransferFailed)
                    } else {
                        self.lock = LockState::Paused(ctx);
                        ReplyOutcome::Paused(PairError::TokenTransferFailed)
                    }
                },
            },
            LockCtx::SwapRefund {
                user,
                is_token0_to_token1,
                amount_in,
                amount_out,
                new_reserve_in,
                new_reserve_out,
                new_accrued_in,
                phase,
            } => match phase {
                SwapPhase::TransferTokenIn => {
                    if success {
                        self.lock = LockState::Busy(
                            LockCtx::SwapRefund {
                                user,
                                is_token0_to_token1,
                                amount_in,
                                amount_out,
                                new_reserve_in,
                                new_reserve_out,
                                new_accrued_in,
                                phase: SwapPhase::TransferTokenOut,
                            },
                        );
                        let token_out = if is_token0_to_token1 {
                            self.token1
                        } else {
                            self.token0
                        };
                        ReplyOutcome::Next(
                            TokenAction::Transfer {
                                token: token_out,
                                to: user,
                                amount: amount_out,
                            },
                        )
                    } else {
                        self.lock = LockState::Free;
                        ReplyOutcome::Failed(PairError::TokenTransferFailed)
                    }
                },
                SwapPhase::TransferTokenOut => {
                    if success {
                        self.swap_commit(
                            user,
                            is_token0_to_token1,
                            amount_in,
                            amount_out,
                            new_reserve_in,
                            new_reserve_out,
                            new_accrued_in,
                        )
                    } else {
                        self.lock = LockState::Busy(
                            LockCtx::SwapRefund {
                                user,
                                is_token0_to_token1,
                                amount_in,
                                amount_out,
                                new_reserve_in,
                                new_reserve_out,
                                new_accrued_in,
                                phase: SwapPhase::ReturnTokenIn,
                            },
                        );
                        let token_in = if is_token0_to_token1 {
                            self.token0
                        } else {
                            self.token1
                        };
                        ReplyOutcome::Next(
                            TokenAction::Transfer { token: token_in, to: user, amount: amount_in },
                        )
                    }
                },
                SwapPhase::ReturnTokenIn => {
                    if success {
                        self.lock = LockState::Free;
                        ReplyOutcome::Failed(PairError::TokenTransferFailed)
                    } else {
                        self.lock = LockState::Paused(ctx);
                        ReplyOutcome::Paused(PairError::TokenTransferFailed)
                    }
                },
            },
            LockCtx::RemLiq { user, liquidity, amount_a, amount_b, fee_on, stage } => match stage {
                SendTokenStage::SendToken0 => {
                    if success {
                        self.lock = LockState::Busy(
                            LockCtx::RemLiq {
                                user,
                                liquidity,
                                amount_a,
                                amount_b,
                                fee_on,
                                stage: SendTokenStage::SendToken1,
                            },
                        );
                        ReplyOutcome::Next(
                            TokenAction::Transfer {
                                token: self.token1,
                                to: user,
                                amount: amount_b,
                            },
                        )
                    } else {
                        self.lock = LockState::Paused(ctx);
                        ReplyOutcome::Paused(PairError::TokenTransferFailed)
                    }
                },
                SendTokenStage::SendToken1 => {
                    if success {
                        self.rem_liq_commit(user, liquidity, amount_a, amount_b, fee_on)
                    } else {
                        self.lock = LockState::Paused(ctx);
                        ReplyOutcome::Paused(PairError::TokenTransferFailed)
                    }
                },
            },
            LockCtx::TreasuryPayout { treasury, amount0, amount1, stage } => match stage {
                SendTokenStage::SendToken0 => {
                    if success {
                        if amount1.is_zero() {
                            self.treasury_commit(treasury, amount0, amount1)
                        } else {
                            self.lock = LockState::Busy(
                                LockCtx::TreasuryPayout {
                                    treasury,
                                    amount0,
                                    amount1,
                                    stage: SendTokenStage::SendToken1,
                                },
                            );
                            ReplyOutcome::Next(
                                TokenAction::Transfer {
                                    token: self.token1,
                                    to: treasury,
                                    amount: amount1,
                                },
                            )
                        }
                    } else {
                        self.lock = LockState::Paused(ctx);
                        ReplyOutcome::Paused(PairError::TokenTransferFailed)
                    }
                },
                SendTokenStage::SendToken1 => {
                    if success {
                        self.treasury_commit(treasury, amount0, amount1)
                    } else {
                        self.lock = LockState::Paused(ctx);
                        ReplyOutcome::Paused(PairError::TokenTransferFailed)
                    }
                },
            },
            LockCtx::MigrateAllLiquidity { target, amount0, amount1, stage } => match stage {
                SendTokenStage::SendToken0 => {
                    if success {
                        if amount1.is_zero() {
                            self.migrate_commit(target, amount0, amount1)
                        } else {
                            self.lock = LockState::Busy(
                                LockCtx::MigrateAllLiquidity {
                                    target,
                                    amount0,
                                    amount1,
                                    stage: SendTokenStage::SendToken1,
                                },
                            );
                            ReplyOutcome::Next(
                                TokenAction::Transfer {
                                    token: self.token1,
                                    to: target,
                                    amount: amount1,
                                },
                            )
                        }
                    } else {
                        self.lock = LockState::Paused(ctx);
                        ReplyOutcome::Paused(PairError::TokenTransferFailed)
                    }
                },
                SendTokenStage::SendToken1 => {
                    if success {
                        self.migrate_commit(target, amount0, amount1)
                    } else {
                        self.lock = LockState::Paused(ctx);
                        ReplyOutcome::Paused(PairError::TokenTransferFailed)
                    }
                },
            },
        }
    }

    /// Commits a treasury payout: both accrued counters reset atomically.
    fn treasury_commit(&mut self, treasury: u64, amount0: U256, amount1: U256) -> (out:
        ReplyOutcome)
        requires
            old(self).wf(),
        ensures
            final(self).wf(),
            spec_treasury_commit_rel(
                (Pair { lock: LockState::Free, ..*old(self) }),
                treasury,
                amount0,
                amount1,
                *final(self),
                out,
            ),
    {
        self.accrued_fee0 = U256::zero();
        self.accrued_fee1 = U256::zero();
        self.lock = LockState::Free;
        ReplyOutcome::Completed(PairEvent::TreasuryFeesCollected { treasury, amount0, amount1 })
    }

    /// Commits a migration: the pool is emptied and terminally disabled.
    fn migrate_commit(&mut self, target: u64, amount0: U256, amount1: U256) -> (out: ReplyOutcome)
        requires
            old(self).wf(),
        ensures
            final(self).wf(),
            spec_migrate_commit_rel(
                (Pair { lock: LockState::Free, ..*old(self) }),
                target,
                amount0,
                amount1,
                *final(self),
                out,
            ),
    {
        self.reserve0 = U256::zero();
        self.reserve1 = U256::zero();
        self.k_last = U256::zero();
        self.accrued_fee0 = U256::zero();
        self.accrued_fee1 = U256::zero();
        self.migrated = true;
        self.lock = LockState::Free;
        ReplyOutcome::Completed(PairEvent::LiquidityMigrated { target, amount0, amount1 })
    }
}

/// A pool with no shares accrues no protocol fee.
proof fn lemma_protocol_fee_needs_supply(p: Pair)
    requires
        p.lp.spec_total_supply() == 0,
    ensures
        spec_protocol_fee(p) matches Ok(l) ==> l == 0,
{
    if p.fee_to != 0 && p.k_last.as_nat() != 0 && p.reserve0.as_nat() * p.reserve1.as_nat()
        < pow256() {
        let rk = sqrt_nat(p.reserve0.as_nat() * p.reserve1.as_nat());
        let rkl = sqrt_nat(p.k_last.as_nat());
        if rk > rkl {
            vstd::arithmetic::div_mod::lemma_div_of0((5 * rk + rkl) as int);
        }
    }
}

/// Five times the protocol share: the fee growth kept by the providers.
pub open spec fn spec_calculate_lp_fee(p: Pair) -> Result<nat, PairError> {
    match spec_protocol_fee(p) {
        Err(e) => Err(e),
        Ok(pf) => if pf == 0 {
            Ok(0)
        } else if pf * 5 >= pow256() {
            Err(PairError::Overflow)
        } else {
            Ok(pf * 5)
        },
    }
}

/// `user`'s pro-rata share of the providers' fee growth; 0 on overflow.
pub open spec fn spec_lp_user_fee_view(p: Pair, user: u64) -> nat {
    match spec_calculate_lp_fee(p) {
        Err(_) => 0,
        Ok(lf) => if lf == 0 {
            0
        } else if p.lp.spec_total_supply() == 0 {
            0
        } else if bal_of(p.lp@, user) * lf >= pow256() {
            0
        } else {
            bal_of(p.lp@, user) * lf / p.lp.spec_total_supply()
        },
    }
}

/// The pro-rata amounts `(liquidity·reserve / (totalSupply + protocolFee))`
/// a removal would pay out, with each overflow of the checked arithmetic
/// surfaced as an error.
pub open spec fn spec_calculate_remove_liquidity(p: Pair, liq: nat) -> Result<
    (nat, nat),
    PairError,
> {
    if liq == 0 {
        Ok((0, 0))
    } else {
        match spec_protocol_fee(p) {
            Err(e) => Err(e),
            Ok(pf) => {
                let ts2 = p.lp.spec_total_supply() + pf;
                if ts2 >= pow256() {
                    Err(PairError::Overflow)
                } else if liq * p.reserve0.as_nat() >= pow256() {
                    Err(PairError::Overflow)
                } else if ts2 == 0 {
                    Err(PairError::Overflow)
                } else if liq * p.reserve1.as_nat() >= pow256() {
                    Err(PairError::Overflow)
                } else {
                    Ok(((liq * p.reserve0.as_nat() / ts2) as nat, (liq * p.reserve1.as_nat()
                        / ts2) as nat))
                }
            },
        }
    }
}

} // verus!
