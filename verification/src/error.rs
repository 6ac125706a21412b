//! Errors the exchange reports.
use vstd::prelude::*;

verus! {

/// Failure of a storage-level operation.
#[derive(Debug, Clone, Copy, PartialEq, Eq, Structural)]
pub enum StdError {
    /// A stored key or value is not valid UTF-8.
    InvalidUtf8,
    /// No value is stored under the key.
    NotFound,
}

/// Why an operation of the exchange was refused.
#[derive(Debug, Clone, Copy, PartialEq, Eq, Structural)]
pub enum ContractError {
    Std(StdError),
    InvalidTickSpacing,
    InvalidFee,
    InvalidTickIndex,
    InvalidTick,
    TokensAreSame,
    InvalidInitTick,
    InvalidInitSqrtPrice,
    Mul,
    Div,
    Cast,
    Add,
    Sub,
    UpdateLiquidityPlusOverflow,
    UpdateLiquidityMinusOverflow,
    EmptyPositionPokes,
    PositionNotFound,
    PositionAddLiquidityOverflow,
    PositionRemoveLiquidityUnderflow,
    PriceLimitReached,
    InsufficientLiquidity,
    TimestampSubOverflow,
    PoolNotFound,
    PoolAddTickLiquidityOverflow,
    PoolSubTickLiquidityUnderflow,
    TickLimitReached,
    TickNotFound,
    TickAlreadyExist,
    TickAddLiquidityOverflow,
    TickRemoveLiquidityUnderflow,
    InvalidTickLiquidity,
    SqrtPriceOutOfRange,
    TimestampCheckFailed,
    TickOverBounds,
    UpperTickNotGreater,
    TickLowerGreater,
    TickReInitialize,
    OverflowCastingTokenAmount,
    Unauthorized,
    AmountIsZero,
    WrongLimit,
    SubtractionError,
    NoGainSwap,
    SwapFailed,
    AmountUnderMinimumAmountOut,
    InvalidPoolKey,
    PoolAlreadyExist,
    CreatePoolError,
    FeeTierNotFound,
    FeeTierAlreadyExist,
    InvalidSize,
    InvalidOffset,
    Expired,
    NotEmptyTickDeinitialization,
    InvalidFunds { transfer_amount: u128 },
}

} // verus!
