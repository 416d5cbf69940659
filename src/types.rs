use vstd::prelude::*;

verus! {

/// Fixed-point scale of prices: a price of `NORMAL_DECIMAL` is 1.0.
pub const NORMAL_DECIMAL: u128 = 1000000;

/// An asset traded on a pair: a native ledger denomination or a token contract.
#[derive(Clone, Debug, PartialEq, Eq)]
pub enum AssetInfo {
    Token { contract_addr: String },
    NativeToken { denom: String },
}

/// A configured trading pair. Amounts of orders are counted in `to_asset` units.
#[derive(Clone, Debug, PartialEq, Eq)]
pub struct PairInfo {
    pub from_asset: AssetInfo,
    pub to_asset: AssetInfo,
}

/// A resting order, or the taker action that triggers a settlement.
#[derive(Clone, Debug, PartialEq, Eq)]
pub struct TraderRecord {
    pub id: String,
    pub address: String,
    pub pair_id: u128,
    pub is_buy: bool,
    pub order_stock_amount: u128,
    pub current_stock_amount: u128,
    pub price: u128,
}

/// One realised match: `move_amount` of the `to_asset` goes from seller to buyer.
#[derive(Clone, Debug, PartialEq, Eq)]
pub struct MatchOrderResponse {
    pub buyer: String,
    pub seller: String,
    pub move_amount: u128,
}

/// A pre-authorised token transfer: `amount` of token `token` from `owner` to `recipient`.
#[derive(Clone, Debug, PartialEq, Eq)]
pub struct TransferInstruction {
    pub token: String,
    pub owner: String,
    pub recipient: String,
    pub amount: u128,
}

/// A balance reported by the ledger: `address` holds `amount` of `asset`.
#[derive(Clone, Debug, PartialEq, Eq)]
pub struct BalanceEntry {
    pub asset: AssetInfo,
    pub address: String,
    pub amount: u128,
}

/// A listed order, as returned by the listing query.
#[derive(Clone, Debug, PartialEq, Eq)]
pub struct TraderInfo {
    pub id: String,
    pub address: String,
    pub order_stock_amount: u128,
    pub current_stock_amount: u128,
    pub price: u128,
}

/// One page of listed orders.
#[derive(Clone, Debug, PartialEq, Eq)]
pub struct TraderListResponse {
    pub traders: Vec<TraderInfo>,
}

/// Process-wide configuration: the owner, the pair registry and the enabled flag.
#[derive(Clone, Debug, PartialEq, Eq)]
pub struct Config {
    pub owner: String,
    pub pair_list: Vec<PairInfo>,
    pub enabled: bool,
}

/// Why an operation was refused.
#[derive(Clone, Copy, Debug, PartialEq, Eq)]
pub enum ContractError {
    /// A balance the ledger was asked for could not be obtained.
    Std {},
    /// An amount computation left the range of `u128`.
    OverflowError {},
    /// A price of zero was used as a divisor.
    DivideByZero {},
    Unauthorized {},
    UnacceptableToken {},
    InvalidZeroAmount {},
    InvalidInput {},
    NotEnoughReward {},
    NotRewardToken {},
    AssetMismatch {},
    TooSmallOfferAmount {},
    StillInLock {},
    NotUnstakeToken {},
    NotMatchOrder {},
    NotFindOrder {},
    Disabled {},
    AlreadyStarted {},
    NotStarted {},
    NotSamePrice {},
}

/// Two asset references name the same asset.
pub open spec fn same_asset(a: AssetInfo, b: AssetInfo) -> bool {
    match (a, b) {
        (AssetInfo::Token { contract_addr: x }, AssetInfo::Token { contract_addr: y }) => x@ == y@,
        (AssetInfo::NativeToken { denom: x }, AssetInfo::NativeToken { denom: y }) => x@ == y@,
        _ => false,
    }
}

impl AssetInfo {
    /// A copy equal to `self`.
    pub fn duplicate(&self) -> (r: AssetInfo)
        ensures
            r == *self,
    {
        match self {
            AssetInfo::Token { contract_addr } => AssetInfo::Token { contract_addr: contract_addr.clone() },
            AssetInfo::NativeToken { denom } => AssetInfo::NativeToken { denom: denom.clone() },
        }
    }

    /// Whether `self` and `other` name the same asset.
    pub fn same_as(&self, other: &AssetInfo) -> (r: bool)
        ensures
            r == same_asset(*self, *other),
    {
        match self {
            AssetInfo::Token { contract_addr: x } => match other {
                AssetInfo::Token { contract_addr: y } => *x == *y,
                AssetInfo::NativeToken { .. } => false,
            },
            AssetInfo::NativeToken { denom: x } => match other {
                AssetInfo::NativeToken { denom: y } => *x == *y,
                AssetInfo::Token { .. } => false,
            },
        }
    }
}

impl PairInfo {
    /// A copy equal to `self`.
    pub fn duplicate(&self) -> (r: PairInfo)
        ensures
            r == *self,
    {
        PairInfo { from_asset: self.from_asset.duplicate(), to_asset: self.to_asset.duplicate() }
    }
}

impl TraderRecord {
    /// A copy equal to `self`.
    pub fn duplicate(&self) -> (r: TraderRecord)
        ensures
            r == *self,
    {
        TraderRecord {
            id: self.id.clone(),
            address: self.address.clone(),
            pair_id: self.pair_id,
            is_buy: self.is_buy,
            order_stock_amount: self.order_stock_amount,
            current_stock_amount: self.current_stock_amount,
            price: self.price,
        }
    }
}

} // verus!
