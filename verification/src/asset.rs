//! Asset identifiers and asset amounts.
//!
//! An asset is either a token contract (identified by its contract address)
//! or a native coin (identified by its denom). Amounts are unsigned integers
//! in the asset's smallest unit.

use vstd::prelude::*;

verus! {

/// Identifies the asset an amount is denominated in.
#[derive(Debug, PartialEq, Eq)]
pub enum AssetInfo {
    Token { contract_addr: String },
    NativeToken { denom: String },
}

/// Mathematical value of an [`AssetInfo`]: the same shape over character
/// sequences.
pub enum AssetInfoV {
    Token { contract_addr: Seq<char> },
    NativeToken { denom: Seq<char> },
}

impl View for AssetInfo {
    type V = AssetInfoV;

    open spec fn view(&self) -> AssetInfoV {
        match self {
            AssetInfo::Token { contract_addr } => AssetInfoV::Token {
                contract_addr: contract_addr@,
            },
            AssetInfo::NativeToken { denom } => AssetInfoV::NativeToken { denom: denom@ },
        }
    }
}

impl Clone for AssetInfo {
    fn clone(&self) -> (r: Self)
        ensures
            r == *self,
    {
        match self {
            AssetInfo::Token { contract_addr } => AssetInfo::Token {
                contract_addr: contract_addr.clone(),
            },
            AssetInfo::NativeToken { denom } => AssetInfo::NativeToken { denom: denom.clone() },
        }
    }
}

/// Decides whether two asset identifiers name the same asset.
pub fn asset_info_eq(a: &AssetInfo, b: &AssetInfo) -> (r: bool)
    ensures
        r == (a@ == b@),
{
    match (a, b) {
        (AssetInfo::Token { contract_addr: x }, AssetInfo::Token { contract_addr: y }) => x.eq(y),
        (AssetInfo::NativeToken { denom: x }, AssetInfo::NativeToken { denom: y }) => x.eq(y),
        _ => false,
    }
}

/// An amount of a particular asset, as reported by a caller.
#[derive(Debug, PartialEq, Eq)]
pub struct Asset {
    pub info: AssetInfo,
    pub amount: u128,
}

/// Mathematical value of an [`Asset`].
pub struct AssetV {
    pub info: AssetInfoV,
    pub amount: u128,
}

impl View for Asset {
    type V = AssetV;

    open spec fn view(&self) -> AssetV {
        AssetV { info: self.info@, amount: self.amount }
    }
}

impl Clone for Asset {
    fn clone(&self) -> (r: Self)
        ensures
            r == *self,
    {
        Asset { info: self.info.clone(), amount: self.amount }
    }
}

} // verus!
