//! The queries that a contract sends to the chain's modules, and their
//! answers.

use crate::decimal::Decimal;
use crate::proto_structs::DexPair;
use crate::proto_structs::Epoch;
use crate::route::SeiRoute;
use crate::sei_types::DenomAuthorityMetadata;
use crate::sei_types::Order;
use vstd::prelude::*;

verus! {

/// A query with the module that answers it.
#[derive(Debug, PartialEq)]
pub struct SeiQueryWrapper {
    pub route: SeiRoute,
    pub query_data: SeiQuery,
}

/// A query to one of the chain's modules.
#[derive(Debug, PartialEq)]
pub enum SeiQuery {
    ExchangeRates {  },
    OracleTwaps { lookback_seconds: u64 },
    DexTwaps { contract_address: String, lookback_seconds: u64 },
    Epoch {  },
    GetOrders { contract_address: String, account: String },
    GetOrderById { contract_address: String, price_denom: String, asset_denom: String, id: u64 },
    GetLatestPrice { contract_address: String, price_denom: String, asset_denom: String },
    OrderSimulation { contract_address: String, order: Order },
    DenomAuthorityMetadata { denom: String },
    DenomsFromCreator { creator: String },
    /// Calls the EVM contract at `to` with `data`, allowing no change of
    /// state.
    StaticCall {
        /// Sei address of the caller.
        from: String,
        /// The address of the EVM contract.
        to: String,
        /// Base64 encoded data for the contract.
        data: String,
    },
    /// The payload of the ERC-20 `transfer` function.
    Erc20TransferPayload { recipient: String, amount: u128 },
    /// The payload of the ERC-20 `transferFrom` function.
    Erc20TransferFromPayload { owner: String, recipient: String, amount: u128 },
    /// The payload of the ERC-20 `approve` function.
    Erc20ApprovePayload { spender: String, amount: u128 },
    /// What the spender may still spend for the owner.
    Erc20Allowance { contract_address: String, owner: String, spender: String },
    /// Name, symbol, decimals and total supply of a token.
    Erc20TokenInfo { contract_address: String, caller: String },
    /// The balance of an account.
    Erc20Balance { contract_address: String, account: String },
    /// The payload of the ERC-721 `transferFrom` function.
    Erc721TransferPayload { from: String, recipient: String, token_id: String },
    /// The payload of the ERC-721 `approve` function.
    Erc721ApprovePayload { spender: String, token_id: String },
    /// The owner of an NFT.
    Erc721Owner { caller: String, contract_address: String, token_id: String },
    /// The address approved for an NFT.
    Erc721Approved { caller: String, contract_address: String, token_id: String },
    /// Whether an operator is approved for all NFTs of an owner.
    Erc721IsApprovedForAll {
        caller: String,
        contract_address: String,
        owner: String,
        operator: String,
    },
    /// The payload of the ERC-721 `setApprovalForAll` function.
    Erc721SetApprovalAllPayload { to: String, approved: bool },
    /// Name and symbol of an ERC-721 contract.
    Erc721NameSymbol { caller: String, contract_address: String },
    /// The URI of an NFT.
    Erc721Uri { caller: String, contract_address: String, token_id: String },
    /// The EVM address associated with a Sei address.
    GetEvmAddress { sei_address: String },
    /// The Sei address associated with an EVM address.
    GetSeiAddress { evm_address: String },
}

/// The answer to `Epoch`.
#[derive(Debug, PartialEq)]
pub struct EpochResponse {
    pub epoch: Epoch,
}

/// The price of a market at a time.
#[derive(Debug, PartialEq)]
pub struct PriceResponse {
    pub snapshot_timestamp_in_seconds: u64,
    pub price: Decimal,
    pub pair: DexPair,
}

/// The answer to `GetLatestPrice`.
#[derive(Debug, PartialEq)]
pub struct GetLatestPriceResponse {
    pub price: PriceResponse,
}

/// The answer to `DenomAuthorityMetadata`.
#[derive(Clone, Debug, PartialEq)]
pub struct DenomAuthorityMetadataResponse {
    pub authority_metadata: DenomAuthorityMetadata,
}

/// The answer to `DenomsFromCreator`.
#[derive(Clone, Debug, PartialEq)]
pub struct DenomsFromCreatorResponse {
    pub denoms: Vec<String>,
}

/// The answer to `StaticCall`: the result of the call, base64 encoded.
#[derive(Clone, Debug, PartialEq)]
pub struct StaticCallResponse {
    pub data: String,
}

/// The answer to a payload query: the payload, hex encoded.
#[derive(Clone, Debug, PartialEq)]
pub struct ErcPayloadResponse {
    pub encoded_payload: String,
}

/// The answer to `Erc20Allowance`.
#[derive(Clone, Debug, PartialEq)]
pub struct Erc20AllowanceResponse {
    pub allowance: u128,
}

/// The answer to `Erc721Owner`.
#[derive(Clone, Debug, PartialEq)]
pub struct Erc721OwnerResponse {
    pub owner: String,
}

/// The answer to `Erc721Approved`: the approved address, or the zero
/// address where there is none.
#[derive(Clone, Debug, PartialEq)]
pub struct Erc721ApprovedResponse {
    pub approved: String,
}

/// The answer to `Erc721IsApprovedForAll`.
#[derive(Clone, Debug, PartialEq)]
pub struct Erc721IsApprovedForAllResponse {
    pub is_approved: bool,
}

/// The answer to `Erc721NameSymbol`.
#[derive(Clone, Debug, PartialEq)]
pub struct Erc721NameSymbolResponse {
    pub name: String,
    pub symbol: String,
}

/// The answer to `Erc721Uri`.
#[derive(Clone, Debug, PartialEq)]
pub struct Erc721UriResponse {
    pub uri: String,
}

/// The answer to `GetEvmAddress`: the address, empty where the Sei
/// address has none, and whether it has one.
#[derive(Clone, Debug, PartialEq)]
pub struct EvmAddressResponse {
    pub evm_address: String,
    pub associated: bool,
}

/// The answer to `GetSeiAddress`: the address, empty where the EVM
/// address has none, and whether it has one.
#[derive(Clone, Debug, PartialEq)]
pub struct SeiAddressResponse {
    pub sei_address: String,
    pub associated: bool,
}

} // verus!
