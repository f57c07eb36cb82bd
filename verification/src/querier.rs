//! The requests that a contract sends to the chain's modules: each query
//! with the module that answers it.

use crate::query::SeiQuery;
use crate::query::SeiQueryWrapper;
use crate::route::SeiRoute;
use crate::sei_types::Order;
use vstd::prelude::*;

verus! {

/// Makes the requests for the chain's modules. Sending them is the
/// caller's part.
#[derive(Clone, Copy, Debug, PartialEq, Eq, Structural)]
pub struct SeiQuerier {}

impl SeiQuerier {
    /// A maker of requests.
    pub fn new() -> (r: SeiQuerier)
        ensures
            r == (SeiQuerier {  }),
    {
        SeiQuerier {  }
    }

    /// The current exchange rates, from the oracle module.
    pub fn query_exchange_rates(&self) -> (r: SeiQueryWrapper)
        ensures
            r == (SeiQueryWrapper { route: SeiRoute::Oracle, query_data: SeiQuery::ExchangeRates {  } }),
    {
        SeiQueryWrapper { route: SeiRoute::Oracle, query_data: SeiQuery::ExchangeRates {  } }
    }

    /// The time-weighted average exchange rates, from the oracle module.
    pub fn query_oracle_twaps(&self, lookback_seconds: u64) -> (r: SeiQueryWrapper)
        ensures
            r == (SeiQueryWrapper {
                route: SeiRoute::Oracle,
                query_data: SeiQuery::OracleTwaps { lookback_seconds },
            }),
    {
        SeiQueryWrapper {
            route: SeiRoute::Oracle,
            query_data: SeiQuery::OracleTwaps { lookback_seconds },
        }
    }

    /// The time-weighted average prices of a contract's markets, from the
    /// DEX module.
    pub fn query_dex_twaps(&self, lookback_seconds: u64, contract_address: String) -> (r:
        SeiQueryWrapper)
        ensures
            r == (SeiQueryWrapper {
                route: SeiRoute::Dex,
                query_data: SeiQuery::DexTwaps { contract_address, lookback_seconds },
            }),
    {
        SeiQueryWrapper {
            route: SeiRoute::Dex,
            query_data: SeiQuery::DexTwaps { contract_address, lookback_seconds },
        }
    }

    /// The simulation of an order, from the DEX module.
    pub fn query_order_simulation(&self, order: Order, contract_address: String) -> (r:
        SeiQueryWrapper)
        ensures
            r == (SeiQueryWrapper {
                route: SeiRoute::Dex,
                query_data: SeiQuery::OrderSimulation { contract_address, order },
            }),
    {
        SeiQueryWrapper {
            route: SeiRoute::Dex,
            query_data: SeiQuery::OrderSimulation { contract_address, order },
        }
    }

    /// The orders of a contract, from the DEX module.
    pub fn query_get_orders(&self, contract_address: String, account: String) -> (r:
        SeiQueryWrapper)
        ensures
            r == (SeiQueryWrapper {
                route: SeiRoute::Dex,
                query_data: SeiQuery::GetOrders { contract_address, account },
            }),
    {
        SeiQueryWrapper {
            route: SeiRoute::Dex,
            query_data: SeiQuery::GetOrders { contract_address, account },
        }
    }

    /// One order of a contract, from the DEX module.
    pub fn query_get_order_by_id(
        &self,
        contract_address: String,
        price_denom: String,
        asset_denom: String,
        order_id: u64,
    ) -> (r: SeiQueryWrapper)
        ensures
            r == (SeiQueryWrapper {
                route: SeiRoute::Dex,
                query_data: SeiQuery::GetOrderById {
                    contract_address,
                    price_denom,
                    asset_denom,
                    id: order_id,
                },
            }),
    {
        SeiQueryWrapper {
            route: SeiRoute::Dex,
            query_data: SeiQuery::GetOrderById {
                contract_address,
                price_denom,
                asset_denom,
                id: order_id,
            },
        }
    }

    /// The epoch, from the epoch module.
    pub fn query_epoch(&self) -> (r: SeiQueryWrapper)
        ensures
            r == (SeiQueryWrapper { route: SeiRoute::Epoch, query_data: SeiQuery::Epoch {  } }),
    {
        SeiQueryWrapper { route: SeiRoute::Epoch, query_data: SeiQuery::Epoch {  } }
    }

    /// The latest price of a market, from the DEX module.
    pub fn query_get_latest_price(
        &self,
        contract_address: String,
        price_denom: String,
        asset_denom: String,
    ) -> (r: SeiQueryWrapper)
        ensures
            r == (SeiQueryWrapper {
                route: SeiRoute::Dex,
                query_data: SeiQuery::GetLatestPrice { contract_address, price_denom, asset_denom },
            }),
    {
        SeiQueryWrapper {
            route: SeiRoute::Dex,
            query_data: SeiQuery::GetLatestPrice { contract_address, price_denom, asset_denom },
        }
    }

    /// The authority metadata of a denomination, from the token factory.
    pub fn query_denom_authority_metadata(&self, denom: String) -> (r: SeiQueryWrapper)
        ensures
            r == (SeiQueryWrapper {
                route: SeiRoute::Tokenfactory,
                query_data: SeiQuery::DenomAuthorityMetadata { denom },
            }),
    {
        SeiQueryWrapper {
            route: SeiRoute::Tokenfactory,
            query_data: SeiQuery::DenomAuthorityMetadata { denom },
        }
    }

    /// The denominations of a creator, from the token factory.
    pub fn query_denoms_from_creator(&self, creator: String) -> (r: SeiQueryWrapper)
        ensures
            r == (SeiQueryWrapper {
                route: SeiRoute::Tokenfactory,
                query_data: SeiQuery::DenomsFromCreator { creator },
            }),
    {
        SeiQueryWrapper {
            route: SeiRoute::Tokenfactory,
            query_data: SeiQuery::DenomsFromCreator { creator },
        }
    }

    /// A call of the EVM contract at `to` with `data`, from the Sei
    /// address `from`, that changes no state.
    pub fn static_call(&self, from: String, to: String, data: String) -> (r: SeiQueryWrapper)
        ensures
            r == (SeiQueryWrapper {
                route: SeiRoute::Evm,
                query_data: SeiQuery::StaticCall { from, to, data },
            }),
    {
        SeiQueryWrapper { route: SeiRoute::Evm, query_data: SeiQuery::StaticCall { from, to, data } }
    }

    /// The payload of the ERC-20 `transfer` function.
    pub fn erc20_transfer_payload(&self, recipient: String, amount: u128) -> (r: SeiQueryWrapper)
        ensures
            r == (SeiQueryWrapper {
                route: SeiRoute::Evm,
                query_data: SeiQuery::Erc20TransferPayload { recipient, amount },
            }),
    {
        SeiQueryWrapper {
            route: SeiRoute::Evm,
            query_data: SeiQuery::Erc20TransferPayload { recipient, amount },
        }
    }

    /// The payload of the ERC-20 `transferFrom` function.
    pub fn erc20_transfer_from_payload(&self, owner: String, recipient: String, amount: u128) -> (r:
        SeiQueryWrapper)
        ensures
            r == (SeiQueryWrapper {
                route: SeiRoute::Evm,
                query_data: SeiQuery::Erc20TransferFromPayload { owner, recipient, amount },
            }),
    {
        SeiQueryWrapper {
            route: SeiRoute::Evm,
            query_data: SeiQuery::Erc20TransferFromPayload { owner, recipient, amount },
        }
    }

    /// The payload of the ERC-20 `approve` function.
    pub fn erc20_approve_payload(&self, spender: String, amount: u128) -> (r: SeiQueryWrapper)
        ensures
            r == (SeiQueryWrapper {
                route: SeiRoute::Evm,
                query_data: SeiQuery::Erc20ApprovePayload { spender, amount },
            }),
    {
        SeiQueryWrapper {
            route: SeiRoute::Evm,
            query_data: SeiQuery::Erc20ApprovePayload { spender, amount },
        }
    }

    /// What the spender may still spend for the owner.
    pub fn erc20_allowance(&self, contract_address: String, owner: String, spender: String) -> (r:
        SeiQueryWrapper)
        ensures
            r == (SeiQueryWrapper {
                route: SeiRoute::Evm,
                query_data: SeiQuery::Erc20Allowance { contract_address, owner, spender },
            }),
    {
        SeiQueryWrapper {
            route: SeiRoute::Evm,
            query_data: SeiQuery::Erc20Allowance { contract_address, owner, spender },
        }
    }

    /// Name, symbol, decimals and total supply of a token.
    pub fn erc20_token_info(&self, contract_address: String, caller: String) -> (r: SeiQueryWrapper)
        ensures
            r == (SeiQueryWrapper {
                route: SeiRoute::Evm,
                query_data: SeiQuery::Erc20TokenInfo { contract_address, caller },
            }),
    {
        SeiQueryWrapper {
            route: SeiRoute::Evm,
            query_data: SeiQuery::Erc20TokenInfo { contract_address, caller },
        }
    }

    /// The balance of an account.
    pub fn erc20_balance(&self, contract_address: String, account: String) -> (r: SeiQueryWrapper)
        ensures
            r == (SeiQueryWrapper {
                route: SeiRoute::Evm,
                query_data: SeiQuery::Erc20Balance { contract_address, account },
            }),
    {
        SeiQueryWrapper {
            route: SeiRoute::Evm,
            query_data: SeiQuery::Erc20Balance { contract_address, account },
        }
    }

    /// The owner of an NFT.
    pub fn erc721_owner(&self, caller: String, contract_address: String, token_id: String) -> (r:
        SeiQueryWrapper)
        ensures
            r == (SeiQueryWrapper {
                route: SeiRoute::Evm,
                query_data: SeiQuery::Erc721Owner { caller, contract_address, token_id },
            }),
    {
        SeiQueryWrapper {
            route: SeiRoute::Evm,
            query_data: SeiQuery::Erc721Owner { caller, contract_address, token_id },
        }
    }

    /// The address approved for an NFT.
    pub fn erc721_approved(&self, caller: String, contract_address: String, token_id: String) -> (r:
        SeiQueryWrapper)
        ensures
            r == (SeiQueryWrapper {
                route: SeiRoute::Evm,
                query_data: SeiQuery::Erc721Approved { caller, contract_address, token_id },
            }),
    {
        SeiQueryWrapper {
            route: SeiRoute::Evm,
            query_data: SeiQuery::Erc721Approved { caller, contract_address, token_id },
        }
    }

    /// Whether an operator is approved for all NFTs of an owner.
    pub fn erc721_is_approved_for_all(
        &self,
        caller: String,
        contract_address: String,
        owner: String,
        operator: String,
    ) -> (r: SeiQueryWrapper)
        ensures
            r == (SeiQueryWrapper {
                route: SeiRoute::Evm,
                query_data: SeiQuery::Erc721IsApprovedForAll {
                    caller,
                    contract_address,
                    owner,
                    operator,
                },
            }),
    {
        SeiQueryWrapper {
            route: SeiRoute::Evm,
            query_data: SeiQuery::Erc721IsApprovedForAll { caller, contract_address, owner, operator },
        }
    }

    /// Name and symbol of an ERC-721 contract.
    pub fn erc721_name_symbol(&self, caller: String, contract_address: String) -> (r:
        SeiQueryWrapper)
        ensures
            r == (SeiQueryWrapper {
                route: SeiRoute::Evm,
                query_data: SeiQuery::Erc721NameSymbol { caller, contract_address },
            }),
    {
        SeiQueryWrapper {
            route: SeiRoute::Evm,
            query_data: SeiQuery::Erc721NameSymbol { caller, contract_address },
        }
    }

    /// The URI of an NFT.
    pub fn erc721_uri(&self, caller: String, contract_address: String, token_id: String) -> (r:
        SeiQueryWrapper)
        ensures
            r == (SeiQueryWrapper {
                route: SeiRoute::Evm,
                query_data: SeiQuery::Erc721Uri { caller, contract_address, token_id },
            }),
    {
        SeiQueryWrapper {
            route: SeiRoute::Evm,
            query_data: SeiQuery::Erc721Uri { caller, contract_address, token_id },
        }
    }

    /// The payload of the ERC-721 `transferFrom` function.
    pub fn erc721_transfer_payload(&self, from: String, recipient: String, token_id: String) -> (r:
        SeiQueryWrapper)
        ensures
            r == (SeiQueryWrapper {
                route: SeiRoute::Evm,
                query_data: SeiQuery::Erc721TransferPayload { from, recipient, token_id },
            }),
    {
        SeiQueryWrapper {
            route: SeiRoute::Evm,
            query_data: SeiQuery::Erc721TransferPayload { from, recipient, token_id },
        }
    }

    /// The payload of the ERC-721 `approve` function.
    pub fn erc721_approve_payload(&self, spender: String, token_id: String) -> (r: SeiQueryWrapper)
        ensures
            r == (SeiQueryWrapper {
                route: SeiRoute::Evm,
                query_data: SeiQuery::Erc721ApprovePayload { spender, token_id },
            }),
    {
        SeiQueryWrapper {
            route: SeiRoute::Evm,
            query_data: SeiQuery::Erc721ApprovePayload { spender, token_id },
        }
    }

    /// The payload of the ERC-721 `setApprovalForAll` function.
    pub fn erc721_set_approval_all_payload(&self, to: String, approved: bool) -> (r:
        SeiQueryWrapper)
        ensures
            r == (SeiQueryWrapper {
                route: SeiRoute::Evm,
                query_data: SeiQuery::Erc721SetApprovalAllPayload { to, approved },
            }),
    {
        SeiQueryWrapper {
            route: SeiRoute::Evm,
            query_data: SeiQuery::Erc721SetApprovalAllPayload { to, approved },
        }
    }

    /// The EVM address associated with a Sei address.
    pub fn get_evm_address(&self, sei_address: String) -> (r: SeiQueryWrapper)
        ensures
            r == (SeiQueryWrapper {
                route: SeiRoute::Evm,
                query_data: SeiQuery::GetEvmAddress { sei_address },
            }),
    {
        SeiQueryWrapper { route: SeiRoute::Evm, query_data: SeiQuery::GetEvmAddress { sei_address } }
    }

    /// The Sei address associated with an EVM address.
    pub fn get_sei_address(&self, evm_address: String) -> (r: SeiQueryWrapper)
        ensures
            r == (SeiQueryWrapper {
                route: SeiRoute::Evm,
                query_data: SeiQuery::GetSeiAddress { evm_address },
            }),
    {
        SeiQueryWrapper { route: SeiRoute::Evm, query_data: SeiQuery::GetSeiAddress { evm_address } }
    }
}

} // verus!
