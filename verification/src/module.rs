//! The simulated chain module: it takes the messages and queries of a
//! contract and answers them from the store, the oracle histories and the
//! epoch that it was made with.

use crate::block::BlockInfo;
use crate::dex::dex_twaps_spec;
use crate::dex::get_dex_twaps;
use crate::dex::get_order_simulation;
use crate::dex::order_simulation_spec;
use crate::dex::DexTwapsResponse;
use crate::dex::OrderSimulationResponse;
use crate::error::SeiError;
use crate::keys::denom_key;
use crate::msg::SeiMsg;
use crate::msg::SudoMsg;
use crate::oracle::collect_rates;
use crate::oracle::current_rates;
use crate::oracle::get_exchange_rates;
use crate::oracle::get_oracle_twaps;
use crate::oracle::oracle_twaps_spec;
use crate::oracle::DenomRatesView;
use crate::oracle::ExchangeRates;
use crate::oracle::ExchangeRatesResponse;
use crate::oracle::OracleTwapsResponse;
use crate::order_book::cancel_orders_spec;
use crate::order_book::cancellation_ids;
use crate::order_book::execute_cancel_orders_helper;
use crate::order_book::execute_place_orders_helper;
use crate::order_book::get_order_by_id_spec;
use crate::order_book::get_orders_spec;
use crate::order_book::place_orders_spec;
use crate::order_book::query_get_order_by_id_helper;
use crate::order_book::query_get_orders_helper;
use crate::order_book::AppResponse;
use crate::order_book::Entries;
use crate::order_book::GetOrderByIdResponse;
use crate::order_book::GetOrdersResponse;
use crate::proto_structs::DenomOracleExchangeRatePair;
use crate::proto_structs::Epoch;
use crate::query::EpochResponse;
use crate::query::EvmAddressResponse;
use crate::query::SeiAddressResponse;
use crate::query::SeiQuery;
use crate::query::SeiQueryWrapper;
use crate::query::StaticCallResponse;
use crate::store::store_entries;
use crate::token_factory::create_denom_spec;
use crate::token_factory::execute_burn_tokens_helper;
use crate::token_factory::execute_create_denom_helper;
use crate::token_factory::execute_mint_tokens_helper;
use crate::token_factory::owns_denom;
use crate::token_factory::BankAction;
use cosmwasm_std::MemoryStorage;
use vstd::prelude::*;
use vstd::string::StringExecFns;

verus! {

/// The EVM address that the simulation associates with [`SEI_ADDRESS`].
pub const EVM_ADDRESS: &'static str = "0xAb5801a7D398351b8bE11C439e05C5B3259aeC9B";

/// The Sei address that the simulation associates with [`EVM_ADDRESS`].
pub const SEI_ADDRESS: &'static str = "sei1vzxkv3lxccnttr9rs0002s93sgw72h7ghukuhs";

/// The simulated chain module.
pub struct SeiModule {
    epoch: Epoch,
    exchange_rates: ExchangeRates,
}

/// What an accepted message leads to.
#[derive(Debug, PartialEq, Eq)]
pub enum ExecuteOutcome {
    /// The message has been carried out on the store.
    Response(AppResponse),
    /// The message is in order, and the bank is to carry it out.
    Bank(BankAction),
}

/// The answer to a query.
#[derive(Debug, PartialEq)]
pub enum QueryResponse {
    ExchangeRates(ExchangeRatesResponse),
    OracleTwaps(OracleTwapsResponse),
    DexTwaps(DexTwapsResponse),
    OrderSimulation(OrderSimulationResponse),
    Epoch(EpochResponse),
    GetOrders(GetOrdersResponse),
    GetOrderById(GetOrderByIdResponse),
    StaticCall(StaticCallResponse),
    EvmAddress(EvmAddressResponse),
    SeiAddress(SeiAddressResponse),
}

/// Whether `e` is the epoch that a module starts with: the first epoch,
/// of 60 nanoseconds, at height 1, with no times set.
pub open spec fn is_genesis_epoch(e: Epoch) -> bool {
    &&& e.genesis_time@ == Seq::<char>::empty()
    &&& e.duration == 60
    &&& e.current_epoch == 1
    &&& e.current_epoch_start_time@ == Seq::<char>::empty()
    &&& e.current_epoch_height == 1
}

/// The epoch that a module starts with.
pub fn genesis_epoch() -> (r: Epoch)
    ensures
        is_genesis_epoch(r),
{
    Epoch {
        genesis_time: String::new(),
        duration: 60,
        current_epoch: 1,
        current_epoch_start_time: String::new(),
        current_epoch_height: 1,
    }
}

/// Answers `Epoch` with the epoch given.
pub fn get_epoch(epoch: Epoch) -> (r: EpochResponse)
    ensures
        r.epoch == epoch,
{
    EpochResponse { epoch: epoch }
}

/// Answers `Epoch` with the epoch given. It never fails.
pub fn query_get_epoch_helper(epoch: Epoch) -> (r: Result<EpochResponse, SeiError>)
    ensures
        r is Ok,
        r.unwrap().epoch == epoch,
{
    Ok(get_epoch(epoch))
}

/// Answers `StaticCall`: always with the same text.
pub fn get_static_call_response() -> (r: StaticCallResponse)
    ensures
        r.data@ == "static call response"@,
{
    StaticCallResponse { data: String::from_str("static call response") }
}

/// Answers `GetEvmAddress`: [`EVM_ADDRESS`] for [`SEI_ADDRESS`], and no
/// address for any other.
pub fn get_evm_address(sei_address: String) -> (r: EvmAddressResponse)
    ensures
        r.associated == (sei_address@ == SEI_ADDRESS@),
        r.associated ==> r.evm_address@ == EVM_ADDRESS@,
        !r.associated ==> r.evm_address@ == Seq::<char>::empty(),
{
    if sei_address == String::from_str(SEI_ADDRESS) {
        EvmAddressResponse { evm_address: String::from_str(EVM_ADDRESS), associated: true }
    } else {
        EvmAddressResponse { evm_address: String::new(), associated: false }
    }
}

/// Answers `GetSeiAddress`: [`SEI_ADDRESS`] for [`EVM_ADDRESS`], and no
/// address for any other.
pub fn get_sei_address(evm_address: String) -> (r: SeiAddressResponse)
    ensures
        r.associated == (evm_address@ == EVM_ADDRESS@),
        r.associated ==> r.sei_address@ == SEI_ADDRESS@,
        !r.associated ==> r.sei_address@ == Seq::<char>::empty(),
{
    if evm_address == String::from_str(EVM_ADDRESS) {
        SeiAddressResponse { sei_address: String::from_str(SEI_ADDRESS), associated: true }
    } else {
        SeiAddressResponse { sei_address: String::new(), associated: false }
    }
}

/// Whether `r` and the entries `after` are what the change `change` of
/// the store asks for: on success the text `echo` and the changed
/// entries, on failure the error and the entries `before`.
pub open spec fn store_outcome(
    change: Result<Entries, SeiError>,
    echo: Seq<char>,
    before: Entries,
    after: Entries,
    r: Result<ExecuteOutcome, SeiError>,
) -> bool {
    match change {
        Ok(changed) => {
            &&& after == changed
            &&& r matches Ok(ExecuteOutcome::Response(a)) && (a.data matches Some(text) && text@
                == echo)
        },
        Err(e) => after == before && r == Err::<ExecuteOutcome, SeiError>(e),
    }
}

impl SeiModule {
    /// The epoch of the module.
    pub closed spec fn spec_epoch(&self) -> Epoch {
        self.epoch
    }

    /// The oracle histories of the module.
    pub closed spec fn rates(&self) -> Seq<DenomRatesView> {
        self.exchange_rates@
    }

    /// A module at the genesis epoch, without exchange rates.
    pub fn new() -> (r: SeiModule)
        ensures
            is_genesis_epoch(r.spec_epoch()),
            r.rates() == Seq::<DenomRatesView>::empty(),
    {
        SeiModule { epoch: genesis_epoch(), exchange_rates: ExchangeRates::new() }
    }

    /// A module at the genesis epoch, with the histories that `rates`
    /// make: for each denomination its updates, the most recent first.
    pub fn new_with_oracle_exchange_rates(rates: Vec<DenomOracleExchangeRatePair>) -> (r: SeiModule)
        ensures
            is_genesis_epoch(r.spec_epoch()),
            r.rates() == collect_rates(rates.deep_view()),
    {
        SeiModule { epoch: genesis_epoch(), exchange_rates: ExchangeRates::from_pairs(&rates) }
    }

    /// The same module at another epoch.
    pub fn set_epoch(&self, new_epoch: Epoch) -> (r: SeiModule)
        ensures
            r.spec_epoch() == new_epoch,
            r.rates() == self.rates(),
    {
        SeiModule { epoch: new_epoch, exchange_rates: self.exchange_rates.duplicate() }
    }

    /// Carries out a message of `sender` in the block `block`.
    ///
    /// Placing and cancelling orders and creating a denomination act on
    /// the store. Minting and burning leave the store as it is and hand
    /// back what the bank is to do. The other messages are not
    /// implemented.
    pub fn execute(
        &self,
        storage: &mut MemoryStorage,
        block: &BlockInfo,
        sender: String,
        msg: SeiMsg,
    ) -> (r: Result<ExecuteOutcome, SeiError>)
        ensures
            match msg {
                SeiMsg::PlaceOrders { orders, funds, contract_address } => store_outcome(
                    place_orders_spec(
                        store_entries(*old(storage)),
                        contract_address@,
                        orders.deep_view(),
                        block.time.spec_seconds(),
                    ),
                    contract_address@,
                    store_entries(*old(storage)),
                    store_entries(*final(storage)),
                    r,
                ),
                SeiMsg::CancelOrders { cancellations, contract_address } => store_outcome(
                    cancel_orders_spec(
                        store_entries(*old(storage)),
                        contract_address@,
                        cancellation_ids(cancellations@),
                    ),
                    contract_address@,
                    store_entries(*old(storage)),
                    store_entries(*final(storage)),
                    r,
                ),
                SeiMsg::CreateDenom { subdenom } => store_outcome(
                    create_denom_spec(store_entries(*old(storage)), sender@, subdenom@),
                    denom_key(sender@, subdenom@),
                    store_entries(*old(storage)),
                    store_entries(*final(storage)),
                    r,
                ),
                SeiMsg::MintTokens { amount } => store_entries(*final(storage)) == store_entries(
                    *old(storage),
                ) && if owns_denom(store_entries(*old(storage)), sender@, amount.denom@) {
                    r matches Ok(
                        ExecuteOutcome::Bank(BankAction::Mint { to_address, amount: coins }),
                    ) && to_address == sender && coins@ == seq![amount]
                } else {
                    r == Err::<ExecuteOutcome, SeiError>(SeiError::MintNotOwner)
                },
                SeiMsg::BurnTokens { amount } => store_entries(*final(storage)) == store_entries(
                    *old(storage),
                ) && if owns_denom(store_entries(*old(storage)), sender@, amount.denom@) {
                    r matches Ok(ExecuteOutcome::Bank(BankAction::Burn { sender: from, amount: coins }))
                        && from == sender && coins@ == seq![amount]
                } else {
                    r == Err::<ExecuteOutcome, SeiError>(SeiError::BurnNotOwner)
                },
                _ => store_entries(*final(storage)) == store_entries(*old(storage)) && r == Err::<
                    ExecuteOutcome,
                    SeiError,
                >(SeiError::Unsupported),
            },
    {
        match msg {
            SeiMsg::PlaceOrders { orders, funds, contract_address } => {
                match execute_place_orders_helper(storage, block, orders, funds, contract_address) {
                    Ok(a) => Ok(ExecuteOutcome::Response(a)),
                    Err(e) => Err(e),
                }
            },
            SeiMsg::CancelOrders { cancellations, contract_address } => {
                match execute_cancel_orders_helper(storage, cancellations, contract_address) {
                    Ok(a) => Ok(ExecuteOutcome::Response(a)),
                    Err(e) => Err(e),
                }
            },
            SeiMsg::CreateDenom { subdenom } => {
                match execute_create_denom_helper(storage, sender, subdenom) {
                    Ok(a) => Ok(ExecuteOutcome::Response(a)),
                    Err(e) => Err(e),
                }
            },
            SeiMsg::MintTokens { amount } => {
                match execute_mint_tokens_helper(storage, sender, amount) {
                    Ok(action) => Ok(ExecuteOutcome::Bank(action)),
                    Err(e) => Err(e),
                }
            },
            SeiMsg::BurnTokens { amount } => {
                match execute_burn_tokens_helper(storage, sender, amount) {
                    Ok(action) => Ok(ExecuteOutcome::Bank(action)),
                    Err(e) => Err(e),
                }
            },
            _ => Err(SeiError::Unsupported),
        }
    }

    /// Answers a query in the block `block`. The store is not changed.
    ///
    /// The latest price, the authority metadata and the denominations of
    /// a creator, and the ERC queries, are not implemented.
    pub fn query(&self, storage: &MemoryStorage, block: &BlockInfo, request: SeiQueryWrapper) -> (r:
        Result<QueryResponse, SeiError>)
        ensures
            match request.query_data {
                SeiQuery::ExchangeRates {  } => r matches Ok(QueryResponse::ExchangeRates(a))
                    && a.denom_oracle_exchange_rate_pairs.deep_view() == current_rates(self.rates()),
                SeiQuery::OracleTwaps { lookback_seconds } => match oracle_twaps_spec(
                    self.rates(),
                    block.time.spec_seconds(),
                    lookback_seconds,
                    self.rates().len() as int,
                ) {
                    Ok(twaps) => r matches Ok(QueryResponse::OracleTwaps(a))
                        && a.oracle_twaps.deep_view() == twaps,
                    Err(e) => r == Err::<QueryResponse, SeiError>(e),
                },
                SeiQuery::DexTwaps { contract_address, lookback_seconds } => match dex_twaps_spec(
                    store_entries(*storage),
                    contract_address@,
                    block.time.spec_seconds(),
                    lookback_seconds,
                ) {
                    Ok(twaps) => r matches Ok(QueryResponse::DexTwaps(a)) && a.twaps.deep_view()
                        == twaps,
                    Err(e) => r == Err::<QueryResponse, SeiError>(e),
                },
                SeiQuery::OrderSimulation { contract_address, order } => match order_simulation_spec(
                    store_entries(*storage),
                    order@,
                    contract_address@,
                ) {
                    Ok(q) => r matches Ok(QueryResponse::OrderSimulation(a)) && a.executed_quantity
                        == q,
                    Err(e) => r == Err::<QueryResponse, SeiError>(e),
                },
                SeiQuery::Epoch {  } => r matches Ok(QueryResponse::Epoch(a)) && a.epoch
                    == self.spec_epoch(),
                SeiQuery::GetOrders { contract_address, account } => match get_orders_spec(
                    store_entries(*storage),
                    contract_address@,
                ) {
                    Ok(list) => r matches Ok(QueryResponse::GetOrders(a)) && a.orders.deep_view()
                        == list,
                    Err(e) => r == Err::<QueryResponse, SeiError>(e),
                },
                SeiQuery::GetOrderById {
                    contract_address,
                    price_denom,
                    asset_denom,
                    id,
                } => match get_order_by_id_spec(
                    store_entries(*storage),
                    contract_address@,
                    price_denom@,
                    asset_denom@,
                    id,
                ) {
                    Ok(o) => r matches Ok(QueryResponse::GetOrderById(a)) && a.order@ == o,
                    Err(e) => r == Err::<QueryResponse, SeiError>(e),
                },
                SeiQuery::StaticCall { from, to, data } => r matches Ok(QueryResponse::StaticCall(a))
                    && a.data@ == "static call response"@,
                SeiQuery::GetEvmAddress { sei_address } => r matches Ok(QueryResponse::EvmAddress(a))
                    && a.associated == (sei_address@ == SEI_ADDRESS@) && a.evm_address@ == (
                if a.associated {
                    EVM_ADDRESS@
                } else {
                    Seq::<char>::empty()
                }),
                SeiQuery::GetSeiAddress { evm_address } => r matches Ok(QueryResponse::SeiAddress(a))
                    && a.associated == (evm_address@ == EVM_ADDRESS@) && a.sei_address@ == (
                if a.associated {
                    SEI_ADDRESS@
                } else {
                    Seq::<char>::empty()
                }),
                _ => r == Err::<QueryResponse, SeiError>(SeiError::Unsupported),
            },
    {
        match request.query_data {
            SeiQuery::ExchangeRates {  } => Ok(
                QueryResponse::ExchangeRates(get_exchange_rates(&self.exchange_rates)),
            ),
            SeiQuery::OracleTwaps { lookback_seconds } => {
                match get_oracle_twaps(block, &self.exchange_rates, lookback_seconds) {
                    Ok(a) => Ok(QueryResponse::OracleTwaps(a)),
                    Err(e) => Err(e),
                }
            },
            SeiQuery::DexTwaps { contract_address, lookback_seconds } => {
                match get_dex_twaps(storage, block, contract_address, lookback_seconds) {
                    Ok(a) => Ok(QueryResponse::DexTwaps(a)),
                    Err(e) => Err(e),
                }
            },
            SeiQuery::OrderSimulation { contract_address, order } => {
                match get_order_simulation(storage, order, contract_address) {
                    Ok(a) => Ok(QueryResponse::OrderSimulation(a)),
                    Err(e) => Err(e),
                }
            },
            SeiQuery::Epoch {  } => match query_get_epoch_helper(self.epoch.clone()) {
                Ok(a) => Ok(QueryResponse::Epoch(a)),
                Err(e) => Err(e),
            },
            SeiQuery::GetOrders { contract_address, account } => {
                match query_get_orders_helper(storage, contract_address, account) {
                    Ok(a) => Ok(QueryResponse::GetOrders(a)),
                    Err(e) => Err(e),
                }
            },
            SeiQuery::GetOrderById { contract_address, price_denom, asset_denom, id } => {
                match query_get_order_by_id_helper(
                    storage,
                    contract_address,
                    price_denom,
                    asset_denom,
                    id,
                ) {
                    Ok(a) => Ok(QueryResponse::GetOrderById(a)),
                    Err(e) => Err(e),
                }
            },
            SeiQuery::StaticCall { from, to, data } => Ok(
                QueryResponse::StaticCall(get_static_call_response()),
            ),
            SeiQuery::GetEvmAddress { sei_address } => Ok(
                QueryResponse::EvmAddress(get_evm_address(sei_address)),
            ),
            SeiQuery::GetSeiAddress { evm_address } => Ok(
                QueryResponse::SeiAddress(get_sei_address(evm_address)),
            ),
            _ => Err(SeiError::Unsupported),
        }
    }

    /// Takes a message from the chain. Settlements and bulk placements and
    /// cancellations are acknowledged and nothing is done.
    pub fn sudo(&self, msg: SudoMsg) -> (r: Result<AppResponse, SeiError>)
        ensures
            r matches Ok(a) && a.data is None,
    {
        match msg {
            SudoMsg::Settlement { epoch, entries } => Ok(AppResponse { data: None }),
            SudoMsg::BulkOrderPlacements { orders, deposits } => Ok(AppResponse { data: None }),
            SudoMsg::BulkOrderCancellations { ids } => Ok(AppResponse { data: None }),
        }
    }
}

impl Default for SeiModule {
    fn default() -> (r: SeiModule)
        ensures
            is_genesis_epoch(r.spec_epoch()),
            r.rates() == Seq::<DenomRatesView>::empty(),
    {
        SeiModule::new()
    }
}

} // verus!
