//! Providers that serve nothing: every method returns an error where one
//! can be returned.

use vstd::prelude::*;

use crate::traits::CellCollector;
use crate::traits::CellCollectorError;
use crate::traits::HeaderDepResolver;
use crate::traits::TransactionDependencyError;
use crate::traits::TransactionDependencyProvider;
use crate::types::CellOutput;
use crate::types::CellOutputV;
use crate::types::CellQueryOptions;
use crate::types::LiveCell;
use crate::types::OutPoint;
use crate::types::OutPointV;
use crate::types::Transaction;

verus! {

/// A cell collector that collects nothing: all methods return an error if
/// they can.
pub struct DummyCellCollector;

impl CellCollector for DummyCellCollector {
    fn collect_live_cells(&mut self, _query: &CellQueryOptions, _apply_changes: bool) -> (r: Result<
        (Vec<LiveCell>, u64),
        CellCollectorError,
    >)
        ensures
            r is Err,
    {
        Err(CellCollectorError::Other("dummy collect_live_cells".to_owned()))
    }

    fn lock_cell(&mut self, _out_point: OutPoint) -> (r: Result<(), CellCollectorError>)
        ensures
            r is Err,
    {
        Err(CellCollectorError::Other("dummy lock_cell".to_owned()))
    }

    fn apply_tx(&mut self, _tx: Transaction) -> (r: Result<(), CellCollectorError>)
        ensures
            r is Err,
    {
        Err(CellCollectorError::Other("dummy apply_tx".to_owned()))
    }

    fn reset(&mut self) {
    }
}

/// A header-dep resolver that resolves nothing: all methods return an
/// error.
pub struct DummyHeaderDepResolver;

impl HeaderDepResolver for DummyHeaderDepResolver {
    fn resolve_by_tx(&self, _tx_hash: &Vec<u8>) -> (r: Result<
        Option<ckb_types::core::HeaderView>,
        String,
    >)
        ensures
            r is Err,
    {
        Err("dummy resolve_by_tx".to_owned())
    }

    fn resolve_by_number(&self, _number: u64) -> (r: Result<
        Option<ckb_types::core::HeaderView>,
        String,
    >)
        ensures
            r is Err,
    {
        Err("dummy resolve_by_number".to_owned())
    }
}

/// A dependency provider that knows no cell: all methods return an error.
pub struct DummyTransactionDependencyProvider;

impl TransactionDependencyProvider for DummyTransactionDependencyProvider {
    /// The dummy provider knows no cells at all.
    open spec fn cells(&self) -> Map<OutPointV, (CellOutputV, Seq<u8>)> {
        Map::empty()
    }

    fn get_consensus(&self) -> (r: Result<
        ckb_chain_spec::consensus::Consensus,
        TransactionDependencyError,
    >)
        ensures
            r is Err,
    {
        Err(TransactionDependencyError::Other("dummy get_consensus".to_owned()))
    }

    fn get_transaction(&self, _tx_hash: &Vec<u8>) -> (r: Result<
        Transaction,
        TransactionDependencyError,
    >)
        ensures
            r is Err,
    {
        Err(TransactionDependencyError::Other("dummy get_transaction".to_owned()))
    }

    fn get_cell(&self, _out_point: &OutPoint) -> (r: Result<
        CellOutput,
        TransactionDependencyError,
    >)
        ensures
            r is Err,
    {
        Err(TransactionDependencyError::Other("dummy get_cell".to_owned()))
    }

    fn get_cell_data(&self, _out_point: &OutPoint) -> (r: Result<
        Vec<u8>,
        TransactionDependencyError,
    >)
        ensures
            r is Err,
    {
        Err(TransactionDependencyError::Other("dummy get_cell_data".to_owned()))
    }

    fn get_header(&self, _block_hash: &Vec<u8>) -> (r: Result<
        ckb_types::core::HeaderView,
        TransactionDependencyError,
    >)
        ensures
            r is Err,
    {
        Err(TransactionDependencyError::Other("dummy get_header".to_owned()))
    }
}

} // verus!
