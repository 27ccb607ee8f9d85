//! The abstract providers the pipeline consumes: a cell collector, a
//! cell-dep resolver, a header-dep resolver and a transaction dependency
//! provider.  Implementations live with the caller; the contracts here are
//! what the rest of the crate builds its proofs on.

pub mod dummy_impls;

use vstd::prelude::*;

use crate::types::CellDep;
use crate::types::CellDepV;
use crate::types::CellOutput;
use crate::types::CellOutputV;
use crate::types::CellQueryOptions;
use crate::types::LiveCell;
use crate::types::LiveCellV;
use crate::types::OutPoint;
use crate::types::OutPointV;
use crate::types::ScriptId;
use crate::types::ScriptIdV;
use crate::types::Transaction;
use crate::types::cells_view;
use crate::types::sum_capacities;

verus! {

/// Why a collector could not serve a query.
pub enum CellCollectorError {
    Internal(String),
    Other(String),
}

/// Why a transaction dependency could not be served.
pub enum TransactionDependencyError {
    NotFound(String),
    Other(String),
}

/// A cell output is well formed when its scripts carry 32-byte code
/// hashes.
pub open spec fn cell_output_wf(o: CellOutputV) -> bool {
    &&& o.lock.wf()
    &&& match o.type_script {
        Some(t) => t.wf(),
        None => true,
    }
}

/// Serves live cells that satisfy a query.  The collector owns
/// reservation state: cells handed out with `apply_changes` set, or
/// recorded through `apply_tx`, are not returned again until `reset`.
pub trait CellCollector {
    /// Returns cells that all satisfy `query`, together with their total
    /// capacity.
    fn collect_live_cells(&mut self, query: &CellQueryOptions, apply_changes: bool) -> (r: Result<
        (Vec<LiveCell>, u64),
        CellCollectorError,
    >)
        ensures
            r is Ok ==> (forall|i: int|
                0 <= i < r->Ok_0.0@.len() ==> query@.matches(#[trigger] r->Ok_0.0@[i]@)),
            r is Ok ==> r->Ok_0.1 as int == sum_capacities(cells_view(r->Ok_0.0@)),
            r is Ok ==> (forall|i: int|
                0 <= i < r->Ok_0.0@.len() ==> cell_output_wf(#[trigger] r->Ok_0.0@[i]@.output)),
    ;

    /// Marks one cell as reserved.
    fn lock_cell(&mut self, out_point: OutPoint) -> (r: Result<(), CellCollectorError>);

    /// Records a draft transaction so its inputs are excluded from later
    /// collections.
    fn apply_tx(&mut self, tx: Transaction) -> (r: Result<(), CellCollectorError>);

    /// Discards all reservation state.
    fn reset(&mut self);
}

/// Resolves the identity of a deployed script to the cell-dep that
/// carries its code.
pub trait CellDepResolver {
    /// The resolver's table.  An implementation that leaves this at its
    /// default, the empty table, can answer no lookup.
    open spec fn deps(&self) -> Map<ScriptIdV, CellDepV> {
        Map::empty()
    }

    /// Looks `script_id` up in the table.
    fn resolve(&self, script_id: &ScriptId) -> (r: Option<CellDep>)
        ensures
            r is Some <==> self.deps().contains_key(script_id@),
            r is Some ==> r->0@ == self.deps()[script_id@],
    ;
}

/// Resolves header dependencies by the transaction that needs them or by
/// block number.
pub trait HeaderDepResolver {
    fn resolve_by_tx(&self, tx_hash: &Vec<u8>) -> (r: Result<
        Option<ckb_types::core::HeaderView>,
        String,
    >);

    fn resolve_by_number(&self, number: u64) -> (r: Result<
        Option<ckb_types::core::HeaderView>,
        String,
    >);
}

/// Serves the cells, transactions and headers an unlocker inspects.
pub trait TransactionDependencyProvider {
    /// The cells the provider knows, each with its output and data.  An
    /// implementation that leaves this at its default, the empty table,
    /// can serve no cell.
    open spec fn cells(&self) -> Map<OutPointV, (CellOutputV, Seq<u8>)> {
        Map::empty()
    }

    /// The consensus parameters of the chain.
    fn get_consensus(&self) -> (r: Result<
        ckb_chain_spec::consensus::Consensus,
        TransactionDependencyError,
    >);

    /// The transaction a cell came from.
    fn get_transaction(&self, tx_hash: &Vec<u8>) -> (r: Result<
        Transaction,
        TransactionDependencyError,
    >);

    /// The output of a live cell.
    fn get_cell(&self, out_point: &OutPoint) -> (r: Result<
        CellOutput,
        TransactionDependencyError,
    >)
        ensures
            r is Ok ==> self.cells().contains_key(out_point@)
                && r->Ok_0@ == self.cells()[out_point@].0
                && cell_output_wf(r->Ok_0@),
    ;

    /// The data of a live cell.
    fn get_cell_data(&self, out_point: &OutPoint) -> (r: Result<
        Vec<u8>,
        TransactionDependencyError,
    >)
        ensures
            r is Ok ==> self.cells().contains_key(out_point@)
                && r->Ok_0@ == self.cells()[out_point@].1,
    ;

    /// The header of a block.
    fn get_header(&self, block_hash: &Vec<u8>) -> (r: Result<
        ckb_types::core::HeaderView,
        TransactionDependencyError,
    >);
}

} // verus!
