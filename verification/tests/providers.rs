//! The dummy providers and the extremes of the UDT builders.

use ckb_tx_core::traits::{
    CellCollector, CellCollectorError, CellDepResolver, HeaderDepResolver,
    TransactionDependencyError, TransactionDependencyProvider,
};
use ckb_tx_core::traits::dummy_impls::{
    DummyCellCollector, DummyHeaderDepResolver, DummyTransactionDependencyProvider,
};
use ckb_tx_core::tx_builder::acp::AcpTransferBuilder;
use ckb_tx_core::tx_builder::udt::{UdtTargetReceiver, UdtTransferBuilder};
use ckb_tx_core::tx_builder::{TransferAction, TxBuilder, TxBuilderError};
use ckb_tx_core::types::{
    bytes_eq, CellDep, CellOutput, CellQueryOptions, DepType, HashType, LiveCell, OutPoint,
    Script, ScriptId, Transaction,
};

fn script(code_byte: u8, args: Vec<u8>) -> Script {
    Script { code_hash: vec![code_byte; 32], hash_type: HashType::Type, args }
}

fn out_point(tx_byte: u8, index: u32) -> OutPoint {
    OutPoint { tx_hash: vec![tx_byte; 32], index }
}

struct TestCollector {
    cells: Vec<LiveCell>,
}

impl CellCollector for TestCollector {
    fn collect_live_cells(
        &mut self,
        query: &CellQueryOptions,
        _apply_changes: bool,
    ) -> Result<(Vec<LiveCell>, u64), CellCollectorError> {
        let mut found: Vec<LiveCell> = Vec::new();
        let mut total: u64 = 0;
        for cell in &self.cells {
            if query.match_cell(cell) {
                total += cell.output.capacity;
                found.push(cell.clone());
            }
        }
        Ok((found, total))
    }

    fn lock_cell(&mut self, _out_point: OutPoint) -> Result<(), CellCollectorError> {
        Ok(())
    }

    fn apply_tx(&mut self, _tx: Transaction) -> Result<(), CellCollectorError> {
        Ok(())
    }

    fn reset(&mut self) {}
}

struct TestResolver {
    entries: Vec<(ScriptId, CellDep)>,
}

impl CellDepResolver for TestResolver {
    fn resolve(&self, script_id: &ScriptId) -> Option<CellDep> {
        for (id, dep) in &self.entries {
            if ckb_tx_core::types::script_id_eq(id, script_id) {
                return Some(dep.clone());
            }
        }
        None
    }
}

#[test]
fn dummy_collector_collects_nothing() {
    let mut collector = DummyCellCollector;
    let query = CellQueryOptions::new_lock(script(1, vec![]));
    assert!(matches!(
        collector.collect_live_cells(&query, true),
        Err(CellCollectorError::Other(_))
    ));
    assert!(matches!(collector.lock_cell(out_point(1, 0)), Err(CellCollectorError::Other(_))));
    collector.reset();
}

#[test]
fn dummy_header_resolver_resolves_nothing() {
    let resolver = DummyHeaderDepResolver;
    assert!(resolver.resolve_by_tx(&vec![0; 32]).is_err());
    assert!(resolver.resolve_by_number(7).is_err());
}

#[test]
fn dummy_dependency_provider_knows_nothing() {
    let provider = DummyTransactionDependencyProvider;
    assert!(matches!(
        provider.get_cell(&out_point(1, 0)),
        Err(TransactionDependencyError::Other(_))
    ));
    assert!(matches!(
        provider.get_cell_data(&out_point(1, 0)),
        Err(TransactionDependencyError::Other(_))
    ));
    assert!(provider.get_consensus().is_err());
    assert!(provider.get_transaction(&vec![0; 32]).is_err());
    assert!(provider.get_header(&vec![0; 32]).is_err());
}

#[test]
fn acp_transfer_with_no_receivers_is_empty() {
    let builder = AcpTransferBuilder::new(vec![]);
    let tx = builder
        .build_base(
            &mut DummyCellCollector,
            &TestResolver { entries: vec![] },
            &DummyHeaderDepResolver,
            &DummyTransactionDependencyProvider,
        )
        .unwrap_or_else(|_| panic!("build failed"));
    assert_eq!(tx.inputs.len(), 0);
    assert_eq!(tx.outputs.len(), 0);
    assert_eq!(tx.cell_deps.len(), 0);
}

#[test]
fn udt_transfer_of_everything_leaves_zero() {
    let sender_lock = script(1, vec![1; 20]);
    let receiver_lock = script(2, vec![2; 20]);
    let type_script = script(30, vec![9; 32]);
    let mut collector = TestCollector {
        cells: vec![LiveCell {
            out_point: out_point(2, 0),
            output: CellOutput {
                capacity: 14_200_000_000,
                lock: sender_lock.clone(),
                type_script: Some(type_script.clone()),
            },
            output_data: u128::MAX.to_le_bytes().to_vec(),
            block_number: 0,
            tx_index: 0,
        }],
    };
    let resolver = TestResolver {
        entries: vec![
            (
                ScriptId::from_script(&sender_lock),
                CellDep { out_point: out_point(20, 0), dep_type: DepType::Code },
            ),
            (
                ScriptId::from_script(&type_script),
                CellDep { out_point: out_point(22, 0), dep_type: DepType::Code },
            ),
        ],
    };
    let builder = UdtTransferBuilder {
        type_script,
        sender: sender_lock,
        receivers: vec![UdtTargetReceiver {
            action: TransferAction::Create,
            lock_script: receiver_lock,
            capacity: None,
            amount: u128::MAX,
            extra_data: None,
        }],
    };
    let tx = builder
        .build_base(
            &mut collector,
            &resolver,
            &DummyHeaderDepResolver,
            &DummyTransactionDependencyProvider,
        )
        .unwrap_or_else(|_| panic!("build failed"));
    assert!(bytes_eq(&tx.outputs_data[0], &0u128.to_le_bytes().to_vec()));
    assert!(bytes_eq(&tx.outputs_data[1], &u128::MAX.to_le_bytes().to_vec()));
}

#[test]
fn udt_transfer_without_sender_cell_fails() {
    let sender_lock = script(1, vec![1; 20]);
    let type_script = script(30, vec![9; 32]);
    let builder = UdtTransferBuilder {
        type_script,
        sender: sender_lock,
        receivers: vec![],
    };
    let r = builder.build_base(
        &mut TestCollector { cells: vec![] },
        &TestResolver { entries: vec![] },
        &DummyHeaderDepResolver,
        &DummyTransactionDependencyProvider,
    );
    assert!(matches!(r, Err(TxBuilderError::Other(_))));
}
