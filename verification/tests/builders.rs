//! The base-transaction builders, run against in-memory providers.

use ckb_tx_core::traits::{
    CellCollector, CellCollectorError, CellDepResolver, HeaderDepResolver,
    TransactionDependencyError, TransactionDependencyProvider,
};
use ckb_tx_core::tx_builder::acp::{AcpTransferBuilder, AcpTransferReceiver};
use ckb_tx_core::tx_builder::udt::{
    UdtIssueBuilder, UdtIssueType, UdtTargetReceiver, UdtTransferBuilder,
};
use ckb_tx_core::tx_builder::{TransferAction, TxBuilder, TxBuilderError};
use ckb_tx_core::types::{
    bytes_eq, script_eq, script_id_eq, CellDep, CellOutput, CellQueryOptions, DepType, HashType,
    LiveCell, OutPoint, Script, ScriptId, Transaction,
};
use ckb_types::prelude::Builder;
use ckb_types::prelude::Entity;
use ckb_types::prelude::Pack;

struct TestCollector {
    cells: Vec<LiveCell>,
}

impl CellCollector for TestCollector {
    fn collect_live_cells(
        &mut self,
        query: &CellQueryOptions,
        _apply_changes: bool,
    ) -> Result<(Vec<LiveCell>, u64), CellCollectorError> {
        let mut found: Vec<LiveCell> = Vec::new();
        let mut total: u64 = 0;
        for cell in &self.cells {
            if query.match_cell(cell) {
                total += cell.output.capacity;
                found.push(cell.clone());
            }
        }
        Ok((found, total))
    }

    fn lock_cell(&mut self, _out_point: OutPoint) -> Result<(), CellCollectorError> {
        Ok(())
    }

    fn apply_tx(&mut self, _tx: Transaction) -> Result<(), CellCollectorError> {
        Ok(())
    }

    fn reset(&mut self) {}
}

struct FailingCollector;

impl CellCollector for FailingCollector {
    fn collect_live_cells(
        &mut self,
        _query: &CellQueryOptions,
        _apply_changes: bool,
    ) -> Result<(Vec<LiveCell>, u64), CellCollectorError> {
        Err(CellCollectorError::Internal("offline".to_owned()))
    }

    fn lock_cell(&mut self, _out_point: OutPoint) -> Result<(), CellCollectorError> {
        Ok(())
    }

    fn apply_tx(&mut self, _tx: Transaction) -> Result<(), CellCollectorError> {
        Ok(())
    }

    fn reset(&mut self) {}
}

struct TestResolver {
    entries: Vec<(ScriptId, CellDep)>,
}

impl CellDepResolver for TestResolver {
    fn resolve(&self, script_id: &ScriptId) -> Option<CellDep> {
        for (id, dep) in &self.entries {
            if script_id_eq(id, script_id) {
                return Some(dep.clone());
            }
        }
        None
    }
}

struct TestHeaders;

impl HeaderDepResolver for TestHeaders {
    fn resolve_by_tx(
        &self,
        _tx_hash: &Vec<u8>,
    ) -> Result<Option<ckb_types::core::HeaderView>, String> {
        Err("no headers".to_owned())
    }

    fn resolve_by_number(
        &self,
        _number: u64,
    ) -> Result<Option<ckb_types::core::HeaderView>, String> {
        Err("no headers".to_owned())
    }
}

struct TestDeps;

impl TransactionDependencyProvider for TestDeps {
    fn get_consensus(
        &self,
    ) -> Result<ckb_chain_spec::consensus::Consensus, TransactionDependencyError> {
        Err(TransactionDependencyError::Other("none".to_owned()))
    }

    fn get_transaction(&self, _h: &Vec<u8>) -> Result<Transaction, TransactionDependencyError> {
        Err(TransactionDependencyError::Other("none".to_owned()))
    }

    fn get_cell(&self, _op: &OutPoint) -> Result<CellOutput, TransactionDependencyError> {
        Err(TransactionDependencyError::Other("none".to_owned()))
    }

    fn get_cell_data(&self, _op: &OutPoint) -> Result<Vec<u8>, TransactionDependencyError> {
        Err(TransactionDependencyError::Other("none".to_owned()))
    }

    fn get_header(
        &self,
        _h: &Vec<u8>,
    ) -> Result<ckb_types::core::HeaderView, TransactionDependencyError> {
        Err(TransactionDependencyError::Other("none".to_owned()))
    }
}

fn script(code_byte: u8, args: Vec<u8>) -> Script {
    Script { code_hash: vec![code_byte; 32], hash_type: HashType::Type, args }
}

fn out_point(tx_byte: u8, index: u32) -> OutPoint {
    OutPoint { tx_hash: vec![tx_byte; 32], index }
}

fn dep(tx_byte: u8) -> CellDep {
    CellDep { out_point: out_point(tx_byte, 0), dep_type: DepType::Code }
}

fn live_cell(
    op: OutPoint,
    lock: Script,
    type_script: Option<Script>,
    capacity: u64,
    data: Vec<u8>,
) -> LiveCell {
    LiveCell {
        out_point: op,
        output: CellOutput { capacity, lock, type_script },
        output_data: data,
        block_number: 0,
        tx_index: 0,
    }
}

fn amount_bytes(v: u128, tail: Vec<u8>) -> Vec<u8> {
    let mut data = v.to_le_bytes().to_vec();
    data.extend(tail);
    data
}

fn ckb_script_hash(s: &Script) -> Vec<u8> {
    let ht: u8 = match s.hash_type {
        HashType::Data => 0,
        HashType::Type => 1,
        HashType::Data1 => 2,
    };
    ckb_types::packed::Script::new_builder()
        .code_hash(ckb_types::packed::Byte32::from_slice(s.code_hash.as_slice()).unwrap())
        .hash_type(ht)
        .args(s.args.as_slice().pack())
        .build()
        .calc_script_hash()
        .as_slice()
        .to_vec()
}

#[test]
fn acp_transfer_adds_capacity_and_keeps_content() {
    let acp_lock = script(10, vec![5; 20]);
    let type_script = script(11, vec![1; 32]);
    let mut collector = TestCollector {
        cells: vec![live_cell(
            out_point(1, 0),
            acp_lock.clone(),
            Some(type_script.clone()),
            200,
            amount_bytes(42, vec![]),
        )],
    };
    let resolver = TestResolver {
        entries: vec![
            (ScriptId::from_script(&acp_lock), dep(20)),
            (ScriptId::from_script(&type_script), dep(21)),
        ],
    };
    let builder =
        AcpTransferBuilder::new(vec![AcpTransferReceiver::new(acp_lock.clone(), 50)]);
    let tx = builder
        .build_base(&mut collector, &resolver, &TestHeaders, &TestDeps)
        .unwrap_or_else(|_| panic!("build failed"));
    assert_eq!(tx.inputs.len(), 1);
    assert_eq!(tx.outputs.len(), 1);
    assert_eq!(tx.outputs[0].capacity, 250);
    assert!(script_eq(&tx.outputs[0].lock, &acp_lock));
    assert!(matches!(&tx.outputs[0].type_script, Some(t) if script_eq(t, &type_script)));
    assert!(bytes_eq(&tx.outputs_data[0], &amount_bytes(42, vec![])));
    // Both the lock dep and the type dep are resolved.
    assert_eq!(tx.cell_deps.len(), 2);
    assert_eq!(tx.witnesses.len(), 0);
}

#[test]
fn acp_transfer_grows_only_the_chosen_cell() {
    // Two cells share the receiver's lock; only the first is consumed,
    // and the new capacity is that one cell's plus the delta.
    let acp_lock = script(10, vec![5; 20]);
    let mut collector = TestCollector {
        cells: vec![
            live_cell(out_point(1, 0), acp_lock.clone(), None, 200, vec![]),
            live_cell(out_point(1, 1), acp_lock.clone(), None, 700, vec![]),
        ],
    };
    let resolver = TestResolver { entries: vec![(ScriptId::from_script(&acp_lock), dep(20))] };
    let builder = AcpTransferBuilder::new(vec![AcpTransferReceiver::new(acp_lock, 50)]);
    let tx = builder
        .build_base(&mut collector, &resolver, &TestHeaders, &TestDeps)
        .unwrap_or_else(|_| panic!("build failed"));
    assert_eq!(tx.inputs.len(), 1);
    assert_eq!(tx.inputs[0].previous_output.index, 0);
    assert_eq!(tx.outputs[0].capacity, 250);
}

#[test]
fn acp_transfer_without_cell_fails() {
    let acp_lock = script(10, vec![5; 20]);
    let mut collector = TestCollector { cells: vec![] };
    let resolver = TestResolver { entries: vec![(ScriptId::from_script(&acp_lock), dep(20))] };
    let builder = AcpTransferBuilder::new(vec![AcpTransferReceiver::new(acp_lock, 50)]);
    let r = builder.build_base(&mut collector, &resolver, &TestHeaders, &TestDeps);
    assert!(matches!(r, Err(TxBuilderError::Other(_))));
}

#[test]
fn acp_transfer_propagates_collector_error() {
    let acp_lock = script(10, vec![5; 20]);
    let resolver = TestResolver { entries: vec![] };
    let builder = AcpTransferBuilder::new(vec![AcpTransferReceiver::new(acp_lock, 50)]);
    let r = builder.build_base(&mut FailingCollector, &resolver, &TestHeaders, &TestDeps);
    assert!(matches!(r, Err(TxBuilderError::CellCollector(_))));
}

#[test]
fn acp_transfer_needs_cell_dep() {
    let acp_lock = script(10, vec![5; 20]);
    let mut collector = TestCollector {
        cells: vec![live_cell(out_point(1, 0), acp_lock.clone(), None, 200, vec![])],
    };
    let resolver = TestResolver { entries: vec![] };
    let builder = AcpTransferBuilder::new(vec![AcpTransferReceiver::new(acp_lock, 50)]);
    let r = builder.build_base(&mut collector, &resolver, &TestHeaders, &TestDeps);
    assert!(matches!(r, Err(TxBuilderError::ResolveCellDepFailed(_))));
}

#[test]
fn udt_transfer_leaves_exact_remainder() {
    let sender_lock = script(1, vec![1; 20]);
    let receiver_lock = script(1, vec![2; 20]);
    let type_script = script(30, vec![9; 32]);
    let mut collector = TestCollector {
        cells: vec![live_cell(
            out_point(2, 0),
            sender_lock.clone(),
            Some(type_script.clone()),
            14_200_000_000,
            amount_bytes(500, vec![]),
        )],
    };
    let resolver = TestResolver {
        entries: vec![
            (ScriptId::from_script(&sender_lock), dep(20)),
            (ScriptId::from_script(&type_script), dep(22)),
        ],
    };
    let builder = UdtTransferBuilder {
        type_script: type_script.clone(),
        sender: sender_lock.clone(),
        receivers: vec![UdtTargetReceiver {
            action: TransferAction::Create,
            lock_script: receiver_lock.clone(),
            capacity: None,
            amount: 120,
            extra_data: None,
        }],
    };
    let tx = builder
        .build_base(&mut collector, &resolver, &TestHeaders, &TestDeps)
        .unwrap_or_else(|_| panic!("build failed"));
    assert_eq!(tx.inputs.len(), 1);
    assert_eq!(tx.outputs.len(), 2);
    // The sender's output carries the exact remainder.
    assert!(bytes_eq(&tx.outputs_data[0], &amount_bytes(380, vec![])));
    assert!(script_eq(&tx.outputs[0].lock, &sender_lock));
    // The created receiver cell holds exactly the amount, at its occupied
    // capacity: 8 + 16 + 53 lock + 65 type = 142 bytes.
    assert!(bytes_eq(&tx.outputs_data[1], &amount_bytes(120, vec![])));
    assert_eq!(tx.outputs[1].capacity, 14_200_000_000);
    assert!(script_eq(&tx.outputs[1].lock, &receiver_lock));
    assert_eq!(tx.cell_deps.len(), 2);
}

#[test]
fn udt_transfer_update_adds_to_receiver_cell() {
    let sender_lock = script(1, vec![1; 20]);
    let receiver_lock = script(2, vec![2; 20]);
    let type_script = script(30, vec![9; 32]);
    let mut collector = TestCollector {
        cells: vec![
            live_cell(
                out_point(2, 0),
                sender_lock.clone(),
                Some(type_script.clone()),
                14_200_000_000,
                amount_bytes(500, vec![]),
            ),
            live_cell(
                out_point(3, 0),
                receiver_lock.clone(),
                Some(type_script.clone()),
                14_200_000_000,
                amount_bytes(80, vec![0xAB]),
            ),
        ],
    };
    let resolver = TestResolver {
        entries: vec![
            (ScriptId::from_script(&sender_lock), dep(20)),
            (ScriptId::from_script(&receiver_lock), dep(21)),
            (ScriptId::from_script(&type_script), dep(22)),
        ],
    };
    let builder = UdtTransferBuilder {
        type_script: type_script.clone(),
        sender: sender_lock.clone(),
        receivers: vec![UdtTargetReceiver {
            action: TransferAction::Update,
            lock_script: receiver_lock.clone(),
            capacity: None,
            amount: 20,
            extra_data: None,
        }],
    };
    let tx = builder
        .build_base(&mut collector, &resolver, &TestHeaders, &TestDeps)
        .unwrap_or_else(|_| panic!("build failed"));
    // The receiver's cell is consumed and re-created with 80 + 20, its
    // extension byte kept.
    assert_eq!(tx.inputs.len(), 2);
    assert!(bytes_eq(&tx.outputs_data[0], &amount_bytes(480, vec![])));
    assert!(bytes_eq(&tx.outputs_data[1], &amount_bytes(100, vec![0xAB])));
    assert_eq!(tx.cell_deps.len(), 3);
}

#[test]
fn udt_transfer_rejects_overdraw() {
    let sender_lock = script(1, vec![1; 20]);
    let receiver_lock = script(1, vec![2; 20]);
    let type_script = script(30, vec![9; 32]);
    let mut collector = TestCollector {
        cells: vec![live_cell(
            out_point(2, 0),
            sender_lock.clone(),
            Some(type_script.clone()),
            14_200_000_000,
            amount_bytes(500, vec![]),
        )],
    };
    let resolver = TestResolver {
        entries: vec![
            (ScriptId::from_script(&sender_lock), dep(20)),
            (ScriptId::from_script(&type_script), dep(22)),
        ],
    };
    let builder = UdtTransferBuilder {
        type_script,
        sender: sender_lock,
        receivers: vec![UdtTargetReceiver {
            action: TransferAction::Create,
            lock_script: receiver_lock,
            capacity: None,
            amount: 501,
            extra_data: None,
        }],
    };
    let r = builder.build_base(&mut collector, &resolver, &TestHeaders, &TestDeps);
    assert!(matches!(r, Err(TxBuilderError::Other(_))));
}

#[test]
fn udt_create_rejects_small_capacity() {
    let sender_lock = script(1, vec![1; 20]);
    let receiver_lock = script(1, vec![2; 20]);
    let type_script = script(30, vec![9; 32]);
    let mut collector = TestCollector {
        cells: vec![live_cell(
            out_point(2, 0),
            sender_lock.clone(),
            Some(type_script.clone()),
            14_200_000_000,
            amount_bytes(500, vec![]),
        )],
    };
    let resolver = TestResolver {
        entries: vec![
            (ScriptId::from_script(&sender_lock), dep(20)),
            (ScriptId::from_script(&type_script), dep(22)),
        ],
    };
    let builder = UdtTransferBuilder {
        type_script,
        sender: sender_lock,
        receivers: vec![UdtTargetReceiver {
            action: TransferAction::Create,
            lock_script: receiver_lock,
            // One shannon below the occupied capacity of the cell.
            capacity: Some(14_199_999_999),
            amount: 10,
            extra_data: None,
        }],
    };
    let r = builder.build_base(&mut collector, &resolver, &TestHeaders, &TestDeps);
    assert!(matches!(r, Err(TxBuilderError::Other(_))));
}

#[test]
fn udt_issue_builds_type_script_from_owner_hash() {
    let owner = script(1, vec![3; 20]);
    let receiver_lock = script(1, vec![4; 20]);
    let udt_script_id = ScriptId { code_hash: vec![30; 32], hash_type: HashType::Type };
    let mut collector = TestCollector {
        cells: vec![live_cell(out_point(5, 0), owner.clone(), None, 20_000_000_000, vec![])],
    };
    let resolver = TestResolver {
        entries: vec![
            (ScriptId::from_script(&owner), dep(20)),
            (udt_script_id.clone(), dep(23)),
        ],
    };
    let builder = UdtIssueBuilder {
        udt_type: UdtIssueType::Sudt,
        script_id: udt_script_id,
        owner: owner.clone(),
        receivers: vec![UdtTargetReceiver {
            action: TransferAction::Create,
            lock_script: receiver_lock,
            capacity: None,
            amount: 1000,
            extra_data: None,
        }],
    };
    let tx = builder
        .build_base(&mut collector, &resolver, &TestHeaders, &TestDeps)
        .unwrap_or_else(|_| panic!("build failed"));
    assert_eq!(tx.inputs.len(), 1);
    assert_eq!(tx.outputs.len(), 1);
    // The minted cell's type args are the owner's lock hash, as the chain
    // library computes it.
    let minted_type = tx.outputs[0].type_script.as_ref().unwrap();
    assert!(bytes_eq(&minted_type.args, &ckb_script_hash(&owner)));
    assert!(bytes_eq(&tx.outputs_data[0], &amount_bytes(1000, vec![])));
    assert_eq!(tx.cell_deps.len(), 2);
}

#[test]
fn udt_issue_xudt_appends_extension_args() {
    let owner = script(1, vec![3; 20]);
    let receiver_lock = script(1, vec![4; 20]);
    let udt_script_id = ScriptId { code_hash: vec![31; 32], hash_type: HashType::Type };
    let mut collector = TestCollector {
        cells: vec![live_cell(out_point(5, 0), owner.clone(), None, 20_000_000_000, vec![])],
    };
    let resolver = TestResolver {
        entries: vec![
            (ScriptId::from_script(&owner), dep(20)),
            (udt_script_id.clone(), dep(23)),
        ],
    };
    let builder = UdtIssueBuilder {
        udt_type: UdtIssueType::Xudt(vec![0xC0, 0xDE]),
        script_id: udt_script_id,
        owner: owner.clone(),
        receivers: vec![UdtTargetReceiver {
            action: TransferAction::Create,
            lock_script: receiver_lock,
            capacity: None,
            amount: 7,
            extra_data: Some(vec![0x11]),
        }],
    };
    let tx = builder
        .build_base(&mut collector, &resolver, &TestHeaders, &TestDeps)
        .unwrap_or_else(|_| panic!("build failed"));
    let minted_type = tx.outputs[0].type_script.as_ref().unwrap();
    let mut expected_args = ckb_script_hash(&owner);
    expected_args.extend(vec![0xC0, 0xDE]);
    assert!(bytes_eq(&minted_type.args, &expected_args));
    assert!(bytes_eq(&tx.outputs_data[0], &amount_bytes(7, vec![0x11])));
}

#[test]
fn udt_issue_without_owner_cell_fails() {
    let owner = script(1, vec![3; 20]);
    let udt_script_id = ScriptId { code_hash: vec![30; 32], hash_type: HashType::Type };
    // The owner's only cell carries data, so the empty-data query finds
    // nothing.
    let mut collector = TestCollector {
        cells: vec![live_cell(out_point(5, 0), owner.clone(), None, 20_000_000_000, vec![1])],
    };
    let resolver = TestResolver {
        entries: vec![
            (ScriptId::from_script(&owner), dep(20)),
            (udt_script_id.clone(), dep(23)),
        ],
    };
    let builder = UdtIssueBuilder {
        udt_type: UdtIssueType::Sudt,
        script_id: udt_script_id,
        owner,
        receivers: vec![],
    };
    let r = builder.build_base(&mut collector, &resolver, &TestHeaders, &TestDeps);
    assert!(matches!(r, Err(TxBuilderError::Other(_))));
}
