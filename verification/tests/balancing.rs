//! The capacity balancer: cell selection, change computation and the fee
//! floor.

use ckb_tx_core::sizing::tx_serialized_size_exec;
use ckb_tx_core::tx_builder::balancer::build_balanced;
use ckb_tx_core::tx_builder::transfer::CapacityTransferBuilder;
use ckb_tx_core::unlock::unlocker::{ScriptSignError, ScriptSigner, ScriptUnlockerManager, Secp256k1SighashUnlocker};
use ckb_tx_core::traits::{
    CellCollector, CellCollectorError, CellDepResolver, TransactionDependencyError,
    TransactionDependencyProvider,
};
use ckb_tx_core::tx_builder::balancer::{
    fill_placeholder_witnesses, CapacityBalancer, CapacityProvider,
};
use ckb_tx_core::types::{bytes_eq, CellInput};
use ckb_tx_core::tx_builder::TxBuilderError;
use ckb_tx_core::types::{
    script_eq, script_id_eq, CellDep, CellOutput, CellQueryOptions, DepType, HashType, LiveCell,
    OutPoint, Script, ScriptId, Transaction,
};

fn script(code_byte: u8, args: Vec<u8>) -> Script {
    Script { code_hash: vec![code_byte; 32], hash_type: HashType::Type, args }
}

fn out_point(tx_byte: u8, index: u32) -> OutPoint {
    OutPoint { tx_hash: vec![tx_byte; 32], index }
}

/// A collector that reserves what it returns, and returns matches only
/// until the query's minimum total capacity is reached.
struct ReservingCollector {
    cells: Vec<LiveCell>,
}

impl CellCollector for ReservingCollector {
    fn collect_live_cells(
        &mut self,
        query: &CellQueryOptions,
        apply_changes: bool,
    ) -> Result<(Vec<LiveCell>, u64), CellCollectorError> {
        let mut found: Vec<LiveCell> = Vec::new();
        let mut rest: Vec<LiveCell> = Vec::new();
        let mut total: u64 = 0;
        for cell in self.cells.drain(..) {
            if total < query.min_total_capacity && query.match_cell(&cell) {
                total += cell.output.capacity;
                found.push(cell);
            } else {
                rest.push(cell);
            }
        }
        if apply_changes {
            self.cells = rest;
        } else {
            let mut all: Vec<LiveCell> = found.iter().map(clone_cell).collect();
            all.extend(rest);
            self.cells = all;
        }
        Ok((found, total))
    }

    fn lock_cell(&mut self, _out_point: OutPoint) -> Result<(), CellCollectorError> {
        Ok(())
    }

    fn apply_tx(&mut self, _tx: Transaction) -> Result<(), CellCollectorError> {
        Ok(())
    }

    fn reset(&mut self) {}
}

fn clone_cell(c: &LiveCell) -> LiveCell {
    c.clone()
}

struct TestResolver {
    entries: Vec<(ScriptId, CellDep)>,
}

impl CellDepResolver for TestResolver {
    fn resolve(&self, script_id: &ScriptId) -> Option<CellDep> {
        for (id, dep) in &self.entries {
            if script_id_eq(id, script_id) {
                return Some(dep.clone());
            }
        }
        None
    }
}

struct TestDeps;

impl TransactionDependencyProvider for TestDeps {
    fn get_consensus(
        &self,
    ) -> Result<ckb_chain_spec::consensus::Consensus, TransactionDependencyError> {
        Err(TransactionDependencyError::Other("none".to_owned()))
    }

    fn get_transaction(&self, _h: &Vec<u8>) -> Result<Transaction, TransactionDependencyError> {
        Err(TransactionDependencyError::Other("none".to_owned()))
    }

    fn get_cell(&self, _op: &OutPoint) -> Result<CellOutput, TransactionDependencyError> {
        Err(TransactionDependencyError::NotFound("cell".to_owned()))
    }

    fn get_cell_data(&self, _op: &OutPoint) -> Result<Vec<u8>, TransactionDependencyError> {
        Err(TransactionDependencyError::NotFound("data".to_owned()))
    }

    fn get_header(
        &self,
        _h: &Vec<u8>,
    ) -> Result<ckb_types::core::HeaderView, TransactionDependencyError> {
        Err(TransactionDependencyError::Other("none".to_owned()))
    }
}

const CKB: u64 = 100_000_000;

fn sender_cells(sender: &Script) -> Vec<LiveCell> {
    [100u64, 200, 300]
        .iter()
        .enumerate()
        .map(|(i, ckb)| LiveCell {
            out_point: out_point(1, i as u32),
            output: CellOutput {
                capacity: ckb * CKB,
                lock: sender.clone(),
                type_script: None,
            },
            output_data: vec![],
            block_number: 0,
            tx_index: 0,
        })
        .collect()
}

fn draft_with_output(receiver: &Script, capacity: u64) -> Transaction {
    Transaction {
        cell_deps: vec![],
        header_deps: vec![],
        inputs: vec![],
        outputs: vec![CellOutput { capacity, lock: receiver.clone(), type_script: None }],
        outputs_data: vec![vec![]],
        witnesses: vec![],
    }
}

fn balancer(sender: &Script, force_small_change_as_fee: Option<u64>) -> CapacityBalancer {
    CapacityBalancer {
        fee_rate: 1000,
        capacity_providers: vec![CapacityProvider {
            lock_script: sender.clone(),
            placeholder_witness: vec![0; 85],
        }],
        change_lock: None,
        force_small_change_as_fee,
    }
}

#[test]
fn placeholders_fill_empty_witnesses_of_known_locks() {
    let sender = script(1, vec![1; 20]);
    let stranger = script(3, vec![3; 20]);
    let cells = vec![
        LiveCell {
            out_point: out_point(1, 0),
            output: CellOutput { capacity: 100 * CKB, lock: sender.clone(), type_script: None },
            output_data: vec![],
            block_number: 0,
            tx_index: 0,
        },
        LiveCell {
            out_point: out_point(1, 1),
            output: CellOutput { capacity: 100 * CKB, lock: stranger, type_script: None },
            output_data: vec![],
            block_number: 0,
            tx_index: 0,
        },
        LiveCell {
            out_point: out_point(1, 2),
            output: CellOutput { capacity: 100 * CKB, lock: sender.clone(), type_script: None },
            output_data: vec![],
            block_number: 0,
            tx_index: 0,
        },
    ];
    let tx = Transaction {
        cell_deps: vec![],
        header_deps: vec![],
        inputs: vec![
            CellInput { previous_output: out_point(1, 0), since: 0 },
            CellInput { previous_output: out_point(1, 1), since: 0 },
            CellInput { previous_output: out_point(1, 2), since: 0 },
        ],
        outputs: vec![],
        outputs_data: vec![],
        // The third input already carries a witness of its own.
        witnesses: vec![vec![], vec![], vec![0xAA, 0xBB]],
    };
    let providers = vec![CapacityProvider {
        lock_script: sender,
        placeholder_witness: vec![0; 85],
    }];
    let filled = fill_placeholder_witnesses(&tx, &providers, &BalancedDeps { cells })
        .unwrap_or_else(|_| panic!("fill failed"));
    assert_eq!(filled.witnesses.len(), 3);
    // The provider's input gets its placeholder; the stranger's stays
    // empty; the present witness is kept.
    assert_eq!(filled.witnesses[0].len(), 85);
    assert_eq!(filled.witnesses[1].len(), 0);
    assert!(bytes_eq(&filled.witnesses[2], &vec![0xAA, 0xBB]));
}

#[test]
fn balance_picks_two_cells_and_returns_change() {
    // Three sender cells of 100, 200 and 300 CKB fund a single 120 CKB
    // output: two inputs cover it, the change goes back to the sender.
    let sender = script(1, vec![1; 20]);
    let receiver = script(2, vec![2; 20]);
    let mut collector = ReservingCollector { cells: sender_cells(&sender) };
    let resolver = TestResolver {
        entries: vec![(
            ScriptId::from_script(&sender),
            CellDep { out_point: out_point(9, 0), dep_type: DepType::DepGroup },
        )],
    };
    let draft = draft_with_output(&receiver, 120 * CKB);
    let tx = balancer(&sender, None)
        .balance_tx_capacity(&draft, &mut collector, &resolver, &TestDeps)
        .unwrap_or_else(|_| panic!("balance failed"));
    assert_eq!(tx.inputs.len(), 2);
    assert_eq!(tx.outputs.len(), 2);
    assert!(script_eq(&tx.outputs[1].lock, &sender));
    assert_eq!(tx.cell_deps.len(), 1);
    // One placeholder witness per input, sized as configured.
    assert_eq!(tx.witnesses.len(), 2);
    assert_eq!(tx.witnesses[0].len(), 85);
    assert_eq!(tx.witnesses[1].len(), 85);
    // Conservation: 300 CKB went in; output, change and fee account for
    // all of it, and the fee covers the serialized size at 1000/KB.
    let total_in = 300 * CKB;
    let fee = total_in - tx.outputs[0].capacity - tx.outputs[1].capacity;
    let size = tx_serialized_size_exec(&tx).unwrap();
    assert!(fee >= (size * 1000).div_ceil(1000));
    assert!(fee < 10_000);
}

struct NoKeySigner;

impl ScriptSigner for NoKeySigner {
    fn match_args(&self, _args: &Vec<u8>) -> bool {
        false
    }

    fn sign_tx(
        &self,
        _tx: &Transaction,
        _script_group: &ckb_tx_core::types::ScriptGroup,
    ) -> Result<Transaction, ScriptSignError> {
        Err(ScriptSignError::MissingKey)
    }
}

#[test]
fn pipeline_builds_balances_and_reports_locked_groups() {
    // The whole pipeline on a plain transfer: three sender cells fund a
    // 120 CKB payment; two are chosen, the change goes back, and with no
    // unlocker taking the sender's lock its group comes back still
    // locked.
    let sender = script(1, vec![1; 20]);
    let receiver = script(2, vec![2; 20]);
    let mut collector = ReservingCollector { cells: sender_cells(&sender) };
    let resolver = TestResolver {
        entries: vec![(
            ScriptId::from_script(&sender),
            CellDep { out_point: out_point(9, 0), dep_type: DepType::DepGroup },
        )],
    };
    let builder = CapacityTransferBuilder::new(vec![(
        CellOutput { capacity: 120 * CKB, lock: receiver.clone(), type_script: None },
        vec![],
    )]);
    let provider = BalancedDeps { cells: sender_cells(&sender) };
    let manager: ScriptUnlockerManager<Secp256k1SighashUnlocker<NoKeySigner>> =
        ScriptUnlockerManager::new();
    let (tx, still_locked) = build_balanced(
        &builder,
        &balancer(&sender, None),
        &manager,
        &mut collector,
        &resolver,
        &TestHeaders,
        &provider,
    )
    .unwrap_or_else(|_| panic!("pipeline failed"));
    assert_eq!(tx.inputs.len(), 2);
    assert_eq!(tx.outputs.len(), 2);
    assert_eq!(tx.outputs[0].capacity, 120 * CKB);
    assert!(script_eq(&tx.outputs[1].lock, &sender));
    assert_eq!(still_locked.len(), 1);
    assert!(script_eq(&still_locked[0].script, &sender));
}

struct TestHeaders;

impl ckb_tx_core::traits::HeaderDepResolver for TestHeaders {
    fn resolve_by_tx(
        &self,
        _tx_hash: &Vec<u8>,
    ) -> Result<Option<ckb_types::core::HeaderView>, String> {
        Err("no headers".to_owned())
    }

    fn resolve_by_number(
        &self,
        _number: u64,
    ) -> Result<Option<ckb_types::core::HeaderView>, String> {
        Err("no headers".to_owned())
    }
}

/// Serves the cells the balancer chose, so the unlock stage can group the
/// inputs by their locks.
struct BalancedDeps {
    cells: Vec<LiveCell>,
}

impl TransactionDependencyProvider for BalancedDeps {
    fn get_consensus(
        &self,
    ) -> Result<ckb_chain_spec::consensus::Consensus, TransactionDependencyError> {
        Err(TransactionDependencyError::Other("none".to_owned()))
    }

    fn get_transaction(&self, _h: &Vec<u8>) -> Result<Transaction, TransactionDependencyError> {
        Err(TransactionDependencyError::Other("none".to_owned()))
    }

    fn get_cell(&self, op: &OutPoint) -> Result<CellOutput, TransactionDependencyError> {
        for cell in &self.cells {
            if ckb_tx_core::types::out_point_eq(&cell.out_point, op) {
                return Ok(cell.output.clone());
            }
        }
        Err(TransactionDependencyError::NotFound("cell".to_owned()))
    }

    fn get_cell_data(&self, op: &OutPoint) -> Result<Vec<u8>, TransactionDependencyError> {
        for cell in &self.cells {
            if ckb_tx_core::types::out_point_eq(&cell.out_point, op) {
                return Ok(cell.output_data.clone());
            }
        }
        Err(TransactionDependencyError::NotFound("data".to_owned()))
    }

    fn get_header(
        &self,
        _h: &Vec<u8>,
    ) -> Result<ckb_types::core::HeaderView, TransactionDependencyError> {
        Err(TransactionDependencyError::Other("none".to_owned()))
    }
}

#[test]
fn balance_fails_when_cells_run_out() {
    let sender = script(1, vec![1; 20]);
    let receiver = script(2, vec![2; 20]);
    let mut collector = ReservingCollector {
        cells: sender_cells(&sender).drain(..1).collect(),
    };
    let resolver = TestResolver {
        entries: vec![(
            ScriptId::from_script(&sender),
            CellDep { out_point: out_point(9, 0), dep_type: DepType::DepGroup },
        )],
    };
    let draft = draft_with_output(&receiver, 120 * CKB);
    let r = balancer(&sender, None).balance_tx_capacity(
        &draft,
        &mut collector,
        &resolver,
        &TestDeps,
    );
    assert!(matches!(r, Err(TxBuilderError::CapacityNotEnough)));
}

#[test]
fn balance_absorbs_dust_change_as_fee() {
    // A single 121 CKB cell against a 120 CKB output leaves less than a
    // change cell needs; with absorption allowed the leftover is fee.
    let sender = script(1, vec![1; 20]);
    let receiver = script(2, vec![2; 20]);
    let mut collector = ReservingCollector {
        cells: vec![LiveCell {
            out_point: out_point(1, 0),
            output: CellOutput { capacity: 121 * CKB, lock: sender.clone(), type_script: None },
            output_data: vec![],
            block_number: 0,
            tx_index: 0,
        }],
    };
    let resolver = TestResolver {
        entries: vec![(
            ScriptId::from_script(&sender),
            CellDep { out_point: out_point(9, 0), dep_type: DepType::DepGroup },
        )],
    };
    let draft = draft_with_output(&receiver, 120 * CKB);
    let tx = balancer(&sender, Some(10 * CKB))
        .balance_tx_capacity(&draft, &mut collector, &resolver, &TestDeps)
        .unwrap_or_else(|_| panic!("balance failed"));
    assert_eq!(tx.inputs.len(), 1);
    // No change output: the single CKB of leftover is all fee.
    assert_eq!(tx.outputs.len(), 1);
    assert_eq!(tx.outputs[0].capacity, 120 * CKB);
}

#[test]
fn balance_without_absorption_keeps_collecting() {
    // The same dust situation without absorption pulls in another cell so
    // the change can hold its own cell.
    let sender = script(1, vec![1; 20]);
    let receiver = script(2, vec![2; 20]);
    let mut cells = vec![LiveCell {
        out_point: out_point(1, 0),
        output: CellOutput { capacity: 121 * CKB, lock: sender.clone(), type_script: None },
        output_data: vec![],
        block_number: 0,
        tx_index: 0,
    }];
    cells.extend(sender_cells(&sender));
    let mut collector = ReservingCollector { cells };
    let resolver = TestResolver {
        entries: vec![(
            ScriptId::from_script(&sender),
            CellDep { out_point: out_point(9, 0), dep_type: DepType::DepGroup },
        )],
    };
    let draft = draft_with_output(&receiver, 120 * CKB);
    let tx = balancer(&sender, None)
        .balance_tx_capacity(&draft, &mut collector, &resolver, &TestDeps)
        .unwrap_or_else(|_| panic!("balance failed"));
    assert!(tx.inputs.len() >= 2);
    assert_eq!(tx.outputs.len(), 2);
    assert!(script_eq(&tx.outputs[1].lock, &sender));
}
