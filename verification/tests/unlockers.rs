//! The unlockers: the anyone-can-pay pairing rule, the cheque claim and
//! withdraw paths, the registry, and unlocking a whole transaction.

use ckb_tx_core::traits::{TransactionDependencyError, TransactionDependencyProvider};
use ckb_tx_core::types::{
    out_point_eq, tx_eq, CellInput, CellOutput, HashType, OutPoint, Script, ScriptGroup,
    ScriptGroupType, ScriptId, Transaction,
};
use ckb_tx_core::unlock::rules::{CHEQUE_CLAIM_SINCE, CHEQUE_WITHDRAW_SINCE};
use ckb_tx_core::unlock::unlocker::{
    unlock_tx, AnyoneCanPayUnlocker, ChequeUnlocker, ScriptSignError, ScriptSigner,
    ScriptUnlocker, ScriptUnlockerManager, Secp256k1SighashUnlocker, UnlockError,
};
use ckb_types::prelude::Builder;
use ckb_types::prelude::Entity;
use ckb_types::prelude::Pack;

struct TestSigner {
    arg_lens: Vec<usize>,
}

impl ScriptSigner for TestSigner {
    fn match_args(&self, args: &Vec<u8>) -> bool {
        self.arg_lens.contains(&args.len())
    }

    fn sign_tx(
        &self,
        _tx: &Transaction,
        _script_group: &ScriptGroup,
    ) -> Result<Transaction, ScriptSignError> {
        Err(ScriptSignError::MissingKey)
    }
}

struct TestDeps {
    cells: Vec<(OutPoint, CellOutput, Vec<u8>)>,
}

impl TransactionDependencyProvider for TestDeps {
    fn get_consensus(
        &self,
    ) -> Result<ckb_chain_spec::consensus::Consensus, TransactionDependencyError> {
        Err(TransactionDependencyError::Other("none".to_owned()))
    }

    fn get_transaction(&self, _h: &Vec<u8>) -> Result<Transaction, TransactionDependencyError> {
        Err(TransactionDependencyError::Other("none".to_owned()))
    }

    fn get_cell(&self, op: &OutPoint) -> Result<CellOutput, TransactionDependencyError> {
        for (p, out, _) in &self.cells {
            if out_point_eq(p, op) {
                return Ok(out.clone());
            }
        }
        Err(TransactionDependencyError::NotFound("cell".to_owned()))
    }

    fn get_cell_data(&self, op: &OutPoint) -> Result<Vec<u8>, TransactionDependencyError> {
        for (p, _, data) in &self.cells {
            if out_point_eq(p, op) {
                return Ok(data.clone());
            }
        }
        Err(TransactionDependencyError::NotFound("data".to_owned()))
    }

    fn get_header(
        &self,
        _h: &Vec<u8>,
    ) -> Result<ckb_types::core::HeaderView, TransactionDependencyError> {
        Err(TransactionDependencyError::Other("none".to_owned()))
    }
}

fn script(code_byte: u8, args: Vec<u8>) -> Script {
    Script { code_hash: vec![code_byte; 32], hash_type: HashType::Type, args }
}

fn out_point(tx_byte: u8, index: u32) -> OutPoint {
    OutPoint { tx_hash: vec![tx_byte; 32], index }
}

fn ckb_script_hash(s: &Script) -> Vec<u8> {
    let ht: u8 = match s.hash_type {
        HashType::Data => 0,
        HashType::Type => 1,
        HashType::Data1 => 2,
    };
    ckb_types::packed::Script::new_builder()
        .code_hash(ckb_types::packed::Byte32::from_slice(s.code_hash.as_slice()).unwrap())
        .hash_type(ht)
        .args(s.args.as_slice().pack())
        .build()
        .calc_script_hash()
        .as_slice()
        .to_vec()
}

fn witness_with_lock(lock: Vec<u8>) -> Vec<u8> {
    ckb_types::packed::WitnessArgs::new_builder()
        .lock(Some(ckb_types::bytes::Bytes::from(lock)).pack())
        .build()
        .as_bytes()
        .to_vec()
}

fn witness_without_lock() -> Vec<u8> {
    ckb_types::packed::WitnessArgs::new_builder().build().as_bytes().to_vec()
}

fn lock_group(script: Script, input_indices: Vec<usize>, output_indices: Vec<usize>) -> ScriptGroup {
    ScriptGroup { script, group_type: ScriptGroupType::Lock, input_indices, output_indices }
}

#[test]
fn unlockers_classify_args_by_length() {
    // Each unlocker only takes the args lengths of its script, whatever
    // the signer would accept.
    let take_all = || TestSigner { arg_lens: vec![19, 20, 21, 22, 28, 40] };
    let sighash = Secp256k1SighashUnlocker::new(take_all());
    assert!(sighash.match_args(&vec![0; 20]));
    assert!(!sighash.match_args(&vec![0; 19]));
    assert!(!sighash.match_args(&vec![0; 40]));
    let acp = AnyoneCanPayUnlocker::new(take_all());
    assert!(acp.match_args(&vec![0; 20]));
    assert!(acp.match_args(&vec![0; 21]));
    assert!(acp.match_args(&vec![0; 22]));
    assert!(!acp.match_args(&vec![0; 19]));
    assert!(!acp.match_args(&vec![0; 28]));
    let cheque = ChequeUnlocker::new(take_all());
    assert!(cheque.match_args(&vec![0; 40]));
    assert!(!cheque.match_args(&vec![0; 20]));
}

// ---------------------------------------------------------------------
// Anyone-can-pay
// ---------------------------------------------------------------------

fn acp_fixture(output_capacity: u64) -> (Script, Transaction, ScriptGroup, TestDeps) {
    let mut args = vec![5; 20];
    args.push(0);
    args.push(0);
    let acp_lock = script(40, args);
    let op = out_point(1, 0);
    let input_cell = CellOutput { capacity: 100, lock: acp_lock.clone(), type_script: None };
    let tx = Transaction {
        cell_deps: vec![],
        header_deps: vec![],
        inputs: vec![CellInput { previous_output: op.clone(), since: 0 }],
        outputs: vec![CellOutput {
            capacity: output_capacity,
            lock: acp_lock.clone(),
            type_script: None,
        }],
        outputs_data: vec![vec![]],
        witnesses: vec![],
    };
    let group = lock_group(acp_lock.clone(), vec![0], vec![0]);
    let deps = TestDeps { cells: vec![(op, input_cell, vec![])] };
    (acp_lock, tx, group, deps)
}

#[test]
fn acp_self_transfer_needs_no_signing() {
    // The output grows the locked capacity by the minimum, so the group
    // is already unlocked and unlocking changes nothing.
    let (_lock, tx, group, deps) = acp_fixture(101);
    let unlocker = AnyoneCanPayUnlocker::new(TestSigner { arg_lens: vec![20, 21, 22] });
    assert!(matches!(unlocker.is_unlocked(&tx, &group, &deps), Ok(true)));
    let unlocked = unlocker.unlock(&tx, &group, &deps).unwrap_or_else(|_| panic!("unlock"));
    assert!(tx_eq(&tx, &unlocked));
}

#[test]
fn acp_transfer_below_minimum_is_locked() {
    let (_lock, tx, group, deps) = acp_fixture(100);
    let unlocker = AnyoneCanPayUnlocker::new(TestSigner { arg_lens: vec![20, 21, 22] });
    assert!(matches!(unlocker.is_unlocked(&tx, &group, &deps), Ok(false)));
    // Unlocking then needs the signer, which holds no key here.
    let r = unlocker.unlock(&tx, &group, &deps);
    assert!(matches!(r, Err(UnlockError::ScriptSigner(_))));
}

#[test]
fn acp_withdrawing_capacity_is_locked() {
    let (_lock, tx, group, deps) = acp_fixture(99);
    let unlocker = AnyoneCanPayUnlocker::new(TestSigner { arg_lens: vec![20, 21, 22] });
    assert!(matches!(unlocker.is_unlocked(&tx, &group, &deps), Ok(false)));
}

#[test]
fn acp_minimum_is_ten_to_the_exponent() {
    // Exponent 2 demands growth of at least 100 shannons.
    let (_lock, mut tx, mut group, deps) = acp_fixture(199);
    tx.outputs[0].lock.args[20] = 2;
    group.script.args[20] = 2;
    let unlocker = AnyoneCanPayUnlocker::new(TestSigner { arg_lens: vec![20, 21, 22] });
    assert!(matches!(unlocker.is_unlocked(&tx, &group, &deps), Ok(false)));
    tx.outputs[0].capacity = 200;
    assert!(matches!(unlocker.is_unlocked(&tx, &group, &deps), Ok(true)));
}

#[test]
fn acp_rejects_bad_minimum_exponent() {
    let (_lock, tx, mut group, deps) = acp_fixture(101);
    group.script.args[20] = 20;
    let unlocker = AnyoneCanPayUnlocker::new(TestSigner { arg_lens: vec![20, 21, 22] });
    assert!(matches!(unlocker.is_unlocked(&tx, &group, &deps), Err(UnlockError::InvalidArgs(_))));
}

#[test]
fn acp_unpaired_output_is_locked() {
    // A second output with the group's lock has no second input to pair
    // with.
    let (lock, mut tx, mut group, deps) = acp_fixture(101);
    tx.outputs.push(CellOutput { capacity: 10, lock, type_script: None });
    tx.outputs_data.push(vec![]);
    group.output_indices.push(1);
    let unlocker = AnyoneCanPayUnlocker::new(TestSigner { arg_lens: vec![20, 21, 22] });
    assert!(matches!(unlocker.is_unlocked(&tx, &group, &deps), Ok(false)));
}

/// Two UDT wallets with distinct type scripts, each output growing its
/// input's UDT amount.
fn acp_udt_fixture() -> (Transaction, ScriptGroup, TestDeps) {
    let mut args = vec![5; 20];
    args.push(0);
    args.push(0);
    let acp_lock = script(40, args);
    let type_a = script(41, vec![1]);
    let type_b = script(42, vec![2]);
    let op_a = out_point(1, 0);
    let op_b = out_point(1, 1);
    let amount = |v: u128| v.to_le_bytes().to_vec();
    let tx = Transaction {
        cell_deps: vec![],
        header_deps: vec![],
        inputs: vec![
            CellInput { previous_output: op_a.clone(), since: 0 },
            CellInput { previous_output: op_b.clone(), since: 0 },
        ],
        outputs: vec![
            CellOutput { capacity: 100, lock: acp_lock.clone(), type_script: Some(type_b.clone()) },
            CellOutput { capacity: 100, lock: acp_lock.clone(), type_script: Some(type_a.clone()) },
        ],
        // The outputs come in the opposite order of the inputs: pairing
        // goes by type hash, not by position.
        outputs_data: vec![amount(51), amount(31)],
        witnesses: vec![],
    };
    let group = lock_group(acp_lock.clone(), vec![0, 1], vec![0, 1]);
    let deps = TestDeps {
        cells: vec![
            (
                op_a,
                CellOutput { capacity: 100, lock: acp_lock.clone(), type_script: Some(type_a) },
                amount(30),
            ),
            (
                op_b,
                CellOutput { capacity: 100, lock: acp_lock, type_script: Some(type_b) },
                amount(50),
            ),
        ],
    };
    (tx, group, deps)
}

#[test]
fn acp_pairs_udt_wallets_by_type_hash() {
    let (tx, group, deps) = acp_udt_fixture();
    let unlocker = AnyoneCanPayUnlocker::new(TestSigner { arg_lens: vec![20, 21, 22] });
    assert!(matches!(unlocker.is_unlocked(&tx, &group, &deps), Ok(true)));
}

#[test]
fn acp_rejects_udt_shrinking() {
    let (mut tx, group, deps) = acp_udt_fixture();
    // The first output now pays out UDT without meeting the minimum.
    tx.outputs_data[0] = 49u128.to_le_bytes().to_vec();
    let unlocker = AnyoneCanPayUnlocker::new(TestSigner { arg_lens: vec![20, 21, 22] });
    assert!(matches!(unlocker.is_unlocked(&tx, &group, &deps), Ok(false)));
}

#[test]
fn acp_rejects_duplicate_type_hash_inputs() {
    let (mut tx, mut group, mut deps) = acp_udt_fixture();
    // A third input repeats the first one's type script.
    let op_c = out_point(1, 2);
    let dup = deps.cells[0].1.clone();
    deps.cells.push((op_c.clone(), dup, 30u128.to_le_bytes().to_vec()));
    tx.inputs.push(CellInput { previous_output: op_c, since: 0 });
    group.input_indices.push(2);
    let unlocker = AnyoneCanPayUnlocker::new(TestSigner { arg_lens: vec![20, 21, 22] });
    assert!(matches!(unlocker.is_unlocked(&tx, &group, &deps), Ok(false)));
}

#[test]
fn acp_rejects_short_udt_data() {
    // A typed input cell with fewer than 16 bytes of data is malformed.
    let (tx, group, mut deps) = acp_udt_fixture();
    deps.cells[0].2 = vec![1, 2, 3];
    let unlocker = AnyoneCanPayUnlocker::new(TestSigner { arg_lens: vec![20, 21, 22] });
    assert!(matches!(unlocker.is_unlocked(&tx, &group, &deps), Err(UnlockError::Other(_))));
}

// ---------------------------------------------------------------------
// Cheque
// ---------------------------------------------------------------------

struct ChequeFixture {
    cheque_script: Script,
    tx: Transaction,
    group: ScriptGroup,
    deps: TestDeps,
}

/// A cheque cell consumed at input 0 and one more input at 1, whose lock
/// decides the path: the sender's lock here.
fn cheque_fixture(cheque_since: u64, second_witness: Vec<u8>, second_is_receiver: bool) -> ChequeFixture {
    let receiver_lock = script(50, vec![1; 20]);
    let sender_lock = script(51, vec![2; 20]);
    let mut args = ckb_script_hash(&receiver_lock)[0..20].to_vec();
    args.extend(ckb_script_hash(&sender_lock)[0..20].to_vec());
    let cheque_script = script(52, args);
    let cheque_op = out_point(1, 0);
    let other_op = out_point(2, 0);
    let other_lock = if second_is_receiver { receiver_lock } else { sender_lock };
    let tx = Transaction {
        cell_deps: vec![],
        header_deps: vec![],
        inputs: vec![
            CellInput { previous_output: cheque_op.clone(), since: cheque_since },
            CellInput { previous_output: other_op.clone(), since: 0 },
        ],
        outputs: vec![],
        outputs_data: vec![],
        witnesses: vec![vec![], second_witness],
    };
    let group = lock_group(cheque_script.clone(), vec![0], vec![]);
    let deps = TestDeps {
        cells: vec![
            (
                cheque_op,
                CellOutput { capacity: 162, lock: cheque_script.clone(), type_script: None },
                vec![],
            ),
            (other_op, CellOutput { capacity: 100, lock: other_lock, type_script: None }, vec![]),
        ],
    };
    ChequeFixture { cheque_script, tx, group, deps }
}

#[test]
fn cheque_withdraw_via_sender_input() {
    let f = cheque_fixture(CHEQUE_WITHDRAW_SINCE, witness_with_lock(vec![0; 65]), false);
    let unlocker = ChequeUnlocker::new(TestSigner { arg_lens: vec![40] });
    assert!(matches!(unlocker.is_unlocked(&f.tx, &f.group, &f.deps), Ok(true)));
    let unlocked = unlocker.unlock(&f.tx, &f.group, &f.deps).unwrap_or_else(|_| panic!("unlock"));
    assert!(tx_eq(&f.tx, &unlocked));
}

#[test]
fn cheque_withdraw_with_wrong_since_fails() {
    let f = cheque_fixture(CHEQUE_CLAIM_SINCE, witness_with_lock(vec![0; 65]), false);
    let unlocker = ChequeUnlocker::new(TestSigner { arg_lens: vec![40] });
    assert!(matches!(unlocker.is_unlocked(&f.tx, &f.group, &f.deps), Err(UnlockError::Other(_))));
}

#[test]
fn cheque_claim_via_receiver_input() {
    let f = cheque_fixture(CHEQUE_CLAIM_SINCE, witness_with_lock(vec![0; 65]), true);
    let unlocker = ChequeUnlocker::new(TestSigner { arg_lens: vec![40] });
    assert!(matches!(unlocker.is_unlocked(&f.tx, &f.group, &f.deps), Ok(true)));
}

#[test]
fn cheque_claim_with_nonzero_since_fails() {
    let f = cheque_fixture(7, witness_with_lock(vec![0; 65]), true);
    let unlocker = ChequeUnlocker::new(TestSigner { arg_lens: vec![40] });
    assert!(matches!(unlocker.is_unlocked(&f.tx, &f.group, &f.deps), Err(UnlockError::Other(_))));
}

#[test]
fn cheque_with_malformed_witness_fails() {
    let f = cheque_fixture(CHEQUE_WITHDRAW_SINCE, vec![1, 2, 3], false);
    let unlocker = ChequeUnlocker::new(TestSigner { arg_lens: vec![40] });
    assert!(matches!(unlocker.is_unlocked(&f.tx, &f.group, &f.deps), Err(UnlockError::Other(_))));
}

#[test]
fn cheque_witness_needs_lock_field() {
    let f = cheque_fixture(CHEQUE_WITHDRAW_SINCE, witness_without_lock(), false);
    let unlocker = ChequeUnlocker::new(TestSigner { arg_lens: vec![40] });
    assert!(matches!(unlocker.is_unlocked(&f.tx, &f.group, &f.deps), Err(UnlockError::Other(_))));
}

#[test]
fn cheque_without_either_party_is_locked() {
    // The second input is the sender's, but the args point at two other
    // parties entirely.
    let mut f = cheque_fixture(CHEQUE_WITHDRAW_SINCE, witness_with_lock(vec![0; 65]), false);
    f.group.script.args = vec![9; 40];
    assert!(f.tx.inputs.len() == 2);
    let unlocker = ChequeUnlocker::new(TestSigner { arg_lens: vec![40] });
    assert!(matches!(unlocker.is_unlocked(&f.tx, &f.group, &f.deps), Ok(false)));
}

#[test]
fn cheque_args_must_be_forty_bytes() {
    let mut f = cheque_fixture(CHEQUE_WITHDRAW_SINCE, witness_with_lock(vec![0; 65]), false);
    f.group.script.args = vec![9; 39];
    let unlocker = ChequeUnlocker::new(TestSigner { arg_lens: vec![40] });
    assert!(matches!(
        unlocker.is_unlocked(&f.tx, &f.group, &f.deps),
        Err(UnlockError::InvalidArgs(_))
    ));
}

// ---------------------------------------------------------------------
// Registry and orchestration
// ---------------------------------------------------------------------

#[test]
fn manager_registers_and_finds_unlockers() {
    let mut manager: ScriptUnlockerManager<Secp256k1SighashUnlocker<TestSigner>> =
        ScriptUnlockerManager::new();
    let id_a = ScriptId { code_hash: vec![1; 32], hash_type: HashType::Type };
    let id_b = ScriptId { code_hash: vec![2; 32], hash_type: HashType::Type };
    assert!(manager.get(&id_a).is_none());
    manager.register(id_a.clone(), Secp256k1SighashUnlocker::new(TestSigner {
        arg_lens: vec![20],
    }));
    assert!(manager.get(&id_a).is_some());
    assert!(manager.get(&id_b).is_none());
    // Registering the same identity again replaces, it does not duplicate.
    manager.register(id_a.clone(), Secp256k1SighashUnlocker::new(TestSigner {
        arg_lens: vec![20],
    }));
    assert!(manager.get(&id_a).is_some());
}

#[test]
fn unlock_tx_is_idempotent_on_unlocked_transaction() {
    // A withdrawn cheque needs no signature; the sender's own group has
    // no registered unlocker and is reported still locked.  Unlocking a
    // second time changes nothing.
    let f = cheque_fixture(CHEQUE_WITHDRAW_SINCE, witness_with_lock(vec![0; 65]), false);
    let mut manager: ScriptUnlockerManager<ChequeUnlocker<TestSigner>> =
        ScriptUnlockerManager::new();
    manager.register(
        ScriptId::from_script(&f.cheque_script),
        ChequeUnlocker::new(TestSigner { arg_lens: vec![40] }),
    );
    let (tx1, locked1) =
        unlock_tx(&f.tx, &f.deps, &manager).unwrap_or_else(|_| panic!("first unlock"));
    assert!(tx_eq(&tx1, &f.tx));
    assert_eq!(locked1.len(), 1);
    let (tx2, locked2) =
        unlock_tx(&tx1, &f.deps, &manager).unwrap_or_else(|_| panic!("second unlock"));
    assert!(tx_eq(&tx2, &tx1));
    assert_eq!(locked2.len(), 1);
}

#[test]
fn unlock_tx_reports_unmatched_groups() {
    let f = cheque_fixture(CHEQUE_WITHDRAW_SINCE, witness_with_lock(vec![0; 65]), false);
    let manager: ScriptUnlockerManager<ChequeUnlocker<TestSigner>> = ScriptUnlockerManager::new();
    let (tx1, locked) = unlock_tx(&f.tx, &f.deps, &manager).unwrap_or_else(|_| panic!("unlock"));
    assert!(tx_eq(&tx1, &f.tx));
    // Both lock groups, the cheque's and the sender's, stay locked.
    assert_eq!(locked.len(), 2);
}
