//! Transfer capacity onto existing anyone-can-pay cells: each receiver's
//! live cell is consumed and re-created with its capacity increased by
//! the requested amount; type script and data are kept.

use vstd::prelude::*;

use crate::traits::CellCollector;
use crate::traits::CellDepResolver;
use crate::traits::HeaderDepResolver;
use crate::traits::TransactionDependencyProvider;
use crate::tx_builder::TxBuilderError;
use crate::tx_builder::cell_deps_distinct;
use crate::tx_builder::lemma_dedup_keeps_distinct;
use crate::tx_builder::dep_resolved;
use crate::types::deps_view;
use crate::tx_builder::push_cell_dep_dedup;
use crate::types::CellDep;
use crate::types::CellInput;
use crate::types::CellInputV;
use crate::types::CellOutput;
use crate::types::CellOutputV;
use crate::types::CellQueryOptions;
use crate::types::LiveCellV;
use crate::types::Script;
use crate::types::ScriptV;
use crate::types::Transaction;
use crate::types::copy_bytes;
use crate::types::script_id_of;

verus! {

/// One anyone-can-pay receiver: the lock of its existing cell and the
/// capacity to add to it.
pub struct AcpTransferReceiver {
    pub lock_script: Script,
    pub capacity: u64,
}

/// Mathematical view of an [`AcpTransferReceiver`].
pub struct AcpTransferReceiverV {
    pub lock_script: ScriptV,
    pub capacity: u64,
}

impl View for AcpTransferReceiver {
    type V = AcpTransferReceiverV;

    open spec fn view(&self) -> AcpTransferReceiverV {
        AcpTransferReceiverV { lock_script: self.lock_script@, capacity: self.capacity }
    }
}

impl AcpTransferReceiver {
    pub fn new(lock_script: Script, capacity: u64) -> (r: AcpTransferReceiver)
        ensures
            r@ == (AcpTransferReceiverV { lock_script: lock_script@, capacity }),
    {
        AcpTransferReceiver { lock_script, capacity }
    }
}

/// How one receiver's slice of the built transaction relates to the live
/// cell the collector chose for it: the cell is consumed and re-created
/// with its capacity grown by the receiver's amount.
pub open spec fn acp_receiver_built(
    recv: AcpTransferReceiverV,
    chosen: LiveCellV,
    input: CellInputV,
    output: CellOutputV,
    output_data: Seq<u8>,
) -> bool {
    &&& chosen.output.lock == recv.lock_script
    &&& input == (CellInputV { previous_output: chosen.out_point, since: 0 })
    &&& output.lock == chosen.output.lock
    &&& output.type_script == chosen.output.type_script
    &&& output.capacity as int == chosen.output.capacity + recv.capacity
    &&& output_data == chosen.output_data
}

/// Some collector choice explains this receiver's slice of the built
/// transaction.
pub open spec fn acp_receiver_built_some(
    recv: AcpTransferReceiverV,
    input: CellInputV,
    output: CellOutputV,
    output_data: Seq<u8>,
) -> bool {
    exists|chosen: LiveCellV| acp_receiver_built(recv, chosen, input, output, output_data)
}

/// The views of a list of receivers.
pub open spec fn acp_receivers_view(rs: Seq<AcpTransferReceiver>) -> Seq<AcpTransferReceiverV> {
    rs.map_values(|x: AcpTransferReceiver| x@)
}

/// Transfer capacity to already existing anyone-can-pay cells; the type
/// script and cell data of each receiver cell are kept.
pub struct AcpTransferBuilder {
    pub receivers: Vec<AcpTransferReceiver>,
}

impl AcpTransferBuilder {
    pub fn new(receivers: Vec<AcpTransferReceiver>) -> (r: AcpTransferBuilder)
        ensures
            r.receivers == receivers,
    {
        AcpTransferBuilder { receivers }
    }
}

impl crate::tx_builder::TxBuilder for AcpTransferBuilder {
    /// Builds the base transaction: one input and one output per
    /// receiver, the output holding the chosen cell's content with its
    /// capacity increased by the receiver's amount, and the cell-deps of
    /// every lock and type script resolved.
    #[verifier::loop_isolation(false)]
    fn build_base<C: CellCollector, D: CellDepResolver, H: HeaderDepResolver, P: TransactionDependencyProvider>(
        &self,
        cell_collector: &mut C,
        cell_dep_resolver: &D,
        _header_dep_resolver: &H,
        _tx_dep_provider: &P,
    ) -> (r: Result<Transaction, TxBuilderError>)
        ensures
            r is Ok ==> ({
                let tx = r->Ok_0@;
                let recvs = acp_receivers_view(self.receivers@);
                let deps_map = cell_dep_resolver.deps();
                &&& tx.inputs.len() == recvs.len()
                &&& tx.outputs.len() == recvs.len()
                &&& tx.outputs_data.len() == recvs.len()
                &&& tx.header_deps.len() == 0
                &&& tx.witnesses.len() == 0
                &&& (forall|i: int|
                    0 <= i < recvs.len() ==> acp_receiver_built_some(
                        #[trigger] recvs[i],
                        tx.inputs[i],
                        tx.outputs[i],
                        tx.outputs_data[i],
                    ))
                &&& (forall|i: int|
                    0 <= i < recvs.len() ==> deps_map.contains_key(
                        script_id_of((#[trigger] recvs[i]).lock_script),
                    ) && tx.cell_deps.contains(deps_map[script_id_of(recvs[i].lock_script)]))
                &&& (forall|i: int|
                    0 <= i < recvs.len() ==> match (#[trigger] tx.outputs[i]).type_script {
                        Some(t) => deps_map.contains_key(script_id_of(t))
                            && tx.cell_deps.contains(deps_map[script_id_of(t)]),
                        None => true,
                    })
                &&& cell_deps_distinct(tx.cell_deps)
                &&& (forall|j: int|
                    0 <= j < tx.cell_deps.len() ==> dep_resolved(
                        deps_map,
                        #[trigger] tx.cell_deps[j],
                    ))
            }),
            (exists|i: int|
                0 <= i < acp_receivers_view(self.receivers@).len()
                    && !cell_dep_resolver.deps().contains_key(
                    script_id_of((#[trigger] acp_receivers_view(self.receivers@)[i]).lock_script),
                )) ==> r is Err,
    {
        let ghost deps_map = cell_dep_resolver.deps();
        let ghost recvs = acp_receivers_view(self.receivers@);
        let mut cell_deps: Vec<CellDep> = Vec::new();
        let mut inputs: Vec<CellInput> = Vec::new();
        let mut outputs: Vec<CellOutput> = Vec::new();
        let mut outputs_data: Vec<Vec<u8>> = Vec::new();
        let ghost mut chosen_seq: Seq<LiveCellV> = Seq::empty();
        let n = self.receivers.len();
        let mut r: usize = 0;
        while r < n
            invariant
                0 <= r <= n,
                inputs@.len() == r,
                outputs@.len() == r,
                outputs_data@.len() == r,
                chosen_seq.len() == r,
                forall|i: int|
                    0 <= i < r ==> acp_receiver_built(
                        #[trigger] recvs[i],
                        chosen_seq[i],
                        inputs@[i]@,
                        outputs@[i]@,
                        outputs_data@[i]@,
                    ),
                forall|i: int|
                    0 <= i < r ==> deps_map.contains_key(
                        script_id_of((#[trigger] recvs[i]).lock_script),
                    ) && deps_view(cell_deps@).contains(
                        deps_map[script_id_of(recvs[i].lock_script)],
                    ),
                forall|i: int|
                    0 <= i < r ==> match (#[trigger] outputs@[i])@.type_script {
                        Some(t) => deps_map.contains_key(script_id_of(t)) && deps_view(
                            cell_deps@,
                        ).contains(deps_map[script_id_of(t)]),
                        None => true,
                    },
                cell_deps_distinct(deps_view(cell_deps@)),
                forall|j: int|
                    0 <= j < deps_view(cell_deps@).len() ==> dep_resolved(
                        deps_map,
                        #[trigger] deps_view(cell_deps@)[j],
                    ),
            decreases n - r,
        {
            let receiver = &self.receivers[r];
            let query = CellQueryOptions::new_lock(receiver.lock_script.clone());
            let (cells, _total_capacity) = match cell_collector.collect_live_cells(&query, true) {
                Ok(pair) => pair,
                Err(e) => { return Err(TxBuilderError::CellCollector(e)) },
            };
            if cells.len() == 0 {
                return Err(TxBuilderError::Other("no live cell found by lock script".to_owned()));
            }
            let input_cell = &cells[0];
            if receiver.capacity > u64::MAX - input_cell.output.capacity {
                return Err(TxBuilderError::Other("output capacity overflows".to_owned()));
            }
            let output_capacity = input_cell.output.capacity + receiver.capacity;
            proof {
                assert(query@.matches(cells@[0]@));
            }
            let input = CellInput::new(input_cell.out_point.clone(), 0);
            let output = CellOutput {
                capacity: output_capacity,
                lock: input_cell.output.lock.clone(),
                type_script: match &input_cell.output.type_script {
                    Some(s) => Some(s.clone()),
                    None => None,
                },
            };
            let output_data = copy_bytes(&input_cell.output_data);

            let lock_script_id = crate::types::ScriptId::from_script(&receiver.lock_script);
            let lock_cell_dep = match cell_dep_resolver.resolve(&lock_script_id) {
                Some(d) => d,
                None => { return Err(TxBuilderError::ResolveCellDepFailed(lock_script_id)) },
            };
            let ghost before = deps_view(cell_deps@);
            push_cell_dep_dedup(&mut cell_deps, lock_cell_dep);
            proof {
                lemma_dedup_keeps_distinct(
                    before,
                    deps_view(cell_deps@),
                    lock_cell_dep@,
                );
            }
            match &input_cell.output.type_script {
                Some(type_script) => {
                    let type_script_id = crate::types::ScriptId::from_script(type_script);
                    let type_cell_dep = match cell_dep_resolver.resolve(&type_script_id) {
                        Some(d) => d,
                        None => { return Err(TxBuilderError::ResolveCellDepFailed(type_script_id)) },
                    };
                    let ghost before2 = deps_view(cell_deps@);
                    push_cell_dep_dedup(&mut cell_deps, type_cell_dep);
                    proof {
                        lemma_dedup_keeps_distinct(
                            before2,
                            deps_view(cell_deps@),
                            type_cell_dep@,
                        );
                    }
                },
                None => {},
            }
            inputs.push(input);
            outputs.push(output);
            outputs_data.push(output_data);
            proof {
                chosen_seq = chosen_seq.push(cells@[0]@);
                assert(acp_receiver_built(
                    recvs[r as int],
                    chosen_seq[r as int],
                    inputs@[r as int]@,
                    outputs@[r as int]@,
                    outputs_data@[r as int]@,
                ));
            }
            r = r + 1;
        }
        let ghost cdv = deps_view(cell_deps@);
        let tx = Transaction {
            cell_deps,
            header_deps: Vec::new(),
            inputs,
            outputs,
            outputs_data,
            witnesses: Vec::new(),
        };
        proof {
            assert(tx@.cell_deps =~= cdv);
            assert forall|i: int| 0 <= i < recvs.len() implies match (
            #[trigger] tx@.outputs[i]).type_script {
                Some(t) => deps_map.contains_key(script_id_of(t)) && tx@.cell_deps.contains(
                    deps_map[script_id_of(t)],
                ),
                None => true,
            } by {
                assert(tx@.outputs[i] == tx.outputs@[i]@);
            }
            assert forall|j: int| 0 <= j < tx@.cell_deps.len() implies dep_resolved(
                deps_map,
                #[trigger] tx@.cell_deps[j],
            ) by {
                assert(tx@.cell_deps[j] == cdv[j]);
            }
            assert forall|i: int| 0 <= i < recvs.len() implies acp_receiver_built_some(
                #[trigger] recvs[i],
                tx@.inputs[i],
                tx@.outputs[i],
                tx@.outputs_data[i],
            ) by {
                assert(tx@.inputs[i] == tx.inputs@[i]@);
                assert(tx@.outputs[i] == tx.outputs@[i]@);
                assert(tx@.outputs_data[i] == tx.outputs_data@[i]@);
                assert(acp_receiver_built(
                    recvs[i],
                    chosen_seq[i],
                    tx@.inputs[i],
                    tx@.outputs[i],
                    tx@.outputs_data[i],
                ));
            }
        }
        Ok(tx)
    }
}

} // verus!
