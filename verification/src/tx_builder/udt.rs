//! Issue and transfer user-defined tokens.  A UDT cell stores its amount
//! in the first 16 bytes of its data; issuing collects an empty owner
//! cell and mints to receivers, transferring moves amounts from one
//! sender cell to receivers, leaving the remainder on the sender.

use vstd::prelude::*;

use crate::codec::decode_udt_amount;
use crate::codec::encode_udt_amount;
use crate::codec::u128_le_bytes;
use crate::codec::udt_amount_of;
use crate::interop::script_hash;
use crate::interop::script_hash_spec;
use crate::traits::CellCollector;
use crate::traits::CellDepResolver;
use crate::traits::HeaderDepResolver;
use crate::traits::TransactionDependencyProvider;
use crate::tx_builder::TransferAction;
use crate::tx_builder::TxBuilderError;
use crate::tx_builder::cell_deps_distinct;
use crate::tx_builder::dep_resolved;
use crate::types::deps_view;
use crate::types::inputs_view;
use crate::tx_builder::lemma_dedup_keeps_distinct;
use crate::tx_builder::lemma_push_keeps_contains;
use crate::tx_builder::push_cell_dep_dedup;
use crate::types::CellDep;
use crate::types::CellDepV;
use crate::types::CellInput;
use crate::types::CellInputV;
use crate::types::CellOutput;
use crate::types::CellOutputV;
use crate::types::CellQueryOptions;
use crate::types::LiveCellV;
use crate::types::Script;
use crate::types::ScriptId;
use crate::types::ScriptIdV;
use crate::types::ScriptV;
use crate::types::Transaction;
use crate::types::TransactionV;
use crate::types::ValueRangeOption;
use crate::types::copy_bytes;
use crate::types::occupied_capacity;
use crate::types::occupied_capacity_shannons;
use crate::types::script_id_of;

verus! {

/// Which UDT flavour is issued: the simple one, or the extensible one
/// with its extra args.
pub enum UdtIssueType {
    Sudt,
    Xudt(Vec<u8>),
}

/// One receiver of issued or transferred UDT: the lock its cell gets, the
/// capacity of a freshly created cell, the amount, and extra data
/// appended after the amount on creation.
pub struct UdtTargetReceiver {
    pub action: TransferAction,
    pub lock_script: Script,
    pub capacity: Option<u64>,
    pub amount: u128,
    pub extra_data: Option<Vec<u8>>,
}

/// Mathematical view of a [`UdtTargetReceiver`].
pub struct UdtTargetReceiverV {
    pub action: TransferAction,
    pub lock_script: ScriptV,
    pub capacity: Option<u64>,
    pub amount: u128,
    pub extra_data: Option<Seq<u8>>,
}

impl View for UdtTargetReceiver {
    type V = UdtTargetReceiverV;

    open spec fn view(&self) -> UdtTargetReceiverV {
        UdtTargetReceiverV {
            action: self.action,
            lock_script: self.lock_script@,
            capacity: self.capacity,
            amount: self.amount,
            extra_data: match self.extra_data {
                Some(ref d) => Some(d@),
                None => None,
            },
        }
    }
}

/// The views of a list of UDT receivers.
pub open spec fn udt_receivers_view(rs: Seq<UdtTargetReceiver>) -> Seq<UdtTargetReceiverV> {
    rs.map_values(|x: UdtTargetReceiver| x@)
}

/// The total amount a list of receivers takes.
pub open spec fn sum_udt_amounts(rs: Seq<UdtTargetReceiverV>) -> int
    decreases rs.len(),
{
    if rs.len() == 0 {
        0
    } else {
        sum_udt_amounts(rs.drop_last()) + rs.last().amount
    }
}

/// A total of amounts is never negative.
pub proof fn lemma_sum_udt_amounts_nonneg(rs: Seq<UdtTargetReceiverV>)
    ensures
        sum_udt_amounts(rs) >= 0,
    decreases rs.len(),
{
    if rs.len() > 0 {
        lemma_sum_udt_amounts_nonneg(rs.drop_last());
    }
}

/// The data of a freshly created receiver cell: the amount, then the
/// extra data.
pub open spec fn create_output_data(recv: UdtTargetReceiverV) -> Seq<u8> {
    u128_le_bytes(recv.amount) + (match recv.extra_data {
        Some(d) => d,
        None => Seq::empty(),
    })
}

/// What a freshly created receiver cell occupies.
pub open spec fn create_occupied(recv: UdtTargetReceiverV, ts: ScriptV) -> int {
    occupied_capacity_shannons(recv.lock_script, Some(ts), create_output_data(recv).len() as int)
}

/// When creating a receiver cell fails: its occupied capacity does not
/// fit a `u64`, or the requested capacity cannot hold the cell.
pub open spec fn create_fails(recv: UdtTargetReceiverV, ts: ScriptV) -> bool {
    ||| create_occupied(recv, ts) > u64::MAX
    ||| (recv.capacity is Some && (recv.capacity->0 as int) < create_occupied(recv, ts))
}

/// What one receiver's build produces.
pub struct ReceiverBuildOutput {
    pub input: Option<CellInput>,
    pub cell_dep: Option<CellDep>,
    pub output: CellOutput,
    pub output_data: Vec<u8>,
}

/// Mathematical view of a [`ReceiverBuildOutput`].
pub struct ReceiverBuildOutputV {
    pub input: Option<CellInputV>,
    pub cell_dep: Option<CellDepV>,
    pub output: CellOutputV,
    pub output_data: Seq<u8>,
}

impl View for ReceiverBuildOutput {
    type V = ReceiverBuildOutputV;

    open spec fn view(&self) -> ReceiverBuildOutputV {
        ReceiverBuildOutputV {
            input: match self.input {
                Some(ref i) => Some(i@),
                None => None,
            },
            cell_dep: match self.cell_dep {
                Some(ref d) => Some(d@),
                None => None,
            },
            output: self.output@,
            output_data: self.output_data@,
        }
    }
}

/// How an update receiver's build relates to the live cell the collector
/// chose: the cell is consumed and re-created with the amount added to
/// the first 16 bytes of its data.
pub open spec fn update_built(
    recv: UdtTargetReceiverV,
    ts: ScriptV,
    deps_map: Map<ScriptIdV, CellDepV>,
    chosen: LiveCellV,
    rb: ReceiverBuildOutputV,
) -> bool {
    &&& chosen.output.lock == recv.lock_script
    &&& chosen.output.type_script == Some(ts)
    &&& chosen.output_data.len() >= 16
    &&& udt_amount_of(chosen.output_data) + recv.amount <= u128::MAX
    &&& rb.input == Some(CellInputV { previous_output: chosen.out_point, since: 0 })
    &&& deps_map.contains_key(script_id_of(recv.lock_script))
    &&& rb.cell_dep == Some(deps_map[script_id_of(recv.lock_script)])
    &&& rb.output == chosen.output
    &&& rb.output_data == u128_le_bytes(
        (udt_amount_of(chosen.output_data) + recv.amount) as u128,
    ) + chosen.output_data.skip(16)
}

/// What a receiver's build produces: a fresh cell holding exactly the
/// amount, or an update of an existing cell.
pub open spec fn receiver_build_ok(
    recv: UdtTargetReceiverV,
    ts: ScriptV,
    deps_map: Map<ScriptIdV, CellDepV>,
    rb: ReceiverBuildOutputV,
) -> bool {
    match recv.action {
        TransferAction::Create => {
            &&& rb.input is None
            &&& rb.cell_dep is None
            &&& rb.output.lock == recv.lock_script
            &&& rb.output.type_script == Some(ts)
            &&& rb.output_data == create_output_data(recv)
            &&& create_occupied(recv, ts) <= u64::MAX
            &&& match recv.capacity {
                Some(c) => c as int >= create_occupied(recv, ts) && rb.output.capacity == c,
                None => rb.output.capacity as int == create_occupied(recv, ts),
            }
        },
        TransferAction::Update => exists|chosen: LiveCellV|
            update_built(recv, ts, deps_map, chosen, rb),
    }
}

/// A copy of `data` with the amount in its first 16 bytes replaced.
fn splice_udt_amount(data: &Vec<u8>, amount: u128) -> (r: Vec<u8>)
    requires
        data@.len() >= 16,
    ensures
        r@ == u128_le_bytes(amount) + data@.skip(16),
{
    let mut out = encode_udt_amount(amount);
    let mut j: usize = 16;
    while j < data.len()
        invariant
            16 <= j <= data@.len(),
            out@ == u128_le_bytes(amount) + data@.subrange(16, j as int),
        decreases data@.len() - j,
    {
        out.push(data[j]);
        proof {
            assert(out@ =~= u128_le_bytes(amount) + data@.subrange(16, j + 1 as int));
        }
        j = j + 1;
    }
    proof {
        assert(data@.subrange(16, data@.len() as int) =~= data@.skip(16));
    }
    out
}

impl UdtTargetReceiver {
    /// Builds this receiver's slice of a UDT transaction: a fresh cell
    /// holding the amount, or the consumption and re-creation of the
    /// receiver's existing cell with the amount added.
    #[verifier::loop_isolation(false)]
    pub fn build<C: CellCollector, D: CellDepResolver>(
        &self,
        type_script: &Script,
        cell_collector: &mut C,
        cell_dep_resolver: &D,
    ) -> (r: Result<ReceiverBuildOutput, TxBuilderError>)
        ensures
            r is Ok ==> receiver_build_ok(self@, type_script@, cell_dep_resolver.deps(), r->Ok_0@),
            self@.action == TransferAction::Create ==> (r is Err <==> create_fails(
                self@,
                type_script@,
            )),
            self@.action == TransferAction::Update && !cell_dep_resolver.deps().contains_key(
                script_id_of(self@.lock_script),
            ) ==> r is Err,
    {
        match self.action {
            TransferAction::Create => {
                let mut data = encode_udt_amount(self.amount);
                match &self.extra_data {
                    Some(extra) => {
                        let mut j: usize = 0;
                        while j < extra.len()
                            invariant
                                0 <= j <= extra@.len(),
                                data@ == u128_le_bytes(self.amount) + extra@.subrange(0, j as int),
                            decreases extra@.len() - j,
                        {
                            data.push(extra[j]);
                            proof {
                                assert(data@ =~= u128_le_bytes(self.amount) + extra@.subrange(
                                    0,
                                    j + 1 as int,
                                ));
                            }
                            j = j + 1;
                        }
                        proof {
                            assert(extra@.subrange(0, extra@.len() as int) =~= extra@);
                        }
                    },
                    None => {
                        proof {
                            assert(data@ =~= u128_le_bytes(self.amount) + Seq::<u8>::empty());
                        }
                    },
                }
                let occupied = match occupied_capacity(&self.lock_script, Some(type_script), data.len()) {
                    Some(v) => v,
                    None => {
                        return Err(
                            TxBuilderError::Other(
                                "occupied capacity of a receiver cell overflows".to_owned(),
                            ),
                        );
                    },
                };
                let final_capacity = match self.capacity {
                    Some(c) => {
                        if c >= occupied {
                            c
                        } else {
                            return Err(
                                TxBuilderError::Other(
                                    "not enough capacity to hold a receiver cell".to_owned(),
                                ),
                            );
                        }
                    },
                    None => occupied,
                };
                Ok(
                    ReceiverBuildOutput {
                        input: None,
                        cell_dep: None,
                        output: CellOutput {
                            capacity: final_capacity,
                            lock: self.lock_script.clone(),
                            type_script: Some(type_script.clone()),
                        },
                        output_data: data,
                    },
                )
            },
            TransferAction::Update => {
                let mut query = CellQueryOptions::new_lock(self.lock_script.clone());
                query.secondary_script = Some(type_script.clone());
                query.data_len_range = Some(ValueRangeOption::new_min(16));
                let (cells, _total) = match cell_collector.collect_live_cells(&query, true) {
                    Ok(pair) => pair,
                    Err(e) => { return Err(TxBuilderError::CellCollector(e)) },
                };
                if cells.len() == 0 {
                    return Err(
                        TxBuilderError::Other("update receiver cell not found".to_owned()),
                    );
                }
                let receiver_script_id = ScriptId::from_script(&self.lock_script);
                let receiver_cell_dep = match cell_dep_resolver.resolve(&receiver_script_id) {
                    Some(d) => d,
                    None => { return Err(TxBuilderError::ResolveCellDepFailed(receiver_script_id)) },
                };
                let receiver_cell = &cells[0];
                proof {
                    assert(query@.matches(cells@[0]@));
                }
                let old_amount = decode_udt_amount(&receiver_cell.output_data);
                if self.amount > u128::MAX - old_amount {
                    return Err(TxBuilderError::Other("udt amount overflows".to_owned()));
                }
                let new_amount = old_amount + self.amount;
                let new_data = splice_udt_amount(&receiver_cell.output_data, new_amount);
                let input = CellInput::new(receiver_cell.out_point.clone(), 0);
                let out = ReceiverBuildOutput {
                    input: Some(input),
                    cell_dep: Some(receiver_cell_dep),
                    output: receiver_cell.output.clone(),
                    output_data: new_data,
                };
                proof {
                    assert(update_built(
                        self@,
                        type_script@,
                        cell_dep_resolver.deps(),
                        cells@[0]@,
                        out@,
                    ));
                }
                Ok(out)
            },
        }
    }
}

// ---------------------------------------------------------------------
// Issue
// ---------------------------------------------------------------------

/// One receiver's build placed into the transaction: its output and data
/// stand at the receiver's slot, and whatever input and cell-dep the
/// build produced are carried somewhere in the transaction.
pub open spec fn receiver_placed(
    recv: UdtTargetReceiverV,
    ts: ScriptV,
    deps_map: Map<ScriptIdV, CellDepV>,
    out: CellOutputV,
    data: Seq<u8>,
    inputs: Seq<CellInputV>,
    deps: Seq<CellDepV>,
) -> bool {
    exists|rb: ReceiverBuildOutputV|
        #[trigger] receiver_build_ok(recv, ts, deps_map, rb) && out == rb.output && data
            == rb.output_data && (rb.input is Some ==> inputs.contains(rb.input->0)) && (
        rb.cell_dep is Some ==> deps.contains(rb.cell_dep->0))
}

/// The args of the issued type script: the owner's lock hash, followed by
/// the extension args where the extensible flavour is issued.
pub open spec fn issue_type_args(t: UdtIssueType, owner: ScriptV) -> Seq<u8> {
    match t {
        UdtIssueType::Sudt => script_hash_spec(owner),
        UdtIssueType::Xudt(extra) => script_hash_spec(owner) + extra@,
    }
}

/// Some empty owner cell without a type script was consumed as the first
/// input.
pub open spec fn issue_owner_chosen(owner: ScriptV, input0: CellInputV) -> bool {
    exists|cell: LiveCellV|
        (#[trigger] cell.output).lock == owner && cell.output.type_script is None
            && cell.output_data.len() == 0 && input0 == (CellInputV {
            previous_output: cell.out_point,
            since: 0,
        })
}

/// Issues UDT to receivers.  An empty-data cell of the owner is consumed;
/// the type script of every minted cell carries the owner's lock hash, so
/// the chain ties issuance to the owner.
pub struct UdtIssueBuilder {
    /// The UDT flavour.
    pub udt_type: UdtIssueType,
    /// The identity of the UDT script code.
    pub script_id: ScriptId,
    /// The owner, whose empty cell authorises the issue.
    pub owner: Script,
    /// The receivers.
    pub receivers: Vec<UdtTargetReceiver>,
}

impl crate::tx_builder::TxBuilder for UdtIssueBuilder {
    /// Builds the base transaction: the owner cell as first input, one
    /// output per receiver minted under the constructed type script, and
    /// the cell-deps of the owner lock and the UDT code resolved.
    #[verifier::loop_isolation(false)]
    fn build_base<C: CellCollector, D: CellDepResolver, H: HeaderDepResolver, P: TransactionDependencyProvider>(
        &self,
        cell_collector: &mut C,
        cell_dep_resolver: &D,
        _header_dep_resolver: &H,
        _tx_dep_provider: &P,
    ) -> (r: Result<Transaction, TxBuilderError>)
        ensures
            r is Ok ==> ({
                let tx = r->Ok_0@;
                let recvs = udt_receivers_view(self.receivers@);
                let deps_map = cell_dep_resolver.deps();
                let ts = (ScriptV {
                    code_hash: self.script_id@.code_hash,
                    hash_type: self.script_id@.hash_type,
                    args: issue_type_args(self.udt_type, self.owner@),
                });
                &&& tx.outputs.len() == recvs.len()
                &&& tx.outputs_data.len() == recvs.len()
                &&& tx.inputs.len() >= 1
                &&& issue_owner_chosen(self.owner@, tx.inputs[0])
                &&& deps_map.contains_key(script_id_of(self.owner@))
                &&& tx.cell_deps.contains(deps_map[script_id_of(self.owner@)])
                &&& deps_map.contains_key(self.script_id@)
                &&& tx.cell_deps.contains(deps_map[self.script_id@])
                &&& (forall|i: int|
                    0 <= i < recvs.len() ==> receiver_placed(
                        #[trigger] recvs[i],
                        ts,
                        deps_map,
                        tx.outputs[i],
                        tx.outputs_data[i],
                        tx.inputs,
                        tx.cell_deps,
                    ))
                &&& cell_deps_distinct(tx.cell_deps)
                &&& (forall|j: int|
                    0 <= j < tx.cell_deps.len() ==> dep_resolved(
                        deps_map,
                        #[trigger] tx.cell_deps[j],
                    ))
                &&& tx.header_deps.len() == 0
                &&& tx.witnesses.len() == 0
            }),
            !cell_dep_resolver.deps().contains_key(script_id_of(self.owner@))
                || !cell_dep_resolver.deps().contains_key(self.script_id@) ==> r is Err,
    {
        let ghost deps_map = cell_dep_resolver.deps();
        let ghost recvs = udt_receivers_view(self.receivers@);
        if self.owner.code_hash.len() != 32 {
            return Err(TxBuilderError::Other("malformed owner script".to_owned()));
        }
        // Collect one empty cell of the owner.
        let mut owner_query = CellQueryOptions::new_lock(self.owner.clone());
        owner_query.data_len_range = Some(ValueRangeOption::new_exact(0));
        let (owner_cells, _total) = match cell_collector.collect_live_cells(&owner_query, true) {
            Ok(pair) => pair,
            Err(e) => { return Err(TxBuilderError::CellCollector(e)) },
        };
        // The issue is authorised by a bare cell of the owner: no type
        // script, no data.
        let mut owner_idx: usize = 0;
        let mut owner_found = false;
        while owner_idx < owner_cells.len()
            invariant
                0 <= owner_idx <= owner_cells@.len(),
                owner_found ==> owner_idx < owner_cells@.len()
                    && owner_cells@[owner_idx as int]@.output.type_script is None
                    && owner_query@.matches(owner_cells@[owner_idx as int]@),
            decreases owner_cells@.len() - owner_idx,
        {
            match &owner_cells[owner_idx].output.type_script {
                None => {
                    proof {
                        assert(owner_query@.matches(owner_cells@[owner_idx as int]@));
                    }
                    owner_found = true;
                },
                Some(_) => {},
            }
            if owner_found {
                break ;
            }
            owner_idx = owner_idx + 1;
        }
        if !owner_found {
            return Err(TxBuilderError::Other("owner cell not found".to_owned()));
        }
        let mut inputs: Vec<CellInput> = Vec::new();
        inputs.push(CellInput::new(owner_cells[owner_idx].out_point.clone(), 0));
        proof {
            assert(issue_owner_chosen(self.owner@, inputs@[0]@));
        }
        // Build the type script of the minted cells.
        let owner_lock_hash = script_hash(&self.owner);
        let type_script_args: Vec<u8> = match &self.udt_type {
            UdtIssueType::Sudt => owner_lock_hash,
            UdtIssueType::Xudt(extra) => {
                let mut args = owner_lock_hash;
                let mut j: usize = 0;
                while j < extra.len()
                    invariant
                        0 <= j <= extra@.len(),
                        args@ == script_hash_spec(self.owner@) + extra@.subrange(0, j as int),
                    decreases extra@.len() - j,
                {
                    args.push(extra[j]);
                    proof {
                        assert(args@ =~= script_hash_spec(self.owner@) + extra@.subrange(
                            0,
                            j + 1 as int,
                        ));
                    }
                    j = j + 1;
                }
                proof {
                    assert(extra@.subrange(0, extra@.len() as int) =~= extra@);
                }
                args
            },
        };
        proof {
            assert(script_hash_spec(self.owner@) + Seq::<u8>::empty() =~= script_hash_spec(
                self.owner@,
            ));
        }
        let type_script = Script {
            code_hash: copy_bytes(&self.script_id.code_hash),
            hash_type: self.script_id.hash_type,
            args: type_script_args,
        };
        let ghost tsv = type_script@;
        // Resolve the two cell deps.
        let owner_script_id = ScriptId::from_script(&self.owner);
        let owner_cell_dep = match cell_dep_resolver.resolve(&owner_script_id) {
            Some(d) => d,
            None => { return Err(TxBuilderError::ResolveCellDepFailed(owner_script_id)) },
        };
        let udt_cell_dep = match cell_dep_resolver.resolve(&self.script_id) {
            Some(d) => d,
            None => { return Err(TxBuilderError::ResolveCellDepFailed(self.script_id.clone())) },
        };
        let mut cell_deps: Vec<CellDep> = Vec::new();
        let ghost before0 = deps_view(cell_deps@);
        push_cell_dep_dedup(&mut cell_deps, owner_cell_dep);
        proof {
            lemma_dedup_keeps_distinct(before0, deps_view(cell_deps@), owner_cell_dep@);
        }
        let ghost before1 = deps_view(cell_deps@);
        push_cell_dep_dedup(&mut cell_deps, udt_cell_dep);
        proof {
            lemma_dedup_keeps_distinct(before1, deps_view(cell_deps@), udt_cell_dep@);
        }
        // Build one output per receiver.
        let mut outputs: Vec<CellOutput> = Vec::new();
        let mut outputs_data: Vec<Vec<u8>> = Vec::new();
        let ghost mut rbs: Seq<ReceiverBuildOutputV> = Seq::empty();
        let n = self.receivers.len();
        let mut k: usize = 0;
        while k < n
            invariant
                0 <= k <= n,
                n == self.receivers@.len(),
                outputs@.len() == k,
                outputs_data@.len() == k,
                rbs.len() == k,
                inputs@.len() >= 1,
                issue_owner_chosen(self.owner@, inputs@[0]@),
                deps_map.contains_key(script_id_of(self.owner@)),
                deps_view(cell_deps@).contains(deps_map[script_id_of(self.owner@)]),
                deps_map.contains_key(self.script_id@),
                deps_view(cell_deps@).contains(deps_map[self.script_id@]),
                cell_deps_distinct(deps_view(cell_deps@)),
                forall|j: int|
                    0 <= j < deps_view(cell_deps@).len() ==> dep_resolved(
                        deps_map,
                        #[trigger] deps_view(cell_deps@)[j],
                    ),
                forall|i: int|
                    0 <= i < k ==> receiver_build_ok(#[trigger] recvs[i], tsv, deps_map, rbs[i]),
                forall|i: int| 0 <= i < k ==> outputs@[i]@ == (#[trigger] rbs[i]).output,
                forall|i: int| 0 <= i < k ==> outputs_data@[i]@ == (#[trigger] rbs[i]).output_data,
                forall|i: int|
                    0 <= i < k && (#[trigger] rbs[i]).input is Some ==> inputs_view(
                        inputs@,
                    ).contains(rbs[i].input->0),
                forall|i: int|
                    0 <= i < k && (#[trigger] rbs[i]).cell_dep is Some ==> deps_view(
                        cell_deps@,
                    ).contains(rbs[i].cell_dep->0),
            decreases n - k,
        {
            let built = match self.receivers[k].build(&type_script, cell_collector, cell_dep_resolver) {
                Ok(b) => b,
                Err(e) => { return Err(e) },
            };
            let ghost rbv = built@;
            let ReceiverBuildOutput { input, cell_dep, output, output_data } = built;
            match input {
                Some(one_input) => {
                    let ghost before_in = inputs_view(inputs@);
                    inputs.push(one_input);
                    proof {
                        assert(inputs_view(inputs@) =~= before_in.push(rbv.input->0));
                        assert forall|i: int|
                            0 <= i < k && (#[trigger] rbs[i]).input is Some implies inputs_view(
                            inputs@,
                        ).contains(rbs[i].input->0) by {
                            lemma_push_keeps_contains(before_in, rbv.input->0, rbs[i].input->0);
                        }
                        assert(inputs_view(inputs@)[before_in.len() as int] == rbv.input->0);
                        assert(inputs_view(inputs@).contains(rbv.input->0));
                    }
                },
                None => {},
            }
            match cell_dep {
                Some(one_dep) => {
                    let ghost before_d = deps_view(cell_deps@);
                    push_cell_dep_dedup(&mut cell_deps, one_dep);
                    proof {
                        lemma_dedup_keeps_distinct(before_d, deps_view(cell_deps@), rbv.cell_dep->0);
                    }
                },
                None => {},
            }
            outputs.push(output);
            outputs_data.push(output_data);
            proof {
                rbs = rbs.push(rbv);
            }
            k = k + 1;
        }
        let ghost cdv = deps_view(cell_deps@);
        let ghost inv = inputs_view(inputs@);
        let tx = Transaction {
            cell_deps,
            header_deps: Vec::new(),
            inputs,
            outputs,
            outputs_data,
            witnesses: Vec::new(),
        };
        proof {
            assert(tx@.cell_deps =~= cdv);
            assert(tx@.inputs =~= inv);
            assert forall|j: int| 0 <= j < tx@.cell_deps.len() implies dep_resolved(
                deps_map,
                #[trigger] tx@.cell_deps[j],
            ) by {
                assert(tx@.cell_deps[j] == cdv[j]);
            }
            assert forall|i: int| 0 <= i < recvs.len() implies receiver_placed(
                #[trigger] recvs[i],
                tsv,
                deps_map,
                tx@.outputs[i],
                tx@.outputs_data[i],
                tx@.inputs,
                tx@.cell_deps,
            ) by {
                assert(tx@.outputs[i] == tx.outputs@[i]@);
                assert(tx@.outputs_data[i] == tx.outputs_data@[i]@);
                assert(receiver_build_ok(recvs[i], tsv, deps_map, rbs[i]));
            }
        }
        Ok(tx)
    }
}

// ---------------------------------------------------------------------
// Transfer
// ---------------------------------------------------------------------

/// The inputs the receivers' builds contribute, in receiver order: one
/// per update receiver, none for created cells.
pub open spec fn receiver_inputs(rbs: Seq<ReceiverBuildOutputV>) -> Seq<CellInputV>
    decreases rbs.len(),
{
    if rbs.len() == 0 {
        Seq::empty()
    } else {
        receiver_inputs(rbs.drop_last()) + (match rbs.last().input {
            Some(i) => seq![i],
            None => Seq::<CellInputV>::empty(),
        })
    }
}

/// One list of receiver builds explains the whole tail of the
/// transaction: outputs and data slot by slot, and the inputs after the
/// sender's follow in receiver order.
pub open spec fn receiver_builds_explain(
    recvs: Seq<UdtTargetReceiverV>,
    ts: ScriptV,
    deps_map: Map<ScriptIdV, CellDepV>,
    tx: TransactionV,
    rbs: Seq<ReceiverBuildOutputV>,
) -> bool {
    &&& rbs.len() == recvs.len()
    &&& (forall|i: int|
        0 <= i < recvs.len() ==> receiver_build_ok(#[trigger] recvs[i], ts, deps_map, rbs[i]))
    &&& (forall|i: int| 0 <= i < recvs.len() ==> tx.outputs[i + 1] == (#[trigger] rbs[i]).output)
    &&& (forall|i: int|
        0 <= i < recvs.len() ==> tx.outputs_data[i + 1] == (#[trigger] rbs[i]).output_data)
    &&& tx.inputs.len() >= 1
    &&& tx.inputs.skip(1) == receiver_inputs(rbs)
}

/// Some list of receiver builds explains the tail of the transaction.
pub open spec fn receivers_in_order(
    recvs: Seq<UdtTargetReceiverV>,
    ts: ScriptV,
    deps_map: Map<ScriptIdV, CellDepV>,
    tx: TransactionV,
) -> bool {
    exists|rbs: Seq<ReceiverBuildOutputV>|
        #[trigger] receiver_builds_explain(recvs, ts, deps_map, tx, rbs)
}

/// The sender's cell `cell` was consumed as the first input and
/// re-created as the first output with exactly the remainder of its
/// amount.
pub open spec fn sender_spent_cell(
    sender: ScriptV,
    ts: ScriptV,
    recvs: Seq<UdtTargetReceiverV>,
    inputs: Seq<CellInputV>,
    out0: CellOutputV,
    data0: Seq<u8>,
    cell: LiveCellV,
) -> bool {
    &&& cell.output.lock == sender
    &&& cell.output.type_script == Some(ts)
    &&& cell.output_data.len() >= 16
    &&& sum_udt_amounts(recvs) <= udt_amount_of(cell.output_data)
    &&& inputs.len() >= 1
    &&& inputs[0] == (CellInputV { previous_output: cell.out_point, since: 0 })
    &&& out0 == cell.output
    &&& data0 == u128_le_bytes(
        (udt_amount_of(cell.output_data) - sum_udt_amounts(recvs)) as u128,
    ) + cell.output_data.skip(16)
}

/// Some sender cell was consumed as the first input and re-created as the
/// first output with exactly the remainder of its amount.
pub open spec fn sender_spent(
    sender: ScriptV,
    ts: ScriptV,
    recvs: Seq<UdtTargetReceiverV>,
    inputs: Seq<CellInputV>,
    out0: CellOutputV,
    data0: Seq<u8>,
) -> bool {
    exists|cell: LiveCellV| #[trigger] sender_spent_cell(sender, ts, recvs, inputs, out0, data0, cell)
}

/// UDT conservation: the receivers never take more than the sender held,
/// and what stays on the sender's first output is the exact remainder —
/// reading the amount back from its data gives what was held less what
/// was paid out.
pub proof fn lemma_udt_conservation(
    sender: ScriptV,
    ts: ScriptV,
    recvs: Seq<UdtTargetReceiverV>,
    inputs: Seq<CellInputV>,
    out0: CellOutputV,
    data0: Seq<u8>,
    cell: LiveCellV,
)
    requires
        sender_spent_cell(sender, ts, recvs, inputs, out0, data0, cell),
    ensures
        0 <= sum_udt_amounts(recvs) <= udt_amount_of(cell.output_data),
        udt_amount_of(data0) == udt_amount_of(cell.output_data) - sum_udt_amounts(recvs),
{
    lemma_sum_udt_amounts_nonneg(recvs);
    crate::codec::lemma_udt_amount_bounds(cell.output_data);
    let remainder = (udt_amount_of(cell.output_data) - sum_udt_amounts(recvs)) as u128;
    crate::codec::lemma_udt_amount_of_prefix(remainder, cell.output_data.skip(16));
}

/// A freshly minted receiver cell reads back exactly the receiver's
/// amount.
pub proof fn lemma_minted_amount(recv: UdtTargetReceiverV)
    ensures
        udt_amount_of(create_output_data(recv)) == recv.amount,
{
    crate::codec::lemma_udt_amount_of_prefix(
        recv.amount,
        match recv.extra_data {
            Some(d) => d,
            None => Seq::empty(),
        },
    );
}

/// Transfers UDT from one sender cell to receivers; the remainder of the
/// sender's amount stays on the sender's re-created cell.
pub struct UdtTransferBuilder {
    /// The UDT type script.
    pub type_script: Script,
    /// The sender's lock script; the one cell identified by it and the
    /// type script funds the transfer.
    pub sender: Script,
    /// The receivers.
    pub receivers: Vec<UdtTargetReceiver>,
}

impl crate::tx_builder::TxBuilder for UdtTransferBuilder {
    /// Builds the base transaction: the sender's cell as first input and
    /// first output carrying the exact remainder, one output per
    /// receiver, and the cell-deps of the sender lock and the UDT code
    /// resolved.  The receivers' total never exceeds what the sender
    /// holds.
    #[verifier::loop_isolation(false)]
    fn build_base<C: CellCollector, D: CellDepResolver, H: HeaderDepResolver, P: TransactionDependencyProvider>(
        &self,
        cell_collector: &mut C,
        cell_dep_resolver: &D,
        _header_dep_resolver: &H,
        _tx_dep_provider: &P,
    ) -> (r: Result<Transaction, TxBuilderError>)
        ensures
            r is Ok ==> ({
                let tx = r->Ok_0@;
                let recvs = udt_receivers_view(self.receivers@);
                let deps_map = cell_dep_resolver.deps();
                &&& tx.outputs.len() == 1 + recvs.len()
                &&& tx.outputs_data.len() == 1 + recvs.len()
                &&& tx.inputs.len() >= 1
                &&& sender_spent(
                    self.sender@,
                    self.type_script@,
                    recvs,
                    tx.inputs,
                    tx.outputs[0],
                    tx.outputs_data[0],
                )
                &&& deps_map.contains_key(script_id_of(self.sender@))
                &&& tx.cell_deps.contains(deps_map[script_id_of(self.sender@)])
                &&& deps_map.contains_key(script_id_of(self.type_script@))
                &&& tx.cell_deps.contains(deps_map[script_id_of(self.type_script@)])
                &&& (forall|i: int|
                    0 <= i < recvs.len() ==> receiver_placed(
                        #[trigger] recvs[i],
                        self.type_script@,
                        deps_map,
                        tx.outputs[i + 1],
                        tx.outputs_data[i + 1],
                        tx.inputs,
                        tx.cell_deps,
                    ))
                &&& receivers_in_order(recvs, self.type_script@, deps_map, tx)
                &&& cell_deps_distinct(tx.cell_deps)
                &&& (forall|j: int|
                    0 <= j < tx.cell_deps.len() ==> dep_resolved(
                        deps_map,
                        #[trigger] tx.cell_deps[j],
                    ))
                &&& tx.header_deps.len() == 0
                &&& tx.witnesses.len() == 0
            }),
            !cell_dep_resolver.deps().contains_key(script_id_of(self.sender@))
                || !cell_dep_resolver.deps().contains_key(script_id_of(self.type_script@))
                ==> r is Err,
    {
        let ghost deps_map = cell_dep_resolver.deps();
        let ghost recvs = udt_receivers_view(self.receivers@);
        // Collect the sender's UDT cell.
        let mut sender_query = CellQueryOptions::new_lock(self.sender.clone());
        sender_query.secondary_script = Some(self.type_script.clone());
        sender_query.data_len_range = Some(ValueRangeOption::new_min(16));
        let (sender_cells, _total) = match cell_collector.collect_live_cells(&sender_query, true) {
            Ok(pair) => pair,
            Err(e) => { return Err(TxBuilderError::CellCollector(e)) },
        };
        if sender_cells.len() == 0 {
            return Err(TxBuilderError::Other("sender cell not found".to_owned()));
        }
        let sender_cell = &sender_cells[0];
        proof {
            assert(sender_query@.matches(sender_cells@[0]@));
        }
        // Resolve the two cell deps.
        let sender_script_id = ScriptId::from_script(&self.sender);
        let sender_cell_dep = match cell_dep_resolver.resolve(&sender_script_id) {
            Some(d) => d,
            None => { return Err(TxBuilderError::ResolveCellDepFailed(sender_script_id)) },
        };
        let type_script_id = ScriptId::from_script(&self.type_script);
        let udt_cell_dep = match cell_dep_resolver.resolve(&type_script_id) {
            Some(d) => d,
            None => { return Err(TxBuilderError::ResolveCellDepFailed(type_script_id)) },
        };
        let mut cell_deps: Vec<CellDep> = Vec::new();
        let ghost before0 = deps_view(cell_deps@);
        push_cell_dep_dedup(&mut cell_deps, sender_cell_dep);
        proof {
            lemma_dedup_keeps_distinct(before0, deps_view(cell_deps@), sender_cell_dep@);
        }
        let ghost before1 = deps_view(cell_deps@);
        push_cell_dep_dedup(&mut cell_deps, udt_cell_dep);
        proof {
            lemma_dedup_keeps_distinct(before1, deps_view(cell_deps@), udt_cell_dep@);
        }
        // The conservation check: the receivers take no more than the
        // sender holds.
        let input_total = decode_udt_amount(&sender_cell.output_data);
        let mut output_total: u128 = 0;
        let nr = self.receivers.len();
        let mut t: usize = 0;
        while t < nr
            invariant
                0 <= t <= nr,
                nr == self.receivers@.len(),
                output_total as int == sum_udt_amounts(recvs.take(t as int)),
            decreases nr - t,
        {
            proof {
                assert(recvs.take(t as int + 1).drop_last() =~= recvs.take(t as int));
            }
            let amount = self.receivers[t].amount;
            if amount > u128::MAX - output_total {
                return Err(
                    TxBuilderError::Other("sender udt amount not enough".to_owned()),
                );
            }
            output_total = output_total + amount;
            t = t + 1;
        }
        proof {
            assert(recvs.take(nr as int) =~= recvs);
        }
        if input_total < output_total {
            return Err(TxBuilderError::Other("sender udt amount not enough".to_owned()));
        }
        let sender_output_data = splice_udt_amount(&sender_cell.output_data, input_total - output_total);
        let mut inputs: Vec<CellInput> = Vec::new();
        inputs.push(CellInput::new(sender_cell.out_point.clone(), 0));
        let mut outputs: Vec<CellOutput> = Vec::new();
        outputs.push(sender_cell.output.clone());
        proof {
            assert(sender_spent_cell(
                self.sender@,
                self.type_script@,
                recvs,
                inputs_view(inputs@),
                outputs@[0]@,
                sender_output_data@,
                sender_cells@[0]@,
            ));
        }
        let mut outputs_data: Vec<Vec<u8>> = Vec::new();
        outputs_data.push(sender_output_data);
        // One output per receiver.
        let ghost mut rbs: Seq<ReceiverBuildOutputV> = Seq::empty();
        let mut k: usize = 0;
        while k < nr
            invariant
                0 <= k <= nr,
                nr == self.receivers@.len(),
                outputs@.len() == k + 1,
                outputs_data@.len() == k + 1,
                rbs.len() == k,
                inputs@.len() >= 1,
                sender_spent(
                    self.sender@,
                    self.type_script@,
                    recvs,
                    inputs_view(inputs@),
                    outputs@[0]@,
                    outputs_data@[0]@,
                ),
                deps_map.contains_key(script_id_of(self.sender@)),
                deps_view(cell_deps@).contains(deps_map[script_id_of(self.sender@)]),
                deps_map.contains_key(script_id_of(self.type_script@)),
                deps_view(cell_deps@).contains(deps_map[script_id_of(self.type_script@)]),
                cell_deps_distinct(deps_view(cell_deps@)),
                forall|j: int|
                    0 <= j < deps_view(cell_deps@).len() ==> dep_resolved(
                        deps_map,
                        #[trigger] deps_view(cell_deps@)[j],
                    ),
                forall|i: int|
                    0 <= i < k ==> receiver_build_ok(
                        #[trigger] recvs[i],
                        self.type_script@,
                        deps_map,
                        rbs[i],
                    ),
                forall|i: int| 0 <= i < k ==> outputs@[i + 1]@ == (#[trigger] rbs[i]).output,
                forall|i: int|
                    0 <= i < k ==> outputs_data@[i + 1]@ == (#[trigger] rbs[i]).output_data,
                forall|i: int|
                    0 <= i < k && (#[trigger] rbs[i]).input is Some ==> inputs_view(
                        inputs@,
                    ).contains(rbs[i].input->0),
                forall|i: int|
                    0 <= i < k && (#[trigger] rbs[i]).cell_dep is Some ==> deps_view(
                        cell_deps@,
                    ).contains(rbs[i].cell_dep->0),
                inputs_view(inputs@).skip(1) == receiver_inputs(rbs),
            decreases nr - k,
        {
            let ghost tail_before = inputs_view(inputs@).skip(1);
            let built = match self.receivers[k].build(&self.type_script, cell_collector, cell_dep_resolver) {
                Ok(b) => b,
                Err(e) => { return Err(e) },
            };
            let ghost rbv = built@;
            let ReceiverBuildOutput { input, cell_dep, output, output_data } = built;
            match input {
                Some(one_input) => {
                    let ghost before_in = inputs_view(inputs@);
                    inputs.push(one_input);
                    proof {
                        assert(inputs_view(inputs@) =~= before_in.push(rbv.input->0));
                        assert forall|i: int|
                            0 <= i < k && (#[trigger] rbs[i]).input is Some implies inputs_view(
                            inputs@,
                        ).contains(rbs[i].input->0) by {
                            lemma_push_keeps_contains(before_in, rbv.input->0, rbs[i].input->0);
                        }
                        assert(inputs_view(inputs@)[before_in.len() as int] == rbv.input->0);
                        assert(inputs_view(inputs@).contains(rbv.input->0));
                        assert(inputs_view(inputs@).skip(1) =~= tail_before.push(rbv.input->0));
                        lemma_sender_spent_more_inputs(
                            self.sender@,
                            self.type_script@,
                            recvs,
                            before_in,
                            rbv.input->0,
                            outputs@[0]@,
                            outputs_data@[0]@,
                        );
                    }
                },
                None => {},
            }
            match cell_dep {
                Some(one_dep) => {
                    let ghost before_d = deps_view(cell_deps@);
                    push_cell_dep_dedup(&mut cell_deps, one_dep);
                    proof {
                        lemma_dedup_keeps_distinct(before_d, deps_view(cell_deps@), rbv.cell_dep->0);
                    }
                },
                None => {},
            }
            outputs.push(output);
            outputs_data.push(output_data);
            proof {
                let ghost rbs_before = rbs;
                rbs = rbs.push(rbv);
                assert(rbs.drop_last() =~= rbs_before);
                assert(rbs.last() == rbv);
                match rbv.input {
                    Some(one) => {
                        assert(receiver_inputs(rbs) =~= tail_before.push(one));
                    },
                    None => {
                        assert(receiver_inputs(rbs) =~= tail_before);
                    },
                }
            }
            k = k + 1;
        }
        let ghost cdv = deps_view(cell_deps@);
        let ghost inv = inputs_view(inputs@);
        let tx = Transaction {
            cell_deps,
            header_deps: Vec::new(),
            inputs,
            outputs,
            outputs_data,
            witnesses: Vec::new(),
        };
        proof {
            assert(tx@.cell_deps =~= cdv);
            assert(tx@.inputs =~= inv);
            assert(tx@.outputs[0] == tx.outputs@[0]@);
            assert(tx@.outputs_data[0] == tx.outputs_data@[0]@);
            assert forall|j: int| 0 <= j < tx@.cell_deps.len() implies dep_resolved(
                deps_map,
                #[trigger] tx@.cell_deps[j],
            ) by {
                assert(tx@.cell_deps[j] == cdv[j]);
            }
            assert forall|i: int| 0 <= i < recvs.len() implies receiver_placed(
                #[trigger] recvs[i],
                self.type_script@,
                deps_map,
                tx@.outputs[i + 1],
                tx@.outputs_data[i + 1],
                tx@.inputs,
                tx@.cell_deps,
            ) by {
                assert(tx@.outputs[i + 1] == tx.outputs@[i + 1]@);
                assert(tx@.outputs_data[i + 1] == tx.outputs_data@[i + 1]@);
                assert(receiver_build_ok(recvs[i], self.type_script@, deps_map, rbs[i]));
            }
            assert forall|i: int| 0 <= i < recvs.len() implies tx@.outputs[i + 1] == (
            #[trigger] rbs[i]).output && tx@.outputs_data[i + 1] == rbs[i].output_data by {
                assert(tx@.outputs[i + 1] == tx.outputs@[i + 1]@);
                assert(tx@.outputs_data[i + 1] == tx.outputs_data@[i + 1]@);
            }
            assert(tx@.inputs.skip(1) == inv.skip(1));
            assert(receiver_builds_explain(recvs, self.type_script@, deps_map, tx@, rbs));
            assert(receivers_in_order(recvs, self.type_script@, deps_map, tx@));
        }
        Ok(tx)
    }
}

/// A sender witness stays one when the transaction gains another input.
proof fn lemma_sender_spent_more_inputs(
    sender: ScriptV,
    ts: ScriptV,
    recvs: Seq<UdtTargetReceiverV>,
    inputs: Seq<CellInputV>,
    more: CellInputV,
    out0: CellOutputV,
    data0: Seq<u8>,
)
    requires
        sender_spent(sender, ts, recvs, inputs, out0, data0),
    ensures
        sender_spent(sender, ts, recvs, inputs.push(more), out0, data0),
{
    let cell = choose|cell: LiveCellV| #[trigger] sender_spent_cell(
        sender,
        ts,
        recvs,
        inputs,
        out0,
        data0,
        cell,
    );
    assert(inputs.push(more)[0] == inputs[0]);
    assert(sender_spent_cell(sender, ts, recvs, inputs.push(more), out0, data0, cell));
}

} // verus!
