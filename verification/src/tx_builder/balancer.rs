//! The capacity balancer: selects further live cells until the inputs
//! cover the outputs plus the fee at the target fee-rate, computes a
//! change output or absorbs small change as fee, and accounts for the
//! placeholder witnesses' bytes in that fee.

use vstd::prelude::*;

use crate::sizing::fee_for;
use crate::sizing::fee_for_exec;
use crate::sizing::tx_serialized_size;
use crate::sizing::tx_serialized_size_exec;
use crate::traits::CellCollector;
use crate::traits::HeaderDepResolver;
use crate::traits::CellDepResolver;
use crate::traits::TransactionDependencyProvider;
use crate::tx_builder::TxBuilder;
use crate::tx_builder::TxBuilderError;
use crate::types::CellDep;
use crate::types::CellInput;
use crate::types::CellInputV;
use crate::types::CellOutput;
use crate::types::CellOutputV;
use crate::types::CellQueryOptions;
use crate::types::LiveCellV;
use crate::types::OutPointV;
use crate::types::Script;
use crate::types::ScriptId;
use crate::types::ScriptV;
use crate::types::Transaction;
use crate::types::TransactionV;
use crate::types::bytes_list_view;
use crate::types::copy_bytes;
use crate::types::copy_bytes_vec;
use crate::types::deps_view;
use crate::types::occupied_capacity;
use crate::types::occupied_capacity_shannons;
use crate::types::ScriptGroup;
use crate::types::sum_capacities;
use crate::unlock::unlocker::ScriptUnlocker;
use crate::unlock::unlocker::ScriptUnlockerManager;
use crate::unlock::unlocker::tx_same_skeleton;
use crate::unlock::unlocker::unlock_tx;

verus! {

/// One source of further capacity: live cells under this lock, each
/// taking this placeholder witness until it is signed.
pub struct CapacityProvider {
    pub lock_script: Script,
    pub placeholder_witness: Vec<u8>,
}

/// Mathematical view of a [`CapacityProvider`].
pub struct CapacityProviderV {
    pub lock_script: ScriptV,
    pub placeholder_witness: Seq<u8>,
}

impl View for CapacityProvider {
    type V = CapacityProviderV;

    open spec fn view(&self) -> CapacityProviderV {
        CapacityProviderV {
            lock_script: self.lock_script@,
            placeholder_witness: self.placeholder_witness@,
        }
    }
}

/// The views of a list of capacity providers.
pub open spec fn providers_view(ps: Seq<CapacityProvider>) -> Seq<CapacityProviderV> {
    ps.map_values(|p: CapacityProvider| p@)
}

/// How a transaction's capacity is balanced: the target fee-rate, the
/// capacity sources, the lock of a change output, and whether change too
/// small for its own cell may be left as fee.
pub struct CapacityBalancer {
    /// Shannons per thousand bytes of serialized transaction.
    pub fee_rate: u64,
    pub capacity_providers: Vec<CapacityProvider>,
    /// Lock of the change output; the first provider's lock where absent.
    pub change_lock: Option<Script>,
    /// Leftover up to this much may be left as fee instead of a change
    /// cell.
    pub force_small_change_as_fee: Option<u64>,
}

/// The lock the change output gets.
pub open spec fn chosen_change_lock(
    change_lock: Option<ScriptV>,
    providers: Seq<CapacityProviderV>,
) -> ScriptV {
    match change_lock {
        Some(s) => s,
        None => providers[0].lock_script,
    }
}

/// Every input's cell is known to the provider.
pub open spec fn base_inputs_known(
    tx: TransactionV,
    cells: Map<OutPointV, (CellOutputV, Seq<u8>)>,
) -> bool {
    forall|i: int|
        0 <= i < tx.inputs.len() ==> cells.contains_key((#[trigger] tx.inputs[i]).previous_output)
}

/// Total capacity of the first `n` inputs' cells.
pub open spec fn base_inputs_capacity_upto(
    tx: TransactionV,
    cells: Map<OutPointV, (CellOutputV, Seq<u8>)>,
    n: int,
) -> int
    decreases n,
{
    if n <= 0 {
        0
    } else {
        base_inputs_capacity_upto(tx, cells, n - 1) + cells[tx.inputs[n
            - 1].previous_output].0.capacity
    }
}

/// Total capacity of the draft's own inputs' cells.
pub open spec fn base_inputs_capacity(
    tx: TransactionV,
    cells: Map<OutPointV, (CellOutputV, Seq<u8>)>,
) -> int {
    base_inputs_capacity_upto(tx, cells, tx.inputs.len() as int)
}

/// Total declared capacity of a list of outputs.
pub open spec fn sum_outputs_capacity(os: Seq<CellOutputV>) -> int
    decreases os.len(),
{
    if os.len() == 0 {
        0
    } else {
        sum_outputs_capacity(os.drop_last()) + os.last().capacity
    }
}

/// The cell was collected from one of the capacity providers.
pub open spec fn from_capacity_providers(
    providers: Seq<CapacityProviderV>,
    cell: LiveCellV,
) -> bool {
    exists|p: int|
        0 <= p < providers.len() && (#[trigger] providers[p]).lock_script == cell.output.lock
}

/// How a balanced transaction `tx2` relates to the draft `tx` it grew out
/// of: the draft is kept as a prefix, the added inputs come from the
/// capacity providers, at most one change output is appended, witnesses
/// cover the inputs — and the capacities conserve: everything the inputs
/// hold goes to the outputs or to a fee of at least the target rate.
pub open spec fn balanced_against(
    tx: TransactionV,
    cells: Map<OutPointV, (CellOutputV, Seq<u8>)>,
    providers: Seq<CapacityProviderV>,
    fee_rate: u64,
    change_lock: ScriptV,
    tx2: TransactionV,
    added: Seq<LiveCellV>,
) -> bool {
    &&& tx2.inputs.len() == tx.inputs.len() + added.len()
    &&& (forall|i: int| 0 <= i < tx.inputs.len() ==> tx2.inputs[i] == tx.inputs[i])
    &&& (forall|j: int|
        0 <= j < added.len() ==> tx2.inputs[tx.inputs.len() + j] == (CellInputV {
            previous_output: (#[trigger] added[j]).out_point,
            since: 0,
        }))
    &&& (forall|j: int| 0 <= j < added.len() ==> from_capacity_providers(providers, #[trigger] added[j]))
    &&& tx.outputs.len() <= tx2.outputs.len() <= tx.outputs.len() + 1
    &&& (forall|i: int| 0 <= i < tx.outputs.len() ==> tx2.outputs[i] == tx.outputs[i])
    &&& (tx2.outputs.len() == tx.outputs.len() + 1 ==> tx2.outputs.last().lock == change_lock
        && tx2.outputs.last().type_script is None && tx2.outputs.last().capacity as int
        >= occupied_capacity_shannons(change_lock, None, 0))
    &&& tx2.outputs_data.len() == tx2.outputs.len()
    &&& (forall|i: int| 0 <= i < tx.outputs_data.len() ==> tx2.outputs_data[i] == tx.outputs_data[i])
    &&& (tx2.outputs.len() == tx.outputs.len() + 1 ==> tx2.outputs_data.last() == Seq::<u8>::empty())
    &&& tx2.header_deps == tx.header_deps
    &&& tx.cell_deps.len() <= tx2.cell_deps.len()
    &&& (forall|i: int| 0 <= i < tx.cell_deps.len() ==> tx2.cell_deps[i] == tx.cell_deps[i])
    &&& tx2.witnesses.len() >= tx2.inputs.len()
    &&& (forall|i: int| 0 <= i < tx.witnesses.len() ==> tx2.witnesses[i] == tx.witnesses[i])
    &&& base_inputs_known(tx, cells)
    &&& {
        let total_in = base_inputs_capacity(tx, cells) + sum_capacities(added);
        let total_out = sum_outputs_capacity(tx2.outputs);
        &&& total_out <= total_in
        &&& total_in - total_out <= u64::MAX
        &&& total_in - total_out >= fee_for(tx_serialized_size(tx2), fee_rate)
    }
}

/// The placeholder witness of the first provider whose lock is `lock`.
pub open spec fn placeholder_for(
    providers: Seq<CapacityProviderV>,
    lock: ScriptV,
) -> Option<Seq<u8>>
    decreases providers.len(),
{
    if providers.len() == 0 {
        None
    } else if providers[0].lock_script == lock {
        Some(providers[0].placeholder_witness)
    } else {
        placeholder_for(providers.drop_first(), lock)
    }
}

proof fn lemma_placeholder_first(providers: Seq<CapacityProviderV>, lock: ScriptV, p: int)
    requires
        0 <= p < providers.len(),
        providers[p].lock_script == lock,
        forall|q: int| 0 <= q < p ==> (#[trigger] providers[q]).lock_script != lock,
    ensures
        placeholder_for(providers, lock) == Some(providers[p].placeholder_witness),
    decreases p,
{
    if p > 0 {
        lemma_placeholder_first(providers.drop_first(), lock, p - 1);
    }
}

proof fn lemma_placeholder_none(providers: Seq<CapacityProviderV>, lock: ScriptV)
    requires
        forall|q: int| 0 <= q < providers.len() ==> (#[trigger] providers[q]).lock_script != lock,
    ensures
        placeholder_for(providers, lock) is None,
    decreases providers.len(),
{
    if providers.len() > 0 {
        lemma_placeholder_none(providers.drop_first(), lock);
    }
}

/// The placeholder witness of the first provider whose lock is `lock`,
/// executably.
#[verifier::loop_isolation(false)]
fn find_placeholder<'a>(providers: &'a Vec<CapacityProvider>, lock: &crate::types::Script) -> (r:
    Option<&'a Vec<u8>>)
    ensures
        match r {
            Some(w) => placeholder_for(providers_view(providers@), lock@) == Some(w@),
            None => placeholder_for(providers_view(providers@), lock@) is None,
        },
{
    let ghost pv = providers_view(providers@);
    let n = providers.len();
    let mut p: usize = 0;
    while p < n
        invariant
            n == providers@.len(),
            pv.len() == n,
            0 <= p <= n,
            forall|q: int| 0 <= q < p ==> (#[trigger] pv[q]).lock_script != lock@,
        decreases n - p,
    {
        proof {
            assert(pv[p as int] == providers@[p as int]@);
        }
        if crate::types::script_eq(&providers[p].lock_script, lock) {
            proof {
                lemma_placeholder_first(pv, lock@, p as int);
            }
            return Some(&providers[p].placeholder_witness);
        }
        p = p + 1;
    }
    proof {
        lemma_placeholder_none(pv, lock@);
    }
    None
}

/// What the witness at index `i` becomes when placeholders are filled in:
/// an existing non-empty witness is kept; an input's missing or empty
/// witness becomes its lock's provider placeholder, or stays as it was
/// where no provider owns the lock.
pub open spec fn filled_witness_at(
    tx: TransactionV,
    cells: Map<OutPointV, (CellOutputV, Seq<u8>)>,
    providers: Seq<CapacityProviderV>,
    i: int,
) -> Seq<u8> {
    let existing: Seq<u8> = if 0 <= i < tx.witnesses.len() {
        tx.witnesses[i]
    } else {
        Seq::empty()
    };
    if 0 <= i < tx.witnesses.len() && tx.witnesses[i].len() > 0 {
        existing
    } else if 0 <= i < tx.inputs.len() {
        match placeholder_for(providers, cells[tx.inputs[i].previous_output].0.lock) {
            Some(w) => w,
            None => existing,
        }
    } else {
        existing
    }
}

/// Gives every input whose witness is still missing or empty the
/// placeholder witness of its lock's capacity provider, so later sizing
/// sees the bytes the signatures will take.  Everything else is kept.
#[verifier::loop_isolation(false)]
pub fn fill_placeholder_witnesses<P: TransactionDependencyProvider>(
    tx: &Transaction,
    providers: &Vec<CapacityProvider>,
    tx_dep_provider: &P,
) -> (r: Result<Transaction, TxBuilderError>)
    ensures
        r is Ok ==> ({
            let tx2 = r->Ok_0@;
            let cells = tx_dep_provider.cells();
            let pv = providers_view(providers@);
            &&& tx2.cell_deps == tx@.cell_deps
            &&& tx2.header_deps == tx@.header_deps
            &&& tx2.inputs == tx@.inputs
            &&& tx2.outputs == tx@.outputs
            &&& tx2.outputs_data == tx@.outputs_data
            &&& tx2.witnesses.len() == (if tx@.witnesses.len() < tx@.inputs.len() {
                tx@.inputs.len()
            } else {
                tx@.witnesses.len()
            })
            &&& (forall|i: int|
                0 <= i < tx2.witnesses.len() ==> tx2.witnesses[i] == filled_witness_at(
                    tx@,
                    cells,
                    pv,
                    i,
                ))
        }),
{
    let ghost cells = tx_dep_provider.cells();
    let ghost pv = providers_view(providers@);
    let n: usize = if tx.witnesses.len() < tx.inputs.len() {
        tx.inputs.len()
    } else {
        tx.witnesses.len()
    };
    let mut witnesses: Vec<Vec<u8>> = Vec::new();
    let mut i: usize = 0;
    while i < n
        invariant
            0 <= i <= n,
            witnesses@.len() == i,
            forall|j: int|
                0 <= j < i ==> (#[trigger] witnesses@[j])@ == filled_witness_at(tx@, cells, pv, j),
        decreases n - i,
    {
        let need_fill = i >= tx.witnesses.len() || tx.witnesses[i].len() == 0;
        if need_fill && i < tx.inputs.len() {
            let output = match tx_dep_provider.get_cell(&tx.inputs[i].previous_output) {
                Ok(o) => o,
                Err(e) => { return Err(TxBuilderError::TxDep(e)) },
            };
            match find_placeholder(providers, &output.lock) {
                Some(w) => {
                    witnesses.push(copy_bytes(w));
                },
                None => {
                    if i < tx.witnesses.len() {
                        witnesses.push(copy_bytes(&tx.witnesses[i]));
                    } else {
                        witnesses.push(Vec::new());
                    }
                },
            }
        } else {
            if i < tx.witnesses.len() {
                witnesses.push(copy_bytes(&tx.witnesses[i]));
            } else {
                witnesses.push(Vec::new());
            }
        }
        i = i + 1;
    }
    let mut out = tx.clone();
    out.witnesses = witnesses;
    proof {
        assert(out@.cell_deps == tx@.cell_deps);
        assert(out@.inputs == tx@.inputs);
        assert(out@.outputs == tx@.outputs);
    }
    Ok(out)
}

/// Some selection of provider cells explains the balanced transaction.
pub open spec fn balance_outcome(
    tx: TransactionV,
    cells: Map<OutPointV, (CellOutputV, Seq<u8>)>,
    providers: Seq<CapacityProviderV>,
    fee_rate: u64,
    change_lock: ScriptV,
    tx2: TransactionV,
) -> bool {
    exists|added: Seq<LiveCellV>|
        balanced_against(tx, cells, providers, fee_rate, change_lock, tx2, added)
}

/// Assembles a balancing candidate: the draft plus the added inputs and
/// their placeholder witnesses, and at most a change output.  Witnesses
/// are padded with empty ones up to the draft's input count first.
#[verifier::loop_isolation(false)]
fn assemble(
    tx: &Transaction,
    deps: &Vec<CellDep>,
    added_inputs: &Vec<CellInput>,
    added_wits: &Vec<Vec<u8>>,
    change: Option<CellOutput>,
) -> (r: Transaction)
    requires
        added_inputs@.len() == added_wits@.len(),
        tx@.witnesses.len() <= tx@.inputs.len(),
        tx@.outputs_data.len() == tx@.outputs.len(),
    ensures
        r@.cell_deps == deps_view(deps@),
        r@.header_deps == tx@.header_deps,
        r@.inputs.len() == tx@.inputs.len() + added_inputs@.len(),
        forall|i: int| 0 <= i < tx@.inputs.len() ==> r@.inputs[i] == tx@.inputs[i],
        forall|j: int|
            0 <= j < added_inputs@.len() ==> r@.inputs[tx@.inputs.len() + j] == (
            #[trigger] added_inputs@[j])@,
        r@.outputs == (match change {
            Some(c) => tx@.outputs.push(c@),
            None => tx@.outputs,
        }),
        r@.outputs_data == (match change {
            Some(_) => tx@.outputs_data.push(Seq::<u8>::empty()),
            None => tx@.outputs_data,
        }),
        r@.witnesses.len() == tx@.inputs.len() + added_wits@.len(),
        forall|i: int| 0 <= i < tx@.witnesses.len() ==> r@.witnesses[i] == tx@.witnesses[i],
        forall|i: int|
            tx@.witnesses.len() <= i < tx@.inputs.len() ==> r@.witnesses[i] == Seq::<u8>::empty(),
        forall|j: int|
            0 <= j < added_wits@.len() ==> r@.witnesses[tx@.inputs.len() + j] == (
            #[trigger] added_wits@[j])@,
{
    let mut inputs: Vec<CellInput> = Vec::new();
    let mut i: usize = 0;
    while i < tx.inputs.len()
        invariant
            0 <= i <= tx.inputs@.len(),
            inputs@.len() == i,
            forall|j: int| 0 <= j < i ==> (#[trigger] inputs@[j])@ == tx@.inputs[j],
        decreases tx.inputs@.len() - i,
    {
        inputs.push(tx.inputs[i].clone());
        i = i + 1;
    }
    let mut j: usize = 0;
    while j < added_inputs.len()
        invariant
            0 <= j <= added_inputs@.len(),
            inputs@.len() == tx.inputs@.len() + j,
            forall|k: int| 0 <= k < tx@.inputs.len() ==> (#[trigger] inputs@[k])@ == tx@.inputs[k],
            forall|k: int|
                0 <= k < j ==> (#[trigger] inputs@[tx.inputs@.len() + k])@ == added_inputs@[k]@,
        decreases added_inputs@.len() - j,
    {
        inputs.push(added_inputs[j].clone());
        j = j + 1;
    }
    let mut witnesses: Vec<Vec<u8>> = copy_bytes_vec(&tx.witnesses);
    proof {
        assert(bytes_list_view(witnesses@) == tx@.witnesses);
        assert(witnesses@.len() == tx@.witnesses.len());
    }
    while witnesses.len() < tx.inputs.len()
        invariant
            tx@.witnesses.len() <= witnesses@.len() <= tx@.inputs.len(),
            forall|k: int|
                0 <= k < tx@.witnesses.len() ==> (#[trigger] witnesses@[k])@ == tx@.witnesses[k],
            forall|k: int|
                tx@.witnesses.len() <= k < witnesses@.len() ==> (#[trigger] witnesses@[k])@
                    == Seq::<u8>::empty(),
        decreases tx.inputs@.len() - witnesses@.len(),
    {
        witnesses.push(Vec::new());
    }
    let mut w: usize = 0;
    while w < added_wits.len()
        invariant
            0 <= w <= added_wits@.len(),
            witnesses@.len() == tx.inputs@.len() + w,
            forall|k: int|
                0 <= k < tx@.witnesses.len() ==> (#[trigger] witnesses@[k])@ == tx@.witnesses[k],
            forall|k: int|
                tx@.witnesses.len() <= k < tx@.inputs.len() ==> (#[trigger] witnesses@[k])@
                    == Seq::<u8>::empty(),
            forall|k: int|
                0 <= k < w ==> (#[trigger] witnesses@[tx.inputs@.len() + k])@ == added_wits@[k]@,
        decreases added_wits@.len() - w,
    {
        witnesses.push(copy_bytes(&added_wits[w]));
        w = w + 1;
    }
    let mut outputs: Vec<CellOutput> = Vec::new();
    let mut o: usize = 0;
    while o < tx.outputs.len()
        invariant
            0 <= o <= tx.outputs@.len(),
            outputs@.len() == o,
            forall|k: int| 0 <= k < o ==> (#[trigger] outputs@[k])@ == tx@.outputs[k],
        decreases tx.outputs@.len() - o,
    {
        outputs.push(tx.outputs[o].clone());
        o = o + 1;
    }
    let mut outputs_data: Vec<Vec<u8>> = copy_bytes_vec(&tx.outputs_data);
    let ghost has_change = change is Some;
    match change {
        Some(c) => {
            outputs.push(c);
            outputs_data.push(Vec::new());
        },
        None => {},
    }
    let mut cell_deps: Vec<CellDep> = Vec::new();
    let mut d: usize = 0;
    while d < deps.len()
        invariant
            0 <= d <= deps@.len(),
            cell_deps@.len() == d,
            forall|k: int| 0 <= k < d ==> (#[trigger] cell_deps@[k])@ == deps@[k]@,
        decreases deps@.len() - d,
    {
        cell_deps.push(deps[d].clone());
        d = d + 1;
    }
    let r = Transaction {
        cell_deps,
        header_deps: copy_bytes_vec(&tx.header_deps),
        inputs,
        outputs,
        outputs_data,
        witnesses,
    };
    proof {
        assert(r@.cell_deps =~= deps_view(deps@));
        assert(r@.header_deps =~= tx@.header_deps);
        if has_change {
            assert(r@.outputs =~= tx@.outputs.push(r@.outputs.last()));
            assert(r@.outputs_data =~= tx@.outputs_data.push(Seq::<u8>::empty()));
        } else {
            assert(r@.outputs =~= tx@.outputs);
            assert(r@.outputs_data =~= tx@.outputs_data);
        }
    }
    r
}

impl CapacityBalancer {
    /// The lock the change output would get.
    pub open spec fn change_lock_spec(&self) -> ScriptV {
        chosen_change_lock(
            match self.change_lock {
                Some(s) => Some(s@),
                None => None,
            },
            providers_view(self.capacity_providers@),
        )
    }

    /// Balances `tx`: collects further cells from the capacity providers
    /// until the inputs hold the outputs plus the fee, appends a change
    /// output where the leftover can hold its own cell, and otherwise
    /// leaves small leftover as fee where that is allowed.  The returned
    /// transaction conserves capacity: what the inputs hold beyond the
    /// outputs is a fee of at least the target rate for its serialized
    /// size.
    #[verifier::loop_isolation(false)]
    pub fn balance_tx_capacity<C: CellCollector, D: CellDepResolver, P: TransactionDependencyProvider>(
        &self,
        tx: &Transaction,
        cell_collector: &mut C,
        cell_dep_resolver: &D,
        tx_dep_provider: &P,
    ) -> (r: Result<Transaction, TxBuilderError>)
        requires
            tx@.witnesses.len() <= tx@.inputs.len(),
            tx@.outputs_data.len() == tx@.outputs.len(),
        ensures
            r is Ok ==> balance_outcome(
                tx@,
                tx_dep_provider.cells(),
                providers_view(self.capacity_providers@),
                self.fee_rate,
                self.change_lock_spec(),
                r->Ok_0@,
            ),
    {
        let ghost cells = tx_dep_provider.cells();
        let ghost providers_v = providers_view(self.capacity_providers@);
        let ghost change_lock_spec = self.change_lock_spec();
        // Capacity the draft's own inputs hold.
        let mut base_cap: u64 = 0;
        let mut i: usize = 0;
        while i < tx.inputs.len()
            invariant
                0 <= i <= tx.inputs@.len(),
                base_cap as int == base_inputs_capacity_upto(tx@, cells, i as int),
                forall|k: int|
                    0 <= k < i ==> cells.contains_key((#[trigger] tx@.inputs[k]).previous_output),
            decreases tx.inputs@.len() - i,
        {
            let output = match tx_dep_provider.get_cell(&tx.inputs[i].previous_output) {
                Ok(o) => o,
                Err(e) => { return Err(TxBuilderError::TxDep(e)) },
            };
            if output.capacity > u64::MAX - base_cap {
                return Err(TxBuilderError::Other("input capacity overflows".to_owned()));
            }
            base_cap = base_cap + output.capacity;
            i = i + 1;
        }
        // Capacity the draft's outputs declare.
        let mut out_cap: u64 = 0;
        let mut o: usize = 0;
        while o < tx.outputs.len()
            invariant
                0 <= o <= tx.outputs@.len(),
                out_cap as int == sum_outputs_capacity(tx@.outputs.take(o as int)),
            decreases tx.outputs@.len() - o,
        {
            proof {
                assert(tx@.outputs.take(o as int + 1).drop_last() =~= tx@.outputs.take(o as int));
            }
            if tx.outputs[o].capacity > u64::MAX - out_cap {
                return Err(TxBuilderError::Other("output capacity overflows".to_owned()));
            }
            out_cap = out_cap + tx.outputs[o].capacity;
            o = o + 1;
        }
        proof {
            assert(tx@.outputs.take(tx.outputs@.len() as int) =~= tx@.outputs);
        }
        let mut deps: Vec<CellDep> = Vec::new();
        let mut d: usize = 0;
        while d < tx.cell_deps.len()
            invariant
                0 <= d <= tx.cell_deps@.len(),
                deps@.len() == d,
                forall|k: int| 0 <= k < d ==> (#[trigger] deps@[k])@ == tx@.cell_deps[k],
            decreases tx.cell_deps@.len() - d,
        {
            deps.push(tx.cell_deps[d].clone());
            d = d + 1;
        }
        let mut added_inputs: Vec<CellInput> = Vec::new();
        let mut added_wits: Vec<Vec<u8>> = Vec::new();
        let mut added_cap: u64 = 0;
        let ghost mut added: Seq<LiveCellV> = Seq::empty();
        let mut rounds: usize = 0;
        loop
            invariant
                tx@.witnesses.len() <= tx@.inputs.len(),
                tx@.outputs_data.len() == tx@.outputs.len(),
                cells == tx_dep_provider.cells(),
                providers_v == providers_view(self.capacity_providers@),
                change_lock_spec == self.change_lock_spec(),
                base_inputs_known(tx@, cells),
                base_cap as int == base_inputs_capacity(tx@, cells),
                out_cap as int == sum_outputs_capacity(tx@.outputs),
                added_inputs@.len() == added.len(),
                added_wits@.len() == added.len(),
                added_cap as int == sum_capacities(added),
                forall|j: int|
                    0 <= j < added.len() ==> (#[trigger] added_inputs@[j])@ == (CellInputV {
                        previous_output: added[j].out_point,
                        since: 0,
                    }),
                forall|j: int|
                    0 <= j < added.len() ==> from_capacity_providers(
                        providers_v,
                        #[trigger] added[j],
                    ),
                deps@.len() >= tx.cell_deps@.len(),
                forall|k: int|
                    0 <= k < tx@.cell_deps.len() ==> deps_view(deps@)[k] == tx@.cell_deps[k],
            decreases 64 - rounds,
        {
            if rounds >= 64 {
                return Err(TxBuilderError::BalanceNotConverged);
            }
            if added_cap > u64::MAX - base_cap {
                return Err(TxBuilderError::Other("input capacity overflows".to_owned()));
            }
            let total_in: u64 = base_cap + added_cap;
            // First try to settle without a change output.
            let candidate = assemble(tx, &deps, &added_inputs, &added_wits, None);
            let size_nc = match tx_serialized_size_exec(&candidate) {
                Some(s) => s,
                None => { return Err(TxBuilderError::Other("transaction size overflows".to_owned())) },
            };
            let fee_nc = match fee_for_exec(size_nc, self.fee_rate) {
                Some(f) => f,
                None => { return Err(TxBuilderError::CapacityNotEnough) },
            };
            if fee_nc <= u64::MAX - out_cap && total_in >= out_cap + fee_nc {
                let needed = out_cap + fee_nc;
                if total_in == needed {
                    // The fee is exact; no change.
                    proof {
                        assert forall|j: int| 0 <= j < added.len() implies candidate@.inputs[
                            tx@.inputs.len() + j] == (CellInputV {
                            previous_output: (#[trigger] added[j]).out_point,
                            since: 0,
                        }) by {
                            assert(candidate@.inputs[tx@.inputs.len() + j]
                                == added_inputs@[j]@);
                        }
                        lemma_balanced_no_change(
                            tx@,
                            cells,
                            providers_v,
                            self.fee_rate,
                            change_lock_spec,
                            candidate@,
                            added,
                            total_in as int,
                            out_cap as int,
                            fee_nc as int,
                        );
                        assert(balance_outcome(
                            tx@,
                            tx_dep_provider.cells(),
                            providers_view(self.capacity_providers@),
                            self.fee_rate,
                            self.change_lock_spec(),
                            candidate@,
                        ));
                    }
                    return Ok(candidate);
                }
                let leftover: u64 = total_in - needed;
                // Try a change output carrying the whole leftover beyond
                // the fee of the larger transaction.
                let change_lock: Option<Script> = match &self.change_lock {
                    Some(s) => Some(s.clone()),
                    None => {
                        if self.capacity_providers.len() > 0 {
                            Some(self.capacity_providers[0].lock_script.clone())
                        } else {
                            None
                        }
                    },
                };
                match change_lock {
                    Some(change_script) => {
                        let ghost csv = change_script@;
                        proof {
                            assert(csv == change_lock_spec);
                        }
                        let change_occupied = match occupied_capacity(&change_script, None, 0) {
                            Some(v) => v,
                            None => {
                                return Err(
                                    TxBuilderError::Other("change cell occupies too much".to_owned()),
                                );
                            },
                        };
                        let probe = CellOutput {
                            capacity: 0,
                            lock: change_script.clone(),
                            type_script: None,
                        };
                        let cand_probe = assemble(tx, &deps, &added_inputs, &added_wits, Some(probe));
                        let size_c = match tx_serialized_size_exec(&cand_probe) {
                            Some(s) => s,
                            None => {
                                return Err(
                                    TxBuilderError::Other("transaction size overflows".to_owned()),
                                );
                            },
                        };
                        let fee_c = match fee_for_exec(size_c, self.fee_rate) {
                            Some(f) => f,
                            None => { return Err(TxBuilderError::CapacityNotEnough) },
                        };
                        if fee_c <= u64::MAX - out_cap && total_in >= out_cap + fee_c {
                            let change_value: u64 = total_in - out_cap - fee_c;
                            if change_value >= change_occupied {
                                let final_change = CellOutput {
                                    capacity: change_value,
                                    lock: change_script,
                                    type_script: None,
                                };
                                let cand_final = assemble(
                                    tx,
                                    &deps,
                                    &added_inputs,
                                    &added_wits,
                                    Some(final_change),
                                );
                                proof {
                                    assert forall|k: int|
                                        0 <= k < cand_probe@.inputs.len() implies cand_probe@.inputs[k]
                                        == cand_final@.inputs[k] by {
                                        if tx@.inputs.len() <= k {
                                            let j = k - tx@.inputs.len();
                                            assert(cand_probe@.inputs[tx@.inputs.len() + j] == (
                                            #[trigger] added_inputs@[j])@);
                                            assert(cand_final@.inputs[tx@.inputs.len() + j]
                                                == added_inputs@[j]@);
                                        }
                                    }
                                    assert(cand_probe@.inputs =~= cand_final@.inputs);
                                    assert forall|k: int|
                                        0 <= k < cand_probe@.witnesses.len() implies cand_probe@.witnesses[k]
                                        == cand_final@.witnesses[k] by {
                                        if tx@.inputs.len() <= k {
                                            let j = k - tx@.inputs.len();
                                            assert(cand_probe@.witnesses[tx@.inputs.len() + j] == (
                                            #[trigger] added_wits@[j])@);
                                            assert(cand_final@.witnesses[tx@.inputs.len() + j]
                                                == added_wits@[j]@);
                                        }
                                    }
                                    assert(cand_probe@.witnesses =~= cand_final@.witnesses);
                                    assert(cand_probe@.cell_deps == cand_final@.cell_deps);
                                    assert(cand_probe@.header_deps == cand_final@.header_deps);
                                    assert(cand_probe@.outputs_data == cand_final@.outputs_data);
                                    assert forall|j: int| 0 <= j < added.len() implies cand_final@.inputs[
                                        tx@.inputs.len() + j] == (CellInputV {
                                        previous_output: (#[trigger] added[j]).out_point,
                                        since: 0,
                                    }) by {
                                        assert(cand_final@.inputs[tx@.inputs.len() + j]
                                            == added_inputs@[j]@);
                                    }
                                    lemma_balanced_with_change(
                                        tx@,
                                        cells,
                                        providers_v,
                                        self.fee_rate,
                                        change_lock_spec,
                                        cand_probe@,
                                        cand_final@,
                                        added,
                                        total_in as int,
                                        out_cap as int,
                                        fee_c as int,
                                        change_value,
                                    );
                                    assert(balance_outcome(
                                        tx@,
                                        tx_dep_provider.cells(),
                                        providers_view(self.capacity_providers@),
                                        self.fee_rate,
                                        self.change_lock_spec(),
                                        cand_final@,
                                    ));
                                }
                                return Ok(cand_final);
                            }
                        }
                    },
                    None => {},
                }
                // The leftover cannot hold a change cell; maybe it may
                // stay as fee.
                match self.force_small_change_as_fee {
                    Some(threshold) => {
                        if leftover <= threshold {
                            proof {
                                assert forall|j: int| 0 <= j < added.len() implies candidate@.inputs[
                                    tx@.inputs.len() + j] == (CellInputV {
                                    previous_output: (#[trigger] added[j]).out_point,
                                    since: 0,
                                }) by {
                                    assert(candidate@.inputs[tx@.inputs.len() + j]
                                        == added_inputs@[j]@);
                                }
                                lemma_balanced_absorbed(
                                    tx@,
                                    cells,
                                    providers_v,
                                    self.fee_rate,
                                    change_lock_spec,
                                    candidate@,
                                    added,
                                    total_in as int,
                                    out_cap as int,
                                    fee_nc as int,
                                );
                                assert(balance_outcome(
                                    tx@,
                                    tx_dep_provider.cells(),
                                    providers_view(self.capacity_providers@),
                                    self.fee_rate,
                                    self.change_lock_spec(),
                                    candidate@,
                                ));
                            }
                            return Ok(candidate);
                        }
                    },
                    None => {},
                }
            }
            // Not enough yet, or the change is dust: ask the providers
            // for the missing capacity and consume what comes back.
            let deficit: u64 = if fee_nc <= u64::MAX - out_cap && out_cap + fee_nc > total_in {
                out_cap + fee_nc - total_in
            } else {
                1
            };
            let mut got = false;
            let mut p: usize = 0;
            while p < self.capacity_providers.len() && !got
                invariant
                    0 <= p <= self.capacity_providers@.len(),
                    providers_v == providers_view(self.capacity_providers@),
                    added_inputs@.len() == added.len(),
                    added_wits@.len() == added.len(),
                    added_cap as int == sum_capacities(added),
                    forall|j: int|
                        0 <= j < added.len() ==> (#[trigger] added_inputs@[j])@ == (CellInputV {
                            previous_output: added[j].out_point,
                            since: 0,
                        }),
                    forall|j: int|
                        0 <= j < added.len() ==> from_capacity_providers(
                            providers_v,
                            #[trigger] added[j],
                        ),
                    deps@.len() >= tx.cell_deps@.len(),
                    forall|k: int|
                        0 <= k < tx@.cell_deps.len() ==> deps_view(deps@)[k] == tx@.cell_deps[k],
                decreases self.capacity_providers@.len() - p,
            {
                let provider = &self.capacity_providers[p];
                let mut query = CellQueryOptions::new_lock(provider.lock_script.clone());
                query.min_total_capacity = deficit;
                let (found, _total) = match cell_collector.collect_live_cells(&query, true) {
                    Ok(pair) => pair,
                    Err(e) => { return Err(TxBuilderError::CellCollector(e)) },
                };
                if found.len() > 0 {
                    let lock_script_id = ScriptId::from_script(&provider.lock_script);
                    let lock_dep = match cell_dep_resolver.resolve(&lock_script_id) {
                        Some(dep) => dep,
                        None => { return Err(TxBuilderError::ResolveCellDepFailed(lock_script_id)) },
                    };
                    let ghost before = deps_view(deps@);
                    crate::tx_builder::push_cell_dep_dedup(&mut deps, lock_dep);
                    proof {
                        assert forall|k: int| 0 <= k < tx@.cell_deps.len() implies deps_view(
                            deps@,
                        )[k] == tx@.cell_deps[k] by {
                            assert(before[k] == tx@.cell_deps[k]);
                        }
                    }
                    let mut c: usize = 0;
                    while c < found.len()
                        invariant
                            0 <= c <= found@.len(),
                            forall|m: int| 0 <= m < found@.len() ==> query@.matches(
                                #[trigger] found@[m]@,
                            ),
                            query@.primary_script == providers_v[p as int].lock_script,
                            0 <= (p as int) < providers_v.len(),
                            query@.primary_type == crate::types::PrimaryScriptType::Lock,
                            added_inputs@.len() == added.len(),
                            added_wits@.len() == added.len(),
                            added_cap as int == sum_capacities(added),
                            forall|j: int|
                                0 <= j < added.len() ==> (#[trigger] added_inputs@[j])@ == (
                                CellInputV { previous_output: added[j].out_point, since: 0 }),
                            forall|j: int|
                                0 <= j < added.len() ==> from_capacity_providers(
                                    providers_v,
                                    #[trigger] added[j],
                                ),
                        decreases found@.len() - c,
                    {
                        let cell = &found[c];
                        if cell.output.capacity > u64::MAX - added_cap {
                            return Err(
                                TxBuilderError::Other("input capacity overflows".to_owned()),
                            );
                        }
                        added_cap = added_cap + cell.output.capacity;
                        added_inputs.push(CellInput::new(cell.out_point.clone(), 0));
                        added_wits.push(copy_bytes(&provider.placeholder_witness));
                        proof {
                            let ghost before_added = added;
                            added = added.push(found@[c as int]@);
                            assert(added.drop_last() =~= before_added);
                            assert(added.last() == found@[c as int]@);
                            assert(query@.matches(found@[c as int]@));
                            assert(providers_v[p as int].lock_script == found@[
                                c as int]@.output.lock);
                            assert(from_capacity_providers(providers_v, found@[c as int]@));
                        }
                        c = c + 1;
                    }
                    got = true;
                }
                p = p + 1;
            }
            if !got {
                return Err(TxBuilderError::CapacityNotEnough);
            }
            rounds = rounds + 1;
        }
    }
}

/// A transaction that was balanced and then unlocked: some base draft was
/// balanced into a middle transaction, and unlocking changed nothing but
/// the witnesses.  The conservation law holds of the middle transaction,
/// whose inputs, outputs and deps the final transaction shares.
pub open spec fn built_and_balanced(
    cells: Map<OutPointV, (CellOutputV, Seq<u8>)>,
    providers: Seq<CapacityProviderV>,
    fee_rate: u64,
    change_lock: ScriptV,
    final_tx: TransactionV,
) -> bool {
    exists|base: TransactionV, mid: TransactionV|
        #![trigger balance_outcome(base, cells, providers, fee_rate, change_lock, mid)]
        balance_outcome(base, cells, providers, fee_rate, change_lock, mid) && tx_same_skeleton(
            mid,
            final_tx,
        )
}

/// The whole pipeline: build the base transaction, fill the placeholder
/// witnesses of its inputs, balance its capacity against the fee at the
/// target rate, and unlock every script group a registered unlocker
/// takes.  Returns the final transaction and the groups still locked.
pub fn build_balanced<
    B: TxBuilder,
    C: CellCollector,
    D: CellDepResolver,
    H: HeaderDepResolver,
    P: TransactionDependencyProvider,
    U: ScriptUnlocker,
>(
    builder: &B,
    balancer: &CapacityBalancer,
    unlockers: &ScriptUnlockerManager<U>,
    cell_collector: &mut C,
    cell_dep_resolver: &D,
    header_dep_resolver: &H,
    tx_dep_provider: &P,
) -> (r: Result<(Transaction, Vec<ScriptGroup>), TxBuilderError>)
    ensures
        r is Ok ==> built_and_balanced(
            tx_dep_provider.cells(),
            providers_view(balancer.capacity_providers@),
            balancer.fee_rate,
            balancer.change_lock_spec(),
            r->Ok_0.0@,
        ),
{
    let base = match builder.build_base(
        cell_collector,
        cell_dep_resolver,
        header_dep_resolver,
        tx_dep_provider,
    ) {
        Ok(tx) => tx,
        Err(e) => { return Err(e) },
    };
    let filled = match fill_placeholder_witnesses(
        &base,
        &balancer.capacity_providers,
        tx_dep_provider,
    ) {
        Ok(tx) => tx,
        Err(e) => { return Err(e) },
    };
    let balanced = match balancer.balance_tx_capacity(
        &filled,
        cell_collector,
        cell_dep_resolver,
        tx_dep_provider,
    ) {
        Ok(tx) => tx,
        Err(e) => { return Err(e) },
    };
    let (final_tx, still_locked) = match unlock_tx(&balanced, tx_dep_provider, unlockers) {
        Ok(pair) => pair,
        Err(e) => { return Err(TxBuilderError::Unlock(e)) },
    };
    proof {
        assert(balance_outcome(
            filled@,
            tx_dep_provider.cells(),
            providers_view(balancer.capacity_providers@),
            balancer.fee_rate,
            balancer.change_lock_spec(),
            balanced@,
        ));
        assert(tx_same_skeleton(balanced@, final_tx@));
        assert(built_and_balanced(
            tx_dep_provider.cells(),
            providers_view(balancer.capacity_providers@),
            balancer.fee_rate,
            balancer.change_lock_spec(),
            final_tx@,
        ));
    }
    Ok((final_tx, still_locked))
}

/// Appending an output adds its capacity to the total.
proof fn lemma_sum_outputs_push(os: Seq<CellOutputV>, o: CellOutputV)
    ensures
        sum_outputs_capacity(os.push(o)) == sum_outputs_capacity(os) + o.capacity,
{
    assert(os.push(o).drop_last() =~= os);
}

/// The settled candidate without change is balanced.
proof fn lemma_balanced_no_change(
    tx: TransactionV,
    cells: Map<OutPointV, (CellOutputV, Seq<u8>)>,
    providers: Seq<CapacityProviderV>,
    fee_rate: u64,
    change_lock: ScriptV,
    tx2: TransactionV,
    added: Seq<LiveCellV>,
    total_in: int,
    out_cap: int,
    fee: int,
)
    requires
        base_inputs_known(tx, cells),
        total_in == base_inputs_capacity(tx, cells) + sum_capacities(added),
        out_cap == sum_outputs_capacity(tx.outputs),
        total_in == out_cap + fee,
        0 <= fee <= u64::MAX,
        fee >= fee_for(tx_serialized_size(tx2), fee_rate),
        tx2.inputs.len() == tx.inputs.len() + added.len(),
        forall|i: int| 0 <= i < tx.inputs.len() ==> tx2.inputs[i] == tx.inputs[i],
        forall|j: int|
            0 <= j < added.len() ==> tx2.inputs[tx.inputs.len() + j] == (CellInputV {
                previous_output: (#[trigger] added[j]).out_point,
                since: 0,
            }),
        forall|j: int| 0 <= j < added.len() ==> from_capacity_providers(providers, #[trigger] added[j]),
        tx2.outputs == tx.outputs,
        tx2.outputs_data == tx.outputs_data,
        tx.outputs_data.len() == tx.outputs.len(),
        tx2.header_deps == tx.header_deps,
        tx.cell_deps.len() <= tx2.cell_deps.len(),
        forall|i: int| 0 <= i < tx.cell_deps.len() ==> tx2.cell_deps[i] == tx.cell_deps[i],
        tx2.witnesses.len() >= tx2.inputs.len(),
        forall|i: int| 0 <= i < tx.witnesses.len() ==> tx2.witnesses[i] == tx.witnesses[i],
    ensures
        balanced_against(tx, cells, providers, fee_rate, change_lock, tx2, added),
{
}

/// The settled candidate whose leftover stays as fee is balanced.
proof fn lemma_balanced_absorbed(
    tx: TransactionV,
    cells: Map<OutPointV, (CellOutputV, Seq<u8>)>,
    providers: Seq<CapacityProviderV>,
    fee_rate: u64,
    change_lock: ScriptV,
    tx2: TransactionV,
    added: Seq<LiveCellV>,
    total_in: int,
    out_cap: int,
    fee_floor: int,
)
    requires
        base_inputs_known(tx, cells),
        total_in == base_inputs_capacity(tx, cells) + sum_capacities(added),
        out_cap == sum_outputs_capacity(tx.outputs),
        total_in >= out_cap + fee_floor,
        0 <= total_in <= u64::MAX,
        out_cap >= 0,
        fee_floor >= 0,
        fee_floor >= fee_for(tx_serialized_size(tx2), fee_rate),
        tx2.inputs.len() == tx.inputs.len() + added.len(),
        forall|i: int| 0 <= i < tx.inputs.len() ==> tx2.inputs[i] == tx.inputs[i],
        forall|j: int|
            0 <= j < added.len() ==> tx2.inputs[tx.inputs.len() + j] == (CellInputV {
                previous_output: (#[trigger] added[j]).out_point,
                since: 0,
            }),
        forall|j: int| 0 <= j < added.len() ==> from_capacity_providers(providers, #[trigger] added[j]),
        tx2.outputs == tx.outputs,
        tx2.outputs_data == tx.outputs_data,
        tx.outputs_data.len() == tx.outputs.len(),
        tx2.header_deps == tx.header_deps,
        tx.cell_deps.len() <= tx2.cell_deps.len(),
        forall|i: int| 0 <= i < tx.cell_deps.len() ==> tx2.cell_deps[i] == tx.cell_deps[i],
        tx2.witnesses.len() >= tx2.inputs.len(),
        forall|i: int| 0 <= i < tx.witnesses.len() ==> tx2.witnesses[i] == tx.witnesses[i],
    ensures
        balanced_against(tx, cells, providers, fee_rate, change_lock, tx2, added),
{
}

/// The settled candidate with a change output is balanced.
proof fn lemma_balanced_with_change(
    tx: TransactionV,
    cells: Map<OutPointV, (CellOutputV, Seq<u8>)>,
    providers: Seq<CapacityProviderV>,
    fee_rate: u64,
    change_lock: ScriptV,
    probe: TransactionV,
    tx2: TransactionV,
    added: Seq<LiveCellV>,
    total_in: int,
    out_cap: int,
    fee: int,
    change_value: u64,
)
    requires
        base_inputs_known(tx, cells),
        total_in == base_inputs_capacity(tx, cells) + sum_capacities(added),
        out_cap == sum_outputs_capacity(tx.outputs),
        total_in == out_cap + change_value + fee,
        0 <= fee <= u64::MAX,
        fee >= fee_for(tx_serialized_size(probe), fee_rate),
        change_value as int >= occupied_capacity_shannons(change_lock, None, 0),
        // The probe and the final candidate differ only in the change
        // output's declared capacity.
        probe.cell_deps == tx2.cell_deps,
        probe.header_deps == tx2.header_deps,
        probe.inputs == tx2.inputs,
        probe.outputs == tx.outputs.push(
            CellOutputV { capacity: 0, lock: change_lock, type_script: None },
        ),
        probe.outputs_data == tx2.outputs_data,
        probe.witnesses == tx2.witnesses,
        tx2.inputs.len() == tx.inputs.len() + added.len(),
        forall|i: int| 0 <= i < tx.inputs.len() ==> tx2.inputs[i] == tx.inputs[i],
        forall|j: int|
            0 <= j < added.len() ==> tx2.inputs[tx.inputs.len() + j] == (CellInputV {
                previous_output: (#[trigger] added[j]).out_point,
                since: 0,
            }),
        forall|j: int| 0 <= j < added.len() ==> from_capacity_providers(providers, #[trigger] added[j]),
        tx2.outputs == tx.outputs.push(
            CellOutputV { capacity: change_value, lock: change_lock, type_script: None },
        ),
        tx2.outputs_data == tx.outputs_data.push(Seq::<u8>::empty()),
        tx.outputs_data.len() == tx.outputs.len(),
        tx2.header_deps == tx.header_deps,
        tx.cell_deps.len() <= tx2.cell_deps.len(),
        forall|i: int| 0 <= i < tx.cell_deps.len() ==> tx2.cell_deps[i] == tx.cell_deps[i],
        tx2.witnesses.len() >= tx2.inputs.len(),
        forall|i: int| 0 <= i < tx.witnesses.len() ==> tx2.witnesses[i] == tx.witnesses[i],
    ensures
        balanced_against(tx, cells, providers, fee_rate, change_lock, tx2, added),
{
    lemma_sum_outputs_push(
        tx.outputs,
        CellOutputV { capacity: change_value, lock: change_lock, type_script: None },
    );
    // The serialized size ignores the declared capacity, so the probe's
    // fee floor carries over to the final candidate.
    assert(crate::sizing::outputs_ser_size(probe.outputs) == crate::sizing::outputs_ser_size(
        tx2.outputs,
    )) by {
        assert(probe.outputs.drop_last() =~= tx.outputs);
        assert(tx2.outputs.drop_last() =~= tx.outputs);
        assert(crate::sizing::output_ser_size(probe.outputs.last())
            == crate::sizing::output_ser_size(tx2.outputs.last()));
    }
    assert(tx_serialized_size(probe) == tx_serialized_size(tx2));
    assert(tx2.outputs.last().capacity == change_value);
    assert(tx2.outputs.len() == tx.outputs.len() + 1);
}

} // verus!
