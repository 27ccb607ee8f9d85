//! The data model: scripts, out-points, cells, transactions and script
//! groups, all as plain values, together with their mathematical views.

use vstd::prelude::*;

use crate::SHANNONS_PER_BYTE;

verus! {

/// How a script references its code: by data hash, by type hash, or by
/// data hash under the newer hash rule.
#[derive(Clone, Copy, PartialEq, Eq, Structural, Debug, Hash)]
pub enum HashType {
    Data,
    Type,
    Data1,
}

/// The byte that the chain uses to encode a hash type.
pub open spec fn hash_type_byte(t: HashType) -> u8 {
    match t {
        HashType::Data => 0,
        HashType::Type => 1,
        HashType::Data1 => 2,
    }
}

/// An on-chain predicate: code reference plus its argument bytes.
pub struct Script {
    pub code_hash: Vec<u8>,
    pub hash_type: HashType,
    pub args: Vec<u8>,
}

/// Mathematical view of a [`Script`].
pub struct ScriptV {
    pub code_hash: Seq<u8>,
    pub hash_type: HashType,
    pub args: Seq<u8>,
}

impl View for Script {
    type V = ScriptV;

    open spec fn view(&self) -> ScriptV {
        ScriptV { code_hash: self.code_hash@, hash_type: self.hash_type, args: self.args@ }
    }
}

impl ScriptV {
    /// A code hash is 32 bytes.
    pub open spec fn wf(self) -> bool {
        self.code_hash.len() == 32
    }
}

/// Identity of a deployed script: its code reference without the args.
/// Stable key into cell-dep and unlocker registries.
pub struct ScriptId {
    pub code_hash: Vec<u8>,
    pub hash_type: HashType,
}

/// Mathematical view of a [`ScriptId`].
pub struct ScriptIdV {
    pub code_hash: Seq<u8>,
    pub hash_type: HashType,
}

impl View for ScriptId {
    type V = ScriptIdV;

    open spec fn view(&self) -> ScriptIdV {
        ScriptIdV { code_hash: self.code_hash@, hash_type: self.hash_type }
    }
}

/// The identity of a script value.
pub open spec fn script_id_of(s: ScriptV) -> ScriptIdV {
    ScriptIdV { code_hash: s.code_hash, hash_type: s.hash_type }
}

impl ScriptId {
    /// The identity of `script`.
    pub fn from_script(script: &Script) -> (r: ScriptId)
        ensures
            r@ == script_id_of(script@),
    {
        ScriptId { code_hash: copy_bytes(&script.code_hash), hash_type: script.hash_type }
    }
}

/// Reference to a cell by the transaction that created it and the output
/// index inside that transaction.
pub struct OutPoint {
    pub tx_hash: Vec<u8>,
    pub index: u32,
}

/// Mathematical view of an [`OutPoint`].
pub struct OutPointV {
    pub tx_hash: Seq<u8>,
    pub index: u32,
}

impl View for OutPoint {
    type V = OutPointV;

    open spec fn view(&self) -> OutPointV {
        OutPointV { tx_hash: self.tx_hash@, index: self.index }
    }
}

impl OutPoint {
    pub fn new(tx_hash: Vec<u8>, index: u32) -> (r: OutPoint)
        ensures
            r@ == (OutPointV { tx_hash: tx_hash@, index }),
    {
        OutPoint { tx_hash, index }
    }
}

/// A consumed cell reference together with its maturity (`since`) field.
pub struct CellInput {
    pub previous_output: OutPoint,
    pub since: u64,
}

/// Mathematical view of a [`CellInput`].
pub struct CellInputV {
    pub previous_output: OutPointV,
    pub since: u64,
}

impl View for CellInput {
    type V = CellInputV;

    open spec fn view(&self) -> CellInputV {
        CellInputV { previous_output: self.previous_output@, since: self.since }
    }
}

impl CellInput {
    pub fn new(previous_output: OutPoint, since: u64) -> (r: CellInput)
        ensures
            r@ == (CellInputV { previous_output: previous_output@, since }),
    {
        CellInput { previous_output, since }
    }
}

/// A cell: capacity in shannons, the lock that guards it, and an optional
/// type script.
pub struct CellOutput {
    pub capacity: u64,
    pub lock: Script,
    pub type_script: Option<Script>,
}

/// Mathematical view of a [`CellOutput`].
pub struct CellOutputV {
    pub capacity: u64,
    pub lock: ScriptV,
    pub type_script: Option<ScriptV>,
}

impl View for CellOutput {
    type V = CellOutputV;

    open spec fn view(&self) -> CellOutputV {
        CellOutputV {
            capacity: self.capacity,
            lock: self.lock@,
            type_script: match self.type_script {
                Some(ref s) => Some(s@),
                None => None,
            },
        }
    }
}

/// Whether a dep cell is used directly or is a group of deps.
#[derive(Clone, Copy, PartialEq, Eq, Structural, Debug, Hash)]
pub enum DepType {
    Code,
    DepGroup,
}

/// An auxiliary cell a transaction depends on for script code.
pub struct CellDep {
    pub out_point: OutPoint,
    pub dep_type: DepType,
}

/// Mathematical view of a [`CellDep`].
pub struct CellDepV {
    pub out_point: OutPointV,
    pub dep_type: DepType,
}

impl View for CellDep {
    type V = CellDepV;

    open spec fn view(&self) -> CellDepV {
        CellDepV { out_point: self.out_point@, dep_type: self.dep_type }
    }
}

/// An unspent cell as a collector reports it.
pub struct LiveCell {
    pub out_point: OutPoint,
    pub output: CellOutput,
    pub output_data: Vec<u8>,
    pub block_number: u64,
    pub tx_index: u32,
}

/// Mathematical view of a [`LiveCell`].
pub struct LiveCellV {
    pub out_point: OutPointV,
    pub output: CellOutputV,
    pub output_data: Seq<u8>,
    pub block_number: u64,
    pub tx_index: u32,
}

impl View for LiveCell {
    type V = LiveCellV;

    open spec fn view(&self) -> LiveCellV {
        LiveCellV {
            out_point: self.out_point@,
            output: self.output@,
            output_data: self.output_data@,
            block_number: self.block_number,
            tx_index: self.tx_index,
        }
    }
}

/// The three optional byte-string fields a witness is structured into.
pub struct WitnessArgs {
    pub lock: Option<Vec<u8>>,
    pub input_type: Option<Vec<u8>>,
    pub output_type: Option<Vec<u8>>,
}

/// Mathematical view of a [`WitnessArgs`].
pub struct WitnessArgsV {
    pub lock: Option<Seq<u8>>,
    pub input_type: Option<Seq<u8>>,
    pub output_type: Option<Seq<u8>>,
}

impl View for WitnessArgs {
    type V = WitnessArgsV;

    open spec fn view(&self) -> WitnessArgsV {
        WitnessArgsV {
            lock: match self.lock {
                Some(ref b) => Some(b@),
                None => None,
            },
            input_type: match self.input_type {
                Some(ref b) => Some(b@),
                None => None,
            },
            output_type: match self.output_type {
                Some(ref b) => Some(b@),
                None => None,
            },
        }
    }
}

/// The views of a list of byte vectors.
pub open spec fn bytes_list_view(v: Seq<Vec<u8>>) -> Seq<Seq<u8>> {
    v.map_values(|x: Vec<u8>| x@)
}

/// The views of a list of cell deps.
pub open spec fn deps_view(deps: Seq<CellDep>) -> Seq<CellDepV> {
    deps.map_values(|d: CellDep| d@)
}

/// The views of a list of cell inputs.
pub open spec fn inputs_view(s: Seq<CellInput>) -> Seq<CellInputV> {
    s.map_values(|i: CellInput| i@)
}

/// The views of a list of cell outputs.
pub open spec fn outputs_view(s: Seq<CellOutput>) -> Seq<CellOutputV> {
    s.map_values(|o: CellOutput| o@)
}

/// A transaction under construction: parallel lists of deps, inputs,
/// outputs, output data and witnesses.
pub struct Transaction {
    pub cell_deps: Vec<CellDep>,
    pub header_deps: Vec<Vec<u8>>,
    pub inputs: Vec<CellInput>,
    pub outputs: Vec<CellOutput>,
    pub outputs_data: Vec<Vec<u8>>,
    pub witnesses: Vec<Vec<u8>>,
}

/// Mathematical view of a [`Transaction`].
pub struct TransactionV {
    pub cell_deps: Seq<CellDepV>,
    pub header_deps: Seq<Seq<u8>>,
    pub inputs: Seq<CellInputV>,
    pub outputs: Seq<CellOutputV>,
    pub outputs_data: Seq<Seq<u8>>,
    pub witnesses: Seq<Seq<u8>>,
}

impl View for Transaction {
    type V = TransactionV;

    open spec fn view(&self) -> TransactionV {
        TransactionV {
            cell_deps: deps_view(self.cell_deps@),
            header_deps: bytes_list_view(self.header_deps@),
            inputs: inputs_view(self.inputs@),
            outputs: outputs_view(self.outputs@),
            outputs_data: bytes_list_view(self.outputs_data@),
            witnesses: bytes_list_view(self.witnesses@),
        }
    }
}

impl TransactionV {
    /// Output data runs parallel to outputs.
    pub open spec fn wf(self) -> bool {
        self.outputs.len() == self.outputs_data.len()
    }
}

impl Transaction {
    /// A transaction with no content at all.
    pub fn new_empty() -> (r: Transaction)
        ensures
            r@.cell_deps.len() == 0,
            r@.header_deps.len() == 0,
            r@.inputs.len() == 0,
            r@.outputs.len() == 0,
            r@.outputs_data.len() == 0,
            r@.witnesses.len() == 0,
    {
        Transaction {
            cell_deps: Vec::new(),
            header_deps: Vec::new(),
            inputs: Vec::new(),
            outputs: Vec::new(),
            outputs_data: Vec::new(),
            witnesses: Vec::new(),
        }
    }
}

/// Whether a script group was formed over lock scripts or type scripts.
#[derive(Clone, Copy, PartialEq, Eq, Structural, Debug, Hash)]
pub enum ScriptGroupType {
    Lock,
    Type,
}

/// The inputs (and, for type groups, outputs) of a transaction that share
/// one script.
pub struct ScriptGroup {
    pub script: Script,
    pub group_type: ScriptGroupType,
    pub input_indices: Vec<usize>,
    pub output_indices: Vec<usize>,
}

/// Mathematical view of a [`ScriptGroup`].
pub struct ScriptGroupV {
    pub script: ScriptV,
    pub group_type: ScriptGroupType,
    pub input_indices: Seq<usize>,
    pub output_indices: Seq<usize>,
}

impl View for ScriptGroup {
    type V = ScriptGroupV;

    open spec fn view(&self) -> ScriptGroupV {
        ScriptGroupV {
            script: self.script@,
            group_type: self.group_type,
            input_indices: self.input_indices@,
            output_indices: self.output_indices@,
        }
    }
}

// ---------------------------------------------------------------------
// Byte-vector helpers
// ---------------------------------------------------------------------

/// A fresh copy of a byte vector.
pub fn copy_bytes(v: &Vec<u8>) -> (r: Vec<u8>)
    ensures
        r@ == v@,
{
    let mut out: Vec<u8> = Vec::new();
    let mut i: usize = 0;
    while i < v.len()
        invariant
            0 <= i <= v@.len(),
            out@ == v@.subrange(0, i as int),
        decreases v@.len() - i,
    {
        out.push(v[i]);
        proof {
            assert(out@ =~= v@.subrange(0, i + 1 as int));
        }
        i = i + 1;
    }
    proof {
        assert(out@ =~= v@);
    }
    out
}

/// Byte-for-byte equality of two vectors.
pub fn bytes_eq(a: &Vec<u8>, b: &Vec<u8>) -> (r: bool)
    ensures
        r == (a@ == b@),
{
    if a.len() != b.len() {
        return false;
    }
    let mut i: usize = 0;
    while i < a.len()
        invariant
            0 <= i <= a@.len(),
            a@.len() == b@.len(),
            forall|j: int| 0 <= j < i ==> a@[j] == b@[j],
        decreases a@.len() - i,
    {
        if a[i] != b[i] {
            return false;
        }
        i = i + 1;
    }
    proof {
        assert(a@ =~= b@);
    }
    true
}

/// Equality of two optional byte vectors.
pub fn opt_bytes_eq(a: &Option<Vec<u8>>, b: &Option<Vec<u8>>) -> (r: bool)
    ensures
        r == (match (a, b) {
            (Some(x), Some(y)) => x@ == y@,
            (None, None) => true,
            _ => false,
        }),
{
    match (a, b) {
        (Some(x), Some(y)) => bytes_eq(x, y),
        (None, None) => true,
        _ => false,
    }
}

// ---------------------------------------------------------------------
// Structural equality of model values
// ---------------------------------------------------------------------

/// Structural equality of two scripts.
pub fn script_eq(a: &Script, b: &Script) -> (r: bool)
    ensures
        r == (a@ == b@),
{
    let r = bytes_eq(&a.code_hash, &b.code_hash) && a.hash_type == b.hash_type && bytes_eq(
        &a.args,
        &b.args,
    );
    r
}

/// Structural equality of two optional scripts.
pub fn opt_script_eq(a: &Option<Script>, b: &Option<Script>) -> (r: bool)
    ensures
        r == (match (a, b) {
            (Some(x), Some(y)) => x@ == y@,
            (None, None) => true,
            _ => false,
        }),
{
    match (a, b) {
        (Some(x), Some(y)) => script_eq(x, y),
        (None, None) => true,
        _ => false,
    }
}

/// Structural equality of two script identities.
pub fn script_id_eq(a: &ScriptId, b: &ScriptId) -> (r: bool)
    ensures
        r == (a@ == b@),
{
    bytes_eq(&a.code_hash, &b.code_hash) && a.hash_type == b.hash_type
}

/// Structural equality of two out-points.
pub fn out_point_eq(a: &OutPoint, b: &OutPoint) -> (r: bool)
    ensures
        r == (a@ == b@),
{
    bytes_eq(&a.tx_hash, &b.tx_hash) && a.index == b.index
}

/// Structural equality of two cell deps.
pub fn cell_dep_eq(a: &CellDep, b: &CellDep) -> (r: bool)
    ensures
        r == (a@ == b@),
{
    out_point_eq(&a.out_point, &b.out_point) && a.dep_type == b.dep_type
}

/// Structural equality of two cell outputs.
pub fn cell_output_eq(a: &CellOutput, b: &CellOutput) -> (r: bool)
    ensures
        r == (a@ == b@),
{
    a.capacity == b.capacity && script_eq(&a.lock, &b.lock) && opt_script_eq(
        &a.type_script,
        &b.type_script,
    )
}

/// Structural equality of two whole transactions.
pub fn tx_eq(a: &Transaction, b: &Transaction) -> (r: bool)
    ensures
        r == (a@ == b@),
{
    let deps_ok = {
        if a.cell_deps.len() != b.cell_deps.len() {
            false
        } else {
            let mut i: usize = 0;
            let mut ok = true;
            while i < a.cell_deps.len()
                invariant
                    0 <= i <= a.cell_deps@.len(),
                    a.cell_deps@.len() == b.cell_deps@.len(),
                    ok == (forall|j: int| 0 <= j < i ==> a.cell_deps@[j]@ == b.cell_deps@[j]@),
                decreases a.cell_deps@.len() - i,
            {
                let e = cell_dep_eq(&a.cell_deps[i], &b.cell_deps[i]);
                ok = ok && e;
                i = i + 1;
            }
            ok
        }
    };
    let inputs_ok = {
        if a.inputs.len() != b.inputs.len() {
            false
        } else {
            let mut i: usize = 0;
            let mut ok = true;
            while i < a.inputs.len()
                invariant
                    0 <= i <= a.inputs@.len(),
                    a.inputs@.len() == b.inputs@.len(),
                    ok == (forall|j: int| 0 <= j < i ==> a.inputs@[j]@ == b.inputs@[j]@),
                decreases a.inputs@.len() - i,
            {
                let e = out_point_eq(&a.inputs[i].previous_output, &b.inputs[i].previous_output)
                    && a.inputs[i].since == b.inputs[i].since;
                ok = ok && e;
                i = i + 1;
            }
            ok
        }
    };
    let outputs_ok = {
        if a.outputs.len() != b.outputs.len() {
            false
        } else {
            let mut i: usize = 0;
            let mut ok = true;
            while i < a.outputs.len()
                invariant
                    0 <= i <= a.outputs@.len(),
                    a.outputs@.len() == b.outputs@.len(),
                    ok == (forall|j: int| 0 <= j < i ==> a.outputs@[j]@ == b.outputs@[j]@),
                decreases a.outputs@.len() - i,
            {
                let e = cell_output_eq(&a.outputs[i], &b.outputs[i]);
                ok = ok && e;
                i = i + 1;
            }
            ok
        }
    };
    let header_deps_ok = bytes_list_eq(&a.header_deps, &b.header_deps);
    let outputs_data_ok = bytes_list_eq(&a.outputs_data, &b.outputs_data);
    let witnesses_ok = bytes_list_eq(&a.witnesses, &b.witnesses);
    let r = deps_ok && inputs_ok && outputs_ok && header_deps_ok && outputs_data_ok
        && witnesses_ok;
    proof {
        if r {
            assert(a@.cell_deps =~= b@.cell_deps);
            assert(a@.inputs =~= b@.inputs);
            assert(a@.outputs =~= b@.outputs);
            assert(a@.header_deps =~= b@.header_deps);
            assert(a@.outputs_data =~= b@.outputs_data);
            assert(a@.witnesses =~= b@.witnesses);
        } else {
            if a@ == b@ {
                assert(deps_view(a.cell_deps@) == deps_view(b.cell_deps@));
                assert(deps_view(a.cell_deps@).len() == a.cell_deps@.len());
                assert(deps_view(b.cell_deps@).len() == b.cell_deps@.len());
                assert(a.cell_deps@.len() == b.cell_deps@.len());
                assert forall|j: int| 0 <= j < a.cell_deps@.len() implies a.cell_deps@[j]@
                    == b.cell_deps@[j]@ by {
                    assert(deps_view(a.cell_deps@)[j] == a.cell_deps@[j]@);
                    assert(deps_view(b.cell_deps@)[j] == b.cell_deps@[j]@);
                }
                assert(inputs_view(a.inputs@) == inputs_view(b.inputs@));
                assert(inputs_view(a.inputs@).len() == a.inputs@.len());
                assert(inputs_view(b.inputs@).len() == b.inputs@.len());
                assert(a.inputs@.len() == b.inputs@.len());
                assert forall|j: int| 0 <= j < a.inputs@.len() implies a.inputs@[j]@
                    == b.inputs@[j]@ by {
                    assert(inputs_view(a.inputs@)[j] == a.inputs@[j]@);
                    assert(inputs_view(b.inputs@)[j] == b.inputs@[j]@);
                }
                assert(outputs_view(a.outputs@) == outputs_view(b.outputs@));
                assert(outputs_view(a.outputs@).len() == a.outputs@.len());
                assert(outputs_view(b.outputs@).len() == b.outputs@.len());
                assert(a.outputs@.len() == b.outputs@.len());
                assert forall|j: int| 0 <= j < a.outputs@.len() implies a.outputs@[j]@
                    == b.outputs@[j]@ by {
                    assert(outputs_view(a.outputs@)[j] == a.outputs@[j]@);
                    assert(outputs_view(b.outputs@)[j] == b.outputs@[j]@);
                }
            }
        }
    }
    r
}

/// Equality of two lists of byte vectors.
pub fn bytes_list_eq(a: &Vec<Vec<u8>>, b: &Vec<Vec<u8>>) -> (r: bool)
    ensures
        r == (bytes_list_view(a@) == bytes_list_view(b@)),
{
    if a.len() != b.len() {
        proof {
            assert(bytes_list_view(a@).len() != bytes_list_view(b@).len());
        }
        return false;
    }
    let mut i: usize = 0;
    while i < a.len()
        invariant
            0 <= i <= a@.len(),
            a@.len() == b@.len(),
            forall|j: int| 0 <= j < i ==> a@[j]@ == b@[j]@,
        decreases a@.len() - i,
    {
        if !bytes_eq(&a[i], &b[i]) {
            proof {
                assert(bytes_list_view(a@)[i as int] != bytes_list_view(b@)[i as int]);
            }
            return false;
        }
        i = i + 1;
    }
    proof {
        assert(bytes_list_view(a@) =~= bytes_list_view(b@));
    }
    true
}

// ---------------------------------------------------------------------
// Clones
// ---------------------------------------------------------------------

impl Clone for Script {
    fn clone(&self) -> (r: Self)
        ensures
            r@ == self@,
    {
        Script {
            code_hash: copy_bytes(&self.code_hash),
            hash_type: self.hash_type,
            args: copy_bytes(&self.args),
        }
    }
}

impl Clone for ScriptId {
    fn clone(&self) -> (r: Self)
        ensures
            r@ == self@,
    {
        ScriptId { code_hash: copy_bytes(&self.code_hash), hash_type: self.hash_type }
    }
}

impl Clone for OutPoint {
    fn clone(&self) -> (r: Self)
        ensures
            r@ == self@,
    {
        OutPoint { tx_hash: copy_bytes(&self.tx_hash), index: self.index }
    }
}

impl Clone for CellOutput {
    fn clone(&self) -> (r: Self)
        ensures
            r@ == self@,
    {
        CellOutput {
            capacity: self.capacity,
            lock: self.lock.clone(),
            type_script: match self.type_script {
                Some(ref s) => Some(s.clone()),
                None => None,
            },
        }
    }
}

impl Clone for CellDep {
    fn clone(&self) -> (r: Self)
        ensures
            r@ == self@,
    {
        CellDep { out_point: self.out_point.clone(), dep_type: self.dep_type }
    }
}

impl Clone for CellInput {
    fn clone(&self) -> (r: Self)
        ensures
            r@ == self@,
    {
        CellInput { previous_output: self.previous_output.clone(), since: self.since }
    }
}

impl Clone for LiveCell {
    fn clone(&self) -> (r: Self)
        ensures
            r@ == self@,
    {
        LiveCell {
            out_point: self.out_point.clone(),
            output: self.output.clone(),
            output_data: copy_bytes(&self.output_data),
            block_number: self.block_number,
            tx_index: self.tx_index,
        }
    }
}

/// A fresh copy of a list of byte vectors.
pub fn copy_bytes_vec(v: &Vec<Vec<u8>>) -> (r: Vec<Vec<u8>>)
    ensures
        r@.map_values(|b: Vec<u8>| b@) == v@.map_values(|b: Vec<u8>| b@),
{
    let mut out: Vec<Vec<u8>> = Vec::new();
    let mut i: usize = 0;
    while i < v.len()
        invariant
            0 <= i <= v@.len(),
            out@.len() == i,
            forall|j: int| 0 <= j < i ==> (#[trigger] out@[j])@ == v@[j]@,
        decreases v@.len() - i,
    {
        out.push(copy_bytes(&v[i]));
        i = i + 1;
    }
    proof {
        assert(out@.map_values(|b: Vec<u8>| b@) =~= v@.map_values(|b: Vec<u8>| b@));
    }
    out
}

/// A fresh copy of a list of usize indices.
pub fn copy_indices(v: &Vec<usize>) -> (r: Vec<usize>)
    ensures
        r@ == v@,
{
    let mut out: Vec<usize> = Vec::new();
    let mut i: usize = 0;
    while i < v.len()
        invariant
            0 <= i <= v@.len(),
            out@ == v@.subrange(0, i as int),
        decreases v@.len() - i,
    {
        out.push(v[i]);
        proof {
            assert(out@ =~= v@.subrange(0, i + 1 as int));
        }
        i = i + 1;
    }
    proof {
        assert(out@ =~= v@);
    }
    out
}

impl Clone for Transaction {
    fn clone(&self) -> (r: Self)
        ensures
            r@ == self@,
    {
        let mut cell_deps: Vec<CellDep> = Vec::new();
        let mut i: usize = 0;
        while i < self.cell_deps.len()
            invariant
                0 <= i <= self.cell_deps@.len(),
                cell_deps@.len() == i,
                forall|j: int| 0 <= j < i ==> (#[trigger] cell_deps@[j])@ == self.cell_deps@[j]@,
            decreases self.cell_deps@.len() - i,
        {
            cell_deps.push(self.cell_deps[i].clone());
            i = i + 1;
        }
        let mut inputs: Vec<CellInput> = Vec::new();
        let mut k: usize = 0;
        while k < self.inputs.len()
            invariant
                0 <= k <= self.inputs@.len(),
                inputs@.len() == k,
                forall|j: int| 0 <= j < k ==> (#[trigger] inputs@[j])@ == self.inputs@[j]@,
            decreases self.inputs@.len() - k,
        {
            inputs.push(self.inputs[k].clone());
            k = k + 1;
        }
        let mut outputs: Vec<CellOutput> = Vec::new();
        let mut m: usize = 0;
        while m < self.outputs.len()
            invariant
                0 <= m <= self.outputs@.len(),
                outputs@.len() == m,
                forall|j: int| 0 <= j < m ==> (#[trigger] outputs@[j])@ == self.outputs@[j]@,
            decreases self.outputs@.len() - m,
        {
            outputs.push(self.outputs[m].clone());
            m = m + 1;
        }
        let r = Transaction {
            cell_deps,
            header_deps: copy_bytes_vec(&self.header_deps),
            inputs,
            outputs,
            outputs_data: copy_bytes_vec(&self.outputs_data),
            witnesses: copy_bytes_vec(&self.witnesses),
        };
        proof {
            assert(r@.cell_deps =~= self@.cell_deps);
            assert(r@.inputs =~= self@.inputs);
            assert(r@.outputs =~= self@.outputs);
        }
        r
    }
}

impl Clone for ScriptGroup {
    fn clone(&self) -> (r: Self)
        ensures
            r@ == self@,
    {
        ScriptGroup {
            script: self.script.clone(),
            group_type: self.group_type,
            input_indices: copy_indices(&self.input_indices),
            output_indices: copy_indices(&self.output_indices),
        }
    }
}

// ---------------------------------------------------------------------
// Occupied capacity
// ---------------------------------------------------------------------

/// Bytes a script occupies on chain: 32 for the code hash, 1 for the hash
/// type, plus its args.
pub open spec fn script_occupied_bytes(s: ScriptV) -> int {
    33 + s.args.len() as int
}

/// Shannons a cell occupies on chain: 8 bytes for the capacity field, the
/// data, the lock and the optional type script, at [`SHANNONS_PER_BYTE`]
/// each.
pub open spec fn occupied_capacity_shannons(
    lock: ScriptV,
    type_script: Option<ScriptV>,
    data_len: int,
) -> int {
    (8 + data_len + script_occupied_bytes(lock) + (match type_script {
        Some(t) => script_occupied_bytes(t),
        None => 0,
    })) * (SHANNONS_PER_BYTE as int)
}

/// The smallest capacity a cell with this lock, type script and data
/// length can declare, or `None` where that does not fit in a `u64`.
pub fn occupied_capacity(lock: &Script, type_script: Option<&Script>, data_len: usize) -> (r:
    Option<u64>)
    ensures
        r is Some <==> occupied_capacity_shannons(
            lock@,
            match type_script {
                Some(s) => Some(s@),
                None => None,
            },
            data_len as int,
        ) <= u64::MAX,
        r is Some ==> r->0 as int == occupied_capacity_shannons(
            lock@,
            match type_script {
                Some(s) => Some(s@),
                None => None,
            },
            data_len as int,
        ),
{
    let type_bytes: u128 = match type_script {
        Some(s) => 33 + s.args.len() as u128,
        None => 0,
    };
    let total_bytes: u128 = 8 + data_len as u128 + 33 + lock.args.len() as u128 + type_bytes;
    proof {
        vstd::arithmetic::mul::lemma_mul_inequality(
            total_bytes as int,
            0x40000000000000000,
            SHANNONS_PER_BYTE as int,
        );
    }
    let shannons: u128 = total_bytes * (SHANNONS_PER_BYTE as u128);
    if shannons <= u64::MAX as u128 {
        Some(shannons as u64)
    } else {
        None
    }
}

// ---------------------------------------------------------------------
// Cell queries
// ---------------------------------------------------------------------

/// Which script of a cell the primary script of a query is matched
/// against.
#[derive(Clone, Copy, PartialEq, Eq, Structural, Debug, Hash)]
pub enum PrimaryScriptType {
    Lock,
    Type,
}

/// A half-open range `[start, end)` of `u64` values.
#[derive(Clone, Copy, PartialEq, Eq, Structural, Debug, Hash)]
pub struct ValueRangeOption {
    pub start: u64,
    pub end: u64,
}

impl ValueRangeOption {
    /// Whether `value` lies in the range.
    pub open spec fn matches(self, value: u64) -> bool {
        self.start <= value < self.end
    }

    pub fn new(start: u64, end: u64) -> (r: Self)
        ensures
            r == (ValueRangeOption { start, end }),
    {
        ValueRangeOption { start, end }
    }

    /// All values from `start` up.
    pub fn new_min(start: u64) -> (r: Self)
        ensures
            r == (ValueRangeOption { start, end: u64::MAX }),
    {
        ValueRangeOption { start, end: u64::MAX }
    }

    /// Exactly `value`.
    pub fn new_exact(value: u64) -> (r: Self)
        requires
            value < u64::MAX,
        ensures
            r == (ValueRangeOption { start: value, end: (value + 1) as u64 }),
    {
        ValueRangeOption { start: value, end: value + 1 }
    }
}

/// The constraints a collector must hold returned cells to.
pub struct CellQueryOptions {
    pub primary_script: Script,
    pub primary_type: PrimaryScriptType,
    pub secondary_script: Option<Script>,
    pub data_len_range: Option<ValueRangeOption>,
    pub capacity_range: Option<ValueRangeOption>,
    pub min_total_capacity: u64,
}

/// Mathematical view of a [`CellQueryOptions`].
pub struct CellQueryOptionsV {
    pub primary_script: ScriptV,
    pub primary_type: PrimaryScriptType,
    pub secondary_script: Option<ScriptV>,
    pub data_len_range: Option<ValueRangeOption>,
    pub capacity_range: Option<ValueRangeOption>,
    pub min_total_capacity: u64,
}

impl View for CellQueryOptions {
    type V = CellQueryOptionsV;

    open spec fn view(&self) -> CellQueryOptionsV {
        CellQueryOptionsV {
            primary_script: self.primary_script@,
            primary_type: self.primary_type,
            secondary_script: match self.secondary_script {
                Some(ref s) => Some(s@),
                None => None,
            },
            data_len_range: self.data_len_range,
            capacity_range: self.capacity_range,
            min_total_capacity: self.min_total_capacity,
        }
    }
}

impl CellQueryOptionsV {
    /// Whether `cell` satisfies every constraint of the query.  The
    /// maturity of the cell is the collector's own concern: it needs chain
    /// state that the query cannot carry.
    pub open spec fn matches(self, cell: LiveCellV) -> bool {
        &&& match self.primary_type {
            PrimaryScriptType::Lock => {
                &&& cell.output.lock == self.primary_script
                &&& match self.secondary_script {
                    Some(s) => cell.output.type_script == Some(s),
                    None => true,
                }
            },
            PrimaryScriptType::Type => {
                &&& cell.output.type_script == Some(self.primary_script)
                &&& match self.secondary_script {
                    Some(s) => cell.output.lock == s,
                    None => true,
                }
            },
        }
        &&& match self.data_len_range {
            Some(r) => cell.output_data.len() < u64::MAX && r.matches(cell.output_data.len() as u64),
            None => true,
        }
        &&& match self.capacity_range {
            Some(r) => r.matches(cell.output.capacity),
            None => true,
        }
    }
}

impl CellQueryOptions {
    /// Query by lock script, with no further constraint.
    pub fn new_lock(primary_script: Script) -> (r: CellQueryOptions)
        ensures
            r@.primary_script == primary_script@,
            r@.primary_type == PrimaryScriptType::Lock,
            r@.secondary_script is None,
            r@.data_len_range is None,
            r@.capacity_range is None,
            r@.min_total_capacity == 1,
    {
        CellQueryOptions {
            primary_script,
            primary_type: PrimaryScriptType::Lock,
            secondary_script: None,
            data_len_range: None,
            capacity_range: None,
            min_total_capacity: 1,
        }
    }

    /// Query by type script, with no further constraint.
    pub fn new_type(primary_script: Script) -> (r: CellQueryOptions)
        ensures
            r@.primary_script == primary_script@,
            r@.primary_type == PrimaryScriptType::Type,
            r@.secondary_script is None,
            r@.data_len_range is None,
            r@.capacity_range is None,
            r@.min_total_capacity == 1,
    {
        CellQueryOptions {
            primary_script,
            primary_type: PrimaryScriptType::Type,
            secondary_script: None,
            data_len_range: None,
            capacity_range: None,
            min_total_capacity: 1,
        }
    }

    /// Whether `cell` satisfies every constraint of the query.
    pub fn match_cell(&self, cell: &LiveCell) -> (r: bool)
        ensures
            r == self@.matches(cell@),
    {
        let primary_ok: bool = match self.primary_type {
            PrimaryScriptType::Lock => {
                let lock_ok = script_eq(&cell.output.lock, &self.primary_script);
                let secondary_ok: bool = match &self.secondary_script {
                    Some(s) => match &cell.output.type_script {
                        Some(t) => script_eq(t, s),
                        None => false,
                    },
                    None => true,
                };
                lock_ok && secondary_ok
            },
            PrimaryScriptType::Type => {
                let type_ok: bool = match &cell.output.type_script {
                    Some(t) => script_eq(t, &self.primary_script),
                    None => false,
                };
                let secondary_ok: bool = match &self.secondary_script {
                    Some(s) => script_eq(&cell.output.lock, s),
                    None => true,
                };
                type_ok && secondary_ok
            },
        };
        let data_ok: bool = match self.data_len_range {
            Some(r) => {
                let len = cell.output_data.len() as u64;
                len < u64::MAX && r.start <= len && len < r.end
            },
            None => true,
        };
        let capacity_ok: bool = match self.capacity_range {
            Some(r) => r.start <= cell.output.capacity && cell.output.capacity < r.end,
            None => true,
        };
        primary_ok && data_ok && capacity_ok
    }
}

/// The views of a list of live cells.
pub open spec fn cells_view(cells: Seq<LiveCell>) -> Seq<LiveCellV> {
    cells.map_values(|c: LiveCell| c@)
}

/// Total capacity of a sequence of live cells.
pub open spec fn sum_capacities(cells: Seq<LiveCellV>) -> int
    decreases cells.len(),
{
    if cells.len() == 0 {
        0
    } else {
        sum_capacities(cells.drop_last()) + cells.last().output.capacity
    }
}

/// A total of capacities is never negative.
pub proof fn lemma_sum_capacities_nonneg(cells: Seq<LiveCellV>)
    ensures
        sum_capacities(cells) >= 0,
    decreases cells.len(),
{
    if cells.len() > 0 {
        lemma_sum_capacities_nonneg(cells.drop_last());
    }
}

/// A total of capacities is at least any one of them.
pub proof fn lemma_sum_capacities_ge_elem(cells: Seq<LiveCellV>, i: int)
    requires
        0 <= i < cells.len(),
    ensures
        sum_capacities(cells) >= cells[i].output.capacity,
    decreases cells.len(),
{
    if i == cells.len() - 1 {
        lemma_sum_capacities_nonneg(cells.drop_last());
    } else {
        lemma_sum_capacities_ge_elem(cells.drop_last(), i);
    }
}

} // verus!
