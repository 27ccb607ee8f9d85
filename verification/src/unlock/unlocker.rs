//! Script unlock logic:
//!   * parse the script args,
//!   * decide whether a group is already unlocked,
//!   * otherwise hand the transaction to the group's signer.

use vstd::prelude::*;

use crate::codec::decode_udt_amount;
use crate::codec::udt_amount_of;
use crate::interop::script_hash;
use crate::interop::script_hash_spec;
use crate::traits::TransactionDependencyError;
use crate::traits::TransactionDependencyProvider;
use crate::types::CellOutputV;
use crate::types::OutPointV;
use crate::types::ScriptGroup;
use crate::types::ScriptGroupType;
use crate::types::ScriptGroupV;
use crate::types::ScriptId;
use crate::types::ScriptIdV;
use crate::types::ScriptV;
use crate::types::Transaction;
use crate::types::TransactionV;
use crate::types::script_id_eq;
use crate::types::script_id_of;
use crate::unlock::rules::AcpWallet;
use crate::unlock::rules::AcpWalletV;
use crate::unlock::rules::ChequeCheckError;
use crate::unlock::rules::acp_min_ckb;
use crate::unlock::rules::acp_min_udt;
use crate::unlock::rules::acp_pairing_ok;
use crate::unlock::rules::check_acp_pairing;
use crate::unlock::rules::check_cheque;
use crate::unlock::rules::cheque_check_spec;
use crate::unlock::rules::cheque_unlocked;
use crate::unlock::rules::pow10_u128;
use crate::unlock::rules::pow10_u64;

verus! {

/// Why a signer could not sign a group.
pub enum ScriptSignError {
    /// No key is configured for the group's identity.
    MissingKey,
    /// The configured key does not fit the group's identity.
    KeyMismatch,
    /// A witness to be filled is not a witness-args table.
    MalformedWitness,
    Other(String),
}

/// Why a group could not be unlocked.
pub enum UnlockError {
    ScriptSigner(ScriptSignError),
    TxDep(TransactionDependencyError),
    InvalidArgs(String),
    Other(String),
}

/// The parts of a transaction that unlocking never touches: everything
/// but the witnesses.
pub open spec fn tx_same_skeleton(a: TransactionV, b: TransactionV) -> bool {
    &&& a.cell_deps == b.cell_deps
    &&& a.header_deps == b.header_deps
    &&& a.inputs == b.inputs
    &&& a.outputs == b.outputs
    &&& a.outputs_data == b.outputs_data
}

/// Signs the witnesses of one script group.  The signer is an abstract
/// provider: key storage and the signature algorithm live with the
/// caller.  Filling witnesses of the group is the only change a signer
/// may make.
pub trait ScriptSigner {
    /// Which script args this signer can sign for.  An implementation
    /// that leaves this at its default claims no args.
    open spec fn matches_spec(&self, args: Seq<u8>) -> bool {
        false
    }

    /// What this signer guarantees of a transaction it signed for a
    /// group.  An implementation that leaves this at its default claims
    /// nothing of the signatures it wrote; one that defines it makes
    /// every unlock of the group carry the claim.
    open spec fn signed_spec(&self, tx: TransactionV, group: ScriptGroupV, r: TransactionV) -> bool {
        true
    }

    fn match_args(&self, args: &Vec<u8>) -> (r: bool)
        ensures
            r == self.matches_spec(args@),
    ;

    /// Fills the group's witnesses with signatures.
    fn sign_tx(&self, tx: &Transaction, script_group: &ScriptGroup) -> (r: Result<
        Transaction,
        ScriptSignError,
    >)
        ensures
            r is Ok ==> tx_same_skeleton(tx@, r->Ok_0@),
            r is Ok ==> r->Ok_0@.witnesses.len() >= tx@.witnesses.len(),
            r is Ok ==> (forall|i: int|
                0 <= i < tx@.witnesses.len() && !script_group@.input_indices.contains(i as usize)
                    ==> r->Ok_0@.witnesses[i] == tx@.witnesses[i]),
            r is Ok ==> self.signed_spec(tx@, script_group@, r->Ok_0@),
    ;
}

/// Decides whether a script group is already unlocked and, where it is
/// not, unlocks it.
pub trait ScriptUnlocker {
    /// Which script args this unlocker is for.  An implementation that
    /// leaves this at its default claims no args.
    open spec fn matches_spec(&self, args: Seq<u8>) -> bool {
        false
    }

    /// Whether the group needs no signing, as a function of the
    /// transaction, the group and the cells the provider knows.  An
    /// implementation that leaves this at its default always signs.
    open spec fn unlocked_spec(
        &self,
        tx: TransactionV,
        group: ScriptGroupV,
        cells: Map<OutPointV, (CellOutputV, Seq<u8>)>,
    ) -> bool {
        false
    }

    fn match_args(&self, args: &Vec<u8>) -> (r: bool)
        ensures
            r == self.matches_spec(args@),
    ;

    /// Pure inspection: no mutation.
    fn is_unlocked<P: TransactionDependencyProvider>(
        &self,
        tx: &Transaction,
        script_group: &ScriptGroup,
        tx_dep_provider: &P,
    ) -> (r: Result<bool, UnlockError>)
        ensures
            r is Ok ==> r->Ok_0 == self.unlocked_spec(tx@, script_group@, tx_dep_provider.cells()),
    ;

    /// Returns a transaction whose witnesses for this group are filled:
    /// witnesses outside the group are untouched, and a group that is
    /// already unlocked comes back unchanged.
    fn unlock<P: TransactionDependencyProvider>(
        &self,
        tx: &Transaction,
        script_group: &ScriptGroup,
        tx_dep_provider: &P,
    ) -> (r: Result<Transaction, UnlockError>)
        ensures
            r is Ok ==> tx_same_skeleton(tx@, r->Ok_0@),
            r is Ok ==> r->Ok_0@.witnesses.len() >= tx@.witnesses.len(),
            r is Ok ==> (forall|i: int|
                0 <= i < tx@.witnesses.len() && !script_group@.input_indices.contains(i as usize)
                    ==> r->Ok_0@.witnesses[i] == tx@.witnesses[i]),
            r is Ok && self.unlocked_spec(tx@, script_group@, tx_dep_provider.cells()) ==> r->Ok_0@
                == tx@,
    ;
}

// ---------------------------------------------------------------------
// Sighash
// ---------------------------------------------------------------------

/// Unlocks secp256k1 sighash groups by signing them; it never finds a
/// group already unlocked.
pub struct Secp256k1SighashUnlocker<S: ScriptSigner> {
    pub signer: S,
}

impl<S: ScriptSigner> Secp256k1SighashUnlocker<S> {
    pub fn new(signer: S) -> (r: Secp256k1SighashUnlocker<S>)
        ensures
            r.signer == signer,
    {
        Secp256k1SighashUnlocker { signer }
    }
}

impl<S: ScriptSigner> ScriptUnlocker for Secp256k1SighashUnlocker<S> {
    /// Sighash args are the 20-byte hash of the public key.
    open spec fn matches_spec(&self, args: Seq<u8>) -> bool {
        args.len() == 20 && self.signer.matches_spec(args)
    }

    /// A sighash group always takes a signature.
    open spec fn unlocked_spec(
        &self,
        tx: TransactionV,
        group: ScriptGroupV,
        cells: Map<OutPointV, (CellOutputV, Seq<u8>)>,
    ) -> bool {
        false
    }

    fn match_args(&self, args: &Vec<u8>) -> (r: bool) {
        args.len() == 20 && self.signer.match_args(args)
    }

    fn is_unlocked<P: TransactionDependencyProvider>(
        &self,
        _tx: &Transaction,
        _script_group: &ScriptGroup,
        _tx_dep_provider: &P,
    ) -> (r: Result<bool, UnlockError>) {
        Ok(false)
    }

    fn unlock<P: TransactionDependencyProvider>(
        &self,
        tx: &Transaction,
        script_group: &ScriptGroup,
        _tx_dep_provider: &P,
    ) -> (r: Result<Transaction, UnlockError>)
        ensures
            r is Ok ==> self.signer.signed_spec(tx@, script_group@, r->Ok_0@),
    {
        match self.signer.sign_tx(tx, script_group) {
            Ok(t) => Ok(t),
            Err(e) => Err(UnlockError::ScriptSigner(e)),
        }
    }
}

// ---------------------------------------------------------------------
// Multisig
// ---------------------------------------------------------------------

/// Unlocks secp256k1 multisig groups by signing them; it never finds a
/// group already unlocked.
pub struct Secp256k1MultisigUnlocker<S: ScriptSigner> {
    pub signer: S,
}

impl<S: ScriptSigner> Secp256k1MultisigUnlocker<S> {
    pub fn new(signer: S) -> (r: Secp256k1MultisigUnlocker<S>)
        ensures
            r.signer == signer,
    {
        Secp256k1MultisigUnlocker { signer }
    }
}

impl<S: ScriptSigner> ScriptUnlocker for Secp256k1MultisigUnlocker<S> {
    /// Multisig args are 20 bytes, or 28 with a `since` prefix.
    open spec fn matches_spec(&self, args: Seq<u8>) -> bool {
        (args.len() == 20 || args.len() == 28) && self.signer.matches_spec(args)
    }

    /// A multisig group always takes at least one signature.
    open spec fn unlocked_spec(
        &self,
        tx: TransactionV,
        group: ScriptGroupV,
        cells: Map<OutPointV, (CellOutputV, Seq<u8>)>,
    ) -> bool {
        false
    }

    fn match_args(&self, args: &Vec<u8>) -> (r: bool) {
        (args.len() == 20 || args.len() == 28) && self.signer.match_args(args)
    }

    fn is_unlocked<P: TransactionDependencyProvider>(
        &self,
        _tx: &Transaction,
        _script_group: &ScriptGroup,
        _tx_dep_provider: &P,
    ) -> (r: Result<bool, UnlockError>) {
        Ok(false)
    }

    fn unlock<P: TransactionDependencyProvider>(
        &self,
        tx: &Transaction,
        script_group: &ScriptGroup,
        _tx_dep_provider: &P,
    ) -> (r: Result<Transaction, UnlockError>)
        ensures
            r is Ok ==> self.signer.signed_spec(tx@, script_group@, r->Ok_0@),
    {
        match self.signer.sign_tx(tx, script_group) {
            Ok(t) => Ok(t),
            Err(e) => Err(UnlockError::ScriptSigner(e)),
        }
    }
}

// ---------------------------------------------------------------------
// Anyone-can-pay
// ---------------------------------------------------------------------

/// The pairing wallet of a cell: its type-script hash and its two asset
/// amounts.  A cell without a type script carries no UDT.
pub open spec fn acp_wallet_of(out: CellOutputV, data: Seq<u8>) -> AcpWalletV {
    AcpWalletV {
        type_hash: match out.type_script {
            Some(t) => Some(script_hash_spec(t)),
            None => None,
        },
        ckb_amount: out.capacity,
        udt_amount: match out.type_script {
            Some(_) => udt_amount_of(data) as u128,
            None => 0,
        },
    }
}

/// Every group input is in bounds, its cell is known, and a cell with a
/// type script has at least 16 bytes of data.
pub open spec fn acp_inputs_ok(
    tx: TransactionV,
    group: ScriptGroupV,
    cells: Map<OutPointV, (CellOutputV, Seq<u8>)>,
) -> bool {
    forall|t: int|
        0 <= t < group.input_indices.len() ==> {
            let gi = (#[trigger] group.input_indices[t]) as int;
            &&& gi < tx.inputs.len()
            &&& cells.contains_key(tx.inputs[gi].previous_output)
            &&& (cells[tx.inputs[gi].previous_output].0.type_script is Some
                ==> cells[tx.inputs[gi].previous_output].1.len() >= 16)
        }
}

/// The wallets of the group's inputs, in group order.
pub open spec fn acp_input_wallets(
    tx: TransactionV,
    group: ScriptGroupV,
    cells: Map<OutPointV, (CellOutputV, Seq<u8>)>,
) -> Seq<AcpWalletV> {
    Seq::new(
        group.input_indices.len(),
        |t: int|
            {
                let cell = cells[tx.inputs[group.input_indices[t] as int].previous_output];
                acp_wallet_of(cell.0, cell.1)
            },
    )
}

/// Every group output is in bounds and an output with a type script has
/// at least 16 bytes of data.
pub open spec fn acp_outputs_ok(tx: TransactionV, group: ScriptGroupV) -> bool {
    forall|t: int|
        0 <= t < group.output_indices.len() ==> {
            let oi = (#[trigger] group.output_indices[t]) as int;
            &&& oi < tx.outputs.len()
            &&& oi < tx.outputs_data.len()
            &&& (tx.outputs[oi].type_script is Some ==> tx.outputs_data[oi].len() >= 16)
        }
}

/// The wallets of the group's outputs, in group order.
pub open spec fn acp_output_wallets(tx: TransactionV, group: ScriptGroupV) -> Seq<AcpWalletV> {
    Seq::new(
        group.output_indices.len(),
        |t: int|
            {
                let oi = group.output_indices[t] as int;
                acp_wallet_of(tx.outputs[oi], tx.outputs_data[oi])
            },
    )
}

/// The whole anyone-can-pay rule for a group: valid minimums in the
/// script args, well-formed inputs and outputs, and the pairing rule over
/// their wallets.
pub open spec fn acp_group_unlocked(
    tx: TransactionV,
    group: ScriptGroupV,
    cells: Map<OutPointV, (CellOutputV, Seq<u8>)>,
) -> bool {
    &&& acp_min_ckb(group.script.args) is Some
    &&& acp_min_udt(group.script.args) is Some
    &&& acp_inputs_ok(tx, group, cells)
    &&& acp_outputs_ok(tx, group)
    &&& acp_pairing_ok(
        acp_input_wallets(tx, group, cells),
        acp_output_wallets(tx, group),
        acp_min_ckb(group.script.args)->0,
        acp_min_udt(group.script.args)->0,
    )
}

/// Unlocks anyone-can-pay groups: a group whose outputs strictly grow the
/// locked assets above the configured minimums needs no signature; any
/// other group is signed.
pub struct AnyoneCanPayUnlocker<S: ScriptSigner> {
    pub signer: S,
}

impl<S: ScriptSigner> AnyoneCanPayUnlocker<S> {
    pub fn new(signer: S) -> (r: AnyoneCanPayUnlocker<S>)
        ensures
            r.signer == signer,
    {
        AnyoneCanPayUnlocker { signer }
    }
}

impl<S: ScriptSigner> ScriptUnlocker for AnyoneCanPayUnlocker<S> {
    /// Anyone-can-pay args are the 20-byte hash, optionally followed by
    /// the capacity and UDT minimum exponents.
    open spec fn matches_spec(&self, args: Seq<u8>) -> bool {
        (args.len() == 20 || args.len() == 21 || args.len() == 22) && self.signer.matches_spec(
            args,
        )
    }

    /// A group is unlocked exactly where the pairing rule accepts it.
    open spec fn unlocked_spec(
        &self,
        tx: TransactionV,
        group: ScriptGroupV,
        cells: Map<OutPointV, (CellOutputV, Seq<u8>)>,
    ) -> bool {
        acp_group_unlocked(tx, group, cells)
    }

    fn match_args(&self, args: &Vec<u8>) -> (r: bool) {
        (args.len() == 20 || args.len() == 21 || args.len() == 22) && self.signer.match_args(args)
    }

    #[verifier::loop_isolation(false)]
    fn is_unlocked<P: TransactionDependencyProvider>(
        &self,
        tx: &Transaction,
        script_group: &ScriptGroup,
        tx_dep_provider: &P,
    ) -> (r: Result<bool, UnlockError>)
        ensures
            acp_min_ckb(script_group@.script.args) is None || acp_min_udt(
                script_group@.script.args,
            ) is None ==> r is Err,
            r is Ok ==> acp_inputs_ok(tx@, script_group@, tx_dep_provider.cells())
                && acp_outputs_ok(tx@, script_group@),
    {
        let ghost cells = tx_dep_provider.cells();
        let args = &script_group.script.args;
        let min_ckb: u64 = if args.len() > 20 {
            let idx = args[20];
            if idx >= 20 {
                return Err(
                    UnlockError::InvalidArgs(
                        "min ckb amount exponent in script args must be below 20".to_owned(),
                    ),
                );
            }
            pow10_u64(idx)
        } else {
            0
        };
        let min_udt: u128 = if args.len() > 21 {
            let idx = args[21];
            if idx >= 39 {
                return Err(
                    UnlockError::InvalidArgs(
                        "min udt amount exponent in script args must be below 39".to_owned(),
                    ),
                );
            }
            pow10_u128(idx)
        } else {
            0
        };
        proof {
            assert(acp_min_ckb(args@) == Some(min_ckb));
            assert(acp_min_udt(args@) == Some(min_udt));
        }
        let mut wallets: Vec<AcpWallet> = Vec::new();
        let mut t: usize = 0;
        while t < script_group.input_indices.len()
            invariant
                wallets@.len() == t,
                0 <= t <= script_group.input_indices@.len(),
                forall|j: int|
                    0 <= j < t ==> {
                        let gi = (#[trigger] script_group@.input_indices[j]) as int;
                        &&& gi < tx@.inputs.len()
                        &&& cells.contains_key(tx@.inputs[gi].previous_output)
                        &&& (cells[tx@.inputs[gi].previous_output].0.type_script is Some
                            ==> cells[tx@.inputs[gi].previous_output].1.len() >= 16)
                    },
                forall|j: int|
                    0 <= j < t ==> (#[trigger] wallets@[j])@ == acp_input_wallets(
                        tx@,
                        script_group@,
                        cells,
                    )[j],
            decreases script_group.input_indices@.len() - t,
        {
            let gi = script_group.input_indices[t];
            if gi >= tx.inputs.len() {
                return Err(
                    UnlockError::Other("input index in script group is out of bound".to_owned()),
                );
            }
            let out_point = &tx.inputs[gi].previous_output;
            let output = match tx_dep_provider.get_cell(out_point) {
                Ok(o) => o,
                Err(e) => { return Err(UnlockError::TxDep(e)) },
            };
            let data = match tx_dep_provider.get_cell_data(out_point) {
                Ok(d) => d,
                Err(e) => { return Err(UnlockError::TxDep(e)) },
            };
            let type_hash: Option<Vec<u8>> = match &output.type_script {
                Some(ts) => {
                    if data.len() < 16 {
                        return Err(
                            UnlockError::Other("invalid udt data in an input cell".to_owned()),
                        );
                    }
                    Some(script_hash(ts))
                },
                None => None,
            };
            let udt_amount: u128 = match &output.type_script {
                Some(_) => {
                    proof {
                        crate::codec::lemma_udt_amount_bounds(data@);
                    }
                    decode_udt_amount(&data)
                },
                None => 0,
            };
            wallets.push(AcpWallet { type_hash, ckb_amount: output.capacity, udt_amount });
            t = t + 1;
        }
        let mut outputs: Vec<AcpWallet> = Vec::new();
        let mut t2: usize = 0;
        while t2 < script_group.output_indices.len()
            invariant
                outputs@.len() == t2,
                0 <= t2 <= script_group.output_indices@.len(),
                forall|j: int|
                    0 <= j < t2 ==> {
                        let oi = (#[trigger] script_group@.output_indices[j]) as int;
                        &&& oi < tx@.outputs.len()
                        &&& oi < tx@.outputs_data.len()
                        &&& (tx@.outputs[oi].type_script is Some ==> tx@.outputs_data[oi].len()
                            >= 16)
                    },
                forall|j: int|
                    0 <= j < t2 ==> (#[trigger] outputs@[j])@ == acp_output_wallets(
                        tx@,
                        script_group@,
                    )[j],
            decreases script_group.output_indices@.len() - t2,
        {
            let oi = script_group.output_indices[t2];
            if oi >= tx.outputs.len() {
                return Err(
                    UnlockError::Other("output index in script group is out of bound".to_owned()),
                );
            }
            if oi >= tx.outputs_data.len() {
                return Err(
                    UnlockError::Other(
                        "output data index in script group is out of bound".to_owned(),
                    ),
                );
            }
            let output = &tx.outputs[oi];
            let data = &tx.outputs_data[oi];
            let type_hash: Option<Vec<u8>> = match &output.type_script {
                Some(ts) => {
                    if data.len() < 16 {
                        return Err(
                            UnlockError::Other("invalid udt data in an output cell".to_owned()),
                        );
                    }
                    if ts.code_hash.len() != 32 {
                        return Err(
                            UnlockError::Other("malformed type script in an output".to_owned()),
                        );
                    }
                    Some(script_hash(ts))
                },
                None => None,
            };
            let udt_amount: u128 = match &output.type_script {
                Some(_) => {
                    proof {
                        crate::codec::lemma_udt_amount_bounds(data@);
                    }
                    decode_udt_amount(data)
                },
                None => 0,
            };
            outputs.push(AcpWallet { type_hash, ckb_amount: output.capacity, udt_amount });
            t2 = t2 + 1;
        }
        let paired = check_acp_pairing(&wallets, &outputs, min_ckb, min_udt);
        proof {
            assert(wallets@.map_values(|w: AcpWallet| w@) =~= acp_input_wallets(
                tx@,
                script_group@,
                cells,
            ));
            assert(outputs@.map_values(|o: AcpWallet| o@) =~= acp_output_wallets(
                tx@,
                script_group@,
            ));
        }
        Ok(paired)
    }

    fn unlock<P: TransactionDependencyProvider>(
        &self,
        tx: &Transaction,
        script_group: &ScriptGroup,
        tx_dep_provider: &P,
    ) -> (r: Result<Transaction, UnlockError>)
        ensures
            r is Ok && !self.unlocked_spec(tx@, script_group@, tx_dep_provider.cells())
                ==> self.signer.signed_spec(tx@, script_group@, r->Ok_0@),
    {
        match self.is_unlocked(tx, script_group, tx_dep_provider) {
            Ok(true) => Ok(tx.clone()),
            Ok(false) => match self.signer.sign_tx(tx, script_group) {
                Ok(t) => Ok(t),
                Err(e) => Err(UnlockError::ScriptSigner(e)),
            },
            Err(e) => Err(e),
        }
    }
}

// ---------------------------------------------------------------------
// Cheque
// ---------------------------------------------------------------------

/// Every input's cell is known to the provider.
pub open spec fn cheque_inputs_ok(
    tx: TransactionV,
    cells: Map<OutPointV, (CellOutputV, Seq<u8>)>,
) -> bool {
    forall|i: int|
        0 <= i < tx.inputs.len() ==> cells.contains_key(
            (#[trigger] tx.inputs[i]).previous_output,
        )
}

/// The lock hash of every input, in input order.
pub open spec fn cheque_lock_hashes(
    tx: TransactionV,
    cells: Map<OutPointV, (CellOutputV, Seq<u8>)>,
) -> Seq<Seq<u8>> {
    Seq::new(
        tx.inputs.len(),
        |i: int| script_hash_spec(cells[tx.inputs[i].previous_output].0.lock),
    )
}

/// Every group input index is in bounds.
pub open spec fn group_inputs_in_bounds(tx: TransactionV, group: ScriptGroupV) -> bool {
    forall|t: int|
        0 <= t < group.input_indices.len() ==> ((#[trigger] group.input_indices[t]) as int)
            < tx.inputs.len()
}

/// The `since` values of the group's inputs, in group order.
pub open spec fn cheque_group_sinces(tx: TransactionV, group: ScriptGroupV) -> Seq<u64> {
    Seq::new(
        group.input_indices.len(),
        |t: int| tx.inputs[group.input_indices[t] as int].since,
    )
}

/// The whole cheque rule for a group: every input's cell known, group
/// indices in bounds, and the claim-or-withdraw rule over the lock
/// hashes, witnesses and `since` values.
pub open spec fn cheque_group_unlocked(
    tx: TransactionV,
    group: ScriptGroupV,
    cells: Map<OutPointV, (CellOutputV, Seq<u8>)>,
) -> bool {
    &&& cheque_inputs_ok(tx, cells)
    &&& group_inputs_in_bounds(tx, group)
    &&& cheque_unlocked(
        group.script.args,
        cheque_lock_hashes(tx, cells),
        tx.witnesses,
        cheque_group_sinces(tx, group),
    )
}

/// Unlocks cheque groups: a group whose transaction already carries the
/// receiver's claim or the sender's withdraw needs no signature; any
/// other group is signed.
pub struct ChequeUnlocker<S: ScriptSigner> {
    pub signer: S,
}

impl<S: ScriptSigner> ChequeUnlocker<S> {
    pub fn new(signer: S) -> (r: ChequeUnlocker<S>)
        ensures
            r.signer == signer,
    {
        ChequeUnlocker { signer }
    }
}

impl<S: ScriptSigner> ScriptUnlocker for ChequeUnlocker<S> {
    /// Cheque args are the receiver's and the sender's 20-byte lock-hash
    /// prefixes.
    open spec fn matches_spec(&self, args: Seq<u8>) -> bool {
        args.len() == 40 && self.signer.matches_spec(args)
    }

    /// A group is unlocked exactly where the cheque rule accepts it.
    open spec fn unlocked_spec(
        &self,
        tx: TransactionV,
        group: ScriptGroupV,
        cells: Map<OutPointV, (CellOutputV, Seq<u8>)>,
    ) -> bool {
        cheque_group_unlocked(tx, group, cells)
    }

    fn match_args(&self, args: &Vec<u8>) -> (r: bool) {
        args.len() == 40 && self.signer.match_args(args)
    }

    #[verifier::loop_isolation(false)]
    fn is_unlocked<P: TransactionDependencyProvider>(
        &self,
        tx: &Transaction,
        script_group: &ScriptGroup,
        tx_dep_provider: &P,
    ) -> (r: Result<bool, UnlockError>)
        ensures
            script_group@.script.args.len() != 40 ==> r is Err,
            r is Ok ==> cheque_inputs_ok(tx@, tx_dep_provider.cells()) && group_inputs_in_bounds(
                tx@,
                script_group@,
            ),
            r is Ok ==> cheque_check_spec(
                script_group@.script.args,
                cheque_lock_hashes(tx@, tx_dep_provider.cells()),
                tx@.witnesses,
                cheque_group_sinces(tx@, script_group@),
            ) == Result::<bool, ChequeCheckError>::Ok(r->Ok_0),
    {
        let ghost cells = tx_dep_provider.cells();
        let args = &script_group.script.args;
        if args.len() != 40 {
            return Err(
                UnlockError::InvalidArgs("cheque script args must be 40 bytes".to_owned()),
            );
        }
        let mut lock_hashes: Vec<Vec<u8>> = Vec::new();
        let mut i: usize = 0;
        while i < tx.inputs.len()
            invariant
                lock_hashes@.len() == i,
                0 <= i <= tx.inputs@.len(),
                forall|j: int|
                    0 <= j < i ==> cells.contains_key((#[trigger] tx@.inputs[j]).previous_output),
                forall|j: int|
                    0 <= j < i ==> (#[trigger] lock_hashes@[j])@ == cheque_lock_hashes(
                        tx@,
                        cells,
                    )[j],
                forall|j: int| 0 <= j < i ==> (#[trigger] lock_hashes@[j])@.len() == 32,
            decreases tx.inputs@.len() - i,
        {
            let output = match tx_dep_provider.get_cell(&tx.inputs[i].previous_output) {
                Ok(o) => o,
                Err(e) => { return Err(UnlockError::TxDep(e)) },
            };
            lock_hashes.push(script_hash(&output.lock));
            i = i + 1;
        }
        let mut group_sinces: Vec<u64> = Vec::new();
        let mut t: usize = 0;
        while t < script_group.input_indices.len()
            invariant
                group_sinces@.len() == t,
                0 <= t <= script_group.input_indices@.len(),
                forall|j: int|
                    0 <= j < t ==> ((#[trigger] script_group@.input_indices[j]) as int)
                        < tx@.inputs.len(),
                forall|j: int|
                    0 <= j < t ==> group_sinces@[j] == cheque_group_sinces(tx@, script_group@)[j],
            decreases script_group.input_indices@.len() - t,
        {
            let gi = script_group.input_indices[t];
            if gi >= tx.inputs.len() {
                return Err(
                    UnlockError::Other("input index in script group is out of bound".to_owned()),
                );
            }
            group_sinces.push(tx.inputs[gi].since);
            t = t + 1;
        }
        let checked = check_cheque(args, &lock_hashes, &tx.witnesses, &group_sinces);
        proof {
            assert(lock_hashes@.map_values(|h: Vec<u8>| h@) =~= cheque_lock_hashes(tx@, cells));
            assert(group_sinces@ =~= cheque_group_sinces(tx@, script_group@));
            assert(tx.witnesses@.map_values(|w: Vec<u8>| w@) == tx@.witnesses);
        }
        match checked {
            Ok(b) => Ok(b),
            Err(ChequeCheckError::BadArgsLength) => Err(
                UnlockError::InvalidArgs("cheque script args must be 40 bytes".to_owned()),
            ),
            Err(ChequeCheckError::SinceMismatch) => Err(
                UnlockError::Other(
                    "every cheque input must carry the since of the path taken".to_owned(),
                ),
            ),
            Err(ChequeCheckError::MalformedWitness) => Err(
                UnlockError::Other("malformed witness on the matching input".to_owned()),
            ),
            Err(ChequeCheckError::MissingLockField) => Err(
                UnlockError::Other("witness of the matching input has no lock field".to_owned()),
            ),
        }
    }

    fn unlock<P: TransactionDependencyProvider>(
        &self,
        tx: &Transaction,
        script_group: &ScriptGroup,
        tx_dep_provider: &P,
    ) -> (r: Result<Transaction, UnlockError>)
        ensures
            r is Ok && !self.unlocked_spec(tx@, script_group@, tx_dep_provider.cells())
                ==> self.signer.signed_spec(tx@, script_group@, r->Ok_0@),
    {
        match self.is_unlocked(tx, script_group, tx_dep_provider) {
            Ok(true) => Ok(tx.clone()),
            Ok(false) => match self.signer.sign_tx(tx, script_group) {
                Ok(t) => Ok(t),
                Err(e) => Err(UnlockError::ScriptSigner(e)),
            },
            Err(e) => Err(e),
        }
    }
}

// ---------------------------------------------------------------------
// Registry
// ---------------------------------------------------------------------

/// A registry of unlockers keyed by script identity.  Keys are unique;
/// registering an identity again replaces its unlocker.
pub struct ScriptUnlockerManager<U: ScriptUnlocker> {
    items: Vec<(ScriptId, U)>,
}

/// The first slot holding `id`.
pub open spec fn find_key_idx<U: ScriptUnlocker>(items: Seq<(ScriptId, U)>, id: ScriptIdV) -> Option<
    int,
>
    decreases items.len(),
{
    if items.len() == 0 {
        None
    } else if items[0].0@ == id {
        Some(0)
    } else {
        match find_key_idx(items.drop_first(), id) {
            Some(i) => Some(i + 1),
            None => None,
        }
    }
}

impl<U: ScriptUnlocker> ScriptUnlockerManager<U> {
    /// The unlocker registered for `id`, if any.
    pub closed spec fn lookup(&self, id: ScriptIdV) -> Option<U> {
        match find_key_idx(self.items@, id) {
            Some(i) => Some(self.items@[i].1),
            None => None,
        }
    }

    pub fn new() -> (r: Self)
        ensures
            forall|id: ScriptIdV| r.lookup(id) is None,
    {
        ScriptUnlockerManager { items: Vec::new() }
    }

    /// Registers `unlocker` for `script_id`, replacing any earlier entry.
    pub fn register(&mut self, script_id: ScriptId, unlocker: U)
        ensures
            final(self).lookup(script_id@) == Some(unlocker),
            forall|id: ScriptIdV|
                id != script_id@ ==> final(self).lookup(id) == old(self).lookup(id),
    {
        let n = self.items.len();
        let mut i: usize = 0;
        while i < n
            invariant
                n == self.items@.len(),
                0 <= i <= n,
                *self == *old(self),
                forall|j: int| 0 <= j < i ==> self.items@[j].0@ != script_id@,
            decreases n - i,
        {
            if script_id_eq(&self.items[i].0, &script_id) {
                self.items.set(i, (script_id, unlocker));
                proof {
                    lemma_find_key_update(old(self).items@, self.items@, i as int);
                    assert forall|id: ScriptIdV| id != script_id@ implies self.lookup(id) == old(
                        self,
                    ).lookup(id) by {
                        assert(find_key_idx(self.items@, id) == find_key_idx(
                            old(self).items@,
                            id,
                        ));
                        lemma_find_key_sound(self.items@, id);
                    }
                }
                return ;
            }
            i = i + 1;
        }
        self.items.push((script_id, unlocker));
        proof {
            lemma_find_key_push(old(self).items@, self.items@, self.items@.len() - 1);
            assert forall|id: ScriptIdV| id != script_id@ implies self.lookup(id) == old(
                self,
            ).lookup(id) by {
                assert(find_key_idx(self.items@, id) == find_key_idx(old(self).items@, id));
                lemma_find_key_sound(self.items@, id);
            }
        }
    }

    /// The unlocker registered for `script_id`, if any.
    pub fn get(&self, script_id: &ScriptId) -> (r: Option<&U>)
        ensures
            match r {
                Some(u) => self.lookup(script_id@) == Some(*u),
                None => self.lookup(script_id@) is None,
            },
    {
        let n = self.items.len();
        let mut i: usize = 0;
        while i < n
            invariant
                n == self.items@.len(),
                0 <= i <= n,
                forall|j: int| 0 <= j < i ==> self.items@[j].0@ != script_id@,
            decreases n - i,
        {
            if script_id_eq(&self.items[i].0, script_id) {
                proof {
                    lemma_find_key_first(self.items@, script_id@, i as int);
                }
                return Some(&self.items[i].1);
            }
            i = i + 1;
        }
        proof {
            lemma_find_key_none(self.items@, script_id@);
        }
        None
    }
}

impl<U: ScriptUnlocker> ScriptUnlockerManager<U> {
    /// The unlocker registered for `script_id`, for mutation.
    pub fn get_mut(&mut self, script_id: &ScriptId) -> (r: Option<&mut U>)
        ensures
            r is Some <==> old(self).lookup(script_id@) is Some,
    {
        let n = self.items.len();
        let mut i: usize = 0;
        while i < n
            invariant
                n == self.items@.len(),
                0 <= i <= n,
                *self == *old(self),
                forall|j: int| 0 <= j < i ==> (#[trigger] self.items@[j]).0@ != script_id@,
            decreases n - i,
        {
            if script_id_eq(&self.items[i].0, script_id) {
                proof {
                    lemma_find_key_first(self.items@, script_id@, i as int);
                }
                return Some(&mut self.items[i].1);
            }
            i = i + 1;
        }
        proof {
            lemma_find_key_none(self.items@, script_id@);
        }
        None
    }
}

impl<U: ScriptUnlocker> Default for ScriptUnlockerManager<U> {
    /// An empty registry.
    fn default() -> (r: Self)
        ensures
            forall|id: ScriptIdV| r.lookup(id) is None,
    {
        ScriptUnlockerManager { items: Vec::new() }
    }
}

// ---------------------------------------------------------------------
// Orchestration
// ---------------------------------------------------------------------

/// The views of a list of script groups.
pub open spec fn groups_view(gs: Seq<ScriptGroup>) -> Seq<ScriptGroupV> {
    gs.map_values(|g: ScriptGroup| g@)
}

/// The first group carrying `lock`.
pub open spec fn find_group(groups: Seq<ScriptGroupV>, lock: ScriptV) -> Option<int>
    decreases groups.len(),
{
    if groups.len() == 0 {
        None
    } else if groups[0].script == lock {
        Some(0)
    } else {
        match find_group(groups.drop_first(), lock) {
            Some(i) => Some(i + 1),
            None => None,
        }
    }
}

/// Files input `idx`, whose cell is guarded by `lock`, into its group,
/// opening a new group where the lock is new.
pub open spec fn add_to_lock_groups(
    groups: Seq<ScriptGroupV>,
    lock: ScriptV,
    idx: usize,
) -> Seq<ScriptGroupV> {
    match find_group(groups, lock) {
        Some(g) => groups.update(
            g,
            ScriptGroupV {
                script: groups[g].script,
                group_type: groups[g].group_type,
                input_indices: groups[g].input_indices.push(idx),
                output_indices: groups[g].output_indices,
            },
        ),
        None => groups.push(
            ScriptGroupV {
                script: lock,
                group_type: ScriptGroupType::Lock,
                input_indices: seq![idx],
                output_indices: Seq::empty(),
            },
        ),
    }
}

/// The lock-script groups of the first `n` inputs, in ascending
/// first-input order.
pub open spec fn lock_groups_upto(
    tx: TransactionV,
    cells: Map<OutPointV, (CellOutputV, Seq<u8>)>,
    n: int,
) -> Seq<ScriptGroupV>
    decreases n,
{
    if n <= 0 {
        Seq::empty()
    } else {
        add_to_lock_groups(
            lock_groups_upto(tx, cells, n - 1),
            cells[tx.inputs[n - 1].previous_output].0.lock,
            (n - 1) as usize,
        )
    }
}

/// The lock-script groups of a transaction.
pub open spec fn lock_groups_of(
    tx: TransactionV,
    cells: Map<OutPointV, (CellOutputV, Seq<u8>)>,
) -> Seq<ScriptGroupV> {
    lock_groups_upto(tx, cells, tx.inputs.len() as int)
}

/// Where the first group carrying `lock` is slot `g`, the lookup finds
/// it.
proof fn lemma_find_group_first(groups: Seq<ScriptGroupV>, lock: ScriptV, g: int)
    requires
        0 <= g < groups.len(),
        groups[g].script == lock,
        forall|j: int| 0 <= j < g ==> (#[trigger] groups[j]).script != lock,
    ensures
        find_group(groups, lock) == Some(g),
    decreases g,
{
    if g > 0 {
        lemma_find_group_first(groups.drop_first(), lock, g - 1);
    }
}

/// Where no group carries `lock`, the lookup finds nothing.
proof fn lemma_find_group_none(groups: Seq<ScriptGroupV>, lock: ScriptV)
    requires
        forall|j: int| 0 <= j < groups.len() ==> (#[trigger] groups[j]).script != lock,
    ensures
        find_group(groups, lock) is None,
    decreases groups.len(),
{
    if groups.len() > 0 {
        lemma_find_group_none(groups.drop_first(), lock);
    }
}

/// Groups the inputs of a transaction by the lock script of their cells,
/// in ascending first-input order.
#[verifier::loop_isolation(false)]
pub fn gen_lock_groups<P: TransactionDependencyProvider>(tx: &Transaction, tx_dep_provider: &P) -> (r:
    Result<Vec<ScriptGroup>, UnlockError>)
    ensures
        r is Ok ==> groups_view(r->Ok_0@) == lock_groups_of(tx@, tx_dep_provider.cells()),
    {
    let ghost cells = tx_dep_provider.cells();
    let mut groups: Vec<ScriptGroup> = Vec::new();
    let n = tx.inputs.len();
    let mut i: usize = 0;
    while i < n
        invariant
            n == tx.inputs@.len(),
            0 <= i <= n,
            groups_view(groups@) == lock_groups_upto(tx@, cells, i as int),
        decreases n - i,
    {
        let output = match tx_dep_provider.get_cell(&tx.inputs[i].previous_output) {
            Ok(o) => o,
            Err(e) => { return Err(UnlockError::TxDep(e)) },
        };
        let lock = &output.lock;
        let ghost before = groups_view(groups@);
        let m = groups.len();
        let mut g: usize = 0;
        let mut found: Option<usize> = None;
        while g < m
            invariant
                m == groups@.len(),
                0 <= g <= m,
                found is None ==> (forall|j: int|
                    0 <= j < g ==> (#[trigger] groups_view(groups@)[j]).script != lock@),
                match found {
                    Some(f) => f < m && groups_view(groups@)[f as int].script == lock@ && (
                    forall|j: int|
                        0 <= j < f ==> (#[trigger] groups_view(groups@)[j]).script != lock@),
                    None => true,
                },
            decreases m - g,
        {
            if found.is_none() && crate::types::script_eq(&groups[g].script, lock) {
                proof {
                    assert(groups_view(groups@)[g as int].script == lock@);
                }
                found = Some(g);
            }
            g = g + 1;
        }
        match found {
            Some(f) => {
                proof {
                    lemma_find_group_first(before, lock@, f as int);
                }
                let mut grp = groups[f].clone();
                grp.input_indices.push(i);
                groups.set(f, grp);
                proof {
                    assert(groups_view(groups@) =~= add_to_lock_groups(before, lock@, i));
                }
            },
            None => {
                proof {
                    lemma_find_group_none(before, lock@);
                }
                let grp = ScriptGroup {
                    script: output.lock,
                    group_type: ScriptGroupType::Lock,
                    input_indices: {
                        let mut v: Vec<usize> = Vec::new();
                        v.push(i);
                        v
                    },
                    output_indices: Vec::new(),
                };
                groups.push(grp);
                proof {
                    assert(groups_view(groups@)[before.len() as int].input_indices =~= seq![i]);
                    assert(groups_view(groups@) =~= add_to_lock_groups(before, lock@, i));
                }
            },
        }
        i = i + 1;
    }
    Ok(groups)
}

/// Whether a group needs no work from `unlock_tx`: its unlocker, if one
/// is registered and matches, already finds it unlocked.
pub open spec fn group_unlocked_already<U: ScriptUnlocker>(
    unlockers: ScriptUnlockerManager<U>,
    g: ScriptGroupV,
    tx: TransactionV,
    cells: Map<OutPointV, (CellOutputV, Seq<u8>)>,
) -> bool {
    match unlockers.lookup(script_id_of(g.script)) {
        Some(u) => u.matches_spec(g.script.args) ==> u.unlocked_spec(tx, g, cells),
        None => true,
    }
}

/// Whether no registered unlocker takes this group.
pub open spec fn group_unmatched<U: ScriptUnlocker>(
    unlockers: ScriptUnlockerManager<U>,
    g: ScriptGroupV,
) -> bool {
    match unlockers.lookup(script_id_of(g.script)) {
        Some(u) => !u.matches_spec(g.script.args),
        None => true,
    }
}

/// The groups no registered unlocker takes, in group order.
pub open spec fn unmatched_groups<U: ScriptUnlocker>(
    unlockers: ScriptUnlockerManager<U>,
    groups: Seq<ScriptGroupV>,
) -> Seq<ScriptGroupV>
    decreases groups.len(),
{
    if groups.len() == 0 {
        Seq::empty()
    } else {
        let rest = unmatched_groups(unlockers, groups.drop_last());
        if group_unmatched(unlockers, groups.last()) {
            rest.push(groups.last())
        } else {
            rest
        }
    }
}

/// The input index `i` belongs to none of the groups.
pub open spec fn outside_all_groups(groups: Seq<ScriptGroupV>, i: usize) -> bool {
    forall|g: int| 0 <= g < groups.len() ==> !(#[trigger] groups[g]).input_indices.contains(i)
}

/// Unlocks every lock-script group of `tx` that a registered unlocker
/// takes; the groups no unlocker takes are returned still locked, exactly
/// and in order.  Witnesses of inputs outside every group are untouched,
/// and a transaction whose groups are all already unlocked comes back
/// unchanged: unlocking is idempotent.
#[verifier::loop_isolation(false)]
pub fn unlock_tx<U: ScriptUnlocker, P: TransactionDependencyProvider>(
    tx: &Transaction,
    tx_dep_provider: &P,
    unlockers: &ScriptUnlockerManager<U>,
) -> (r: Result<(Transaction, Vec<ScriptGroup>), UnlockError>)
    ensures
        r is Ok ==> ({
            let cells = tx_dep_provider.cells();
            let groups = lock_groups_of(tx@, cells);
            &&& tx_same_skeleton(tx@, r->Ok_0.0@)
            &&& r->Ok_0.0@.witnesses.len() >= tx@.witnesses.len()
            &&& (forall|i: int|
                0 <= i < tx@.witnesses.len() && outside_all_groups(groups, i as usize)
                    ==> r->Ok_0.0@.witnesses[i] == tx@.witnesses[i])
            &&& ((forall|gi: int|
                0 <= gi < groups.len() ==> group_unlocked_already(
                    *unlockers,
                    #[trigger] groups[gi],
                    tx@,
                    cells,
                )) ==> r->Ok_0.0@ == tx@)
            &&& groups_view(r->Ok_0.1@) == unmatched_groups(*unlockers, groups)
        }),
{
    let ghost cells = tx_dep_provider.cells();
    let groups = match gen_lock_groups(tx, tx_dep_provider) {
        Ok(gs) => gs,
        Err(e) => { return Err(e) },
    };
    let ghost gsv = lock_groups_of(tx@, cells);
    let mut cur = tx.clone();
    let mut still_locked: Vec<ScriptGroup> = Vec::new();
    let n = groups.len();
    let mut k: usize = 0;
    while k < n
        invariant
            n == groups@.len(),
            0 <= k <= n,
            groups_view(groups@) == gsv,
            tx_same_skeleton(tx@, cur@),
            cur@.witnesses.len() >= tx@.witnesses.len(),
            forall|i: int|
                0 <= i < tx@.witnesses.len() && outside_all_groups(gsv, i as usize)
                    ==> cur@.witnesses[i] == tx@.witnesses[i],
            (forall|gi: int|
                0 <= gi < gsv.len() ==> group_unlocked_already(
                    *unlockers,
                    #[trigger] gsv[gi],
                    tx@,
                    cells,
                )) ==> cur@ == tx@,
            groups_view(still_locked@) == unmatched_groups(*unlockers, gsv.take(k as int)),
        decreases n - k,
    {
        let group = &groups[k];
        proof {
            assert(groups_view(groups@)[k as int] == group@);
        }
        let script_id = ScriptId::from_script(&group.script);
        let ghost cur_before = cur@;
        let mut handled = false;
        match unlockers.get(&script_id) {
            Some(unlocker) => {
                if unlocker.match_args(&group.script.args) {
                    handled = true;
                    match unlocker.is_unlocked(&cur, group, tx_dep_provider) {
                        Ok(true) => {},
                        Ok(false) => {
                            let next = match unlocker.unlock(&cur, group, tx_dep_provider) {
                                Ok(t) => t,
                                Err(e) => { return Err(e) },
                            };
                            cur = next;
                        },
                        Err(e) => { return Err(e) },
                    }
                }
            },
            None => {},
        }
        proof {
            // Witnesses outside every group survive this step: the
            // unlocker only touched indices of group `k`.
            assert forall|i: int|
                0 <= i < tx@.witnesses.len() && outside_all_groups(gsv, i as usize) implies
                cur@.witnesses[i] == tx@.witnesses[i] by {
                assert(!gsv[k as int].input_indices.contains(i as usize));
                assert(cur_before.witnesses[i] == tx@.witnesses[i]);
            }
            // The still-locked list grows by this group exactly where no
            // unlocker takes it.
            assert(gsv.take(k as int + 1).drop_last() =~= gsv.take(k as int));
            assert(gsv.take(k as int + 1).last() == gsv[k as int]);
            if handled {
                assert(!group_unmatched(*unlockers, group@));
            } else {
                assert(group_unmatched(*unlockers, group@));
            }
        }
        if !handled {
            let ghost before_locked = groups_view(still_locked@);
            still_locked.push(group.clone());
            proof {
                assert(groups_view(still_locked@) =~= before_locked.push(group@));
            }
        }
        k = k + 1;
    }
    proof {
        assert(gsv.take(n as int) =~= gsv);
    }
    Ok((cur, still_locked))
}

/// A found slot indeed holds the key.
proof fn lemma_find_key_sound<U: ScriptUnlocker>(items: Seq<(ScriptId, U)>, id: ScriptIdV)
    ensures
        match find_key_idx(items, id) {
            Some(j) => 0 <= j < items.len() && items[j].0@ == id,
            None => true,
        },
    decreases items.len(),
{
    if items.len() > 0 && items[0].0@ != id {
        lemma_find_key_sound(items.drop_first(), id);
    }
}

/// Where no slot holds `id`, the lookup finds nothing.
proof fn lemma_find_key_none<U: ScriptUnlocker>(items: Seq<(ScriptId, U)>, id: ScriptIdV)
    requires
        forall|j: int| 0 <= j < items.len() ==> (#[trigger] items[j]).0@ != id,
    ensures
        find_key_idx(items, id) is None,
    decreases items.len(),
{
    if items.len() > 0 {
        lemma_find_key_none(items.drop_first(), id);
    }
}

/// Where slot `i` is the first holding `id`, the lookup finds it.
proof fn lemma_find_key_first<U: ScriptUnlocker>(items: Seq<(ScriptId, U)>, id: ScriptIdV, i: int)
    requires
        0 <= i < items.len(),
        items[i].0@ == id,
        forall|j: int| 0 <= j < i ==> (#[trigger] items[j]).0@ != id,
    ensures
        find_key_idx(items, id) == Some(i),
    decreases i,
{
    if i > 0 {
        lemma_find_key_first(items.drop_first(), id, i - 1);
    }
}

/// Replacing the value in one slot moves every lookup that reached the
/// old table to the same slot of the new one.
proof fn lemma_find_key_update<U: ScriptUnlocker>(
    olds: Seq<(ScriptId, U)>,
    news: Seq<(ScriptId, U)>,
    i: int,
)
    requires
        0 <= i < olds.len(),
        news.len() == olds.len(),
        forall|j: int| 0 <= j < olds.len() && j != i ==> news[j] == olds[j],
        news[i].0@ == olds[i].0@,
        forall|j: int| 0 <= j < i ==> (#[trigger] olds[j]).0@ != olds[i].0@,
    ensures
        find_key_idx(news, news[i].0@) == Some(i),
        forall|id: ScriptIdV|
            id != news[i].0@ ==> #[trigger] find_key_idx(news, id) == find_key_idx(olds, id),
    decreases olds.len(),
{
    lemma_find_key_first(news, news[i].0@, i);
    assert forall|id: ScriptIdV| id != news[i].0@ implies #[trigger] find_key_idx(news, id)
        == find_key_idx(olds, id) by {
        lemma_find_key_same(olds, news, id);
    }
}

/// Two tables equal on keys give equal lookups for any other key.
proof fn lemma_find_key_same<U: ScriptUnlocker>(
    olds: Seq<(ScriptId, U)>,
    news: Seq<(ScriptId, U)>,
    id: ScriptIdV,
)
    requires
        news.len() == olds.len(),
        forall|j: int|
            0 <= j < olds.len() ==> ((#[trigger] news[j]).0@ == (#[trigger] olds[j]).0@ || (
            news[j].0@ != id && olds[j].0@ != id)),
        forall|j: int|
            0 <= j < olds.len() && news[j].0@ == id ==> news[j] == olds[j],
    ensures
        find_key_idx(news, id) == find_key_idx(olds, id),
    decreases olds.len(),
{
    if olds.len() > 0 {
        lemma_find_key_same(olds.drop_first(), news.drop_first(), id);
    }
}

/// Pushing a fresh key leaves every other lookup as it was and makes the
/// new key found at the end.
proof fn lemma_find_key_push<U: ScriptUnlocker>(
    olds: Seq<(ScriptId, U)>,
    news: Seq<(ScriptId, U)>,
    i: int,
)
    requires
        news.len() == olds.len() + 1,
        i == olds.len(),
        forall|j: int| 0 <= j < olds.len() ==> news[j] == olds[j],
        forall|j: int| 0 <= j < olds.len() ==> (#[trigger] olds[j]).0@ != news[i].0@,
    ensures
        find_key_idx(news, news[i].0@) == Some(i),
        forall|id: ScriptIdV|
            id != news[i].0@ ==> #[trigger] find_key_idx(news, id) == find_key_idx(olds, id),
    decreases olds.len(),
{
    lemma_find_key_first(news, news[i].0@, i);
    assert forall|id: ScriptIdV| id != news[i].0@ implies #[trigger] find_key_idx(news, id)
        == find_key_idx(olds, id) by {
        lemma_find_key_push_other(olds, news, i, id);
    }
}

proof fn lemma_find_key_push_other<U: ScriptUnlocker>(
    olds: Seq<(ScriptId, U)>,
    news: Seq<(ScriptId, U)>,
    i: int,
    id: ScriptIdV,
)
    requires
        news.len() == olds.len() + 1,
        i == olds.len(),
        forall|j: int| 0 <= j < olds.len() ==> news[j] == olds[j],
        news[i].0@ != id,
    ensures
        find_key_idx(news, id) == find_key_idx(olds, id),
    decreases olds.len(),
{
    if olds.len() > 0 {
        lemma_find_key_push_other(olds.drop_first(), news.drop_first(), i - 1, id);
    } else {
        assert(news.drop_first().len() == 0);
        assert(find_key_idx(news.drop_first(), id) is None);
    }
}

} // verus!
