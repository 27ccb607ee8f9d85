//! The boundary to the chain's own type library.
//!
//! Script hashing and witness parsing are done by `ckb_types`; each call
//! stands behind a single trusted item whose contract names the result.

use vstd::prelude::*;

use ckb_types::prelude::Builder;
use ckb_types::prelude::Entity;
use ckb_types::prelude::Pack;

use crate::types::HashType;
use crate::types::Script;
use crate::types::ScriptV;
use crate::types::WitnessArgs;
use crate::types::WitnessArgsV;

verus! {

/// The blake2b-256 hash of the molecule serialisation of a script, as a
/// function of the script's three fields.  Its value is fixed by the
/// chain's serialisation rules; nothing here states it.
pub uninterp spec fn script_hash_of(code_hash: Seq<u8>, hash_type: u8, args: Seq<u8>) -> Seq<u8>;

/// The hash of a script value.
pub open spec fn script_hash_spec(s: ScriptV) -> Seq<u8> {
    script_hash_of(s.code_hash, crate::types::hash_type_byte(s.hash_type), s.args)
}

/// Relies on `ckb_types::packed::Script::calc_script_hash`: the
/// blake2b-256 hash of the molecule-serialised script, a function of the
/// script's fields alone, always 32 bytes.
#[verifier::external_body]
pub(crate) fn script_hash(script: &Script) -> (r: Vec<u8>)
    requires
        script@.wf(),
    ensures
        r@ == script_hash_of(
            script@.code_hash,
            crate::types::hash_type_byte(script@.hash_type),
            script@.args,
        ),
        r@.len() == 32,
{
    let ht: u8 = match script.hash_type {
        HashType::Data => 0,
        HashType::Type => 1,
        HashType::Data1 => 2,
    };
    let packed = ckb_types::packed::Script::new_builder()
        .code_hash(ckb_types::packed::Byte32::from_slice(script.code_hash.as_slice()).unwrap())
        .hash_type(ht)
        .args(script.args.as_slice().pack())
        .build();
    packed.calc_script_hash().as_slice().to_vec()
}

/// What parsing a witness as a molecule table of three optional byte
/// strings yields, as a function of the bytes alone; `None` where the
/// bytes are not such a table.
pub uninterp spec fn wa_parse(w: Seq<u8>) -> Option<WitnessArgsV>;

/// Relies on `ckb_types::packed::WitnessArgs::from_slice`: parses the
/// molecule table of three optional byte strings, a function of the bytes
/// alone.
#[verifier::external_body]
pub(crate) fn parse_witness_args(w: &Vec<u8>) -> (r: Option<WitnessArgs>)
    ensures
        r is Some <==> wa_parse(w@) is Some,
        r is Some ==> r->0@ == wa_parse(w@)->0,
{
    match ckb_types::packed::WitnessArgs::from_slice(w.as_slice()) {
        Ok(wa) => Some(
            WitnessArgs {
                lock: wa.lock().to_opt().map(|b| b.raw_data().to_vec()),
                input_type: wa.input_type().to_opt().map(|b| b.raw_data().to_vec()),
                output_type: wa.output_type().to_opt().map(|b| b.raw_data().to_vec()),
            },
        ),
        Err(_) => None,
    }
}

/// A block header as the chain library carries it; opaque here, only
/// handed through.
#[verifier::external_type_specification]
#[verifier::external_body]
pub struct ExHeaderView(ckb_types::core::HeaderView);

/// The chain's consensus parameters; opaque here, only handed through.
#[verifier::external_type_specification]
#[verifier::external_body]
pub struct ExConsensus(ckb_chain_spec::consensus::Consensus);

} // verus!
