//! The serialized size of a transaction, as the chain counts it for fees:
//! the length of the molecule encoding plus the per-transaction offset a
//! block stores.
//!
//! Molecule lays out a struct as its fields, a fixed-item vector as a
//! 4-byte count plus the items, a dynamic vector and a table as a 4-byte
//! full size, one 4-byte offset per item or field, and the items.

use vstd::prelude::*;

use crate::types::CellOutputV;
use crate::types::ScriptV;
use crate::types::Transaction;
use crate::types::TransactionV;

verus! {

/// Serialized bytes of a script: a table of the 32-byte code hash, the
/// hash-type byte and the args.
pub open spec fn script_ser_size(s: ScriptV) -> int {
    4 + 3 * 4 + 32 + 1 + 4 + s.args.len() as int
}

/// Serialized bytes of an output: a table of the 8-byte capacity, the
/// lock and the optional type script.
pub open spec fn output_ser_size(o: CellOutputV) -> int {
    4 + 3 * 4 + 8 + script_ser_size(o.lock) + (match o.type_script {
        Some(t) => script_ser_size(t),
        None => 0,
    })
}

/// Serialized bytes of the outputs: a dynamic vector.
pub open spec fn outputs_ser_size(os: Seq<CellOutputV>) -> int
    decreases os.len(),
{
    if os.len() == 0 {
        4
    } else {
        outputs_ser_size(os.drop_last()) + 4 + output_ser_size(os.last())
    }
}

/// Serialized bytes of a list of byte strings: a dynamic vector of
/// 4-byte-prefixed items.
pub open spec fn bytes_vec_ser_size(bs: Seq<Seq<u8>>) -> int
    decreases bs.len(),
{
    if bs.len() == 0 {
        4
    } else {
        bytes_vec_ser_size(bs.drop_last()) + 4 + 4 + bs.last().len() as int
    }
}

/// Serialized size of a whole transaction in a block: the table of the
/// raw transaction and the witnesses, plus the block's 4-byte offset.
/// Deps are 37 bytes each, header deps 32, inputs 44.
pub open spec fn tx_serialized_size(tx: TransactionV) -> int {
    let raw = 4 + 6 * 4 + 4 + (4 + 37 * tx.cell_deps.len() as int) + (4 + 32 * tx.header_deps.len() as int) + (4
        + 44 * tx.inputs.len() as int) + outputs_ser_size(tx.outputs) + bytes_vec_ser_size(
        tx.outputs_data,
    );
    4 + 2 * 4 + raw + bytes_vec_ser_size(tx.witnesses) + 4
}

proof fn lemma_outputs_ser_size_nonneg(os: Seq<CellOutputV>)
    ensures
        outputs_ser_size(os) >= 4,
    decreases os.len(),
{
    if os.len() > 0 {
        lemma_outputs_ser_size_nonneg(os.drop_last());
    }
}

proof fn lemma_bytes_vec_ser_size_nonneg(bs: Seq<Seq<u8>>)
    ensures
        bytes_vec_ser_size(bs) >= 4,
    decreases bs.len(),
{
    if bs.len() > 0 {
        lemma_bytes_vec_ser_size_nonneg(bs.drop_last());
    }
}

/// Sums the serialized sizes of the outputs; `None` where they leave
/// `u64` range.
#[verifier::loop_isolation(false)]
fn outputs_ser_size_exec(outputs: &Vec<crate::types::CellOutput>) -> (r: Option<u64>)
    ensures
        r is Some <==> outputs_ser_size(crate::types::outputs_view(outputs@)) <= u64::MAX,
        r is Some ==> r->0 as int == outputs_ser_size(crate::types::outputs_view(outputs@)),
{
    let ghost os = crate::types::outputs_view(outputs@);
    let mut acc: u64 = 4;
    let mut i: usize = 0;
    while i < outputs.len()
        invariant
            0 <= i <= outputs@.len(),
            acc as int == outputs_ser_size(os.take(i as int)),
        decreases outputs@.len() - i,
    {
        proof {
            assert(os.take(i as int + 1).drop_last() =~= os.take(i as int));
        }
        let o = &outputs[i];
        let type_size: u128 = match &o.type_script {
            Some(t) => 53 + t.args.len() as u128,
            None => 0,
        };
        let item: u128 = 4 + 16 + 8 + 53 + o.lock.args.len() as u128 + type_size;
        if item > u64::MAX as u128 - acc as u128 {
            proof {
                lemma_outputs_size_monotone(os, i as int + 1);
            }
            return None;
        }
        acc = acc + (item as u64);
        i = i + 1;
    }
    proof {
        assert(os.take(outputs@.len() as int) =~= os);
    }
    Some(acc)
}

/// A prefix of the outputs never serializes larger than the whole.
proof fn lemma_outputs_size_monotone(os: Seq<CellOutputV>, n: int)
    requires
        0 <= n <= os.len(),
    ensures
        outputs_ser_size(os.take(n)) <= outputs_ser_size(os),
    decreases os.len() - n,
{
    if n < os.len() {
        lemma_outputs_size_monotone(os, n + 1);
        assert(os.take(n + 1).drop_last() =~= os.take(n));
        assert(outputs_ser_size(os.take(n)) <= outputs_ser_size(os.take(n + 1)));
    } else {
        assert(os.take(n) =~= os);
    }
}

/// Sums the serialized sizes of a list of byte strings; `None` where they
/// leave `u64` range.
#[verifier::loop_isolation(false)]
fn bytes_vec_ser_size_exec(bs: &Vec<Vec<u8>>) -> (r: Option<u64>)
    ensures
        r is Some <==> bytes_vec_ser_size(crate::types::bytes_list_view(bs@)) <= u64::MAX,
        r is Some ==> r->0 as int == bytes_vec_ser_size(crate::types::bytes_list_view(bs@)),
{
    let ghost v = crate::types::bytes_list_view(bs@);
    let mut acc: u64 = 4;
    let mut i: usize = 0;
    while i < bs.len()
        invariant
            0 <= i <= bs@.len(),
            acc as int == bytes_vec_ser_size(v.take(i as int)),
        decreases bs@.len() - i,
    {
        proof {
            assert(v.take(i as int + 1).drop_last() =~= v.take(i as int));
        }
        let item: u128 = 8 + bs[i].len() as u128;
        if item > u64::MAX as u128 - acc as u128 {
            proof {
                lemma_bytes_vec_size_monotone(v, i as int + 1);
            }
            return None;
        }
        acc = acc + (item as u64);
        i = i + 1;
    }
    proof {
        assert(v.take(bs@.len() as int) =~= v);
    }
    Some(acc)
}

/// A prefix of a byte-string list never serializes larger than the whole.
proof fn lemma_bytes_vec_size_monotone(bs: Seq<Seq<u8>>, n: int)
    requires
        0 <= n <= bs.len(),
    ensures
        bytes_vec_ser_size(bs.take(n)) <= bytes_vec_ser_size(bs),
    decreases bs.len() - n,
{
    if n < bs.len() {
        lemma_bytes_vec_size_monotone(bs, n + 1);
        assert(bs.take(n + 1).drop_last() =~= bs.take(n));
        assert(bytes_vec_ser_size(bs.take(n)) <= bytes_vec_ser_size(bs.take(n + 1)));
    } else {
        assert(bs.take(n) =~= bs);
    }
}

/// The serialized size of `tx` in a block, or `None` where it leaves
/// `u64` range.
pub fn tx_serialized_size_exec(tx: &Transaction) -> (r: Option<u64>)
    ensures
        r is Some <==> tx_serialized_size(tx@) <= u64::MAX,
        r is Some ==> r->0 as int == tx_serialized_size(tx@),
{
    proof {
        lemma_outputs_ser_size_nonneg(tx@.outputs);
        lemma_bytes_vec_ser_size_nonneg(tx@.outputs_data);
        lemma_bytes_vec_ser_size_nonneg(tx@.witnesses);
    }
    let outputs_size: u128 = match outputs_ser_size_exec(&tx.outputs) {
        Some(v) => v as u128,
        None => { return None },
    };
    let outputs_data_size: u128 = match bytes_vec_ser_size_exec(&tx.outputs_data) {
        Some(v) => v as u128,
        None => { return None },
    };
    let witnesses_size: u128 = match bytes_vec_ser_size_exec(&tx.witnesses) {
        Some(v) => v as u128,
        None => { return None },
    };
    let raw: u128 = 4 + 24 + 4 + (4 + 37 * tx.cell_deps.len() as u128) + (4 + 32
        * tx.header_deps.len() as u128) + (4 + 44 * tx.inputs.len() as u128) + outputs_size
        + outputs_data_size;
    let total: u128 = 4 + 8 + raw + witnesses_size + 4;
    if total <= u64::MAX as u128 {
        Some(total as u64)
    } else {
        None
    }
}

/// The least fee a transaction of `size` bytes pays at `fee_rate`
/// shannons per thousand bytes: the rate scaled by the size, rounded up.
pub open spec fn fee_for(size: int, fee_rate: u64) -> int {
    (size * fee_rate + 999) / 1000
}

/// Computes [`fee_for`]; `None` where the fee leaves `u64` range.
pub fn fee_for_exec(size: u64, fee_rate: u64) -> (r: Option<u64>)
    ensures
        r is Some <==> fee_for(size as int, fee_rate) <= u64::MAX,
        r is Some ==> r->0 as int == fee_for(size as int, fee_rate),
{
    proof {
        vstd::arithmetic::mul::lemma_mul_inequality(size as int, u64::MAX as int, fee_rate as int);
        vstd::arithmetic::mul::lemma_mul_upper_bound(
            size as int,
            u64::MAX as int,
            fee_rate as int,
            u64::MAX as int,
        );
    }
    let product: u128 = (size as u128) * (fee_rate as u128);
    let fee: u128 = (product + 999) / 1000;
    if fee <= u64::MAX as u128 {
        Some(fee as u64)
    } else {
        None
    }
}

} // verus!
