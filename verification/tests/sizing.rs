//! The transaction size function against the chain library's own count.

use ckb_tx_core::sizing::tx_serialized_size_exec;
use ckb_tx_core::types::{
    CellDep, CellInput, CellOutput, DepType, HashType, OutPoint, Script, Transaction,
};
use ckb_types::prelude::Builder;
use ckb_types::prelude::Entity;
use ckb_types::prelude::Pack;

fn script(code_byte: u8, args: Vec<u8>) -> Script {
    Script { code_hash: vec![code_byte; 32], hash_type: HashType::Type, args }
}

fn out_point(tx_byte: u8, index: u32) -> OutPoint {
    OutPoint { tx_hash: vec![tx_byte; 32], index }
}

fn pack_script(s: &Script) -> ckb_types::packed::Script {
    let ht: u8 = match s.hash_type {
        HashType::Data => 0,
        HashType::Type => 1,
        HashType::Data1 => 2,
    };
    ckb_types::packed::Script::new_builder()
        .code_hash(ckb_types::packed::Byte32::from_slice(s.code_hash.as_slice()).unwrap())
        .hash_type(ht)
        .args(s.args.as_slice().pack())
        .build()
}

fn pack_tx(tx: &Transaction) -> ckb_types::packed::Transaction {
    let cell_deps: Vec<ckb_types::packed::CellDep> = tx
        .cell_deps
        .iter()
        .map(|d| {
            ckb_types::packed::CellDep::new_builder()
                .out_point(
                    ckb_types::packed::OutPoint::new_builder()
                        .tx_hash(
                            ckb_types::packed::Byte32::from_slice(d.out_point.tx_hash.as_slice())
                                .unwrap(),
                        )
                        .index::<ckb_types::packed::Uint32>(d.out_point.index.pack())
                        .build(),
                )
                .dep_type(match d.dep_type {
                    DepType::Code => 0u8,
                    DepType::DepGroup => 1u8,
                })
                .build()
        })
        .collect();
    let header_deps: Vec<ckb_types::packed::Byte32> = tx
        .header_deps
        .iter()
        .map(|h| ckb_types::packed::Byte32::from_slice(h.as_slice()).unwrap())
        .collect();
    let inputs: Vec<ckb_types::packed::CellInput> = tx
        .inputs
        .iter()
        .map(|i| {
            ckb_types::packed::CellInput::new_builder()
                .previous_output(
                    ckb_types::packed::OutPoint::new_builder()
                        .tx_hash(
                            ckb_types::packed::Byte32::from_slice(
                                i.previous_output.tx_hash.as_slice(),
                            )
                            .unwrap(),
                        )
                        .index::<ckb_types::packed::Uint32>(i.previous_output.index.pack())
                        .build(),
                )
                .since::<ckb_types::packed::Uint64>(i.since.pack())
                .build()
        })
        .collect();
    let outputs: Vec<ckb_types::packed::CellOutput> = tx
        .outputs
        .iter()
        .map(|o| {
            let type_script = match &o.type_script {
                Some(t) => Some(pack_script(t)),
                None => None,
            };
            ckb_types::packed::CellOutput::new_builder()
                .capacity::<ckb_types::packed::Uint64>(o.capacity.pack())
                .lock(pack_script(&o.lock))
                .type_(type_script.pack())
                .build()
        })
        .collect();
    let outputs_data: Vec<ckb_types::packed::Bytes> =
        tx.outputs_data.iter().map(|d| d.as_slice().pack()).collect();
    let witnesses: Vec<ckb_types::packed::Bytes> =
        tx.witnesses.iter().map(|w| w.as_slice().pack()).collect();
    let raw = ckb_types::packed::RawTransaction::new_builder()
        .version::<ckb_types::packed::Uint32>(0u32.pack())
        .cell_deps(ckb_types::packed::CellDepVec::new_builder().set(cell_deps).build())
        .header_deps(ckb_types::packed::Byte32Vec::new_builder().set(header_deps).build())
        .inputs(ckb_types::packed::CellInputVec::new_builder().set(inputs).build())
        .outputs(ckb_types::packed::CellOutputVec::new_builder().set(outputs).build())
        .outputs_data(ckb_types::packed::BytesVec::new_builder().set(outputs_data).build())
        .build();
    ckb_types::packed::Transaction::new_builder()
        .raw(raw)
        .witnesses(ckb_types::packed::BytesVec::new_builder().set(witnesses).build())
        .build()
}

fn check_size(tx: &Transaction) {
    let expected = pack_tx(tx).serialized_size_in_block() as u64;
    assert_eq!(tx_serialized_size_exec(tx), Some(expected));
}

#[test]
fn size_of_empty_transaction_matches_chain_library() {
    check_size(&Transaction {
        cell_deps: vec![],
        header_deps: vec![],
        inputs: vec![],
        outputs: vec![],
        outputs_data: vec![],
        witnesses: vec![],
    });
}

#[test]
fn size_of_full_transaction_matches_chain_library() {
    check_size(&Transaction {
        cell_deps: vec![
            CellDep { out_point: out_point(1, 0), dep_type: DepType::Code },
            CellDep { out_point: out_point(2, 1), dep_type: DepType::DepGroup },
        ],
        header_deps: vec![vec![3; 32]],
        inputs: vec![
            CellInput { previous_output: out_point(4, 0), since: 0 },
            CellInput { previous_output: out_point(5, 7), since: 0xA000000000000006 },
        ],
        outputs: vec![
            CellOutput { capacity: 100, lock: script(6, vec![1; 20]), type_script: None },
            CellOutput {
                capacity: 200,
                lock: script(7, vec![2; 22]),
                type_script: Some(script(8, vec![3; 32])),
            },
        ],
        outputs_data: vec![vec![], vec![9; 16]],
        witnesses: vec![vec![], vec![0; 85]],
    });
}
