//! Plain capacity transfer: the receivers' cells become the outputs,
//! exactly as given; the balancer selects the inputs.

use vstd::prelude::*;

use crate::traits::CellCollector;
use crate::traits::CellDepResolver;
use crate::traits::HeaderDepResolver;
use crate::traits::TransactionDependencyProvider;
use crate::tx_builder::TxBuilder;
use crate::tx_builder::TxBuilderError;
use crate::types::CellOutput;
use crate::types::Transaction;
use crate::types::copy_bytes;

verus! {

/// Builds a transaction that pays fixed cells to receivers; every input
/// comes from the balancer.
pub struct CapacityTransferBuilder {
    pub receivers: Vec<(CellOutput, Vec<u8>)>,
}

impl CapacityTransferBuilder {
    pub fn new(receivers: Vec<(CellOutput, Vec<u8>)>) -> (r: CapacityTransferBuilder)
        ensures
            r.receivers == receivers,
    {
        CapacityTransferBuilder { receivers }
    }
}

impl TxBuilder for CapacityTransferBuilder {
    /// The base transaction holds exactly the receivers' cells as outputs
    /// and nothing else.
    #[verifier::loop_isolation(false)]
    fn build_base<C: CellCollector, D: CellDepResolver, H: HeaderDepResolver, P: TransactionDependencyProvider>(
        &self,
        _cell_collector: &mut C,
        _cell_dep_resolver: &D,
        _header_dep_resolver: &H,
        _tx_dep_provider: &P,
    ) -> (r: Result<Transaction, TxBuilderError>)
        ensures
            r is Ok ==> ({
                let tx = r->Ok_0@;
                &&& tx.cell_deps.len() == 0
                &&& tx.header_deps.len() == 0
                &&& tx.inputs.len() == 0
                &&& tx.witnesses.len() == 0
                &&& tx.outputs.len() == self.receivers@.len()
                &&& tx.outputs_data.len() == self.receivers@.len()
                &&& (forall|i: int|
                    0 <= i < self.receivers@.len() ==> tx.outputs[i] == (
                    #[trigger] self.receivers@[i]).0@ && tx.outputs_data[i]
                        == self.receivers@[i].1@)
            }),
            r is Ok,
    {
        let mut outputs: Vec<CellOutput> = Vec::new();
        let mut outputs_data: Vec<Vec<u8>> = Vec::new();
        let mut i: usize = 0;
        while i < self.receivers.len()
            invariant
                0 <= i <= self.receivers@.len(),
                outputs@.len() == i,
                outputs_data@.len() == i,
                forall|j: int|
                    0 <= j < i ==> (#[trigger] outputs@[j])@ == self.receivers@[j].0@
                        && outputs_data@[j]@ == self.receivers@[j].1@,
            decreases self.receivers@.len() - i,
        {
            let (output, data) = &self.receivers[i];
            outputs.push(output.clone());
            outputs_data.push(copy_bytes(data));
            i = i + 1;
        }
        Ok(
            Transaction {
                cell_deps: Vec::new(),
                header_deps: Vec::new(),
                inputs: Vec::new(),
                outputs,
                outputs_data,
                witnesses: Vec::new(),
            },
        )
    }
}

} // verus!
