//! Base-transaction builders.  Each builder produces a transaction whose
//! inputs satisfy its semantic requirement; fee balancing and witness
//! filling are later stages.

pub mod acp;
pub mod balancer;
pub mod transfer;
pub mod udt;

use vstd::prelude::*;

use crate::traits::CellCollector;
use crate::traits::CellCollectorError;
use crate::traits::CellDepResolver;
use crate::traits::HeaderDepResolver;
use crate::traits::TransactionDependencyProvider;
use crate::types::Transaction;
use crate::types::CellDep;
use crate::types::CellDepV;
use crate::types::ScriptId;
use crate::types::cell_dep_eq;
use crate::types::deps_view;

verus! {

/// Why a base transaction could not be built or balanced.
pub enum TxBuilderError {
    /// No cell-dep is known for this script.
    ResolveCellDepFailed(ScriptId),
    /// The cell collector failed.
    CellCollector(CellCollectorError),
    /// A transaction dependency could not be served.
    TxDep(crate::traits::TransactionDependencyError),
    /// No provider could supply the missing capacity.
    CapacityNotEnough,
    /// Balancing oscillated without settling.
    BalanceNotConverged,
    /// A script group could not be unlocked.
    Unlock(crate::unlock::unlocker::UnlockError),
    Other(String),
}

/// Builds the base transaction of one kind of transfer: inputs that
/// satisfy the builder's own requirement, with the needed cell-deps
/// resolved.  Fee balancing and witness filling are later stages.
pub trait TxBuilder {
    fn build_base<C: CellCollector, D: CellDepResolver, H: HeaderDepResolver, P: TransactionDependencyProvider>(
        &self,
        cell_collector: &mut C,
        cell_dep_resolver: &D,
        header_dep_resolver: &H,
        tx_dep_provider: &P,
    ) -> (r: Result<Transaction, TxBuilderError>)
        ensures
            r is Ok ==> r->Ok_0@.outputs_data.len() == r->Ok_0@.outputs.len(),
            r is Ok ==> r->Ok_0@.witnesses.len() <= r->Ok_0@.inputs.len(),
    ;
}

/// How a UDT receiver takes its amount: as a fresh cell or added to a
/// cell it already owns.
#[derive(Clone, Copy, PartialEq, Eq, Structural, Debug, Hash)]
pub enum TransferAction {
    Create,
    Update,
}

/// Appends `dep` unless an equal dep is already present, keeping the list
/// free of duplicates.
pub fn push_cell_dep_dedup(deps: &mut Vec<CellDep>, dep: CellDep)
    ensures
        deps_view(final(deps)@).contains(dep@),
        deps_view(old(deps)@).contains(dep@) ==> final(deps)@ == old(deps)@,
        !deps_view(old(deps)@).contains(dep@) ==> deps_view(final(deps)@) == deps_view(
            old(deps)@,
        ).push(dep@),
        forall|d: CellDepV| #![trigger deps_view(final(deps)@).contains(d)]
            deps_view(final(deps)@).contains(d) <==> (deps_view(old(deps)@).contains(d) || d
                == dep@),
{
    let ghost olds = deps_view(deps@);
    let n = deps.len();
    let mut i: usize = 0;
    while i < n
        invariant
            n == deps@.len(),
            0 <= i <= n,
            olds == deps_view(deps@),
            forall|j: int| 0 <= j < i ==> olds[j] != dep@,
        decreases n - i,
    {
        if cell_dep_eq(&deps[i], &dep) {
            proof {
                assert(olds[i as int] == dep@);
                assert(olds.contains(dep@));
                assert forall|d: CellDepV| #![trigger deps_view(deps@).contains(d)]
                    deps_view(deps@).contains(d) <==> (olds.contains(d) || d == dep@) by {}
            }
            return ;
        }
        i = i + 1;
    }
    proof {
        assert(!olds.contains(dep@));
    }
    deps.push(dep);
    proof {
        assert(deps_view(deps@) =~= olds.push(dep@));
        assert(deps_view(deps@)[olds.len() as int] == dep@);
        assert(deps_view(deps@).contains(dep@));
        assert forall|d: CellDepV| #[trigger] deps_view(deps@).contains(d) implies (olds.contains(
            d,
        ) || d == dep@) by {
            let j = choose|j: int| 0 <= j < deps_view(deps@).len() && deps_view(deps@)[j] == d;
            if j < olds.len() {
                assert(olds[j] == d);
            }
        }
        assert forall|d: CellDepV| olds.contains(d) implies #[trigger] deps_view(deps@).contains(
            d,
        ) by {
            let j = choose|j: int| 0 <= j < olds.len() && olds[j] == d;
            assert(deps_view(deps@)[j] == d);
        }
    }
}

/// `d` is what the resolver's table holds for some script identity.
pub open spec fn dep_resolved(
    deps_map: Map<crate::types::ScriptIdV, CellDepV>,
    d: CellDepV,
) -> bool {
    exists|id: crate::types::ScriptIdV| deps_map.contains_key(id) && d == deps_map[id]
}

/// Pushing keeps every element already contained.
pub proof fn lemma_push_keeps_contains<T>(s: Seq<T>, x: T, y: T)
    requires
        s.contains(y),
    ensures
        s.push(x).contains(y),
{
    let j = choose|j: int| 0 <= j < s.len() && s[j] == y;
    assert(s.push(x)[j] == y);
}

/// No two deps in the list are equal.
pub open spec fn cell_deps_distinct(deps: Seq<CellDepV>) -> bool {
    forall|i: int, j: int| 0 <= i < j < deps.len() ==> deps[i] != deps[j]
}

/// Appending through [`push_cell_dep_dedup`] keeps the list distinct.
pub proof fn lemma_dedup_keeps_distinct(olds: Seq<CellDepV>, news: Seq<CellDepV>, dep: CellDepV)
    requires
        cell_deps_distinct(olds),
        olds.contains(dep) ==> news == olds,
        !olds.contains(dep) ==> news == olds.push(dep),
    ensures
        cell_deps_distinct(news),
{
    if !olds.contains(dep) {
        assert forall|i: int, j: int| 0 <= i < j < news.len() implies news[i] != news[j] by {
            if j == news.len() - 1 {
                assert(news[i] == olds[i]);
                assert(olds.contains(olds[i]));
            }
        }
    }
}

} // verus!
