//! Statements on types, routines, publications and subscriptions. Their rows
//! are read from the catalog and looked up, and no statement changes them.
use crate::cache::CatalogFamily;
use crate::evidence::{EvidenceCode, EvidenceScope};
use crate::facts::FunctionSigFact;
use crate::identifiers::{object, ObjectId, ObjectIdView};
use crate::mutations::Mutation;
use crate::state::journal::{group_kept, kept, tainted};
use crate::state::lookup::{routine_schema, scoped_family_object};
use crate::state::{AnalysisState, MutationResult, MutationResultView, StateData};
use crate::text::{join4, join_all, joined};
use vstd::prelude::*;

verus! {

broadcast use group_kept;

/// Whether a statement is about a family that no statement changes.
pub open spec fn is_unmodeled(m: Mutation) -> bool {
    match m {
        Mutation::CreateType(_) | Mutation::AlterType(_) | Mutation::RenameType(_) | Mutation::CreateDomain(_) | Mutation::AlterDomain(_)
        | Mutation::DropDomain(_) | Mutation::DropType(_) | Mutation::CreateFunction(_) | Mutation::AlterFunction(_) | Mutation::DropFunction(_)
        | Mutation::CreateProcedure(_) | Mutation::AlterProcedure(_) | Mutation::DropProcedure(_) | Mutation::CreateAggregate(_)
        | Mutation::AlterAggregate(_) | Mutation::DropAggregate(_) | Mutation::CreatePublication(_) | Mutation::AlterPublication(_)
        | Mutation::DropPublication(_) | Mutation::CreateSubscription(_) | Mutation::AlterSubscription(_) | Mutation::DropSubscription(_) => true,
        _ => false,
    }
}

/// The name under which a routine is stored: its own and its parameter types.
pub open spec fn routine_name(name: Seq<char>, params: Seq<Seq<char>>) -> Seq<char> {
    name + "("@ + joined(params, ","@) + ")"@
}

pub open spec fn routine_id(d: StateData, sig: FunctionSigFact) -> ObjectIdView {
    let name = routine_name(sig.name@.name.resolved(), sig.params.deep_view());
    object(
        match sig.name@.schema {
            Some(schema) => schema.resolved(),
            None => routine_schema(d, name, 0),
        },
        name,
    )
}

/// Whether a drop names an object whose dependents outside of the synchronized
/// schemas are unknown.
pub open spec fn drops_scoped_object(d: StateData, m: Mutation) -> bool {
    match m {
        Mutation::DropType(x) => some_scoped_type(d, x.ids.deep_view()),
        Mutation::DropDomain(x) => some_scoped_type(d, x.ids.deep_view()),
        Mutation::DropFunction(x) => some_scoped_routine(d, x.signatures@),
        Mutation::DropProcedure(x) => some_scoped_routine(d, x.signatures@),
        Mutation::DropAggregate(x) => some_scoped_routine(d, x.signatures@),
        _ => false,
    }
}

pub open spec fn some_scoped_type(d: StateData, ids: Seq<ObjectIdView>) -> bool {
    exists|i: int| 0 <= i < ids.len() && scoped_family_object(d, #[trigger] ids[i], CatalogFamily::Types)
}

pub open spec fn some_scoped_routine(d: StateData, sigs: Seq<FunctionSigFact>) -> bool {
    exists|i: int| 0 <= i < sigs.len() && scoped_family_object(d, routine_id(d, #[trigger] sigs[i]), CatalogFamily::Routines)
}

/// Such a statement is skipped, and what is missing is recorded.
pub open spec fn unmodeled_skipped(d: StateData, m: Mutation) -> (StateData, MutationResultView) {
    (
        tainted(
            d,
            if drops_scoped_object(d, m) {
                EvidenceCode::CatalogCoverageIncomplete
            } else {
                EvidenceCode::UnmodeledState
            },
            EvidenceScope::Chain,
        ),
        MutationResultView::Skipped,
    )
}

impl AnalysisState {
    /// The identity of a routine that a statement names.
    pub fn find_routine_id(&self, sig: &FunctionSigFact) -> (r: ObjectId)
        ensures
            r@ == routine_id(self@.data, *sig),
    {
        let name = join4(&sig.name.name.resolve(), "(", &join_all(&sig.params, ","), ")");
        let schema = self.resolve_function_schema(&sig.name, &name);
        ObjectId::new(&schema, &name)
    }

    fn some_type_is_scoped(&self, ids: &Vec<ObjectId>) -> (b: bool)
        ensures
            b == some_scoped_type(self@.data, ids.deep_view()),
    {
        let ghost d = self@.data;
        let mut i: usize = 0;
        while i < ids.len()
            invariant
                i <= ids.len(),
                d == self@.data,
                forall|j: int| 0 <= j < i ==> !scoped_family_object(d, #[trigger] ids.deep_view()[j], CatalogFamily::Types),
            decreases ids.len() - i,
        {
            assert(ids.deep_view()[i as int] == ids@[i as int]@);
            if self.baseline_scoped_family_object(&ids[i], CatalogFamily::Types) {
                return true;
            }
            i = i + 1;
        }
        false
    }

    fn some_routine_is_scoped(&self, sigs: &Vec<FunctionSigFact>) -> (b: bool)
        ensures
            b == some_scoped_routine(self@.data, sigs@),
    {
        let ghost d = self@.data;
        let mut i: usize = 0;
        while i < sigs.len()
            invariant
                i <= sigs.len(),
                d == self@.data,
                forall|j: int| 0 <= j < i ==> !scoped_family_object(d, routine_id(d, #[trigger] sigs@[j]), CatalogFamily::Routines),
            decreases sigs.len() - i,
        {
            if self.baseline_scoped_family_object(&self.find_routine_id(&sigs[i]), CatalogFamily::Routines) {
                return true;
            }
            i = i + 1;
        }
        false
    }

    /// Skips a statement on a family that no statement changes.
    pub(crate) fn apply_unmodeled(&mut self, mutation: &Mutation) -> (r: MutationResult)
        ensures
            (final(self)@.data, r@) == unmodeled_skipped(old(self)@.data, *mutation),
            kept(old(self)@, final(self)@),
    {
        let scoped = match mutation {
            Mutation::DropType(x) => self.some_type_is_scoped(&x.ids),
            Mutation::DropDomain(x) => self.some_type_is_scoped(&x.ids),
            Mutation::DropFunction(x) => self.some_routine_is_scoped(&x.signatures),
            Mutation::DropProcedure(x) => self.some_routine_is_scoped(&x.signatures),
            Mutation::DropAggregate(x) => self.some_routine_is_scoped(&x.signatures),
            _ => false,
        };
        if scoped {
            self.taint(EvidenceCode::CatalogCoverageIncomplete, EvidenceScope::Chain);
        } else {
            self.taint(EvidenceCode::UnmodeledState, EvidenceScope::Chain);
        }
        MutationResult::Skipped
    }
}

} // verus!
