//! Privileges on tables: what a grant or a revoke changes.
use crate::collections::{vec_any, vec_contains, Dup};
use crate::evidence::{EvidenceCode, EvidenceScope};
use crate::facts::RoleFact;
use crate::identifiers::{ObjectId, ObjectIdView};
use crate::model::privileges::{granted_each, option_provenance_known, revoke_provenance_known, revoked, without_grant_option};
use crate::model::relation::{Privilege, PrivilegeGrantView, PrivilegeMatrixView, RelationOverlay, RelationStateView};
use crate::model::Overlay;
use crate::mutations::ResolvedGrantTarget;
use crate::state::apply_role::{facts_checked, facts_resolved, grant_targets_checked, FoundRole};
use crate::state::authority::may_grant;
use crate::state::journal::{group_kept, kept, tainted, tainted_if};
use crate::state::lookup::{conflict, conflict_with, dropped, present, state_of};
use crate::state::{data_of, AnalysisState, MutationResult, MutationResultView, StateData};
use crate::text::{join3, join5};
use vstd::prelude::*;

verus! {

broadcast use group_kept;

/// A grant or a revoke of table privileges.
pub struct PrivilegeChange {
    pub privileges: Vec<Privilege>,
    /// The grantees or revokees.
    pub roles: Vec<ObjectId>,
    pub grantor: Option<ObjectId>,
    pub revoke: bool,
    /// `WITH GRANT OPTION`, or `GRANT OPTION FOR`.
    pub option: bool,
    pub cascade: bool,
}

#[verifier::ext_equal]
pub struct PrivilegeChangeView {
    pub privileges: Seq<Privilege>,
    pub roles: Seq<ObjectIdView>,
    pub grantor: Option<ObjectIdView>,
    pub revoke: bool,
    pub option: bool,
    pub cascade: bool,
}

impl View for PrivilegeChange {
    type V = PrivilegeChangeView;

    open spec fn view(&self) -> PrivilegeChangeView {
        PrivilegeChangeView {
            privileges: self.privileges@,
            roles: self.roles.deep_view(),
            grantor: self.grantor.deep_view(),
            revoke: self.revoke,
            option: self.option,
            cascade: self.cascade,
        }
    }
}

/// The rows after the change was made for one role.
pub open spec fn rows_changed_for(rows: Seq<PrivilegeGrantView>, c: PrivilegeChangeView, role: ObjectIdView) -> Seq<PrivilegeGrantView> {
    if !c.revoke {
        granted_each(rows, role, c.privileges, c.privileges.len(), c.grantor, c.option)
    } else if c.option {
        without_grant_option(rows, role, c.privileges, c.grantor)
    } else {
        revoked(rows, role, c.privileges, c.grantor, c.cascade)
    }
}

/// The rows after the change was made for the first `n` roles.
pub open spec fn rows_changed(rows: Seq<PrivilegeGrantView>, c: PrivilegeChangeView, n: nat) -> Seq<PrivilegeGrantView>
    decreases n,
{
    if n == 0 || n > c.roles.len() {
        rows
    } else {
        rows_changed_for(rows_changed(rows, c, (n - 1) as nat), c, c.roles[n - 1])
    }
}

/// A relation with its privileges changed.
pub open spec fn privileges_changed(relation: RelationStateView, c: PrivilegeChangeView) -> RelationStateView {
    RelationStateView {
        privileges: PrivilegeMatrixView { grants: rows_changed(relation.privileges.grants, c, c.roles.len()) },
        ..relation
    }
}

/// Whether the grantor may make the change, where that is known. Nobody may on
/// a dropped relation.
pub open spec fn authority_on(d: StateData, id: ObjectIdView, c: PrivilegeChangeView) -> Option<bool> {
    if present(d.relations, id) {
        may_grant(d, state_of(d.relations, id), c.privileges, c.grantor)
    } else if dropped(d.relations, id) {
        Some(false)
    } else {
        None
    }
}

/// Whether a revoke meets grants whose grantor is not recorded.
pub open spec fn provenance_gap(d: StateData, id: ObjectIdView, c: PrivilegeChangeView) -> bool {
    c.revoke && c.grantor is Some && present(d.relations, id) && exists|i: int|
        0 <= i < c.roles.len() && role_provenance_unknown(state_of(d.relations, id).privileges.grants, c, #[trigger] c.roles[i])
}

pub open spec fn role_provenance_unknown(rows: Seq<PrivilegeGrantView>, c: PrivilegeChangeView, role: ObjectIdView) -> bool {
    if c.option {
        !option_provenance_known(rows, role, c.privileges)
    } else {
        !revoke_provenance_known(rows, role, c.privileges)
    }
}

pub open spec fn lacks_grant_option(d: StateData, id: ObjectIdView, grantor: Option<ObjectIdView>) -> MutationResultView {
    let name = match grantor {
        Some(g) => g.name,
        None => "unknown"@,
    };
    conflict("role '"@ + name + "' lacks grant option on relation '"@ + id.shown() + "'"@)
}

/// The relations with the privileges of one of them changed.
pub open spec fn with_privileges(
    relations: Map<ObjectIdView, Overlay<RelationStateView>>,
    id: ObjectIdView,
    c: PrivilegeChangeView,
) -> Map<ObjectIdView, Overlay<RelationStateView>> {
    if present(relations, id) {
        relations.insert(id, Overlay::Present(privileges_changed(state_of(relations, id), c)))
    } else {
        relations
    }
}

pub open spec fn coverage_gap(d: StateData, gap: bool) -> StateData {
    tainted_if(d, gap, EvidenceCode::CatalogCoverageIncomplete, EvidenceScope::Chain)
}

/// The data after the change was made on one named table that the grantor may
/// make it on.
pub open spec fn table_changed(d: StateData, id: ObjectIdView, c: PrivilegeChangeView) -> StateData {
    let d1 = coverage_gap(coverage_gap(d, authority_on(d, id, c) is None && c.grantor is Some), provenance_gap(d, id, c));
    StateData { relations: with_privileges(d.relations, id, c), ..d1 }
}

/// The change on the tables from the first on; the first one that the grantor
/// may not change ends it.
pub open spec fn tables_changed(d: StateData, ids: Seq<ObjectIdView>, c: PrivilegeChangeView) -> (StateData, MutationResultView)
    decreases ids.len(),
{
    if ids.len() == 0 {
        (d, MutationResultView::Applied)
    } else if authority_on(d, ids[0], c) == Some(false) {
        (d, lacks_grant_option(d, ids[0], c.grantor))
    } else {
        tables_changed(table_changed(d, ids[0], c), ids.drop_first(), c)
    }
}

/// Whether a relation is meant by `ALL TABLES IN SCHEMA`.
pub open spec fn in_schemas(d: StateData, schemas: Seq<Seq<char>>, id: ObjectIdView) -> bool {
    schemas.contains(id.schema) && present(d.relations, id)
}

/// The change on all tables of schemas. Not every kind of relation that it
/// reaches is modeled, which is a gap.
pub open spec fn schemas_changed(d: StateData, schemas: Seq<Seq<char>>, c: PrivilegeChangeView) -> StateData {
    let d1 = coverage_gap(
        coverage_gap(d, true),
        exists|id: ObjectIdView| #[trigger] in_schemas(d, schemas, id) && provenance_gap(d, id, c),
    );
    StateData {
        relations: Map::new(
            |id: ObjectIdView| d.relations.dom().contains(id),
            |id: ObjectIdView|
                if in_schemas(d, schemas, id) {
                    Overlay::Present(privileges_changed(state_of(d.relations, id), c))
                } else {
                    d.relations[id]
                },
        ),
        ..d1
    }
}

/// `GRANTED BY` must name the current role for object privileges.
pub open spec fn grantor_checked(d: StateData, explicit: bool, grantor: Option<ObjectIdView>) -> (StateData, Option<MutationResultView>) {
    if explicit && grantor is Some && d.current_role_known && grantor->0.name != d.current_role {
        (
            d,
            Some(
                conflict("object privilege GRANTED BY '"@ + grantor->0.name + "' must name current role '"@ + d.current_role + "'"@),
            ),
        )
    } else {
        (coverage_gap(d, explicit && (grantor is None || !d.current_role_known)), None)
    }
}

/// The data after the targets and roles of a grant or revoke were checked.
pub open spec fn grant_prelude(
    d: StateData,
    target: ResolvedGrantTarget,
    roles: Seq<RoleFact>,
    granted_by: Option<RoleFact>,
    option: bool,
) -> (StateData, Result<Seq<ObjectIdView>, MutationResultView>) {
    let (d1, refused) = grant_targets_checked(d, target, 0);
    match refused {
        Some(result) => (d1, Err(result)),
        None => {
            let d2 = facts_checked(d, roles);
            match facts_resolved(d, roles) {
                Err(result) => (d2, Err(result)),
                Ok(ids) => match granted_by {
                    None => (coverage_gap(d2, option), Ok(ids)),
                    Some(fact) => match facts_resolved(d2, seq![fact]) {
                        Err(result) => (facts_checked(d2, seq![fact]), Err(result)),
                        Ok(_) => (coverage_gap(facts_checked(d2, seq![fact]), option), Ok(ids)),
                    },
                },
            }
        },
    }
}

impl AnalysisState {
    /// The checks that a grant and a revoke begin with.
    pub(crate) fn check_grant(&mut self, target: &ResolvedGrantTarget, roles: &Vec<RoleFact>, granted_by: &Option<RoleFact>, option: bool) -> (r:
        Result<Vec<ObjectId>, MutationResult>)
        ensures
            ({
                let (data, outcome) = grant_prelude(old(self)@.data, *target, roles@, *granted_by, option);
                &&& final(self)@.data == data
                &&& match r {
                    Ok(ids) => outcome == Ok::<Seq<ObjectIdView>, MutationResultView>(ids.deep_view()),
                    Err(result) => outcome == Err::<Seq<ObjectIdView>, MutationResultView>(result@),
                }
            }),
            kept(old(self)@, final(self)@),
    {
        if let Err(result) = self.validate_grant_targets(target) {
            return Err(result);
        }
        let ids = match self.validate_role_facts(roles.as_slice()) {
            Ok(ids) => ids,
            Err(result) => {
                return Err(result);
            },
        };
        if let Some(fact) = granted_by {
            if let Err(result) = self.validate_role_fact(fact) {
                return Err(result);
            }
        }
        self.taint_if(option, EvidenceCode::CatalogCoverageIncomplete, EvidenceScope::Chain);
        Ok(ids)
    }

    fn validate_role_fact(&mut self, fact: &RoleFact) -> (r: Result<(), MutationResult>)
        ensures
            final(self)@.data == facts_checked(old(self)@.data, seq![*fact]),
            match r {
                Ok(_) => facts_resolved(old(self)@.data, seq![*fact]) is Ok,
                Err(result) => facts_resolved(old(self)@.data, seq![*fact]) == Err::<Seq<ObjectIdView>, MutationResultView>(result@),
            },
            kept(old(self)@, final(self)@),
    {
        let ghost d = self@.data;
        let ghost facts = seq![*fact];
        proof {
            reveal(facts_checked);
            reveal(facts_resolved);
            reveal_with_fuel(crate::state::apply_role::first_bad_reference, 2);
            assert(facts[0] == *fact);
        }
        let found = self.find_role(fact);
        let uncertain = match &found {
            FoundRole::Uncertain(_) => true,
            _ => false,
        };
        let unresolved = match &found {
            FoundRole::Unresolved => true,
            _ => false,
        };
        proof {
            let stop = crate::state::apply_role::first_bad_reference(d, facts, 0);
            assert(crate::state::apply_role::uncertain_before(d, facts, stop) == uncertain) by {
                if uncertain {
                    assert(crate::state::apply_role::role_reference(d, facts[0]) is Uncertain);
                }
            }
        }
        self.taint_if(uncertain, EvidenceCode::CatalogCoverageIncomplete, EvidenceScope::Chain);
        self.taint_if(unresolved, EvidenceCode::UnresolvedReference, EvidenceScope::Chain);
        match found {
            FoundRole::Unresolved => Err(MutationResult::Skipped),
            FoundRole::Missing(name) => Err(conflict_with(join3("role '", &name, "' does not exist"))),
            _ => Ok(()),
        }
    }

    pub(crate) fn validate_object_grantor(&mut self, explicit: bool, grantor: &Option<ObjectId>) -> (r: Result<(), MutationResult>)
        ensures
            ({
                let (data, outcome) = grantor_checked(old(self)@.data, explicit, grantor.deep_view());
                &&& final(self)@.data == data
                &&& match r {
                    Ok(_) => outcome is None,
                    Err(result) => outcome == Some(result@),
                }
            }),
            kept(old(self)@, final(self)@),
    {
        let known = self.current_role_is_known();
        if let Some(grantor) = grantor {
            if explicit && known && !(grantor.name == *self.current_role()) {
                return Err(
                    conflict_with(
                        join5("object privilege GRANTED BY '", &grantor.name, "' must name current role '", self.current_role(), "'"),
                    ),
                );
            }
        }
        self.taint_if(explicit && (grantor.is_none() || !known), EvidenceCode::CatalogCoverageIncomplete, EvidenceScope::Chain);
        Ok(())
    }

    pub(crate) fn current_role_is_known(&self) -> (r: bool)
        ensures
            r == self@.data.current_role_known,
    {
        proof {
            reveal(data_of);
        }
        self.local.current_role_known
    }

    fn relation_overlay(&self, id: &ObjectId) -> (r: Option<&RelationOverlay>)
        ensures
            match r {
                Some(o) => self@.data.relations.dom().contains(id@) && o.deep_view() == self@.data.relations[id@],
                None => !self@.data.relations.dom().contains(id@),
            },
    {
        self.get_relation(id)
    }

    fn authority_on(&self, id: &ObjectId, change: &PrivilegeChange) -> (r: Option<bool>)
        ensures
            r == authority_on(self@.data, id@, change@),
    {
        match self.relation_overlay(id) {
            Some(Overlay::Present(relation)) => self.authorize_relation_grant(relation, &change.privileges, &change.grantor),
            Some(Overlay::Dropped) => Some(false),
            None => None,
        }
    }

    fn provenance_gap(&self, id: &ObjectId, change: &PrivilegeChange) -> (r: bool)
        ensures
            r == provenance_gap(self@.data, id@, change@),
    {
        if !change.revoke || change.grantor.is_none() {
            return false;
        }
        match self.present_relation(id) {
            None => false,
            Some(relation) => {
                let unknown = |role: &ObjectId| -> (b: bool)
                    ensures
                        b == role_provenance_unknown(relation@.privileges.grants, change@, role@),
                    {
                        if change.option {
                            !relation.privileges.targeted_grant_option_revoke_provenance_is_known(role, &change.privileges)
                        } else {
                            !relation.privileges.targeted_revoke_provenance_is_known(role, &change.privileges)
                        }
                    };
                vec_any(
                    &change.roles,
                    unknown,
                    Ghost(|role: ObjectIdView| role_provenance_unknown(relation@.privileges.grants, change@, role)),
                )
            },
        }
    }

    /// Makes the change on one relation.
    fn change_privileges(&mut self, id: &ObjectId, change: &PrivilegeChange)
        ensures
            final(self)@.data == (StateData { relations: with_privileges(old(self)@.data.relations, id@, change@), ..old(self)@.data }),
            kept(old(self)@, final(self)@),
    {
        if let Some(relation) = self.present_relation(id) {
            let mut relation = relation.dup();
            let ghost before = relation@;
            let mut i: usize = 0;
            while i < change.roles.len()
                invariant
                    i <= change.roles.len(),
                    relation@ == (RelationStateView {
                        privileges: PrivilegeMatrixView { grants: rows_changed(before.privileges.grants, change@, i as nat) },
                        ..before
                    }),
                decreases change.roles.len() - i,
            {
                let role = &change.roles[i];
                assert(change@.roles[i as int] == role@);
                if !change.revoke {
                    relation.privileges.grant_from(role, &change.privileges, &change.grantor, change.option);
                } else if change.option {
                    relation.privileges.revoke_grant_option_from(role, &change.privileges, &change.grantor);
                } else {
                    relation.privileges.revoke_from_cascade(role, &change.privileges, &change.grantor, change.cascade);
                }
                i = i + 1;
            }
            self.put_relation(id, Overlay::Present(relation));
        }
    }

    fn change_table(&mut self, id: &ObjectId, change: &PrivilegeChange)
        ensures
            final(self)@.data == table_changed(old(self)@.data, id@, change@),
            kept(old(self)@, final(self)@),
    {
        proof {
            reveal(tainted);
            reveal(tainted_if);
        }
        let unknown = self.authority_on(id, change).is_none() && change.grantor.is_some();
        let gap = self.provenance_gap(id, change);
        self.taint_if(unknown, EvidenceCode::CatalogCoverageIncomplete, EvidenceScope::Chain);
        self.taint_if(gap, EvidenceCode::CatalogCoverageIncomplete, EvidenceScope::Chain);
        self.change_privileges(id, change);
    }

    /// Makes the change on each of the named tables in turn.
    pub(crate) fn change_tables(&mut self, ids: &Vec<ObjectId>, change: &PrivilegeChange) -> (r: MutationResult)
        ensures
            (final(self)@.data, r@) == tables_changed(old(self)@.data, ids.deep_view(), change@),
            kept(old(self)@, final(self)@),
    {
        let ghost all = ids.deep_view();
        let mut i: usize = 0;
        assert(all.skip(0) =~= all);
        while i < ids.len()
            invariant
                i <= ids.len(),
                all == ids.deep_view(),
                tables_changed(old(self)@.data, all, change@) == tables_changed(self@.data, all.skip(i as int), change@),
                kept(old(self)@, self@),
            decreases ids.len() - i,
        {
            let id = &ids[i];
            proof {
                assert(all.skip(i as int)[0] == id@);
                assert(all.skip(i as int).drop_first() =~= all.skip(i + 1));
            }
            if let Some(false) = self.authority_on(id, change) {
                let shown = id.show();
                return match &change.grantor {
                    Some(grantor) => conflict_with(join5("role '", &grantor.name, "' lacks grant option on relation '", &shown, "'")),
                    None => conflict_with(join5("role '", "unknown", "' lacks grant option on relation '", &shown, "'")),
                };
            }
            self.change_table(id, change);
            i = i + 1;
        }
        MutationResult::Applied
    }

    fn tables_in_schemas(&self, schemas: &Vec<String>) -> (r: Vec<ObjectId>)
        ensures
            forall|id: ObjectIdView| #[trigger] r.deep_view().contains(id) <==> in_schemas(self@.data, schemas.deep_view(), id),
            r.deep_view().no_duplicates(),
    {
        proof {
            reveal(data_of);
        }
        let hit = |id: &ObjectId, overlay: &RelationOverlay| -> (b: bool)
            ensures
                b == (schemas.deep_view().contains(id@.schema) && overlay.deep_view() is Present),
            {
                vec_contains(schemas, &id.schema) && match overlay {
                    Overlay::Present(_) => true,
                    Overlay::Dropped => false,
                }
            };
        self.local.relations.keys_where(
            hit,
            Ghost(|id: ObjectIdView, overlay: Overlay<RelationStateView>| schemas.deep_view().contains(id.schema) && overlay is Present),
        )
    }

    /// Makes the change on all tables of schemas.
    pub(crate) fn change_schemas(&mut self, schemas: &Vec<String>, change: &PrivilegeChange)
        ensures
            final(self)@.data == schemas_changed(old(self)@.data, schemas.deep_view(), change@),
            kept(old(self)@, final(self)@),
    {
        proof {
            reveal(tainted);
            reveal(tainted_if);
        }
        let ghost d = self@.data;
        let ghost list = schemas.deep_view();
        let ids = self.tables_in_schemas(schemas);
        let ghost keys = ids.deep_view();
        let mut gap = false;
        let mut i: usize = 0;
        while i < ids.len()
            invariant
                i <= ids.len(),
                keys == ids.deep_view(),
                self@ == old(self)@,
                gap == exists|j: int| 0 <= j < i && provenance_gap(self@.data, #[trigger] keys[j], change@),
            decreases ids.len() - i,
        {
            assert(keys[i as int] == ids@[i as int]@);
            if self.provenance_gap(&ids[i], change) {
                gap = true;
                assert(provenance_gap(self@.data, keys[i as int], change@));
            }
            i = i + 1;
        }
        proof {
            let found = exists|id: ObjectIdView| #[trigger] in_schemas(d, list, id) && provenance_gap(d, id, change@);
            if gap {
                let j = choose|j: int| 0 <= j < keys.len() && provenance_gap(d, #[trigger] keys[j], change@);
                assert(keys.contains(keys[j]));
                assert(in_schemas(d, list, keys[j]));
            }
            if found {
                let id = choose|id: ObjectIdView| #[trigger] in_schemas(d, list, id) && provenance_gap(d, id, change@);
                assert(keys.contains(id));
                let j = choose|j: int| 0 <= j < keys.len() && keys[j] == id;
                assert(provenance_gap(d, keys[j], change@));
            }
        }
        self.taint_if(true, EvidenceCode::CatalogCoverageIncomplete, EvidenceScope::Chain);
        self.taint_if(gap, EvidenceCode::CatalogCoverageIncomplete, EvidenceScope::Chain);
        self.change_each(&ids, change);
        proof {
            assert(self@.data.relations =~= schemas_changed(d, list, change@).relations);
        }
    }

    /// Makes the change on relations that are all different.
    fn change_each(&mut self, ids: &Vec<ObjectId>, change: &PrivilegeChange)
        requires
            ids.deep_view().no_duplicates(),
            forall|id: ObjectIdView| #[trigger] ids.deep_view().contains(id) ==> present(old(self)@.data.relations, id),
        ensures
            final(self)@.data == (StateData { relations: with_each_changed(old(self)@.data.relations, ids.deep_view(), change@), ..old(self)@.data }),
            kept(old(self)@, final(self)@),
    {
        let ghost start = self@;
        let ghost keys = ids.deep_view();
        let mut i: usize = 0;
        proof {
            assert(with_each_changed(start.data.relations, keys.take(0), change@) =~= start.data.relations);
        }
        while i < ids.len()
            invariant
                i <= ids.len(),
                keys == ids.deep_view(),
                keys.no_duplicates(),
                forall|id: ObjectIdView| #[trigger] keys.contains(id) ==> present(start.data.relations, id),
                self@.data == (StateData { relations: with_each_changed(start.data.relations, keys.take(i as int), change@), ..start.data }),
                kept(start, self@),
            decreases ids.len() - i,
        {
            proof {
                lemma_each_changed(start.data.relations, keys, change@, i as int);
            }
            self.change_privileges(&ids[i], change);
            i = i + 1;
        }
        assert(keys.take(keys.len() as int) =~= keys);
    }
}

/// The relations with the privileges of several of them changed.
pub open spec fn with_each_changed(
    relations: Map<ObjectIdView, Overlay<RelationStateView>>,
    ids: Seq<ObjectIdView>,
    c: PrivilegeChangeView,
) -> Map<ObjectIdView, Overlay<RelationStateView>> {
    Map::new(
        |id: ObjectIdView| relations.dom().contains(id),
        |id: ObjectIdView|
            if ids.contains(id) {
                Overlay::Present(privileges_changed(state_of(relations, id), c))
            } else {
                relations[id]
            },
    )
}

proof fn lemma_each_changed(relations: Map<ObjectIdView, Overlay<RelationStateView>>, ids: Seq<ObjectIdView>, c: PrivilegeChangeView, i: int)
    requires
        0 <= i < ids.len(),
        ids.no_duplicates(),
        forall|id: ObjectIdView| #[trigger] ids.contains(id) ==> present(relations, id),
    ensures
        with_each_changed(relations, ids.take(i + 1), c) == with_privileges(with_each_changed(relations, ids.take(i), c), ids[i], c),
{
    let a = ids.take(i);
    let b = ids.take(i + 1);
    assert(ids.contains(ids[i]));
    assert(!a.contains(ids[i])) by {
        if a.contains(ids[i]) {
            let j = choose|j: int| 0 <= j < a.len() && a[j] == ids[i];
            assert(ids[j] == ids[i]);
        }
    }
    assert forall|k: ObjectIdView| b.contains(k) <==> (a.contains(k) || k == ids[i]) by {
        if b.contains(k) {
            let j = choose|j: int| 0 <= j < b.len() && b[j] == k;
            if j < i {
                assert(a[j] == k);
            }
        }
        if a.contains(k) {
            let j = choose|j: int| 0 <= j < a.len() && a[j] == k;
            assert(b[j] == k);
        }
        assert(b[i] == ids[i]);
    }
    assert(with_each_changed(relations, b, c) =~= with_privileges(with_each_changed(relations, a, c), ids[i], c));
}

} // verus!
