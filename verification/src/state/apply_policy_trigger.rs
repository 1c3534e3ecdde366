//! Policies and triggers.
use crate::collections::{Dup, Key};
use crate::graph::{edge, with_relation_renamed, DependencyEdge, DependencyEdgeView, DependencyKind, DependencyKindView};
use crate::identifiers::{object, ObjectId, ObjectIdView};
use crate::model::relation::RelationStateView;
use crate::model::trigger::{TriggerEnableMode, TriggerState, TriggerStateView};
use crate::model::Overlay;
use crate::mutations::{CreatePolicyMutation, CreateTriggerMutation, DropPolicyMutation, DropTriggerMutation, RenameTriggerMutation};
use crate::state::journal::{group_steps, if_applied, kept, kept_as, EdgeUndo};
use crate::state::lookup::{conflict, conflict_with, present, state_of};
use crate::state::{AnalysisState, MutationResult, MutationResultView, StateData};
use crate::text::{join3, join5};
use vstd::prelude::*;

verus! {

broadcast use group_steps;

/// The key of a trigger: identifiers hold no NUL, so table and trigger name
/// can be told apart in it.
pub open spec fn trigger_key(table: ObjectIdView, name: Seq<char>) -> ObjectIdView {
    object(table.schema, table.name + "\0"@ + name)
}

pub open spec fn with_relation(d: StateData, id: ObjectIdView, relation: RelationStateView) -> StateData {
    StateData { relations: d.relations.insert(id, Overlay::Present(relation)), ..d }
}

pub open spec fn policy_created(d: StateData, name: Seq<char>, table: ObjectIdView) -> (StateData, MutationResultView) {
    if !present(d.relations, table) {
        (d, conflict("relation '"@ + table.shown() + "' does not exist"@))
    } else {
        let relation = state_of(d.relations, table);
        if relation.policies.contains(name) {
            (d, conflict("policy '"@ + name + "' already exists on relation '"@ + table.shown() + "'"@))
        } else {
            (
                with_relation(d, table, RelationStateView { policies: relation.policies.insert(name), ..relation }),
                MutationResultView::Applied,
            )
        }
    }
}

pub open spec fn policy_dropped(d: StateData, name: Seq<char>, table: ObjectIdView, if_exists: bool) -> (StateData, MutationResultView) {
    if !present(d.relations, table) {
        (d, conflict("relation '"@ + table.shown() + "' does not exist"@))
    } else {
        let relation = state_of(d.relations, table);
        if relation.policies.contains(name) {
            (
                with_relation(d, table, RelationStateView { policies: relation.policies.remove(name), ..relation }),
                MutationResultView::Applied,
            )
        } else if if_exists {
            (d, MutationResultView::Skipped)
        } else {
            (d, conflict("policy '"@ + name + "' does not exist on relation '"@ + table.shown() + "'"@))
        }
    }
}

pub open spec fn no_trigger(name: Seq<char>, table: ObjectIdView) -> MutationResultView {
    conflict("trigger '"@ + name + "' does not exist on relation '"@ + table.shown() + "'"@)
}

pub open spec fn trigger_exists(name: Seq<char>, table: ObjectIdView) -> MutationResultView {
    conflict("trigger '"@ + name + "' already exists on relation '"@ + table.shown() + "'"@)
}

/// The data with the trigger names of a relation replaced, where the relation
/// is present.
pub open spec fn with_trigger_names(d: StateData, table: ObjectIdView, triggers: Set<Seq<char>>) -> StateData {
    StateData {
        relations: if present(d.relations, table) {
            d.relations.insert(table, Overlay::Present(RelationStateView { triggers, ..state_of(d.relations, table) }))
        } else {
            d.relations
        },
        ..d
    }
}

pub open spec fn trigger_names(d: StateData, table: ObjectIdView) -> Set<Seq<char>> {
    state_of(d.relations, table).triggers
}

pub open spec fn trigger_created(d: StateData, name: Seq<char>, table: ObjectIdView, function: ObjectIdView) -> (StateData, MutationResultView) {
    let id = trigger_key(table, name);
    if present(d.triggers, id) {
        (d, trigger_exists(name, table))
    } else {
        let trigger = TriggerStateView {
            name,
            id,
            table_id: table,
            enabled_mode: TriggerEnableMode::Origin,
            generation: d.generation_counter,
        };
        let d1 = with_trigger_names(
            StateData { triggers: d.triggers.insert(id, Overlay::Present(trigger)), ..d },
            table,
            trigger_names(d, table).insert(name),
        );
        let kind = DependencyKindView::TriggerOnTable { trigger_id: id, function_id: function, trigger_generation: d.generation_counter };
        (StateData { graph: d1.graph.push(edge(id, table, kind)), ..d1 }, MutationResultView::Applied)
    }
}

pub open spec fn is_trigger_edge_of(e: DependencyEdgeView, id: ObjectIdView) -> bool {
    e.kind is TriggerOnTable && e.dependent == id
}

pub open spec fn trigger_dropped(d: StateData, name: Seq<char>, table: ObjectIdView, if_exists: bool) -> (StateData, MutationResultView) {
    let id = trigger_key(table, name);
    if !present(d.triggers, id) {
        (
            d,
            if if_exists {
                MutationResultView::Skipped
            } else {
                no_trigger(name, table)
            },
        )
    } else {
        let d1 = with_trigger_names(
            StateData { triggers: d.triggers.insert(id, Overlay::Dropped), ..d },
            table,
            trigger_names(d, table).remove(name),
        );
        (
            StateData { graph: d1.graph.filter(|e: DependencyEdgeView| !is_trigger_edge_of(e, id)), ..d1 },
            MutationResultView::Applied,
        )
    }
}

pub open spec fn with_trigger_moved(
    triggers: Map<ObjectIdView, Overlay<TriggerStateView>>,
    old_id: ObjectIdView,
    new_id: ObjectIdView,
    new_name: Seq<char>,
) -> Map<ObjectIdView, Overlay<TriggerStateView>> {
    triggers.remove(old_id).insert(new_id, Overlay::Present(TriggerStateView { id: new_id, name: new_name, ..state_of(triggers, old_id) }))
}

/// The edges after an object got another identity: the rename itself is an
/// edge too.
pub open spec fn with_rename_recorded(edges: Seq<DependencyEdgeView>, old_id: ObjectIdView, new_id: ObjectIdView) -> Seq<DependencyEdgeView> {
    edges.map_values(|e: DependencyEdgeView| with_relation_renamed(e, old_id, new_id)).push(edge(old_id, new_id, DependencyKindView::RenameTo))
}

pub open spec fn with_trigger_renamed_to(d: StateData, table: ObjectIdView, name: Seq<char>, new_name: Seq<char>) -> StateData {
    let old_id = trigger_key(table, name);
    let new_id = trigger_key(table, new_name);
    let d1 = StateData { triggers: with_trigger_moved(d.triggers, old_id, new_id, new_name), ..d };
    let d2 = with_trigger_names(d1, table, trigger_names(d1, table).remove(name).insert(new_name));
    StateData { graph: with_rename_recorded(d2.graph, old_id, new_id), ..d2 }
}

pub open spec fn trigger_renamed(d: StateData, name: Seq<char>, table: ObjectIdView, new_name: Seq<char>) -> (StateData, MutationResultView) {
    if !present(d.triggers, trigger_key(table, name)) {
        (d, no_trigger(name, table))
    } else if trigger_key(table, name) != trigger_key(table, new_name) && present(d.triggers, trigger_key(table, new_name)) {
        (d, trigger_exists(new_name, table))
    } else {
        (with_trigger_renamed_to(d, table, name, new_name), MutationResultView::Applied)
    }
}

impl AnalysisState {
    pub(crate) fn trigger_key(table_id: &ObjectId, name: &String) -> (r: ObjectId)
        ensures
            r@ == trigger_key(table_id@, name@),
    {
        ObjectId::new(&table_id.schema, &join3(&table_id.name, "\0", name))
    }

    pub(crate) fn apply_create_policy(&mut self, create_policy: &CreatePolicyMutation) -> (r: MutationResult)
        ensures
            (final(self)@.data, r@) == policy_created(old(self)@.data, create_policy.name@, create_policy.table@),
            kept(old(self)@, final(self)@),
    {
        let table = create_policy.table.show();
        match self.present_relation(&create_policy.table) {
            None => conflict_with(join3("relation '", &table, "' does not exist")),
            Some(relation) => {
                if relation.policies.contains(&create_policy.name) {
                    return conflict_with(join5("policy '", &create_policy.name, "' already exists on relation '", &table, "'"));
                }
                let mut relation = relation.dup();
                relation.policies.insert(create_policy.name.clone());
                self.put_relation(&create_policy.table, Overlay::Present(relation));
                MutationResult::Applied
            },
        }
    }

    pub(crate) fn apply_drop_policy(&mut self, drop_policy: &DropPolicyMutation) -> (r: MutationResult)
        ensures
            (final(self)@.data, r@) == policy_dropped(old(self)@.data, drop_policy.name@, drop_policy.table@, drop_policy.if_exists),
            kept(old(self)@, final(self)@),
    {
        let table = drop_policy.table.show();
        match self.present_relation(&drop_policy.table) {
            None => conflict_with(join3("relation '", &table, "' does not exist")),
            Some(relation) => {
                if !relation.policies.contains(&drop_policy.name) {
                    if drop_policy.if_exists {
                        return MutationResult::Skipped;
                    }
                    return conflict_with(join5("policy '", &drop_policy.name, "' does not exist on relation '", &table, "'"));
                }
                let mut relation = relation.dup();
                relation.policies.remove(&drop_policy.name);
                self.put_relation(&drop_policy.table, Overlay::Present(relation));
                MutationResult::Applied
            },
        }
    }

    pub(crate) fn trigger_is_present(&self, id: &ObjectId) -> (r: bool)
        ensures
            r == present(self@.data.triggers, id@),
    {
        self.present_trigger(id).is_some()
    }

    /// Replaces a trigger name of a relation by another.
    fn change_trigger_names(&mut self, table: &ObjectId, removed: &Option<String>, added: &Option<String>)
        ensures
            ({
                let d = old(self)@.data;
                let less = match removed {
                    Some(n) => trigger_names(d, table@).remove(n@),
                    None => trigger_names(d, table@),
                };
                let more = match added {
                    Some(n) => less.insert(n@),
                    None => less,
                };
                final(self)@.data == with_trigger_names(d, table@, more)
            }),
            kept(old(self)@, final(self)@),
    {
        if let Some(relation) = self.present_relation(table) {
            let mut relation = relation.dup();
            if let Some(name) = removed {
                relation.triggers.remove(name);
            }
            if let Some(name) = added {
                relation.triggers.insert(name.clone());
            }
            self.put_relation(table, Overlay::Present(relation));
        }
    }

    pub(crate) fn apply_create_trigger(&mut self, create_trigger: &CreateTriggerMutation) -> (r: MutationResult)
        ensures
            (final(self)@.data, r@) == trigger_created(
                old(self)@.data,
                create_trigger.name@,
                create_trigger.table@,
                create_trigger.function_id@,
            ),
            kept_as(old(self)@, final(self)@, if_applied(r@, EdgeUndo::PutBack)),
    {
        let id = Self::trigger_key(&create_trigger.table, &create_trigger.name);
        if self.trigger_is_present(&id) {
            return conflict_with(
                join5("trigger '", &create_trigger.name, "' already exists on relation '", &create_trigger.table.show(), "'"),
            );
        }
        let generation = self.generation();
        let trigger = TriggerState {
            name: create_trigger.name.clone(),
            id: id.dup(),
            table_id: create_trigger.table.dup(),
            enabled_mode: TriggerEnableMode::Origin,
            generation,
        };
        self.put_trigger(&id, Overlay::Present(trigger));
        let added = Some(create_trigger.name.clone());
        self.change_trigger_names(&create_trigger.table, &None, &added);
        let kind = DependencyKind::TriggerOnTable {
            trigger_id: id.dup(),
            function_id: create_trigger.function_id.dup(),
            trigger_generation: generation,
        };
        let mut graph = self.graph().dup();
        graph.add_edge(DependencyEdge::new(id, create_trigger.table.dup(), kind));
        self.set_graph(graph);
        MutationResult::Applied
    }

    pub(crate) fn apply_drop_trigger(&mut self, drop_trigger: &DropTriggerMutation) -> (r: MutationResult)
        ensures
            (final(self)@.data, r@) == trigger_dropped(old(self)@.data, drop_trigger.name@, drop_trigger.table@, drop_trigger.if_exists),
            kept_as(old(self)@, final(self)@, if_applied(r@, EdgeUndo::PutBack)),
    {
        let id = Self::trigger_key(&drop_trigger.table, &drop_trigger.name);
        if !self.trigger_is_present(&id) {
            if drop_trigger.if_exists {
                return MutationResult::Skipped;
            }
            return conflict_with(
                join5("trigger '", &drop_trigger.name, "' does not exist on relation '", &drop_trigger.table.show(), "'"),
            );
        }
        self.put_trigger(&id, Overlay::Dropped);
        let removed = Some(drop_trigger.name.clone());
        self.change_trigger_names(&drop_trigger.table, &removed, &None);
        let stays = |e: &DependencyEdge| -> (b: bool)
            ensures
                b == !is_trigger_edge_of(e@, id@),
            {
                match &e.kind {
                    DependencyKind::TriggerOnTable { .. } => !e.dependent.same(&id),
                    _ => true,
                }
            };
        let mut graph = self.graph().dup();
        graph.retain_matching(stays, Ghost(|e: DependencyEdgeView| !is_trigger_edge_of(e, id@)));
        self.set_graph(graph);
        MutationResult::Applied
    }

    fn rename_trigger_edges(&mut self, old_id: ObjectId, new_id: ObjectId)
        ensures
            final(self)@.data == (StateData { graph: with_rename_recorded(old(self)@.data.graph, old_id@, new_id@), ..old(self)@.data }),
            kept_as(old(self)@, final(self)@, EdgeUndo::PutBack),
    {
        let mut graph = self.graph().dup();
        graph.propagate_rename(&old_id, &new_id);
        graph.add_edge(DependencyEdge::new(old_id, new_id, DependencyKind::RenameTo));
        self.set_graph(graph);
    }

    fn move_trigger(&mut self, old_id: &ObjectId, new_id: &ObjectId, new_name: &String)
        requires
            present(old(self)@.data.triggers, old_id@),
        ensures
            final(self)@.data == (StateData {
                triggers: with_trigger_moved(old(self)@.data.triggers, old_id@, new_id@, new_name@),
                ..old(self)@.data
            }),
            kept(old(self)@, final(self)@),
    {
        if let Some(trigger) = self.present_trigger(old_id) {
            let trigger = TriggerState {
                id: new_id.dup(),
                name: new_name.clone(),
                table_id: trigger.table_id.dup(),
                enabled_mode: trigger.enabled_mode,
                generation: trigger.generation,
            };
            self.remove_trigger(old_id);
            self.put_trigger(new_id, Overlay::Present(trigger));
        }
    }

    pub(crate) fn apply_rename_trigger(&mut self, rename_trigger: &RenameTriggerMutation) -> (r: MutationResult)
        ensures
            (final(self)@.data, r@) == trigger_renamed(
                old(self)@.data,
                rename_trigger.name@,
                rename_trigger.table@,
                rename_trigger.new_name@,
            ),
            kept_as(old(self)@, final(self)@, if_applied(r@, EdgeUndo::PutBack)),
    {
        let old_id = Self::trigger_key(&rename_trigger.table, &rename_trigger.name);
        let new_id = Self::trigger_key(&rename_trigger.table, &rename_trigger.new_name);
        if !self.trigger_is_present(&old_id) {
            return conflict_with(
                join5("trigger '", &rename_trigger.name, "' does not exist on relation '", &rename_trigger.table.show(), "'"),
            );
        }
        if !old_id.same(&new_id) && self.trigger_is_present(&new_id) {
            return conflict_with(
                join5("trigger '", &rename_trigger.new_name, "' already exists on relation '", &rename_trigger.table.show(), "'"),
            );
        }
        self.move_trigger(&old_id, &new_id, &rename_trigger.new_name);
        let removed = Some(rename_trigger.name.clone());
        let added = Some(rename_trigger.new_name.clone());
        self.change_trigger_names(&rename_trigger.table, &removed, &added);
        self.rename_trigger_edges(old_id, new_id);
        MutationResult::Applied
    }
}

/// A trigger that is created and dropped again leaves no edge of its own.
pub proof fn law_dropped_trigger_has_no_edge(d: StateData, name: Seq<char>, table: ObjectIdView, if_exists: bool, i: int)
    requires
        present(d.triggers, trigger_key(table, name)),
        0 <= i < trigger_dropped(d, name, table, if_exists).0.graph.len(),
    ensures
        !is_trigger_edge_of(trigger_dropped(d, name, table, if_exists).0.graph[i], trigger_key(table, name)),
{
    crate::collections::lemma_filtered(d.graph, |e: DependencyEdgeView| !is_trigger_edge_of(e, trigger_key(table, name)));
}

} // verus!
