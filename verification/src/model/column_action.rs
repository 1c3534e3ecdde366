//! Changes of a relation's columns.
use crate::collections::{vec_filter, vec_map, Dup, VecSet};
use crate::expr_ir::{ExprIr, ExprIrView};
use crate::identifiers::{ObjectId, ObjectIdView};
use crate::model::column::{Column, ColumnView};
use crate::model::relation::{Persistence, PrivilegeMatrix, PrivilegeMatrixView, RelationKind, RelationState, RelationStateView};
use vstd::prelude::*;

verus! {

/// One change of a relation's columns.
pub enum ColumnAction {
    Add {
        name: String,
        data_type: Option<String>,
        not_null: bool,
        default: Option<ExprIr>,
    },
    Drop {
        name: String,
    },
    Rename {
        from: String,
        to: String,
    },
    SetNotNull {
        name: String,
    },
    DropNotNull {
        name: String,
    },
    SetType {
        name: String,
        data_type: String,
    },
    SetDefault {
        name: String,
        default: Option<ExprIr>,
    },
}

pub open spec fn has_column(columns: Seq<ColumnView>, name: Seq<char>) -> bool {
    exists|i: int| 0 <= i < columns.len() && #[trigger] columns[i].name == name
}

/// The first column of that name.
pub open spec fn column_of(columns: Seq<ColumnView>, name: Seq<char>) -> Option<ColumnView>
    decreases columns.len(),
{
    if columns.len() == 0 {
        None
    } else if columns[0].name == name {
        Some(columns[0])
    } else {
        column_of(columns.drop_first(), name)
    }
}

/// A column of a name is found where there is one.
pub proof fn lemma_column_of(columns: Seq<ColumnView>, name: Seq<char>)
    ensures
        column_of(columns, name) is Some <==> has_column(columns, name),
    decreases columns.len(),
{
    if columns.len() > 0 && columns[0].name != name {
        let rest = columns.drop_first();
        lemma_column_of(rest, name);
        if has_column(rest, name) {
            let i = choose|i: int| 0 <= i < rest.len() && #[trigger] rest[i].name == name;
            assert(columns[i + 1].name == name);
        }
        if has_column(columns, name) {
            let i = choose|i: int| 0 <= i < columns.len() && #[trigger] columns[i].name == name;
            assert(rest[i - 1].name == name);
        }
    }
}

pub open spec fn with_column_added(
    columns: Seq<ColumnView>,
    name: Seq<char>,
    data_type: Option<Seq<char>>,
    not_null: bool,
    default: Option<ExprIrView>,
) -> Seq<ColumnView> {
    columns.push(
        ColumnView {
            name,
            data_type,
            type_id: None,
            is_nullable: !not_null,
            default,
            avg_width: None,
            default_expr_text: None,
            type_modifier: None,
        },
    )
}

pub open spec fn with_column_dropped(columns: Seq<ColumnView>, name: Seq<char>) -> Seq<ColumnView> {
    columns.filter(|c: ColumnView| c.name != name)
}

pub open spec fn with_name_changed(columns: Seq<ColumnView>, from: Seq<char>, to: Seq<char>) -> Seq<ColumnView> {
    columns.map_values(|c: ColumnView| if c.name == from { ColumnView { name: to, ..c } } else { c })
}

pub open spec fn with_nullability(columns: Seq<ColumnView>, name: Seq<char>, nullable: bool) -> Seq<ColumnView> {
    columns.map_values(|c: ColumnView| if c.name == name { ColumnView { is_nullable: nullable, ..c } } else { c })
}

pub open spec fn with_data_type(columns: Seq<ColumnView>, name: Seq<char>, data_type: Seq<char>) -> Seq<ColumnView> {
    columns.map_values(|c: ColumnView| if c.name == name { ColumnView { data_type: Some(data_type), ..c } } else { c })
}

/// A new default replaces the text of the old one too.
pub open spec fn with_default(columns: Seq<ColumnView>, name: Seq<char>, default: Option<ExprIrView>) -> Seq<ColumnView> {
    columns.map_values(|c: ColumnView| if c.name == name { ColumnView { default, default_expr_text: None, ..c } } else { c })
}

pub open spec fn with_type_id(columns: Seq<ColumnView>, name: Seq<char>, type_id: Option<ObjectIdView>) -> Seq<ColumnView> {
    columns.map_values(|c: ColumnView| if c.name == name { ColumnView { type_id, ..c } } else { c })
}

/// The default that draws from a sequence, on a column that is not nullable.
pub open spec fn with_sequence_default(columns: Seq<ColumnView>, name: Seq<char>, default: ExprIrView, text: Seq<char>) -> Seq<ColumnView> {
    columns.map_values(
        |c: ColumnView|
            if c.name == name {
                ColumnView { default: Some(default), default_expr_text: Some(text), is_nullable: false, ..c }
            } else {
                c
            },
    )
}

pub open spec fn with_action(columns: Seq<ColumnView>, action: ColumnAction) -> Seq<ColumnView> {
    match action {
        ColumnAction::Add { name, data_type, not_null, default } => with_column_added(
            columns,
            name@,
            data_type.deep_view(),
            not_null,
            default.deep_view(),
        ),
        ColumnAction::Drop { name } => with_column_dropped(columns, name@),
        ColumnAction::Rename { from, to } => with_name_changed(columns, from@, to@),
        ColumnAction::SetNotNull { name } => with_nullability(columns, name@, false),
        ColumnAction::DropNotNull { name } => with_nullability(columns, name@, true),
        ColumnAction::SetType { name, data_type } => with_data_type(columns, name@, data_type@),
        ColumnAction::SetDefault { name, default } => with_default(columns, name@, default.deep_view()),
    }
}

/// A relation without columns, privileges, policies and triggers.
pub open spec fn new_relation(
    id: ObjectIdView,
    owner: ObjectIdView,
    generation: u64,
    estimated_rows: Option<u64>,
    kind: RelationKind,
    persistence: Persistence,
    depth: u64,
) -> RelationStateView {
    RelationStateView {
        id,
        owner,
        generation,
        estimated_rows,
        kind,
        persistence,
        created_at_depth: depth,
        columns: Seq::empty(),
        privileges: PrivilegeMatrixView { grants: Seq::empty() },
        policies: Set::empty(),
        triggers: Set::empty(),
        partition_type: None,
        partition_by: None,
        is_populated: None,
        is_fk_dependency: false,
    }
}

impl RelationState {
    pub fn new(
        id: ObjectId,
        owner: ObjectId,
        generation: u64,
        estimated_rows: Option<u64>,
        kind: RelationKind,
        persistence: Persistence,
        depth: usize,
    ) -> (r: Self)
        ensures
            r@ == new_relation(id@, owner@, generation, estimated_rows, kind, persistence, depth as u64),
    {
        let columns: Vec<Column> = Vec::new();
        let r = RelationState {
            id,
            owner,
            generation,
            estimated_rows,
            kind,
            persistence,
            created_at_depth: depth as u64,
            columns,
            privileges: PrivilegeMatrix { grants: Vec::new() },
            policies: VecSet::new(),
            triggers: VecSet::new(),
            partition_type: None,
            partition_by: None,
            is_populated: None,
            is_fk_dependency: false,
        };
        assert(r@.columns =~= Seq::empty());
        assert(r@.privileges.grants =~= Seq::empty());
        r
    }

    pub fn has_column(&self, name: &str) -> (r: bool)
        ensures
            r == has_column(self@.columns, name@),
    {
        let mut i: usize = 0;
        while i < self.columns.len()
            invariant
                i <= self.columns.len(),
                forall|j: int| 0 <= j < i ==> #[trigger] self@.columns[j].name != name@,
            decreases self.columns.len() - i,
        {
            assert(self@.columns[i as int] == self.columns@[i as int]@);
            if crate::text::text_eq(&self.columns[i].name, name) {
                assert(self@.columns[i as int].name == name@);
                return true;
            }
            i = i + 1;
        }
        false
    }

    pub fn get_column(&self, name: &str) -> (r: Option<&Column>)
        ensures
            match r {
                Some(c) => column_of(self@.columns, name@) == Some(c@),
                None => column_of(self@.columns, name@) is None,
            },
    {
        let mut i: usize = 0;
        assert(self@.columns.skip(0) =~= self@.columns);
        while i < self.columns.len()
            invariant
                i <= self.columns.len(),
                column_of(self@.columns, name@) == column_of(self@.columns.skip(i as int), name@),
            decreases self.columns.len() - i,
        {
            proof {
                assert(self@.columns[i as int] == self.columns@[i as int]@);
                assert(self@.columns.skip(i as int)[0] == self@.columns[i as int]);
                assert(self@.columns.skip(i as int).drop_first() =~= self@.columns.skip(i + 1));
            }
            if crate::text::text_eq(&self.columns[i].name, name) {
                return Some(&self.columns[i]);
            }
            i = i + 1;
        }
        None
    }

    /// Applies one change to the columns. A change of a column that does not
    /// exist changes nothing.
    pub fn apply_column_action(&mut self, action: &ColumnAction)
        ensures
            final(self)@ == (RelationStateView { columns: with_action(old(self)@.columns, *action), ..old(self)@ }),
    {
        match action {
            ColumnAction::Add { name, data_type, not_null, default } => {
                let ghost before = self@.columns;
                self.columns.push(
                    Column {
                        name: name.clone(),
                        data_type: data_type.dup(),
                        type_id: None,
                        is_nullable: !*not_null,
                        default: default.dup(),
                        avg_width: None,
                        default_expr_text: None,
                        type_modifier: None,
                    },
                );
                assert(self@.columns =~= with_column_added(before, name@, data_type.deep_view(), *not_null, default.deep_view()));
            },
            ColumnAction::Drop { name } => {
                let other = |c: &Column| -> (b: bool)
                    ensures
                        b == (c@.name != name@),
                    { !(c.name == *name) };
                self.columns = vec_filter(&self.columns, other, Ghost(|c: ColumnView| c.name != name@));
            },
            ColumnAction::Rename { from, to } => {
                let change = |c: &Column| -> (r: Column)
                    ensures
                        r@ == (if c@.name == from@ {
                            ColumnView { name: to@, ..c@ }
                        } else {
                            c@
                        }),
                    {
                        let mut c = c.dup();
                        if c.name == *from {
                            c.name = to.clone();
                        }
                        c
                    };
                self.columns = vec_map(
                    &self.columns,
                    change,
                    Ghost(|c: ColumnView| if c.name == from@ { ColumnView { name: to@, ..c } } else { c }),
                );
            },
            ColumnAction::SetNotNull { name } => {
                self.set_nullability(name, false);
            },
            ColumnAction::DropNotNull { name } => {
                self.set_nullability(name, true);
            },
            ColumnAction::SetType { name, data_type } => {
                let change = |c: &Column| -> (r: Column)
                    ensures
                        r@ == (if c@.name == name@ {
                            ColumnView { data_type: Some(data_type@), ..c@ }
                        } else {
                            c@
                        }),
                    {
                        let mut c = c.dup();
                        if c.name == *name {
                            c.data_type = Some(data_type.clone());
                        }
                        c
                    };
                self.columns = vec_map(
                    &self.columns,
                    change,
                    Ghost(|c: ColumnView| if c.name == name@ { ColumnView { data_type: Some(data_type@), ..c } } else { c }),
                );
            },
            ColumnAction::SetDefault { name, default } => {
                let change = |c: &Column| -> (r: Column)
                    ensures
                        r@ == (if c@.name == name@ {
                            ColumnView { default: default.deep_view(), default_expr_text: None, ..c@ }
                        } else {
                            c@
                        }),
                    {
                        let mut c = c.dup();
                        if c.name == *name {
                            c.default = default.dup();
                            c.default_expr_text = None;
                        }
                        c
                    };
                self.columns = vec_map(
                    &self.columns,
                    change,
                    Ghost(
                        |c: ColumnView|
                            if c.name == name@ {
                                ColumnView { default: default.deep_view(), default_expr_text: None, ..c }
                            } else {
                                c
                            },
                    ),
                );
            },
        }
    }

    fn set_nullability(&mut self, name: &String, nullable: bool)
        ensures
            final(self)@ == (RelationStateView { columns: with_nullability(old(self)@.columns, name@, nullable), ..old(self)@ }),
    {
        let change = |c: &Column| -> (r: Column)
            ensures
                r@ == (if c@.name == name@ {
                    ColumnView { is_nullable: nullable, ..c@ }
                } else {
                    c@
                }),
            {
                let mut c = c.dup();
                if c.name == *name {
                    c.is_nullable = nullable;
                }
                c
            };
        self.columns = vec_map(
            &self.columns,
            change,
            Ghost(|c: ColumnView| if c.name == name@ { ColumnView { is_nullable: nullable, ..c } } else { c }),
        );
    }

    pub(crate) fn set_type_id(&mut self, name: &String, type_id: &Option<ObjectId>)
        ensures
            final(self)@ == (RelationStateView { columns: with_type_id(old(self)@.columns, name@, type_id.deep_view()), ..old(self)@ }),
    {
        let change = |c: &Column| -> (r: Column)
            ensures
                r@ == (if c@.name == name@ {
                    ColumnView { type_id: type_id.deep_view(), ..c@ }
                } else {
                    c@
                }),
            {
                let mut c = c.dup();
                if c.name == *name {
                    c.type_id = type_id.dup();
                }
                c
            };
        self.columns = vec_map(
            &self.columns,
            change,
            Ghost(|c: ColumnView| if c.name == name@ { ColumnView { type_id: type_id.deep_view(), ..c } } else { c }),
        );
    }

    pub(crate) fn set_sequence_default(&mut self, name: &String, default: &ExprIr, text: &String)
        ensures
            final(self)@ == (RelationStateView {
                columns: with_sequence_default(old(self)@.columns, name@, default.deep_view(), text@),
                ..old(self)@
            }),
    {
        let change = |c: &Column| -> (r: Column)
            ensures
                r@ == (if c@.name == name@ {
                    ColumnView { default: Some(default.deep_view()), default_expr_text: Some(text@), is_nullable: false, ..c@ }
                } else {
                    c@
                }),
            {
                let mut c = c.dup();
                if c.name == *name {
                    c.default = Some(default.dup());
                    c.default_expr_text = Some(text.clone());
                    c.is_nullable = false;
                }
                c
            };
        self.columns = vec_map(
            &self.columns,
            change,
            Ghost(
                |c: ColumnView|
                    if c.name == name@ {
                        ColumnView { default: Some(default.deep_view()), default_expr_text: Some(text@), is_nullable: false, ..c }
                    } else {
                        c
                    },
            ),
        );
    }
}

} // verus!
