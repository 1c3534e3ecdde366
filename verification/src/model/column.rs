//! Table columns.
use crate::collections::Dup;
use crate::expr_ir::{ExprIr, ExprIrView};
use crate::identifiers::{ObjectId, ObjectIdView};
use vstd::prelude::*;

verus! {

/// A column of a relation.
#[derive(Clone, Debug)]
pub struct Column {
    pub name: String,
    pub data_type: Option<String>,
    pub type_id: Option<ObjectId>,
    pub is_nullable: bool,
    pub default: Option<ExprIr>,
    pub avg_width: Option<u32>,
    pub default_expr_text: Option<String>,
    pub type_modifier: Option<u32>,
}

#[verifier::ext_equal]
pub struct ColumnView {
    pub name: Seq<char>,
    pub data_type: Option<Seq<char>>,
    pub type_id: Option<ObjectIdView>,
    pub is_nullable: bool,
    pub default: Option<ExprIrView>,
    pub avg_width: Option<u32>,
    pub default_expr_text: Option<Seq<char>>,
    pub type_modifier: Option<u32>,
}

impl View for Column {
    type V = ColumnView;

    open spec fn view(&self) -> ColumnView {
        ColumnView {
            name: self.name.deep_view(),
            data_type: self.data_type.deep_view(),
            type_id: self.type_id.deep_view(),
            is_nullable: self.is_nullable.deep_view(),
            default: self.default.deep_view(),
            avg_width: self.avg_width.deep_view(),
            default_expr_text: self.default_expr_text.deep_view(),
            type_modifier: self.type_modifier.deep_view(),
        }
    }
}

impl DeepView for Column {
    type V = ColumnView;

    open spec fn deep_view(&self) -> ColumnView {
        self@
    }
}

impl Dup for Column {
    fn dup(&self) -> (r: Self) {
        Column {
            name: self.name.dup(),
            data_type: self.data_type.dup(),
            type_id: self.type_id.dup(),
            is_nullable: self.is_nullable.dup(),
            default: self.default.dup(),
            avg_width: self.avg_width.dup(),
            default_expr_text: self.default_expr_text.dup(),
            type_modifier: self.type_modifier.dup(),
        }
    }
}

} // verus!
