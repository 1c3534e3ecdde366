//! Named types.
use crate::collections::Dup;
use crate::identifiers::{ObjectId, ObjectIdView};
use crate::model::Overlay;
use vstd::prelude::*;

verus! {

/// What a named type is made of.
#[derive(Clone, Debug, PartialEq)]
pub enum TypeKind {
    Base,
    Domain {
        base_type: String,
        base_type_id: Option<ObjectId>,
    },
    Enum {
        variants: Vec<String>,
    },
    Range,
    Composite,
}

#[verifier::ext_equal]
pub enum TypeKindView {
    Base,
    Domain {
        base_type: Seq<char>,
        base_type_id: Option<ObjectIdView>,
    },
    Enum {
        variants: Seq<Seq<char>>,
    },
    Range,
    Composite,
}

impl View for TypeKind {
    type V = TypeKindView;

    open spec fn view(&self) -> TypeKindView {
        match self {
            TypeKind::Base => TypeKindView::Base,
            TypeKind::Domain { base_type, base_type_id } => TypeKindView::Domain {
                base_type: base_type.deep_view(),
                base_type_id: base_type_id.deep_view(),
            },
            TypeKind::Enum { variants } => TypeKindView::Enum {
                variants: variants.deep_view(),
            },
            TypeKind::Range => TypeKindView::Range,
            TypeKind::Composite => TypeKindView::Composite,
        }
    }
}

impl DeepView for TypeKind {
    type V = TypeKindView;

    open spec fn deep_view(&self) -> TypeKindView {
        self@
    }
}

impl Dup for TypeKind {
    fn dup(&self) -> (r: Self) {
        match self {
            TypeKind::Base => TypeKind::Base,
            TypeKind::Domain { base_type, base_type_id } => TypeKind::Domain {
                base_type: base_type.dup(),
                base_type_id: base_type_id.dup(),
            },
            TypeKind::Enum { variants } => TypeKind::Enum {
                variants: variants.dup(),
            },
            TypeKind::Range => TypeKind::Range,
            TypeKind::Composite => TypeKind::Composite,
        }
    }
}

/// A named type.
#[derive(Clone, Debug)]
pub struct TypeState {
    pub id: ObjectId,
    pub generation: u64,
    pub kind: TypeKind,
}

#[verifier::ext_equal]
pub struct TypeStateView {
    pub id: ObjectIdView,
    pub generation: u64,
    pub kind: TypeKindView,
}

impl View for TypeState {
    type V = TypeStateView;

    open spec fn view(&self) -> TypeStateView {
        TypeStateView {
            id: self.id.deep_view(),
            generation: self.generation.deep_view(),
            kind: self.kind.deep_view(),
        }
    }
}

impl DeepView for TypeState {
    type V = TypeStateView;

    open spec fn deep_view(&self) -> TypeStateView {
        self@
    }
}

impl Dup for TypeState {
    fn dup(&self) -> (r: Self) {
        TypeState {
            id: self.id.dup(),
            generation: self.generation.dup(),
            kind: self.kind.dup(),
        }
    }
}

pub type TypeOverlay = Overlay<TypeState>;

} // verus!
