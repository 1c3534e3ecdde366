//! What a written type name denotes.
use crate::identifiers::ObjectIdView;
use crate::laws::at;
use crate::model::types::TypeStateView;
use crate::model::Overlay;
use crate::state::type_refs::{parsed_type, type_in_catalog, type_on_path};
use vstd::prelude::*;

verus! {

/// A type that is written with a schema is the one of that schema, where it is
/// there. Without a schema it is the one that the first schema of the path has.
pub proof fn law_type_is_found_along_the_path(
    types: Map<ObjectIdView, Overlay<TypeStateView>>,
    path: Seq<Seq<char>>,
    raw: Seq<char>,
    i: int,
)
    ensures
        parsed_type(raw) is None ==> type_in_catalog(types, path, raw) is None,
        parsed_type(raw) is Some && (parsed_type(raw)->0).0 is Some ==> {
            let id = ObjectIdView { schema: (parsed_type(raw)->0).0->0, name: (parsed_type(raw)->0).1 };
            type_in_catalog(types, path, raw) == (if at(types, id) is Some {
                Some(id)
            } else {
                None
            })
        },
        parsed_type(raw) is Some && (parsed_type(raw)->0).0 is None ==> {
            let name = (parsed_type(raw)->0).1;
            &&& 0 <= i < path.len() && at(types, ObjectIdView { schema: path[i], name }) is Some && (forall|j: int|
                0 <= j < i ==> at(types, ObjectIdView { schema: #[trigger] path[j], name }) is None) ==> type_in_catalog(types, path, raw) == Some(
                ObjectIdView { schema: path[i], name },
            )
            &&& (forall|j: int| 0 <= j < path.len() ==> at(types, ObjectIdView { schema: #[trigger] path[j], name }) is None) ==> type_in_catalog(
                types,
                path,
                raw,
            ) is None
        },
{
    reveal(type_in_catalog);
    if parsed_type(raw) is Some && (parsed_type(raw)->0).0 is None {
        let name = (parsed_type(raw)->0).1;
        if 0 <= i < path.len() && at(types, ObjectIdView { schema: path[i], name }) is Some && (forall|j: int|
            0 <= j < i ==> at(types, ObjectIdView { schema: #[trigger] path[j], name }) is None) {
            lemma_first_on_path(types, path, name, 0, i);
        }
        if forall|j: int| 0 <= j < path.len() ==> at(types, ObjectIdView { schema: #[trigger] path[j], name }) is None {
            lemma_none_on_path(types, path, name, 0);
        }
    }
}

proof fn lemma_first_on_path(types: Map<ObjectIdView, Overlay<TypeStateView>>, path: Seq<Seq<char>>, name: Seq<char>, from: nat, i: int)
    requires
        from <= i < path.len(),
        at(types, ObjectIdView { schema: path[i], name }) is Some,
        forall|j: int| from <= j < i ==> at(types, ObjectIdView { schema: #[trigger] path[j], name }) is None,
    ensures
        type_on_path(types, path, name, from) == Some(ObjectIdView { schema: path[i], name }),
    decreases i - from,
{
    if from < i {
        assert(at(types, ObjectIdView { schema: path[from as int], name }) is None);
        lemma_first_on_path(types, path, name, from + 1, i);
    }
}

proof fn lemma_none_on_path(types: Map<ObjectIdView, Overlay<TypeStateView>>, path: Seq<Seq<char>>, name: Seq<char>, from: nat)
    requires
        forall|j: int| 0 <= j < path.len() ==> at(types, ObjectIdView { schema: #[trigger] path[j], name }) is None,
    ensures
        type_on_path(types, path, name, from) is None,
    decreases path.len() - from,
{
    if from < path.len() {
        assert(at(types, ObjectIdView { schema: path[from as int], name }) is None);
        lemma_none_on_path(types, path, name, from + 1);
    }
}

} // verus!
