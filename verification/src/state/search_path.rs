//! The search path in force.
use crate::collections::{vec_contains, Dup};
use crate::evidence::{EvidenceCode, EvidenceScope};
use crate::state::journal::{kept, kept_as, lemma_kept_trans, tainted_if, undone_by};
use crate::state::lookup::{present, schema_absence_is_authoritative};
use crate::state::{data_of, AnalysisState, AnalysisStateView, StateData};
use vstd::prelude::*;

verus! {

/// The schema that an entry of the path template stands for. `$user` stands
/// for the current role, where that is known.
pub open spec fn entry_schema(d: StateData, entry: Seq<char>) -> Option<Seq<char>> {
    if entry == "$user"@ {
        if d.current_role_known {
            Some(d.current_role)
        } else {
            None
        }
    } else {
        Some(entry)
    }
}

/// Whether a schema may be on the path: it exists, or its absence is not
/// proved.
pub open spec fn schema_is_usable(d: StateData, schema: Seq<char>) -> bool {
    present(d.schemas, schema) || !schema_absence_is_authoritative(d, schema)
}

/// The path that the first `n` template entries give.
pub open spec fn effective_path(d: StateData, n: nat) -> Seq<Seq<char>>
    decreases n,
{
    if n == 0 || n > d.search_path_template.len() {
        Seq::empty()
    } else {
        let rest = effective_path(d, (n - 1) as nat);
        match entry_schema(d, d.search_path_template[n - 1]) {
            Some(schema) => if schema_is_usable(d, schema) && !rest.contains(schema) {
                rest.push(schema)
            } else {
                rest
            },
            None => rest,
        }
    }
}

/// Whether one of the first `n` entries depends on an unknown role.
pub open spec fn path_has_unknown_role(d: StateData, n: nat) -> bool {
    exists|i: int| 0 <= i < n && entry_schema(d, #[trigger] d.search_path_template[i]) is None
}

/// Whether one of the first `n` entries names a schema that may not exist.
pub open spec fn path_has_unknown_schema(d: StateData, n: nat) -> bool {
    exists|i: int| 0 <= i < n && entry_is_unknown_schema(d, #[trigger] d.search_path_template[i])
}

pub open spec fn entry_is_unknown_schema(d: StateData, entry: Seq<char>) -> bool {
    match entry_schema(d, entry) {
        Some(schema) => !present(d.schemas, schema) && !schema_absence_is_authoritative(d, schema),
        None => false,
    }
}

/// The data after the path was computed anew from its template.
#[verifier::opaque]
pub open spec fn refreshed(d: StateData) -> StateData {
    let n = d.search_path_template.len();
    tainted_if(
        tainted_if(
            StateData { search_path: effective_path(d, n), ..d },
            path_has_unknown_role(d, n),
            EvidenceCode::UnresolvedReference,
            EvidenceScope::Chain,
        ),
        path_has_unknown_schema(d, n),
        EvidenceCode::UnknownObjectState,
        EvidenceScope::Chain,
    )
}

impl AnalysisState {
    /// Computes the search path anew from its template.
    pub(crate) fn refresh_role_sensitive_search_path(&mut self)
        ensures
            final(self)@.data == refreshed(old(self)@.data),
            kept(old(self)@, final(self)@),
            old(self)@.frames.len() == 0 ==> final(self)@.frames == old(self)@.frames,
            final(self)@.aborted == old(self)@.aborted,
    {
        proof {
            reveal(data_of);
        }
        let ghost d = self@.data;
        let mut effective: Vec<String> = Vec::new();
        let mut role_identity_unknown = false;
        let mut schema_state_unknown = false;
        let user = "$user".to_owned();
        let mut i: usize = 0;
        assert(effective.deep_view() =~= Seq::<Seq<char>>::empty());
        while i < self.local.search_path_template.len()
            invariant
                i <= self.local.search_path_template.len(),
                self@ == old(self)@,
                d == self@.data,
                user@ == "$user"@,
                effective.deep_view() == effective_path(d, i as nat),
                role_identity_unknown == path_has_unknown_role(d, i as nat),
                schema_state_unknown == path_has_unknown_schema(d, i as nat),
            decreases self.local.search_path_template.len() - i,
        {
            let entry = &self.local.search_path_template[i];
            let ghost before = effective.deep_view();
            proof {
                reveal(data_of);
                assert(d.search_path_template[i as int] == entry@);
                assert(((i + 1) - 1) as nat == i as nat);
                lemma_gap_step(d, i as nat);
            }
            let schema = if *entry == user {
                if self.local.current_role_known {
                    Some(self.local.current_role.clone())
                } else {
                    None
                }
            } else {
                Some(entry.clone())
            };
            match schema {
                None => {
                    role_identity_unknown = true;
                },
                Some(schema) => {
                    let exists_now = self.schema_is_present(&schema);
                    if exists_now || !self.schema_absence_is_authoritative(&schema) {
                        if !exists_now {
                            schema_state_unknown = true;
                        }
                        if !vec_contains(&effective, &schema) {
                            let ghost added = schema@;
                            effective.push(schema);
                            assert(effective.deep_view() =~= before.push(added));
                        }
                    }
                },
            }
            i = i + 1;
        }
        let template = self.local.search_path_template.dup();
        let session_template = self.local.session_search_path_template.dup();
        let ghost s0 = self@;
        self.set_search_path(effective, template, session_template);
        let ghost s1 = self@;
        self.taint_if(role_identity_unknown, EvidenceCode::UnresolvedReference, EvidenceScope::Chain);
        let ghost s2 = self@;
        self.taint_if(schema_state_unknown, EvidenceCode::UnknownObjectState, EvidenceScope::Chain);
        proof {
            lemma_kept_trans(s0, s1, s2);
            lemma_kept_trans(s0, s2, self@);
        }
        proof {
            reveal(refreshed);
            lemma_kept_frames(s0, self@);
        }
    }
}

proof fn lemma_gap_step(d: StateData, i: nat)
    requires
        i < d.search_path_template.len(),
    ensures
        path_has_unknown_role(d, i + 1) == (path_has_unknown_role(d, i) || entry_schema(d, d.search_path_template[i as int]) is None),
        path_has_unknown_schema(d, i + 1) == (path_has_unknown_schema(d, i) || entry_is_unknown_schema(d, d.search_path_template[i as int])),
{
}

/// What a step that keeps the frames says of them.
pub proof fn lemma_kept_frames(a: AnalysisStateView, b: AnalysisStateView)
    requires
        kept(a, b),
    ensures
        b.frames.len() == a.frames.len(),
        b.aborted == a.aborted,
        a.frames.len() == 0 ==> b.frames == a.frames,
{
    reveal(kept_as);
    reveal(undone_by);
    if a.frames.len() == 0 {
        assert(b.frames =~= a.frames);
    }
}

/// The path in force names every schema once, and only schemas that exist or
/// whose absence is not proved.
pub proof fn law_effective_path(d: StateData, n: nat)
    requires
        n <= d.search_path_template.len(),
    ensures
        effective_path(d, n).no_duplicates(),
        forall|i: int| 0 <= i < effective_path(d, n).len() ==> schema_is_usable(d, #[trigger] effective_path(d, n)[i]),
    decreases n,
{
    if n > 0 {
        law_effective_path(d, (n - 1) as nat);
        let rest = effective_path(d, (n - 1) as nat);
        let all = effective_path(d, n);
        assert forall|i: int| 0 <= i < all.len() implies schema_is_usable(d, #[trigger] all[i]) by {
            if i < rest.len() {
                assert(all[i] == rest[i]);
            }
        }
        assert forall|i: int, j: int| 0 <= i < j < all.len() implies all[i] != all[j] by {
            if j == rest.len() {
                assert(all[i] == rest[i]);
                assert(rest.contains(rest[i]));
            } else {
                assert(all[i] == rest[i] && all[j] == rest[j]);
            }
        }
    }
}

} // verus!
