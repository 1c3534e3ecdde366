//! Session settings: the search path, the timeouts, and the roles in force.
use crate::collections::Dup;
use crate::evidence::{EvidenceCode, EvidenceScope};
use crate::facts::{ResetSettingTarget, RoleFact, SearchPathTarget, TimeoutSetting, TimeoutSettingValue};
use crate::mutations::{OpaqueMutation, SearchPathChange, TimeoutSettingChange};
use crate::settings::ScopedSetting;
use crate::state::authority::{may_set_role, may_set_session};
use crate::state::journal::{group_kept, kept, tainted, tainted_if, with_role_context, RoleContext, RoleContextView};
use crate::state::lookup::{conflict, conflict_with, role_identity, role_present};
use crate::state::search_path::refreshed;
use crate::state::{data_of, AnalysisState, MutationResult, MutationResultView, StateData};
use crate::text::join3;
use vstd::prelude::*;

verus! {

broadcast use group_kept;

pub open spec fn path_template(d: StateData, target: SearchPathTarget) -> Seq<Seq<char>> {
    match target {
        SearchPathTarget::Default => d.default_search_path_template,
        SearchPathTarget::Schemas(schemas) => schemas.deep_view(),
    }
}

/// `SET [LOCAL] search_path`: a local change needs a transaction, and leaves
/// the session's path alone.
pub open spec fn search_path_set(d: StateData, inside: bool, change: SearchPathChange) -> (StateData, MutationResultView) {
    if change.local && !inside {
        (d, MutationResultView::Skipped)
    } else {
        let template = path_template(d, change.target);
        (
            refreshed(
                StateData {
                    search_path_template: template,
                    session_search_path_template: if change.local {
                        d.session_search_path_template
                    } else {
                        template
                    },
                    ..d
                },
            ),
            MutationResultView::Applied,
        )
    }
}

pub open spec fn timeout_of(d: StateData, setting: TimeoutSetting) -> ScopedSetting<Option<u64>> {
    match setting {
        TimeoutSetting::Lock => d.lock_timeout,
        TimeoutSetting::Statement => d.statement_timeout,
    }
}

pub open spec fn with_timeout(d: StateData, setting: TimeoutSetting, value: ScopedSetting<Option<u64>>) -> StateData {
    match setting {
        TimeoutSetting::Lock => StateData { lock_timeout: value, ..d },
        TimeoutSetting::Statement => StateData { statement_timeout: value, ..d },
    }
}

/// The setting with a new value in force, which the session keeps unless the
/// change is local.
pub open spec fn changed_setting(s: ScopedSetting<Option<u64>>, value: Option<u64>, local: bool) -> ScopedSetting<Option<u64>> {
    ScopedSetting {
        default: s.default,
        session: if local {
            s.session
        } else {
            value
        },
        effective: value,
    }
}

/// `SET [LOCAL] lock_timeout` and `statement_timeout`.
pub open spec fn timeout_set(d: StateData, inside: bool, change: TimeoutSettingChange) -> (StateData, MutationResultView) {
    let current = timeout_of(d, change.setting);
    if change.local && !inside {
        (d, MutationResultView::Skipped)
    } else {
        match change.value {
            TimeoutSettingValue::Invalid(reason) => (d, conflict(reason@)),
            TimeoutSettingValue::Default => (
                with_timeout(d, change.setting, changed_setting(current, current.default, change.local)),
                MutationResultView::Applied,
            ),
            TimeoutSettingValue::Milliseconds(ms) => (
                with_timeout(d, change.setting, changed_setting(current, Some(ms), change.local)),
                MutationResultView::Applied,
            ),
            TimeoutSettingValue::Current => (
                with_timeout(d, change.setting, changed_setting(current, current.effective, change.local)),
                MutationResultView::Applied,
            ),
        }
    }
}

pub open spec fn default_value(s: ScopedSetting<Option<u64>>) -> ScopedSetting<Option<u64>> {
    ScopedSetting { default: s.default, session: s.default, effective: s.default }
}

/// `RESET`: the named settings get their defaults.
pub open spec fn settings_reset(d: StateData, target: ResetSettingTarget) -> StateData {
    let d1 = if target == ResetSettingTarget::All || target == ResetSettingTarget::SearchPath {
        refreshed(
            StateData {
                search_path_template: d.default_search_path_template,
                session_search_path_template: d.default_search_path_template,
                ..d
            },
        )
    } else {
        d
    };
    StateData {
        lock_timeout: if target == ResetSettingTarget::All || target == ResetSettingTarget::LockTimeout {
            default_value(d1.lock_timeout)
        } else {
            d1.lock_timeout
        },
        statement_timeout: if target == ResetSettingTarget::All || target == ResetSettingTarget::StatementTimeout {
            default_value(d1.statement_timeout)
        } else {
            d1.statement_timeout
        },
        ..d1
    }
}

/// The role that a switch makes current, and whether it is known.
pub open spec fn switch_target(d: StateData, role: Option<RoleFact>, is_session_auth: bool) -> Option<(Seq<char>, bool)> {
    match role {
        Some(fact) => role_identity(d, fact),
        None => if is_session_auth {
            Some((d.authenticated_role, d.authenticated_role_known))
        } else {
            Some((d.session_role, d.session_role_known))
        },
    }
}

/// Whether the switch is allowed, where that is known. `NONE` and `DEFAULT`
/// always are.
pub open spec fn switch_allowed(d: StateData, role: Option<RoleFact>, target: Seq<char>, is_session_auth: bool) -> Option<bool> {
    if role is None {
        Some(true)
    } else if is_session_auth {
        may_set_session(d, target)
    } else {
        may_set_role(d, target)
    }
}

/// The roles in force after a switch.
pub open spec fn switched(d: StateData, target: Seq<char>, known: bool, role: Option<RoleFact>, local: bool, is_session_auth: bool) -> RoleContextView {
    let resets_to_session = role is None && !is_session_auth;
    RoleContextView {
        current_role: target,
        current_role_known: known,
        persistent_current_role: if local {
            d.persistent_current_role
        } else if resets_to_session {
            d.persistent_session_role
        } else {
            target
        },
        persistent_current_role_known: if local {
            d.persistent_current_role_known
        } else if resets_to_session {
            d.persistent_session_role_known
        } else {
            known
        },
        session_role: if is_session_auth {
            target
        } else {
            d.session_role
        },
        session_role_known: if is_session_auth {
            known
        } else {
            d.session_role_known
        },
        persistent_session_role: if is_session_auth && !local {
            target
        } else {
            d.persistent_session_role
        },
        persistent_session_role_known: if is_session_auth && !local {
            known
        } else {
            d.persistent_session_role_known
        },
    }
}

/// `SET [LOCAL] ROLE` and `SET [LOCAL] SESSION AUTHORIZATION`.
pub open spec fn role_switched(d: StateData, inside: bool, role: Option<RoleFact>, local: bool, is_session_auth: bool) -> (
    StateData,
    MutationResultView,
) {
    if local && !inside {
        (d, MutationResultView::Skipped)
    } else {
        match switch_target(d, role, is_session_auth) {
            None => (tainted(d, EvidenceCode::UnresolvedReference, EvidenceScope::Chain), MutationResultView::Skipped),
            Some(target) => match switch_allowed(d, role, target.0, is_session_auth) {
                Some(false) => (
                    d,
                    conflict(
                        if role_present(d, target.0) {
                            "permission denied to set role '"@ + target.0 + "'"@
                        } else {
                            "role '"@ + target.0 + "' does not exist"@
                        },
                    ),
                ),
                allowed => {
                    let d1 = tainted_if(d, allowed is None, EvidenceCode::CatalogCoverageIncomplete, EvidenceScope::Chain);
                    (
                        refreshed(with_role_context(d1, switched(d, target.0, target.1, role, local, is_session_auth))),
                        MutationResultView::Applied,
                    )
                },
            },
        }
    }
}

/// What a statement that the model does not follow leaves behind.
pub open spec fn opaque_code(opaque: OpaqueMutation) -> EvidenceCode {
    match opaque {
        OpaqueMutation::UnsupportedStatement => EvidenceCode::UnsupportedStatement,
        OpaqueMutation::UnresolvedReference { .. } => EvidenceCode::UnresolvedReference,
        _ => EvidenceCode::UnsupportedSemantics,
    }
}

impl AnalysisState {
    fn default_path_template(&self) -> (r: Vec<String>)
        ensures
            r.deep_view() == self@.data.default_search_path_template,
    {
        proof {
            reveal(data_of);
        }
        self.local.default_search_path_template.dup()
    }

    fn session_path_template(&self) -> (r: Vec<String>)
        ensures
            r.deep_view() == self@.data.session_search_path_template,
    {
        proof {
            reveal(data_of);
        }
        self.local.session_search_path_template.dup()
    }

    fn timeout_of(&self, setting: TimeoutSetting) -> (r: ScopedSetting<Option<u64>>)
        ensures
            r == timeout_of(self@.data, setting),
    {
        proof {
            reveal(data_of);
        }
        match setting {
            TimeoutSetting::Lock => self.local.lock_timeout.dup(),
            TimeoutSetting::Statement => self.local.statement_timeout.dup(),
        }
    }

    fn set_path_templates(&mut self, template: Vec<String>, session_template: Vec<String>)
        ensures
            final(self)@.data == refreshed(
                StateData {
                    search_path_template: template.deep_view(),
                    session_search_path_template: session_template.deep_view(),
                    ..old(self)@.data
                },
            ),
            kept(old(self)@, final(self)@),
    {
        let path = self.search_path().dup();
        self.set_search_path(path, template, session_template);
        self.refresh_role_sensitive_search_path();
    }

    pub(crate) fn apply_search_path(&mut self, change: &SearchPathChange) -> (r: MutationResult)
        ensures
            (final(self)@.data, r@) == search_path_set(old(self)@.data, old(self)@.frames.len() > 0, *change),
            kept(old(self)@, final(self)@),
    {
        if change.local && !self.in_transaction() {
            return MutationResult::Skipped;
        }
        let template = match &change.target {
            SearchPathTarget::Default => self.default_path_template(),
            SearchPathTarget::Schemas(schemas) => schemas.dup(),
        };
        let session_template = if change.local {
            self.session_path_template()
        } else {
            template.dup()
        };
        self.set_path_templates(template, session_template);
        MutationResult::Applied
    }

    fn set_timeout(&mut self, setting: TimeoutSetting, value: ScopedSetting<Option<u64>>)
        ensures
            final(self)@.data == with_timeout(old(self)@.data, setting, value),
            kept(old(self)@, final(self)@),
    {
        match setting {
            TimeoutSetting::Lock => {
                let other = self.timeout_of(TimeoutSetting::Statement);
                self.set_timeouts(value, other);
            },
            TimeoutSetting::Statement => {
                let other = self.timeout_of(TimeoutSetting::Lock);
                self.set_timeouts(other, value);
            },
        }
    }

    pub(crate) fn apply_timeout_setting(&mut self, change: &TimeoutSettingChange) -> (r: MutationResult)
        ensures
            (final(self)@.data, r@) == timeout_set(old(self)@.data, old(self)@.frames.len() > 0, *change),
            kept(old(self)@, final(self)@),
    {
        if change.local && !self.in_transaction() {
            return MutationResult::Skipped;
        }
        let current = self.timeout_of(change.setting);
        let next = match &change.value {
            TimeoutSettingValue::Default => current.default,
            TimeoutSettingValue::Milliseconds(milliseconds) => Some(*milliseconds),
            TimeoutSettingValue::Current => current.effective,
            TimeoutSettingValue::Invalid(reason) => {
                return conflict_with(reason.clone());
            },
        };
        let session = if change.local {
            current.session
        } else {
            next
        };
        self.set_timeout(change.setting, ScopedSetting { default: current.default, session, effective: next });
        MutationResult::Applied
    }

    pub(crate) fn apply_reset_settings(&mut self, target: &ResetSettingTarget) -> (r: MutationResult)
        ensures
            r@ is Applied,
            final(self)@.data == settings_reset(old(self)@.data, *target),
            kept(old(self)@, final(self)@),
    {
        if *target == ResetSettingTarget::All || *target == ResetSettingTarget::SearchPath {
            let template = self.default_path_template();
            let session_template = self.default_path_template();
            self.set_path_templates(template, session_template);
        }
        let mut lock = self.timeout_of(TimeoutSetting::Lock);
        if *target == ResetSettingTarget::All || *target == ResetSettingTarget::LockTimeout {
            lock = ScopedSetting { default: lock.default, session: lock.default, effective: lock.default };
        }
        let mut statement = self.timeout_of(TimeoutSetting::Statement);
        if *target == ResetSettingTarget::All || *target == ResetSettingTarget::StatementTimeout {
            statement = ScopedSetting { default: statement.default, session: statement.default, effective: statement.default };
        }
        self.set_timeouts(lock, statement);
        MutationResult::Applied
    }

    pub(crate) fn apply_switch_role(&mut self, role: &Option<RoleFact>, local: bool, is_session_auth: bool) -> (r: MutationResult)
        ensures
            (final(self)@.data, r@) == role_switched(old(self)@.data, old(self)@.frames.len() > 0, *role, local, is_session_auth),
            kept(old(self)@, final(self)@),
    {
        if local && !self.in_transaction() {
            return MutationResult::Skipped;
        }
        match self.switch_target(role, is_session_auth) {
            None => {
                self.taint(EvidenceCode::UnresolvedReference, EvidenceScope::Chain);
                MutationResult::Skipped
            },
            Some((name, known)) => {
                let authorized = if role.is_none() {
                    Some(true)
                } else if is_session_auth {
                    self.can_set_session_authorization_to(&name)
                } else {
                    self.can_set_role_to(&name)
                };
                let context = self.context_after_switch(&name, known, role, local, is_session_auth);
                match authorized {
                    Some(false) => {
                        if self.present_role(&name).is_none() {
                            return conflict_with(join3("role '", &name, "' does not exist"));
                        }
                        return conflict_with(join3("permission denied to set role '", &name, "'"));
                    },
                    _ => {},
                }
                self.taint_if(authorized.is_none(), EvidenceCode::CatalogCoverageIncomplete, EvidenceScope::Chain);
                self.set_role_context(context);
                self.refresh_role_sensitive_search_path();
                MutationResult::Applied
            },
        }
    }

    fn switch_target(&self, role: &Option<RoleFact>, is_session_auth: bool) -> (r: Option<(String, bool)>)
        ensures
            r.deep_view() == switch_target(self@.data, *role, is_session_auth),
    {
        proof {
            reveal(data_of);
        }
        match role {
            Some(fact) => self.role_fact_identity(fact),
            None => if is_session_auth {
                Some((self.local.authenticated_role.clone(), self.local.authenticated_role_known))
            } else {
                Some((self.local.session_role.clone(), self.local.session_role_known))
            },
        }
    }

    fn context_after_switch(&self, name: &String, known: bool, role: &Option<RoleFact>, local: bool, is_session_auth: bool) -> (r: RoleContext)
        ensures
            r@ == switched(self@.data, name@, known, *role, local, is_session_auth),
    {
        proof {
            reveal(data_of);
        }
        let resets_to_session = role.is_none() && !is_session_auth;
        RoleContext {
            current_role: name.clone(),
            current_role_known: known,
            persistent_current_role: if local {
                self.local.persistent_current_role.clone()
            } else if resets_to_session {
                self.local.persistent_session_role.clone()
            } else {
                name.clone()
            },
            persistent_current_role_known: if local {
                self.local.persistent_current_role_known
            } else if resets_to_session {
                self.local.persistent_session_role_known
            } else {
                known
            },
            session_role: if is_session_auth {
                name.clone()
            } else {
                self.local.session_role.clone()
            },
            session_role_known: if is_session_auth {
                known
            } else {
                self.local.session_role_known
            },
            persistent_session_role: if is_session_auth && !local {
                name.clone()
            } else {
                self.local.persistent_session_role.clone()
            },
            persistent_session_role_known: if is_session_auth && !local {
                known
            } else {
                self.local.persistent_session_role_known
            },
        }
    }

    pub(crate) fn apply_opaque(&mut self, opaque: &OpaqueMutation) -> (r: MutationResult)
        ensures
            r@ is Applied,
            final(self)@.data == tainted(old(self)@.data, opaque_code(*opaque), EvidenceScope::Chain),
            kept(old(self)@, final(self)@),
    {
        let code = match opaque {
            OpaqueMutation::UnsupportedStatement => EvidenceCode::UnsupportedStatement,
            OpaqueMutation::UnresolvedReference { .. } => EvidenceCode::UnresolvedReference,
            _ => EvidenceCode::UnsupportedSemantics,
        };
        self.taint(code, EvidenceScope::Chain);
        MutationResult::Applied
    }
}

/// A local change of the search path leaves what the session keeps alone.
pub proof fn law_local_path_is_temporary(d: StateData, inside: bool, change: SearchPathChange)
    requires
        change.local,
    ensures
        search_path_set(d, inside, change).0.session_search_path_template == d.session_search_path_template,
{
    reveal(refreshed);
    reveal(crate::state::journal::tainted_if);
    reveal(crate::state::journal::tainted);
}

/// A local switch of the role leaves the roles that survive the transaction
/// alone.
pub proof fn law_local_role_is_temporary(d: StateData, inside: bool, role: Option<RoleFact>, is_session_auth: bool)
    ensures
        ({
            let after = role_switched(d, inside, role, true, is_session_auth).0;
            &&& after.persistent_current_role == d.persistent_current_role
            &&& after.persistent_session_role == d.persistent_session_role
        }),
{
    reveal(refreshed);
    reveal(crate::state::journal::tainted_if);
    reveal(crate::state::journal::tainted);
}

} // verus!
