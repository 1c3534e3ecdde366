//! Publications and subscriptions.
use crate::collections::Dup;
use crate::facts::{AttributeFact, AttributeFactView, ConnectionTarget, ConnectionTargetView, PublicationScope, PublicationScopeView};
use crate::model::Overlay;
use vstd::prelude::*;

verus! {

/// A publication.
#[derive(Clone, Debug)]
pub struct PublicationState {
    pub name: String,
    pub scope: PublicationScope,
    pub params: Vec<AttributeFact>,
}

#[verifier::ext_equal]
pub struct PublicationStateView {
    pub name: Seq<char>,
    pub scope: PublicationScopeView,
    pub params: Seq<AttributeFactView>,
}

impl View for PublicationState {
    type V = PublicationStateView;

    open spec fn view(&self) -> PublicationStateView {
        PublicationStateView {
            name: self.name.deep_view(),
            scope: self.scope.deep_view(),
            params: self.params.deep_view(),
        }
    }
}

impl DeepView for PublicationState {
    type V = PublicationStateView;

    open spec fn deep_view(&self) -> PublicationStateView {
        self@
    }
}

impl Dup for PublicationState {
    fn dup(&self) -> (r: Self) {
        PublicationState {
            name: self.name.dup(),
            scope: self.scope.dup(),
            params: self.params.dup(),
        }
    }
}

/// A subscription.
#[derive(Clone, Debug)]
pub struct SubscriptionState {
    pub name: String,
    pub connection: ConnectionTarget,
    pub publications: Vec<String>,
    pub params: Option<Vec<AttributeFact>>,
}

#[verifier::ext_equal]
pub struct SubscriptionStateView {
    pub name: Seq<char>,
    pub connection: ConnectionTargetView,
    pub publications: Seq<Seq<char>>,
    pub params: Option<Seq<AttributeFactView>>,
}

impl View for SubscriptionState {
    type V = SubscriptionStateView;

    open spec fn view(&self) -> SubscriptionStateView {
        SubscriptionStateView {
            name: self.name.deep_view(),
            connection: self.connection.deep_view(),
            publications: self.publications.deep_view(),
            params: self.params.deep_view(),
        }
    }
}

impl DeepView for SubscriptionState {
    type V = SubscriptionStateView;

    open spec fn deep_view(&self) -> SubscriptionStateView {
        self@
    }
}

impl Dup for SubscriptionState {
    fn dup(&self) -> (r: Self) {
        SubscriptionState {
            name: self.name.dup(),
            connection: self.connection.dup(),
            publications: self.publications.dup(),
            params: self.params.dup(),
        }
    }
}

pub type PublicationOverlay = Overlay<PublicationState>;

pub type SubscriptionOverlay = Overlay<SubscriptionState>;

} // verus!
