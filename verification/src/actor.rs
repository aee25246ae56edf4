//! Who performs an operation.
use vstd::prelude::*;

use crate::primitives::ids::{ActorId, BrandId, DeviceId, MerchantId, PrefixedIdView, UserId};
use crate::primitives::label::opt_id_view;

verus! {

/// The kind of actor behind an operation.
#[derive(Debug, Copy, Clone, Eq, PartialEq, Hash)]
pub enum ActorKind {
    StaffUser,
    CustomerUser,
    ServiceAccount,
    Integration,
    Device,
    System,
}

/// The abstract value of an actor context.
pub struct ActorContextView {
    pub actor_id: PrefixedIdView,
    pub actor_kind: ActorKind,
    pub user_id: Option<PrefixedIdView>,
    pub brand_id: Option<PrefixedIdView>,
    pub merchant_id: Option<PrefixedIdView>,
    pub device_id: Option<PrefixedIdView>,
}

/// The actor of an operation, with the scope it acted in.
#[derive(Debug, Eq, PartialEq)]
pub struct ActorContext {
    actor_id: ActorId,
    actor_kind: ActorKind,
    user_id: Option<UserId>,
    brand_id: Option<BrandId>,
    merchant_id: Option<MerchantId>,
    device_id: Option<DeviceId>,
}

impl View for ActorContext {
    type V = ActorContextView;

    closed spec fn view(&self) -> ActorContextView {
        ActorContextView {
            actor_id: self.actor_id@,
            actor_kind: self.actor_kind,
            user_id: opt_id_view(self.user_id),
            brand_id: opt_id_view(self.brand_id),
            merchant_id: opt_id_view(self.merchant_id),
            device_id: opt_id_view(self.device_id),
        }
    }
}

fn clone_opt<K>(id: &Option<crate::primitives::ids::TypedId<K>>) -> (r: Option<crate::primitives::ids::TypedId<K>>)
    ensures
        opt_id_view(r) == opt_id_view(*id),
{
    match id {
        Some(i) => Some(i.clone()),
        None => None,
    }
}

impl Clone for ActorContext {
    fn clone(&self) -> (r: Self)
        ensures
            r@ == self@,
    {
        ActorContext {
            actor_id: self.actor_id.clone(),
            actor_kind: self.actor_kind,
            user_id: clone_opt(&self.user_id),
            brand_id: clone_opt(&self.brand_id),
            merchant_id: clone_opt(&self.merchant_id),
            device_id: clone_opt(&self.device_id),
        }
    }
}

impl ActorContext {
    pub fn new(actor_id: ActorId, actor_kind: ActorKind) -> (r: Self)
        ensures
            r@ == (ActorContextView {
                actor_id: actor_id@,
                actor_kind,
                user_id: None,
                brand_id: None,
                merchant_id: None,
                device_id: None,
            }),
    {
        ActorContext { actor_id, actor_kind, user_id: None, brand_id: None, merchant_id: None, device_id: None }
    }

    pub fn with_user_id(self, user_id: UserId) -> (r: Self)
        ensures
            r@ == (ActorContextView { user_id: Some(user_id@), ..self@ }),
    {
        ActorContext { user_id: Some(user_id), ..self }
    }

    pub fn with_brand_id(self, brand_id: BrandId) -> (r: Self)
        ensures
            r@ == (ActorContextView { brand_id: Some(brand_id@), ..self@ }),
    {
        ActorContext { brand_id: Some(brand_id), ..self }
    }

    pub fn with_merchant_id(self, merchant_id: MerchantId) -> (r: Self)
        ensures
            r@ == (ActorContextView { merchant_id: Some(merchant_id@), ..self@ }),
    {
        ActorContext { merchant_id: Some(merchant_id), ..self }
    }

    pub fn with_device_id(self, device_id: DeviceId) -> (r: Self)
        ensures
            r@ == (ActorContextView { device_id: Some(device_id@), ..self@ }),
    {
        ActorContext { device_id: Some(device_id), ..self }
    }

    pub fn actor_id(&self) -> (r: &ActorId)
        ensures
            r@ == self@.actor_id,
    {
        &self.actor_id
    }

    pub fn actor_kind(&self) -> (r: ActorKind)
        ensures
            r == self@.actor_kind,
    {
        self.actor_kind
    }
}

} // verus!
