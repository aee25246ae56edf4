//! Effects: facts that a catalog element or a command contributes to an order.
use vstd::prelude::*;

use crate::primitives::ids::{CheckId, CommandId, ComponentId, EntryId, FulfillmentModeId, PrefixedIdView, SurfaceId};

verus! {

/// Where an effect comes from.
pub enum EffectSourceView {
    CatalogItem(PrefixedIdView),
    Choice(PrefixedIdView),
    ChoiceGroup(PrefixedIdView),
    Surface(PrefixedIdView),
    FulfillmentMode(PrefixedIdView),
    Command(PrefixedIdView),
    System,
}

#[derive(Debug, Eq, PartialEq)]
pub enum EffectSource {
    CatalogItem(ComponentId),
    Choice(ComponentId),
    ChoiceGroup(ComponentId),
    Surface(SurfaceId),
    FulfillmentMode(FulfillmentModeId),
    Command(CommandId),
    System,
}

impl View for EffectSource {
    type V = EffectSourceView;

    open spec fn view(&self) -> EffectSourceView {
        match self {
            EffectSource::CatalogItem(id) => EffectSourceView::CatalogItem(id@),
            EffectSource::Choice(id) => EffectSourceView::Choice(id@),
            EffectSource::ChoiceGroup(id) => EffectSourceView::ChoiceGroup(id@),
            EffectSource::Surface(id) => EffectSourceView::Surface(id@),
            EffectSource::FulfillmentMode(id) => EffectSourceView::FulfillmentMode(id@),
            EffectSource::Command(id) => EffectSourceView::Command(id@),
            EffectSource::System => EffectSourceView::System,
        }
    }
}

impl Clone for EffectSource {
    fn clone(&self) -> (r: Self)
        ensures
            r@ == self@,
    {
        match self {
            EffectSource::CatalogItem(id) => EffectSource::CatalogItem(id.clone()),
            EffectSource::Choice(id) => EffectSource::Choice(id.clone()),
            EffectSource::ChoiceGroup(id) => EffectSource::ChoiceGroup(id.clone()),
            EffectSource::Surface(id) => EffectSource::Surface(id.clone()),
            EffectSource::FulfillmentMode(id) => EffectSource::FulfillmentMode(id.clone()),
            EffectSource::Command(id) => EffectSource::Command(id.clone()),
            EffectSource::System => EffectSource::System,
        }
    }
}

/// What an effect applies to.
pub enum EffectTargetView {
    Order,
    ConfiguredCatalogItem,
    Entry(PrefixedIdView),
    Selection(PrefixedIdView),
    Check(PrefixedIdView),
}

#[derive(Debug, Eq, PartialEq)]
pub enum EffectTarget {
    Order,
    ConfiguredCatalogItem,
    Entry(EntryId),
    Selection(ComponentId),
    Check(CheckId),
}

impl View for EffectTarget {
    type V = EffectTargetView;

    open spec fn view(&self) -> EffectTargetView {
        match self {
            EffectTarget::Order => EffectTargetView::Order,
            EffectTarget::ConfiguredCatalogItem => EffectTargetView::ConfiguredCatalogItem,
            EffectTarget::Entry(id) => EffectTargetView::Entry(id@),
            EffectTarget::Selection(id) => EffectTargetView::Selection(id@),
            EffectTarget::Check(id) => EffectTargetView::Check(id@),
        }
    }
}

impl Clone for EffectTarget {
    fn clone(&self) -> (r: Self)
        ensures
            r@ == self@,
    {
        match self {
            EffectTarget::Order => EffectTarget::Order,
            EffectTarget::ConfiguredCatalogItem => EffectTarget::ConfiguredCatalogItem,
            EffectTarget::Entry(id) => EffectTarget::Entry(id.clone()),
            EffectTarget::Selection(id) => EffectTarget::Selection(id.clone()),
            EffectTarget::Check(id) => EffectTarget::Check(id.clone()),
        }
    }
}

/// The area of behavior an effect belongs to.
#[derive(Debug, Copy, Clone, Eq, PartialEq, Hash)]
pub enum EffectDomain {
    Price,
    Tax,
    Stock,
    Prep,
    Time,
    Availability,
    Reporting,
    Settlement,
    Validation,
    Attribute,
    Instruction,
    Unknown,
}

/// Whether an effect must be honored.
#[derive(Debug, Copy, Clone, Eq, PartialEq, Hash)]
pub enum EffectRequirement {
    Required,
    Optional,
}

/// What an effect says.
pub enum EffectPayloadView {
    Standard { kind: Seq<char>, value: Seq<char> },
    External { namespace: Seq<char>, kind: Seq<char>, value: Seq<char> },
}

#[derive(Debug, Eq, PartialEq)]
pub enum EffectPayload {
    Standard { kind: String, value: String },
    External { namespace: String, kind: String, value: String },
}

impl View for EffectPayload {
    type V = EffectPayloadView;

    open spec fn view(&self) -> EffectPayloadView {
        match self {
            EffectPayload::Standard { kind, value } => EffectPayloadView::Standard { kind: kind@, value: value@ },
            EffectPayload::External { namespace, kind, value } => EffectPayloadView::External {
                namespace: namespace@,
                kind: kind@,
                value: value@,
            },
        }
    }
}

impl Clone for EffectPayload {
    fn clone(&self) -> (r: Self)
        ensures
            r@ == self@,
    {
        match self {
            EffectPayload::Standard { kind, value } => EffectPayload::Standard { kind: kind.clone(), value: value.clone() },
            EffectPayload::External { namespace, kind, value } => EffectPayload::External {
                namespace: namespace.clone(),
                kind: kind.clone(),
                value: value.clone(),
            },
        }
    }
}

/// The abstract value of an effect.
pub struct EffectView {
    pub source: EffectSourceView,
    pub target: EffectTargetView,
    pub domain: EffectDomain,
    pub requirement: EffectRequirement,
    pub payload: EffectPayloadView,
}

/// A fact contributed by a source to a target in one domain.
#[derive(Debug, Eq, PartialEq)]
pub struct Effect {
    source: EffectSource,
    target: EffectTarget,
    domain: EffectDomain,
    requirement: EffectRequirement,
    payload: EffectPayload,
}

impl View for Effect {
    type V = EffectView;

    closed spec fn view(&self) -> EffectView {
        EffectView {
            source: self.source@,
            target: self.target@,
            domain: self.domain,
            requirement: self.requirement,
            payload: self.payload@,
        }
    }
}

impl DeepView for Effect {
    type V = EffectView;

    open spec fn deep_view(&self) -> EffectView {
        self@
    }
}

impl Clone for Effect {
    fn clone(&self) -> (r: Self)
        ensures
            r@ == self@,
    {
        Effect {
            source: self.source.clone(),
            target: self.target.clone(),
            domain: self.domain,
            requirement: self.requirement,
            payload: self.payload.clone(),
        }
    }
}

impl Effect {
    /// A required effect.
    pub fn new(source: EffectSource, target: EffectTarget, domain: EffectDomain, payload: EffectPayload) -> (r: Self)
        ensures
            r@ == (EffectView {
                source: source@,
                target: target@,
                domain,
                requirement: EffectRequirement::Required,
                payload: payload@,
            }),
    {
        Effect { source, target, domain, requirement: EffectRequirement::Required, payload }
    }

    /// The same effect, no longer required.
    pub fn optional(self) -> (r: Self)
        ensures
            r@ == (EffectView { requirement: EffectRequirement::Optional, ..self@ }),
    {
        Effect { requirement: EffectRequirement::Optional, ..self }
    }

    pub fn source(&self) -> (r: &EffectSource)
        ensures
            r@ == self@.source,
    {
        &self.source
    }

    pub fn target(&self) -> (r: &EffectTarget)
        ensures
            r@ == self@.target,
    {
        &self.target
    }

    pub fn domain(&self) -> (r: EffectDomain)
        ensures
            r == self@.domain,
    {
        self.domain
    }

    pub fn requirement(&self) -> (r: EffectRequirement)
        ensures
            r == self@.requirement,
    {
        self.requirement
    }

    pub fn payload(&self) -> (r: &EffectPayload)
        ensures
            r@ == self@.payload,
    {
        &self.payload
    }
}

/// A copy of a list of effects.
pub(crate) fn clone_effects(effects: &[Effect]) -> (r: Vec<Effect>)
    ensures
        r.deep_view() == effects.deep_view(),
{
    let mut out: Vec<Effect> = Vec::new();
    let mut i: usize = 0;
    while i < effects.len()
        invariant
            i <= effects.len(),
            out.deep_view() == effects.deep_view().take(i as int),
        decreases effects.len() - i,
    {
        let e = effects[i].clone();
        let ghost before = out.deep_view();
        out.push(e);
        assert(out.deep_view() =~= before.push(e@));
        assert(effects.deep_view().take(i + 1) =~= effects.deep_view().take(i as int).push(effects.deep_view()[i as int]));
        i += 1;
    }
    assert(effects.deep_view().take(effects.len() as int) =~= effects.deep_view());
    out
}

} // verus!
