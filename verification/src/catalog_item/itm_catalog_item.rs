use vstd::prelude::*;

use crate::effect::{clone_effects, Effect, EffectView};
use crate::modifier::mod_definition::{
    generated_label, generated_label_view, slot_suffix, ApplicabilityView, ModifierApplicability, Modifiers, ModifiersView,
    env_view, hydrate_modifiers, opt_time_view,
};
use crate::modifier::mod_error::{modifier_error_message, ModifierError, ModifierErrorView};
use crate::modifier::mod_price::{ModifierPricingPolicy, PricedConfiguration, PricedConfigurationView, PricingPolicyView};
use crate::modifier::mod_selection::{Selections, SelectionsView};
use crate::modifier::mod_state::{amount_sum, lemma_price_total_is_sum, spec_price, Configuration, ConfigurationView};
use crate::primitives::consumer::ConsumerProfile;
use crate::primitives::ids::{CatalogItemId, PrefixedIdView, VariantId};
use crate::primitives::label::{label_error_message, Label, LabelError, LabelErrorView, LabelView, ResolvedLabel, ResolvedLabelView};
use crate::primitives::money::{money_error_message, spec_money_add, Money, MoneyError, MoneyErrorView, MoneyView};
use crate::primitives::time::{EvaluationTime, EvaluationTimeView};
use crate::text::{is_blank, owned, push_text, str_is_blank};

verus! {

/// The abstract value of a variant.
pub struct VariantView {
    pub variant_id: PrefixedIdView,
    pub label: LabelView,
    pub invariant_price: MoneyView,
    pub effects: Seq<EffectView>,
    pub modifier_applicability: ApplicabilityView,
}

/// A sellable form of a catalog item with its own price and applicability.
#[derive(Debug, Eq, PartialEq)]
pub struct Variant {
    variant_id: VariantId,
    label: Label,
    invariant_price: Money,
    effects: Vec<Effect>,
    modifier_applicability: ModifierApplicability,
}

impl View for Variant {
    type V = VariantView;

    closed spec fn view(&self) -> VariantView {
        VariantView {
            variant_id: self.variant_id@,
            label: self.label@,
            invariant_price: self.invariant_price@,
            effects: self.effects.deep_view(),
            modifier_applicability: self.modifier_applicability@,
        }
    }
}

impl DeepView for Variant {
    type V = VariantView;

    open spec fn deep_view(&self) -> VariantView {
        self@
    }
}

impl Clone for Variant {
    fn clone(&self) -> (r: Self)
        ensures
            r@ == self@,
    {
        Variant {
            variant_id: self.variant_id.clone(),
            label: self.label.clone(),
            invariant_price: self.invariant_price.clone(),
            effects: clone_effects(self.effects.as_slice()),
            modifier_applicability: self.modifier_applicability.clone(),
        }
    }
}

pub open spec fn all_view() -> ApplicabilityView {
    ApplicabilityView { inapplicable_prompts: Set::empty(), inapplicable_choices: Set::empty() }
}

impl Variant {
    pub fn new(variant_id: VariantId, title: &str, invariant_price: Money, effects: Vec<Effect>) -> (r: Result<Self, CatalogItemError>)
        ensures
            is_blank(title@) ==> (r matches Err(e) && e@ == CatalogItemErrorView::EmptyVariantTitle),
            !is_blank(title@) ==> (r is Ok <==> invariant_price@.amount >= 0),
            !is_blank(title@) ==> (r matches Ok(v) ==> v@ == (VariantView {
                variant_id: variant_id@,
                label: generated_label_view(variant_id@.suffix + "-TITLE"@, title@),
                invariant_price: invariant_price@,
                effects: effects.deep_view(),
                modifier_applicability: all_view(),
            })),
            !is_blank(title@) ==> (r matches Err(e) ==> e@ == CatalogItemErrorView::NegativeVariantPrice(variant_id@)),
    {
        if str_is_blank(title) {
            return Err(CatalogItemError::EmptyVariantTitle);
        }
        proof {
            reveal_strlit("-TITLE");
        }
        let suffix = slot_suffix(variant_id.suffix(), "-TITLE");
        let label = generated_label(suffix.as_str(), title);
        Self::new_labeled(variant_id, label, invariant_price, effects)
    }

    pub fn new_labeled(variant_id: VariantId, label: Label, invariant_price: Money, effects: Vec<Effect>) -> (r: Result<Self, CatalogItemError>)
        ensures
            r is Ok <==> invariant_price@.amount >= 0,
            r matches Ok(v) ==> v@ == (VariantView {
                variant_id: variant_id@,
                label: label@,
                invariant_price: invariant_price@,
                effects: effects.deep_view(),
                modifier_applicability: all_view(),
            }),
            r matches Err(e) ==> e@ == CatalogItemErrorView::NegativeVariantPrice(variant_id@),
    {
        if invariant_price.amount_minor() < 0 {
            return Err(CatalogItemError::NegativeVariantPrice(variant_id));
        }
        Ok(Variant { variant_id, label, invariant_price, effects, modifier_applicability: ModifierApplicability::all() })
    }

    pub fn with_modifier_applicability(self, modifier_applicability: ModifierApplicability) -> (r: Self)
        ensures
            r@ == (VariantView { modifier_applicability: modifier_applicability@, ..self@ }),
    {
        Variant { modifier_applicability, ..self }
    }

    pub fn variant_id(&self) -> (r: &VariantId)
        ensures
            r@ == self@.variant_id,
    {
        &self.variant_id
    }

    pub fn title(&self) -> (r: &str)
        ensures
            r@ == self@.label.default,
    {
        self.label.default_text()
    }

    pub fn label(&self) -> (r: &Label)
        ensures
            r@ == self@.label,
    {
        &self.label
    }

    pub fn invariant_price(&self) -> (r: &Money)
        ensures
            r@ == self@.invariant_price,
    {
        &self.invariant_price
    }

    pub fn effects(&self) -> (r: &[Effect])
        ensures
            r.deep_view() == self@.effects,
    {
        self.effects.as_slice()
    }

    pub fn modifier_applicability(&self) -> (r: &ModifierApplicability)
        ensures
            r@ == self@.modifier_applicability,
    {
        &self.modifier_applicability
    }
}

/// The abstract value of a catalog item.
pub struct CatalogItemView {
    pub catalog_item_id: PrefixedIdView,
    pub label: LabelView,
    pub variants: Seq<VariantView>,
    pub modifiers: ModifiersView,
    pub pricing_policy: PricingPolicyView,
}

/// Something a customer can order: variants and the modifiers they share.
#[derive(Debug, Eq, PartialEq)]
pub struct CatalogItem {
    catalog_item_id: CatalogItemId,
    label: Label,
    variants: Vec<Variant>,
    modifiers: Modifiers,
    pricing_policy: ModifierPricingPolicy,
}

impl View for CatalogItem {
    type V = CatalogItemView;

    closed spec fn view(&self) -> CatalogItemView {
        CatalogItemView {
            catalog_item_id: self.catalog_item_id@,
            label: self.label@,
            variants: self.variants.deep_view(),
            modifiers: self.modifiers@,
            pricing_policy: self.pricing_policy@,
        }
    }
}

/// What is wrong with the `k`-th variant of a list, if anything: its
/// identifier repeats an earlier one, or its currency differs from the first.
pub open spec fn variant_error(variants: Seq<VariantView>, k: int) -> Option<CatalogItemErrorView> {
    if exists|j: int| 0 <= j < k && #[trigger] variants[j].variant_id == variants[k].variant_id {
        Some(CatalogItemErrorView::DuplicateVariant(variants[k].variant_id))
    } else if variants[k].invariant_price.currency != variants[0].invariant_price.currency {
        Some(CatalogItemErrorView::VariantCurrencyMismatch { left: variants[0].variant_id, right: variants[k].variant_id })
    } else {
        None
    }
}

/// What defining a catalog item with a label gives: at least one variant,
/// each identifier once, and one currency.
pub open spec fn spec_catalog_item(
    catalog_item_id: PrefixedIdView,
    label: LabelView,
    variants: Seq<VariantView>,
    modifiers: ModifiersView,
    pricing_policy: PricingPolicyView,
) -> Result<CatalogItemView, CatalogItemErrorView> {
    if variants.len() == 0 {
        Err(CatalogItemErrorView::CatalogItemHasNoVariants(catalog_item_id))
    } else if exists|k: int| 0 <= k < variants.len() && #[trigger] variant_error(variants, k) is Some {
        let k = choose|k: int| 0 <= k < variants.len() && #[trigger] variant_error(variants, k) is Some
            && forall|j: int| 0 <= j < k ==> #[trigger] variant_error(variants, j) is None;
        Err(variant_error(variants, k)->0)
    } else {
        Ok(CatalogItemView { catalog_item_id, label, variants, modifiers, pricing_policy })
    }
}

proof fn lemma_first_variant_error(variants: Seq<VariantView>, k: int)
    requires
        0 <= k < variants.len(),
        variant_error(variants, k) is Some,
        forall|j: int| 0 <= j < k ==> #[trigger] variant_error(variants, j) is None,
    ensures
        exists|w: int| 0 <= w < variants.len() && #[trigger] variant_error(variants, w) is Some
            && forall|j: int| 0 <= j < w ==> #[trigger] variant_error(variants, j) is None,
        (choose|w: int| 0 <= w < variants.len() && #[trigger] variant_error(variants, w) is Some
            && forall|j: int| 0 <= j < w ==> #[trigger] variant_error(variants, j) is None) == k,
{
    let w = choose|w: int| 0 <= w < variants.len() && #[trigger] variant_error(variants, w) is Some
        && forall|j: int| 0 <= j < w ==> #[trigger] variant_error(variants, j) is None;
    assert(variant_error(variants, k) is Some);
    if w < k {
        assert(variant_error(variants, w) is None);
    } else if w > k {
        assert(variant_error(variants, k) is None);
    }
}

/// Whether an earlier variant has the identifier of the `k`-th.
fn duplicate_variant_before(variants: &Vec<Variant>, k: usize) -> (r: bool)
    requires
        k < variants.len(),
    ensures
        r == exists|j: int| 0 <= j < k && #[trigger] variants.deep_view()[j].variant_id == variants.deep_view()[k as int].variant_id,
{
    let ghost vs = variants.deep_view();
    let mut j: usize = 0;
    while j < k
        invariant
            j <= k < variants.len(),
            vs == variants.deep_view(),
            forall|m: int| 0 <= m < j ==> #[trigger] vs[m].variant_id != vs[k as int].variant_id,
        decreases k - j,
    {
        assert(vs[j as int] == variants@[j as int]@);
        assert(vs[k as int] == variants@[k as int]@);
        if variants[j].variant_id.same_as(&variants[k].variant_id) {
            assert(vs[j as int].variant_id == vs[k as int].variant_id);
            return true;
        }
        j += 1;
    }
    false
}

/// Refuses the first variant that repeats an identifier or changes currency.
fn validate_variants(variants: &Vec<Variant>) -> (r: Result<(), CatalogItemError>)
    requires
        variants.len() > 0,
    ensures
        match r {
            Ok(_) => forall|k: int| 0 <= k < variants.len() ==> #[trigger] variant_error(variants.deep_view(), k) is None,
            Err(e) => exists|k: int| 0 <= k < variants.len() && #[trigger] variant_error(variants.deep_view(), k) == Some(e@)
                && forall|j: int| 0 <= j < k ==> #[trigger] variant_error(variants.deep_view(), j) is None,
        },
{
    let ghost vs = variants.deep_view();
    let mut k: usize = 0;
    while k < variants.len()
        invariant
            0 < variants.len(),
            k <= variants.len(),
            vs == variants.deep_view(),
            forall|j: int| 0 <= j < k ==> #[trigger] variant_error(vs, j) is None,
        decreases variants.len() - k,
    {
        assert(vs[k as int] == variants@[k as int]@);
        assert(vs[0] == variants@[0]@);
        if duplicate_variant_before(variants, k) {
            assert(variant_error(vs, k as int) == Some(CatalogItemErrorView::DuplicateVariant(vs[k as int].variant_id)));
            return Err(CatalogItemError::DuplicateVariant(variants[k].variant_id.clone()));
        }
        if !variants[k].invariant_price.currency().same_as(variants[0].invariant_price.currency()) {
            assert(variant_error(vs, k as int) == Some(CatalogItemErrorView::VariantCurrencyMismatch { left: vs[0].variant_id, right: vs[k as int].variant_id }));
            return Err(CatalogItemError::VariantCurrencyMismatch {
                left: variants[0].variant_id.clone(),
                right: variants[k].variant_id.clone(),
            });
        }
        k += 1;
    }
    Ok(())
}

pub open spec fn default_policy_view() -> PricingPolicyView {
    PricingPolicyView { defaults_are_free: true, rounding: crate::primitives::money::RoundingStrategy::CentRoundUp }
}

impl CatalogItem {
    pub fn new(catalog_item_id: CatalogItemId, title: &str, variants: Vec<Variant>, modifiers: Modifiers) -> (r: Result<Self, CatalogItemError>)
        ensures
            is_blank(title@) ==> (r matches Err(e) && e@ == CatalogItemErrorView::EmptyCatalogItemTitle),
            !is_blank(title@) ==> match r {
                Ok(c) => spec_catalog_item(catalog_item_id@, generated_label_view(catalog_item_id@.suffix + "-TITLE"@, title@), variants.deep_view(), modifiers@, default_policy_view())
                    == Ok::<CatalogItemView, CatalogItemErrorView>(c@),
                Err(e) => spec_catalog_item(catalog_item_id@, generated_label_view(catalog_item_id@.suffix + "-TITLE"@, title@), variants.deep_view(), modifiers@, default_policy_view())
                    == Err::<CatalogItemView, CatalogItemErrorView>(e@),
            },
    {
        Self::with_pricing_policy(catalog_item_id, title, variants, modifiers, ModifierPricingPolicy::default())
    }

    pub fn with_pricing_policy(
        catalog_item_id: CatalogItemId,
        title: &str,
        variants: Vec<Variant>,
        modifiers: Modifiers,
        pricing_policy: ModifierPricingPolicy,
    ) -> (r: Result<Self, CatalogItemError>)
        ensures
            is_blank(title@) ==> (r matches Err(e) && e@ == CatalogItemErrorView::EmptyCatalogItemTitle),
            !is_blank(title@) ==> match r {
                Ok(c) => spec_catalog_item(catalog_item_id@, generated_label_view(catalog_item_id@.suffix + "-TITLE"@, title@), variants.deep_view(), modifiers@, pricing_policy@)
                    == Ok::<CatalogItemView, CatalogItemErrorView>(c@),
                Err(e) => spec_catalog_item(catalog_item_id@, generated_label_view(catalog_item_id@.suffix + "-TITLE"@, title@), variants.deep_view(), modifiers@, pricing_policy@)
                    == Err::<CatalogItemView, CatalogItemErrorView>(e@),
            },
    {
        if str_is_blank(title) {
            return Err(CatalogItemError::EmptyCatalogItemTitle);
        }
        proof {
            reveal_strlit("-TITLE");
        }
        let suffix = slot_suffix(catalog_item_id.suffix(), "-TITLE");
        let label = generated_label(suffix.as_str(), title);
        Self::with_pricing_policy_labeled(catalog_item_id, label, variants, modifiers, pricing_policy)
    }

    pub fn new_labeled(catalog_item_id: CatalogItemId, label: Label, variants: Vec<Variant>, modifiers: Modifiers) -> (r: Result<Self, CatalogItemError>)
        ensures
            match r {
                Ok(c) => spec_catalog_item(catalog_item_id@, label@, variants.deep_view(), modifiers@, default_policy_view())
                    == Ok::<CatalogItemView, CatalogItemErrorView>(c@),
                Err(e) => spec_catalog_item(catalog_item_id@, label@, variants.deep_view(), modifiers@, default_policy_view())
                    == Err::<CatalogItemView, CatalogItemErrorView>(e@),
            },
    {
        Self::with_pricing_policy_labeled(catalog_item_id, label, variants, modifiers, ModifierPricingPolicy::default())
    }

    pub fn with_pricing_policy_labeled(
        catalog_item_id: CatalogItemId,
        label: Label,
        variants: Vec<Variant>,
        modifiers: Modifiers,
        pricing_policy: ModifierPricingPolicy,
    ) -> (r: Result<Self, CatalogItemError>)
        ensures
            match r {
                Ok(c) => spec_catalog_item(catalog_item_id@, label@, variants.deep_view(), modifiers@, pricing_policy@)
                    == Ok::<CatalogItemView, CatalogItemErrorView>(c@),
                Err(e) => spec_catalog_item(catalog_item_id@, label@, variants.deep_view(), modifiers@, pricing_policy@)
                    == Err::<CatalogItemView, CatalogItemErrorView>(e@),
            },
    {
        if variants.len() == 0 {
            return Err(CatalogItemError::CatalogItemHasNoVariants(catalog_item_id));
        }
        match validate_variants(&variants) {
            Ok(_) => {},
            Err(e) => {
                proof {
                    let vs = variants.deep_view();
                    let k = choose|k: int| 0 <= k < variants.len() && #[trigger] variant_error(vs, k) == Some(e@)
                        && forall|j: int| 0 <= j < k ==> #[trigger] variant_error(vs, j) is None;
                    lemma_first_variant_error(vs, k);
                }
                return Err(e);
            },
        }
        Ok(CatalogItem { catalog_item_id, label, variants, modifiers, pricing_policy })
    }

    pub fn catalog_item_id(&self) -> (r: &CatalogItemId)
        ensures
            r@ == self@.catalog_item_id,
    {
        &self.catalog_item_id
    }

    pub fn title(&self) -> (r: &str)
        ensures
            r@ == self@.label.default,
    {
        self.label.default_text()
    }

    pub fn label(&self) -> (r: &Label)
        ensures
            r@ == self@.label,
    {
        &self.label
    }

    pub fn variants(&self) -> (r: &[Variant])
        ensures
            r.deep_view() == self@.variants,
    {
        self.variants.as_slice()
    }

    pub fn modifiers(&self) -> (r: &Modifiers)
        ensures
            r@ == self@.modifiers,
    {
        &self.modifiers
    }

    pub fn pricing_policy(&self) -> (r: ModifierPricingPolicy)
        ensures
            r@ == self@.pricing_policy,
    {
        self.pricing_policy
    }

    /// The first variant with the identifier.
    pub fn variant(&self, variant_id: &VariantId) -> (r: Option<&Variant>)
        ensures
            match r {
                Some(v) => has_variant(self@.variants, variant_id@) && v@ == self@.variants[first_variant_index(self@.variants, variant_id@)],
                None => !has_variant(self@.variants, variant_id@),
            },
    {
        let ghost vs = self@.variants;
        let mut i: usize = 0;
        while i < self.variants.len()
            invariant
                i <= self.variants.len(),
                vs == self@.variants,
                vs == self.variants.deep_view(),
                forall|j: int| 0 <= j < i ==> #[trigger] vs[j].variant_id != variant_id@,
            decreases self.variants.len() - i,
        {
            assert(vs[i as int] == self.variants@[i as int]@);
            if self.variants[i].variant_id.same_as(variant_id) {
                proof {
                    assert(vs[i as int].variant_id == variant_id@);
                    assert(has_variant(vs, variant_id@));
                    let w = first_variant_index(vs, variant_id@);
                    if w < i {
                        assert(vs[w].variant_id != variant_id@);
                    } else if w > i {
                        assert(vs[i as int].variant_id != variant_id@);
                    }
                }
                return Some(&self.variants[i]);
            }
            i += 1;
        }
        None
    }
}

/// Whether a variant with the identifier exists.
pub open spec fn has_variant(variants: Seq<VariantView>, id: PrefixedIdView) -> bool {
    exists|i: int| 0 <= i < variants.len() && #[trigger] variants[i].variant_id == id
}

/// The index of the first variant with the identifier.
pub open spec fn first_variant_index(variants: Seq<VariantView>, id: PrefixedIdView) -> int {
    choose|i: int| 0 <= i < variants.len() && #[trigger] variants[i].variant_id == id && forall|j: int| 0 <= j < i ==> #[trigger] variants[j].variant_id != id
}

/// The abstract value of a configured catalog item.
pub struct ConfiguredCatalogItemView {
    pub catalog_item_id: PrefixedIdView,
    pub catalog_item_label_definition: LabelView,
    pub catalog_item_label: ResolvedLabelView,
    pub variant_id: PrefixedIdView,
    pub variant_label_definition: LabelView,
    pub variant_label: ResolvedLabelView,
    pub effects: Seq<EffectView>,
    pub invariant_price: MoneyView,
    pub modifiers: ConfigurationView,
    pub modifier_price: PricedConfigurationView,
    pub pricing_policy: PricingPolicyView,
    pub total_price: MoneyView,
}

/// A variant of a catalog item with its modifiers hydrated and priced.
#[derive(Debug, Eq, PartialEq)]
pub struct ConfiguredCatalogItem {
    catalog_item_id: CatalogItemId,
    catalog_item_label_definition: Label,
    catalog_item_label: ResolvedLabel,
    variant_id: VariantId,
    variant_label_definition: Label,
    variant_label: ResolvedLabel,
    effects: Vec<Effect>,
    invariant_price: Money,
    modifiers: Configuration,
    modifier_price: PricedConfiguration,
    pricing_policy: ModifierPricingPolicy,
    total_price: Money,
}

impl View for ConfiguredCatalogItem {
    type V = ConfiguredCatalogItemView;

    closed spec fn view(&self) -> ConfiguredCatalogItemView {
        ConfiguredCatalogItemView {
            catalog_item_id: self.catalog_item_id@,
            catalog_item_label_definition: self.catalog_item_label_definition@,
            catalog_item_label: self.catalog_item_label@,
            variant_id: self.variant_id@,
            variant_label_definition: self.variant_label_definition@,
            variant_label: self.variant_label@,
            effects: self.effects.deep_view(),
            invariant_price: self.invariant_price@,
            modifiers: self.modifiers@,
            modifier_price: self.modifier_price@,
            pricing_policy: self.pricing_policy@,
            total_price: self.total_price@,
        }
    }
}

impl Clone for ConfiguredCatalogItem {
    fn clone(&self) -> (r: Self)
        ensures
            r@ == self@,
    {
        ConfiguredCatalogItem {
            catalog_item_id: self.catalog_item_id.clone(),
            catalog_item_label_definition: self.catalog_item_label_definition.clone(),
            catalog_item_label: self.catalog_item_label.clone(),
            variant_id: self.variant_id.clone(),
            variant_label_definition: self.variant_label_definition.clone(),
            variant_label: self.variant_label.clone(),
            effects: clone_effects(self.effects.as_slice()),
            invariant_price: self.invariant_price.clone(),
            modifiers: self.modifiers.clone(),
            modifier_price: self.modifier_price.clone(),
            pricing_policy: self.pricing_policy,
            total_price: self.total_price.clone(),
        }
    }
}

impl ConfiguredCatalogItem {
    pub fn catalog_item_id(&self) -> (r: &CatalogItemId)
        ensures
            r@ == self@.catalog_item_id,
    {
        &self.catalog_item_id
    }

    pub fn catalog_item_label(&self) -> (r: &ResolvedLabel)
        ensures
            r@ == self@.catalog_item_label,
    {
        &self.catalog_item_label
    }

    pub fn catalog_item_label_definition(&self) -> (r: &Label)
        ensures
            r@ == self@.catalog_item_label_definition,
    {
        &self.catalog_item_label_definition
    }

    pub fn variant_id(&self) -> (r: &VariantId)
        ensures
            r@ == self@.variant_id,
    {
        &self.variant_id
    }

    pub fn variant_label(&self) -> (r: &ResolvedLabel)
        ensures
            r@ == self@.variant_label,
    {
        &self.variant_label
    }

    pub fn variant_label_definition(&self) -> (r: &Label)
        ensures
            r@ == self@.variant_label_definition,
    {
        &self.variant_label_definition
    }

    pub fn effects(&self) -> (r: &[Effect])
        ensures
            r.deep_view() == self@.effects,
    {
        self.effects.as_slice()
    }

    pub fn invariant_price(&self) -> (r: &Money)
        ensures
            r@ == self@.invariant_price,
    {
        &self.invariant_price
    }

    pub fn modifiers(&self) -> (r: &Configuration)
        ensures
            r@ == self@.modifiers,
    {
        &self.modifiers
    }

    pub fn modifier_price(&self) -> (r: &PricedConfiguration)
        ensures
            r@ == self@.modifier_price,
    {
        &self.modifier_price
    }

    pub fn pricing_policy(&self) -> (r: ModifierPricingPolicy)
        ensures
            r@ == self@.pricing_policy,
    {
        self.pricing_policy
    }

    pub fn total_price(&self) -> (r: &Money)
        ensures
            r@ == self@.total_price,
    {
        &self.total_price
    }
}

/// The abstract value of a catalog item error.
pub enum CatalogItemErrorView {
    EmptyCatalogItemTitle,
    EmptyVariantTitle,
    CatalogItemHasNoVariants(PrefixedIdView),
    NegativeVariantPrice(PrefixedIdView),
    DuplicateVariant(PrefixedIdView),
    VariantCurrencyMismatch { left: PrefixedIdView, right: PrefixedIdView },
    UnknownVariant(PrefixedIdView),
    Modifier(ModifierErrorView),
    Label(LabelErrorView),
    Money(MoneyErrorView),
}

/// Why a catalog item could not be defined or configured.
#[derive(Debug, Eq, PartialEq)]
pub enum CatalogItemError {
    EmptyCatalogItemTitle,
    EmptyVariantTitle,
    CatalogItemHasNoVariants(CatalogItemId),
    NegativeVariantPrice(VariantId),
    DuplicateVariant(VariantId),
    VariantCurrencyMismatch { left: VariantId, right: VariantId },
    UnknownVariant(VariantId),
    Modifier(ModifierError),
    Label(LabelError),
    Money(MoneyError),
}

impl View for CatalogItemError {
    type V = CatalogItemErrorView;

    open spec fn view(&self) -> CatalogItemErrorView {
        match self {
            CatalogItemError::EmptyCatalogItemTitle => CatalogItemErrorView::EmptyCatalogItemTitle,
            CatalogItemError::EmptyVariantTitle => CatalogItemErrorView::EmptyVariantTitle,
            CatalogItemError::CatalogItemHasNoVariants(id) => CatalogItemErrorView::CatalogItemHasNoVariants(id@),
            CatalogItemError::NegativeVariantPrice(id) => CatalogItemErrorView::NegativeVariantPrice(id@),
            CatalogItemError::DuplicateVariant(id) => CatalogItemErrorView::DuplicateVariant(id@),
            CatalogItemError::VariantCurrencyMismatch { left, right } => CatalogItemErrorView::VariantCurrencyMismatch { left: left@, right: right@ },
            CatalogItemError::UnknownVariant(id) => CatalogItemErrorView::UnknownVariant(id@),
            CatalogItemError::Modifier(e) => CatalogItemErrorView::Modifier(e@),
            CatalogItemError::Label(e) => CatalogItemErrorView::Label(e@),
            CatalogItemError::Money(e) => CatalogItemErrorView::Money(e@),
        }
    }
}

/// The text a catalog item error reads as.
pub open spec fn catalog_item_error_message(e: CatalogItemErrorView) -> Seq<char> {
    match e {
        CatalogItemErrorView::EmptyCatalogItemTitle => "catalog item title cannot be empty"@,
        CatalogItemErrorView::EmptyVariantTitle => "variant title cannot be empty"@,
        CatalogItemErrorView::CatalogItemHasNoVariants(id) => "catalog item `"@ + id.full()
            + "` must have at least one variant"@,
        CatalogItemErrorView::NegativeVariantPrice(id) => "variant `"@ + id.full() + "` cannot have a negative price"@,
        CatalogItemErrorView::DuplicateVariant(id) => "duplicate variant `"@ + id.full() + "`"@,
        CatalogItemErrorView::VariantCurrencyMismatch { left, right } => "variant `"@ + left.full() + "` and variant `"@
            + right.full() + "` must use the same currency"@,
        CatalogItemErrorView::UnknownVariant(id) => "unknown variant `"@ + id.full() + "`"@,
        CatalogItemErrorView::Modifier(error) => modifier_error_message(error),
        CatalogItemErrorView::Label(error) => label_error_message(error),
        CatalogItemErrorView::Money(error) => money_error_message(error),
    }
}

impl CatalogItemError {
    /// The error as text; nested errors read as their own text.
    pub fn message(&self) -> (r: String)
        ensures
            r@ == catalog_item_error_message(self@),
    {
        match self {
            CatalogItemError::EmptyCatalogItemTitle => owned("catalog item title cannot be empty"),
            CatalogItemError::EmptyVariantTitle => owned("variant title cannot be empty"),
            CatalogItemError::CatalogItemHasNoVariants(id) => {
                let mut s = owned("catalog item `");
                push_text(&mut s, id.as_str());
                push_text(&mut s, "` must have at least one variant");
                s
            },
            CatalogItemError::NegativeVariantPrice(id) => {
                let mut s = owned("variant `");
                push_text(&mut s, id.as_str());
                push_text(&mut s, "` cannot have a negative price");
                s
            },
            CatalogItemError::DuplicateVariant(id) => {
                let mut s = owned("duplicate variant `");
                push_text(&mut s, id.as_str());
                push_text(&mut s, "`");
                s
            },
            CatalogItemError::VariantCurrencyMismatch { left, right } => {
                let mut s = owned("variant `");
                push_text(&mut s, left.as_str());
                push_text(&mut s, "` and variant `");
                push_text(&mut s, right.as_str());
                push_text(&mut s, "` must use the same currency");
                s
            },
            CatalogItemError::UnknownVariant(id) => {
                let mut s = owned("unknown variant `");
                push_text(&mut s, id.as_str());
                push_text(&mut s, "`");
                s
            },
            CatalogItemError::Modifier(error) => error.message(),
            CatalogItemError::Label(error) => error.message(),
            CatalogItemError::Money(error) => error.message(),
        }
    }
}

impl From<LabelError> for CatalogItemError {
    fn from(error: LabelError) -> (r: Self) {
        CatalogItemError::Label(error)
    }
}

impl vstd::std_specs::convert::FromSpecImpl<LabelError> for CatalogItemError {
    open spec fn obeys_from_spec() -> bool {
        true
    }

    open spec fn from_spec(v: LabelError) -> Self {
        CatalogItemError::Label(v)
    }
}

/// What configuring a variant of a catalog item gives: the variant's
/// applicability chooses the prompts and choices, the modifiers are hydrated
/// and priced against the variant's price, and the total is the variant's
/// price plus the modifier total.
pub open spec fn spec_configure(
    item: CatalogItemView,
    variant_id: PrefixedIdView,
    selections: SelectionsView,
    profile: Set<PrefixedIdView>,
    time: Option<EvaluationTimeView>,
) -> Result<ConfiguredCatalogItemView, CatalogItemErrorView> {
    if !has_variant(item.variants, variant_id) {
        Err(CatalogItemErrorView::UnknownVariant(variant_id))
    } else {
        let v = item.variants[first_variant_index(item.variants, variant_id)];
        match hydrate_modifiers(item.modifiers, selections, env_view(v.modifier_applicability, profile, time)) {
            Err(e) => Err(CatalogItemErrorView::Modifier(e)),
            Ok(cfg) => match spec_price(cfg, v.invariant_price, item.pricing_policy) {
                Err(e) => Err(CatalogItemErrorView::Modifier(e)),
                Ok(price) => match spec_money_add(v.invariant_price, price.total) {
                    Err(e) => Err(CatalogItemErrorView::Money(e)),
                    Ok(total) => match item.label.resolve(profile) {
                        Err(le) => Err(CatalogItemErrorView::Label(le)),
                        Ok(item_label) => match v.label.resolve(profile) {
                            Err(le) => Err(CatalogItemErrorView::Label(le)),
                            Ok(variant_label) => Ok(ConfiguredCatalogItemView {
                                catalog_item_id: item.catalog_item_id,
                                catalog_item_label_definition: item.label,
                                catalog_item_label: item_label,
                                variant_id: v.variant_id,
                                variant_label_definition: v.label,
                                variant_label,
                                effects: v.effects,
                                invariant_price: v.invariant_price,
                                modifiers: cfg,
                                modifier_price: price,
                                pricing_policy: item.pricing_policy,
                                total_price: total,
                            }),
                        },
                    },
                },
            },
        }
    }
}

/// A configured item's total is its variant's price plus the sum of its
/// modifier contributions, in the variant's currency.
pub proof fn lemma_configured_total(
    item: CatalogItemView,
    variant_id: PrefixedIdView,
    selections: SelectionsView,
    profile: Set<PrefixedIdView>,
    time: Option<EvaluationTimeView>,
)
    requires
        spec_configure(item, variant_id, selections, profile, time) is Ok,
    ensures
        ({
            let c = spec_configure(item, variant_id, selections, profile, time)->Ok_0;
            &&& c.total_price.amount == c.invariant_price.amount + amount_sum(c.modifier_price.contributions)
            &&& c.total_price.currency == c.invariant_price.currency
            &&& c.modifier_price.total.currency == c.invariant_price.currency
        }),
{
    let v = item.variants[first_variant_index(item.variants, variant_id)];
    let cfg = hydrate_modifiers(item.modifiers, selections, env_view(v.modifier_applicability, profile, time))->Ok_0;
    lemma_price_total_is_sum(cfg, v.invariant_price, item.pricing_policy);
}

impl CatalogItem {
    pub fn configure_variant(&self, variant_id: &VariantId, selections: &Selections) -> (r: Result<ConfiguredCatalogItem, CatalogItemError>)
        ensures
            match r {
                Ok(c) => spec_configure(self@, variant_id@, selections@, Set::empty(), None) == Ok::<ConfiguredCatalogItemView, CatalogItemErrorView>(c@),
                Err(e) => spec_configure(self@, variant_id@, selections@, Set::empty(), None) == Err::<ConfiguredCatalogItemView, CatalogItemErrorView>(e@),
            },
    {
        let empty = ConsumerProfile::empty();
        self.configure_variant_with_inputs(variant_id, selections, &empty, None)
    }

    pub fn configure_variant_at(&self, variant_id: &VariantId, selections: &Selections, evaluation_time: &EvaluationTime) -> (r: Result<ConfiguredCatalogItem, CatalogItemError>)
        ensures
            match r {
                Ok(c) => spec_configure(self@, variant_id@, selections@, Set::empty(), Some(evaluation_time@)) == Ok::<ConfiguredCatalogItemView, CatalogItemErrorView>(c@),
                Err(e) => spec_configure(self@, variant_id@, selections@, Set::empty(), Some(evaluation_time@)) == Err::<ConfiguredCatalogItemView, CatalogItemErrorView>(e@),
            },
    {
        let empty = ConsumerProfile::empty();
        self.configure_variant_with_inputs(variant_id, selections, &empty, Some(evaluation_time))
    }

    pub fn configure_variant_for_profile(&self, variant_id: &VariantId, selections: &Selections, consumer_profile: &ConsumerProfile) -> (r: Result<ConfiguredCatalogItem, CatalogItemError>)
        ensures
            match r {
                Ok(c) => spec_configure(self@, variant_id@, selections@, consumer_profile@, None) == Ok::<ConfiguredCatalogItemView, CatalogItemErrorView>(c@),
                Err(e) => spec_configure(self@, variant_id@, selections@, consumer_profile@, None) == Err::<ConfiguredCatalogItemView, CatalogItemErrorView>(e@),
            },
    {
        self.configure_variant_with_inputs(variant_id, selections, consumer_profile, None)
    }

    pub fn configure_variant_for_profile_at(
        &self,
        variant_id: &VariantId,
        selections: &Selections,
        consumer_profile: &ConsumerProfile,
        evaluation_time: &EvaluationTime,
    ) -> (r: Result<ConfiguredCatalogItem, CatalogItemError>)
        ensures
            match r {
                Ok(c) => spec_configure(self@, variant_id@, selections@, consumer_profile@, Some(evaluation_time@)) == Ok::<ConfiguredCatalogItemView, CatalogItemErrorView>(c@),
                Err(e) => spec_configure(self@, variant_id@, selections@, consumer_profile@, Some(evaluation_time@)) == Err::<ConfiguredCatalogItemView, CatalogItemErrorView>(e@),
            },
    {
        self.configure_variant_with_inputs(variant_id, selections, consumer_profile, Some(evaluation_time))
    }

    #[verifier::spinoff_prover]
    #[verifier::rlimit(80)]
    fn configure_variant_with_inputs(
        &self,
        variant_id: &VariantId,
        selections: &Selections,
        consumer_profile: &ConsumerProfile,
        evaluation_time: Option<&EvaluationTime>,
    ) -> (r: Result<ConfiguredCatalogItem, CatalogItemError>)
        ensures
            match r {
                Ok(c) => spec_configure(self@, variant_id@, selections@, consumer_profile@, opt_time_view(evaluation_time)) == Ok::<ConfiguredCatalogItemView, CatalogItemErrorView>(c@),
                Err(e) => spec_configure(self@, variant_id@, selections@, consumer_profile@, opt_time_view(evaluation_time)) == Err::<ConfiguredCatalogItemView, CatalogItemErrorView>(e@),
            },
    {
        let variant = match self.variant(variant_id) {
            Some(v) => v,
            None => return Err(CatalogItemError::UnknownVariant(variant_id.clone())),
        };
        let hydrated = match evaluation_time {
            Some(t) => self.modifiers.hydrate_with_applicability_and_profile_at(selections, variant.modifier_applicability(), consumer_profile, t),
            None => self.modifiers.hydrate_with_applicability_and_profile(selections, variant.modifier_applicability(), consumer_profile),
        };
        let modifiers = match hydrated {
            Ok(c) => c,
            Err(e) => return Err(CatalogItemError::Modifier(e)),
        };
        let modifier_price = match modifiers.price(variant.invariant_price(), self.pricing_policy) {
            Ok(p) => p,
            Err(e) => return Err(CatalogItemError::Modifier(e)),
        };
        let total_price = match variant.invariant_price().checked_add(modifier_price.total()) {
            Ok(t) => t,
            Err(e) => return Err(CatalogItemError::Money(e)),
        };
        let catalog_item_label = match self.label.resolve(consumer_profile) {
            Ok(l) => l,
            Err(le) => return Err(CatalogItemError::from(le)),
        };
        let variant_label = match variant.label.resolve(consumer_profile) {
            Ok(l) => l,
            Err(le) => return Err(CatalogItemError::from(le)),
        };
        Ok(ConfiguredCatalogItem {
            catalog_item_id: self.catalog_item_id.clone(),
            catalog_item_label_definition: self.label.clone(),
            catalog_item_label,
            variant_id: variant.variant_id.clone(),
            variant_label_definition: variant.label.clone(),
            variant_label,
            effects: clone_effects(variant.effects.as_slice()),
            invariant_price: variant.invariant_price.clone(),
            modifiers,
            modifier_price,
            pricing_policy: self.pricing_policy,
            total_price,
        })
    }
}

} // verus!
