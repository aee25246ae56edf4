use vstd::prelude::*;

use crate::catalog_item::{ConfiguredCatalogItem, ConfiguredCatalogItemView};
use crate::effect::{clone_effects, Effect, EffectView};
use crate::entry::{
    entry_error_message,
    spec_build, BuilderView, EntryError, EntryErrorView, EntryKind, EntrySource, EntrySourceView, OrderEntry,
    OrderEntryView, PriceCategory,
};
use crate::modifier::mod_definition::opt_label_view;
use crate::modifier::mod_error::{modifier_error_message, ModifierErrorView};
use crate::modifier::mod_price::{
    ChoicePriceView, PriceContributionView, PriceFactorView, PricedConfigurationView,
};
use crate::modifier::mod_state::{
    choice_snapshot_views, prompt_snapshot_views, snapshot_prompts, spec_price, ChoiceSnapshotView, ConfigurationSnapshotView,
    PromptSnapshotView,
};
use crate::modifier::{
    ChoicePrice, ChoiceSnapshot, ConfigurationSnapshot, ModifierError, PriceContribution, PriceFactor,
    PricedConfiguration, PromptSnapshot, SelectionSource,
};
use crate::order::entry_views;
use crate::totals::id_views;
use crate::primitives::ids::{CatalogItemId, CatalogVersionId, ComponentId, EntryId, OrderItemId, PrefixedIdView, VariantId};
use crate::primitives::label::{opt_id_view, Label, LabelView};
use crate::primitives::money::{
    money_error_message,
    spec_money_add, spec_money_mul_quantity, CurrencyCode, Money, MoneyError, MoneyErrorView, MoneyView, Rate,
    RateView,
};
use crate::text::{decimal, owned, push_char, push_decimal, push_signed_decimal, push_text, signed_decimal};

verus! {

/// The abstract value of where an order item comes from.
pub enum OrderItemSourceView {
    Catalog { catalog_version_id: PrefixedIdView, catalog_item_id: PrefixedIdView, variant_id: PrefixedIdView },
    External { system: Seq<char>, external_id: Option<Seq<char>> },
    Manual,
}

/// Where an order item comes from: a catalog version, an outside system, or
/// a hand-entered item.
#[derive(Debug, Eq, PartialEq)]
pub enum OrderItemSource {
    Catalog { catalog_version_id: CatalogVersionId, catalog_item_id: CatalogItemId, variant_id: VariantId },
    External { system: String, external_id: Option<String> },
    Manual,
}

pub open spec fn opt_text(s: Option<String>) -> Option<Seq<char>> {
    match s {
        Some(t) => Some(t@),
        None => None,
    }
}

pub open spec fn opt_ref_id(r: Option<&ComponentId>) -> Option<PrefixedIdView> {
    match r {
        Some(i) => Some(i@),
        None => None,
    }
}

pub open spec fn opt_ref_money(r: Option<&Money>) -> Option<MoneyView> {
    match r {
        Some(m) => Some(m@),
        None => None,
    }
}

fn clone_opt_text(s: &Option<String>) -> (r: Option<String>)
    ensures
        opt_text(r) == opt_text(*s),
{
    match s {
        Some(t) => Some(t.clone()),
        None => None,
    }
}

fn clone_opt_id(id: Option<&ComponentId>) -> (r: Option<ComponentId>)
    ensures
        match id {
            Some(i) => r matches Some(c) && c@ == i@,
            None => r is None,
        },
{
    match id {
        Some(i) => Some(i.clone()),
        None => None,
    }
}

impl View for OrderItemSource {
    type V = OrderItemSourceView;

    open spec fn view(&self) -> OrderItemSourceView {
        match self {
            OrderItemSource::Catalog { catalog_version_id, catalog_item_id, variant_id } => OrderItemSourceView::Catalog {
                catalog_version_id: catalog_version_id@,
                catalog_item_id: catalog_item_id@,
                variant_id: variant_id@,
            },
            OrderItemSource::External { system, external_id } => OrderItemSourceView::External {
                system: system@,
                external_id: opt_text(*external_id),
            },
            OrderItemSource::Manual => OrderItemSourceView::Manual,
        }
    }
}

impl Clone for OrderItemSource {
    fn clone(&self) -> (r: Self)
        ensures
            r@ == self@,
    {
        match self {
            OrderItemSource::Catalog { catalog_version_id, catalog_item_id, variant_id } => OrderItemSource::Catalog {
                catalog_version_id: catalog_version_id.clone(),
                catalog_item_id: catalog_item_id.clone(),
                variant_id: variant_id.clone(),
            },
            OrderItemSource::External { system, external_id } => OrderItemSource::External {
                system: system.clone(),
                external_id: clone_opt_text(external_id),
            },
            OrderItemSource::Manual => OrderItemSource::Manual,
        }
    }
}

/// The abstract value of a recorded price factor.
pub struct OrderItemPriceFactorView {
    pub choice_id: Option<PrefixedIdView>,
    pub rate: RateView,
}

/// A factor that multiplied a contribution, as the order item records it.
#[derive(Debug, Eq, PartialEq)]
pub struct OrderItemPriceFactor {
    choice_id: Option<ComponentId>,
    rate: Rate,
}

impl View for OrderItemPriceFactor {
    type V = OrderItemPriceFactorView;

    closed spec fn view(&self) -> OrderItemPriceFactorView {
        OrderItemPriceFactorView { choice_id: opt_id_view(self.choice_id), rate: self.rate@ }
    }
}

impl Clone for OrderItemPriceFactor {
    fn clone(&self) -> (r: Self)
        ensures
            r@ == self@,
    {
        OrderItemPriceFactor { choice_id: clone_opt_id(self.choice_id.as_ref()), rate: self.rate }
    }
}

/// The recorded form of a price factor.
pub open spec fn record_factor(f: PriceFactorView) -> OrderItemPriceFactorView {
    OrderItemPriceFactorView { choice_id: Some(f.choice_id), rate: f.rate }
}

impl OrderItemPriceFactor {
    pub fn new(choice_id: Option<ComponentId>, rate: Rate) -> (r: Self)
        ensures
            r@ == (OrderItemPriceFactorView { choice_id: opt_id_view(choice_id), rate: rate@ }),
    {
        OrderItemPriceFactor { choice_id, rate }
    }

    pub fn choice_id(&self) -> (r: Option<&ComponentId>)
        ensures
            opt_ref_id(r) == self@.choice_id,
    {
        self.choice_id.as_ref()
    }

    pub fn rate(&self) -> (r: Rate)
        ensures
            r@ == self@.rate,
    {
        self.rate
    }

    fn from_price_factor(factor: &PriceFactor) -> (r: Self)
        ensures
            r@ == record_factor(factor@),
    {
        OrderItemPriceFactor { choice_id: Some(factor.choice_id().clone()), rate: factor.rate() }
    }
}

pub open spec fn factor_views(fs: Seq<OrderItemPriceFactor>) -> Seq<OrderItemPriceFactorView> {
    fs.map_values(|f: OrderItemPriceFactor| f@)
}

fn clone_factor_list(fs: &[OrderItemPriceFactor]) -> (r: Vec<OrderItemPriceFactor>)
    ensures
        factor_views(r@) == factor_views(fs@),
{
    let mut out: Vec<OrderItemPriceFactor> = Vec::new();
    let mut i: usize = 0;
    while i < fs.len()
        invariant
            i <= fs.len(),
            factor_views(out@) == factor_views(fs@).take(i as int),
        decreases fs.len() - i,
    {
        let f = fs[i].clone();
        let ghost before = out@;
        out.push(f);
        assert(factor_views(out@) =~= factor_views(before).push(f@));
        assert(factor_views(fs@).take(i + 1) =~= factor_views(fs@).take(i as int).push(fs@[i as int]@));
        i += 1;
    }
    assert(factor_views(fs@).take(i as int) =~= factor_views(fs@));
    out
}

fn record_factor_list(fs: &[PriceFactor]) -> (r: Vec<OrderItemPriceFactor>)
    ensures
        factor_views(r@) == fs.deep_view().map_values(|f: PriceFactorView| record_factor(f)),
{
    let ghost target = fs.deep_view().map_values(|f: PriceFactorView| record_factor(f));
    let mut out: Vec<OrderItemPriceFactor> = Vec::new();
    let mut i: usize = 0;
    while i < fs.len()
        invariant
            i <= fs.len(),
            target == fs.deep_view().map_values(|f: PriceFactorView| record_factor(f)),
            factor_views(out@) == target.take(i as int),
        decreases fs.len() - i,
    {
        let f = OrderItemPriceFactor::from_price_factor(&fs[i]);
        assert(fs.deep_view()[i as int] == fs@[i as int]@);
        let ghost before = out@;
        out.push(f);
        assert(factor_views(out@) =~= factor_views(before).push(f@));
        assert(target.take(i + 1) =~= target.take(i as int).push(record_factor(fs@[i as int]@)));
        i += 1;
    }
    assert(target.take(i as int) =~= target);
    out
}

/// The abstract value of a recorded price contribution.
pub struct OrderItemPriceContributionView {
    pub choice_id: Option<PrefixedIdView>,
    pub label: LabelView,
    pub quantity: u32,
    pub source: SelectionSource,
    pub amount: MoneyView,
    pub flat_amount: Option<MoneyView>,
    pub invariant_rate: RateView,
    pub factors: Seq<OrderItemPriceFactorView>,
}

/// What one priced choice added to the order item's unit price.
#[derive(Debug, Eq, PartialEq)]
pub struct OrderItemPriceContribution {
    choice_id: Option<ComponentId>,
    label: Label,
    quantity: u32,
    source: SelectionSource,
    amount: Money,
    flat_amount: Option<Money>,
    invariant_rate: Rate,
    factors: Vec<OrderItemPriceFactor>,
}

pub open spec fn opt_money(m: Option<Money>) -> Option<MoneyView> {
    match m {
        Some(x) => Some(x@),
        None => None,
    }
}

impl View for OrderItemPriceContribution {
    type V = OrderItemPriceContributionView;

    closed spec fn view(&self) -> OrderItemPriceContributionView {
        OrderItemPriceContributionView {
            choice_id: opt_id_view(self.choice_id),
            label: self.label@,
            quantity: self.quantity,
            source: self.source,
            amount: self.amount@,
            flat_amount: opt_money(self.flat_amount),
            invariant_rate: self.invariant_rate@,
            factors: factor_views(self.factors@),
        }
    }
}

fn clone_opt_money(m: Option<&Money>) -> (r: Option<Money>)
    ensures
        match m {
            Some(x) => r matches Some(y) && y@ == x@,
            None => r is None,
        },
{
    match m {
        Some(x) => Some(x.clone()),
        None => None,
    }
}

impl Clone for OrderItemPriceContribution {
    fn clone(&self) -> (r: Self)
        ensures
            r@ == self@,
    {
        OrderItemPriceContribution {
            choice_id: clone_opt_id(self.choice_id.as_ref()),
            label: self.label.clone(),
            quantity: self.quantity,
            source: self.source,
            amount: self.amount.clone(),
            flat_amount: clone_opt_money(self.flat_amount.as_ref()),
            invariant_rate: self.invariant_rate,
            factors: clone_factor_list(self.factors.as_slice()),
        }
    }
}

/// The recorded form of a priced choice's contribution.
pub open spec fn record_contribution(c: PriceContributionView) -> OrderItemPriceContributionView {
    OrderItemPriceContributionView {
        choice_id: Some(c.choice_id),
        label: c.label_definition,
        quantity: c.quantity,
        source: c.source,
        amount: c.amount,
        flat_amount: c.flat_amount,
        invariant_rate: c.invariant_rate,
        factors: c.factors.map_values(|f: PriceFactorView| record_factor(f)),
    }
}

/// The abstract value of an order item error.
pub enum OrderItemErrorView {
    ZeroQuantity,
    Modifier(ModifierErrorView),
    Money(MoneyErrorView),
    Entry(EntryErrorView),
    ModifierPriceTotalMismatch { expected: MoneyView, actual: MoneyView },
    ModifierEntryIdCountMismatch { expected: usize, actual: usize },
}

/// Why an order item, its modifier record or its entries were refused.
#[derive(Debug, Eq, PartialEq)]
pub enum OrderItemError {
    ZeroQuantity,
    Modifier(ModifierError),
    Money(MoneyError),
    Entry(EntryError),
    ModifierPriceTotalMismatch { expected: Money, actual: Money },
    ModifierEntryIdCountMismatch { expected: usize, actual: usize },
}

impl View for OrderItemError {
    type V = OrderItemErrorView;

    open spec fn view(&self) -> OrderItemErrorView {
        match self {
            OrderItemError::ZeroQuantity => OrderItemErrorView::ZeroQuantity,
            OrderItemError::Modifier(e) => OrderItemErrorView::Modifier(e@),
            OrderItemError::Money(e) => OrderItemErrorView::Money(e@),
            OrderItemError::Entry(e) => OrderItemErrorView::Entry(e@),
            OrderItemError::ModifierPriceTotalMismatch { expected, actual } => OrderItemErrorView::ModifierPriceTotalMismatch {
                expected: expected@,
                actual: actual@,
            },
            OrderItemError::ModifierEntryIdCountMismatch { expected, actual } => OrderItemErrorView::ModifierEntryIdCountMismatch {
                expected: *expected,
                actual: *actual,
            },
        }
    }
}

/// How an amount is written in a debugging message.
pub open spec fn money_debug_text(m: MoneyView) -> Seq<char> {
    "Money { amount_minor: "@ + signed_decimal(m.amount) + ", currency: CurrencyCode(\""@ + m.currency + "\") }"@
}

fn push_money_debug(s: &mut String, m: &Money)
    ensures
        final(s)@ == old(s)@ + money_debug_text(m@),
{
    push_text(s, "Money { amount_minor: ");
    push_signed_decimal(s, m.amount_minor());
    push_text(s, ", currency: CurrencyCode(\"");
    push_text(s, m.currency().as_str());
    push_text(s, "\") }");
}

/// The text an order item error reads as.
pub open spec fn order_item_error_message(e: OrderItemErrorView) -> Seq<char> {
    match e {
        OrderItemErrorView::ZeroQuantity => "order item quantity must be greater than zero"@,
        OrderItemErrorView::Modifier(error) => modifier_error_message(error),
        OrderItemErrorView::Money(error) => money_error_message(error),
        OrderItemErrorView::Entry(error) => entry_error_message(error),
        OrderItemErrorView::ModifierPriceTotalMismatch { expected, actual } => "modifier price total `"@
            + money_debug_text(actual) + "` does not match contribution sum `"@ + money_debug_text(expected) + "`"@,
        OrderItemErrorView::ModifierEntryIdCountMismatch { expected, actual } => "expected "@ + decimal(expected as nat)
            + " modifier entry IDs but received "@ + decimal(actual as nat),
    }
}

impl OrderItemError {
    /// The error as text; nested errors read as their own text.
    pub fn message(&self) -> (r: String)
        ensures
            r@ == order_item_error_message(self@),
    {
        match self {
            OrderItemError::ZeroQuantity => owned("order item quantity must be greater than zero"),
            OrderItemError::Modifier(error) => error.message(),
            OrderItemError::Money(error) => error.message(),
            OrderItemError::Entry(error) => error.message(),
            OrderItemError::ModifierPriceTotalMismatch { expected, actual } => {
                let mut s = owned("modifier price total `");
                push_money_debug(&mut s, actual);
                push_text(&mut s, "` does not match contribution sum `");
                push_money_debug(&mut s, expected);
                push_text(&mut s, "`");
                s
            },
            OrderItemError::ModifierEntryIdCountMismatch { expected, actual } => {
                let mut s = owned("expected ");
                push_decimal(&mut s, *expected as u64);
                push_text(&mut s, " modifier entry IDs but received ");
                push_decimal(&mut s, *actual as u64);
                s
            },
        }
    }
}

impl OrderItemPriceContribution {
    /// A contribution; its flat amount and invariant rate are taken from
    /// `price`. A zero quantity is refused.
    pub fn new(
        choice_id: Option<ComponentId>,
        label: Label,
        quantity: u32,
        source: SelectionSource,
        amount: Money,
        price: ChoicePrice,
        factors: Vec<OrderItemPriceFactor>,
    ) -> (r: Result<Self, OrderItemError>)
        ensures
            r is Ok <==> quantity != 0,
            r matches Ok(c) ==> c@ == (OrderItemPriceContributionView {
                choice_id: opt_id_view(choice_id),
                label: label@,
                quantity,
                source,
                amount: amount@,
                flat_amount: price@.flat_amount,
                invariant_rate: price@.invariant_rate,
                factors: factor_views(factors@),
            }),
            r matches Err(e) ==> e@ == OrderItemErrorView::ZeroQuantity,
    {
        if quantity == 0 {
            return Err(OrderItemError::ZeroQuantity);
        }
        Ok(OrderItemPriceContribution {
            choice_id,
            label,
            quantity,
            source,
            amount,
            flat_amount: clone_opt_money(price.flat_amount_ref()),
            invariant_rate: price.invariant_rate(),
            factors,
        })
    }

    /// A contribution not tied to any catalog choice: an explicit flat amount.
    pub fn unconnected(label: Label, quantity: u32, amount: Money) -> (r: Result<Self, OrderItemError>)
        ensures
            r is Ok <==> amount@.amount >= 0 && quantity != 0,
            r matches Ok(c) ==> c@ == (OrderItemPriceContributionView {
                choice_id: None,
                label: label@,
                quantity,
                source: SelectionSource::Explicit,
                amount: amount@,
                flat_amount: Some(amount@),
                invariant_rate: RateView { numerator: 0, denominator: 1 },
                factors: Seq::empty(),
            }),
            r matches Err(e) ==> e@ == (if amount@.amount < 0 {
                OrderItemErrorView::Modifier(ModifierErrorView::NegativeChoicePrice)
            } else {
                OrderItemErrorView::ZeroQuantity
            }),
    {
        let price = match ChoicePrice::flat_amount(amount.clone()) {
            Ok(p) => p,
            Err(e) => return Err(OrderItemError::Modifier(e)),
        };
        let factors: Vec<OrderItemPriceFactor> = Vec::new();
        assert(factor_views(factors@) =~= Seq::<OrderItemPriceFactorView>::empty());
        Self::new(None, label, quantity, SelectionSource::Explicit, amount, price, factors)
    }

    pub fn choice_id(&self) -> (r: Option<&ComponentId>)
        ensures
            opt_ref_id(r) == self@.choice_id,
    {
        self.choice_id.as_ref()
    }

    pub fn label(&self) -> (r: &Label)
        ensures
            r@ == self@.label,
    {
        &self.label
    }

    pub fn title(&self) -> (r: &str)
        ensures
            r@ == self@.label.default,
    {
        self.label.default_text()
    }

    pub fn quantity(&self) -> (r: u32)
        ensures
            r == self@.quantity,
    {
        self.quantity
    }

    pub fn source(&self) -> (r: SelectionSource)
        ensures
            r == self@.source,
    {
        self.source
    }

    pub fn amount(&self) -> (r: &Money)
        ensures
            r@ == self@.amount,
    {
        &self.amount
    }

    pub fn flat_amount(&self) -> (r: Option<&Money>)
        ensures
            opt_ref_money(r) == self@.flat_amount,
    {
        self.flat_amount.as_ref()
    }

    pub fn invariant_rate(&self) -> (r: Rate)
        ensures
            r@ == self@.invariant_rate,
    {
        self.invariant_rate
    }

    pub fn factors(&self) -> (r: &[OrderItemPriceFactor])
        ensures
            factor_views(r@) == self@.factors,
    {
        self.factors.as_slice()
    }

    fn from_price_contribution(contribution: &PriceContribution) -> (r: Self)
        ensures
            r@ == record_contribution(contribution@),
    {
        OrderItemPriceContribution {
            choice_id: Some(contribution.choice_id().clone()),
            label: contribution.label_definition().clone(),
            quantity: contribution.quantity(),
            source: contribution.source(),
            amount: contribution.amount().clone(),
            flat_amount: clone_opt_money(contribution.flat_amount()),
            invariant_rate: contribution.invariant_rate(),
            factors: record_factor_list(contribution.factors()),
        }
    }
}

/// The running total of recorded contribution amounts, from zero in a currency.
pub open spec fn contribution_total(cs: Seq<OrderItemPriceContributionView>, currency: Seq<char>) -> Result<
    MoneyView,
    MoneyErrorView,
>
    decreases cs.len(),
{
    if cs.len() == 0 {
        Ok(MoneyView { amount: 0, currency })
    } else {
        match contribution_total(cs.drop_last(), currency) {
            Err(e) => Err(e),
            Ok(t) => spec_money_add(t, cs.last().amount),
        }
    }
}

/// A recorded total must equal the sum of the contributions, in its currency.
pub open spec fn spec_validate_total(cs: Seq<OrderItemPriceContributionView>, total: MoneyView) -> Result<
    (),
    OrderItemErrorView,
> {
    match contribution_total(cs, total.currency) {
        Err(e) => Err(OrderItemErrorView::Money(e)),
        Ok(sum) => if sum == total {
            Ok(())
        } else {
            Err(OrderItemErrorView::ModifierPriceTotalMismatch { expected: sum, actual: total })
        },
    }
}

pub open spec fn contribution_views(cs: Seq<OrderItemPriceContribution>) -> Seq<OrderItemPriceContributionView> {
    cs.map_values(|c: OrderItemPriceContribution| c@)
}

fn validate_total(contributions: &[OrderItemPriceContribution], total: &Money) -> (r: Result<(), OrderItemError>)
    ensures
        match r {
            Ok(()) => spec_validate_total(contribution_views(contributions@), total@) == Ok::<(), OrderItemErrorView>(()),
            Err(e) => spec_validate_total(contribution_views(contributions@), total@) == Err::<(), OrderItemErrorView>(e@),
        },
{
    let ghost cs = contribution_views(contributions@);
    let mut expected = Money::zero(total.currency().clone());
    let mut i: usize = 0;
    assert(cs.take(0) =~= Seq::<OrderItemPriceContributionView>::empty());
    while i < contributions.len()
        invariant
            i <= contributions.len(),
            cs == contribution_views(contributions@),
            contribution_total(cs.take(i as int), total@.currency) == Ok::<MoneyView, MoneyErrorView>(expected@),
        decreases contributions.len() - i,
    {
        assert(cs.take(i + 1).drop_last() =~= cs.take(i as int));
        assert(cs.take(i + 1).last() == contributions@[i as int]@);
        match expected.checked_add(contributions[i].amount()) {
            Ok(m) => {
                expected = m;
            },
            Err(e) => {
                proof {
                    lemma_contribution_total_error_sticks(cs, total@.currency, i + 1);
                }
                return Err(OrderItemError::Money(e));
            },
        }
        i += 1;
    }
    assert(cs.take(i as int) =~= cs);
    if expected.same_as(total) {
        Ok(())
    } else {
        Err(OrderItemError::ModifierPriceTotalMismatch { expected, actual: total.clone() })
    }
}

proof fn lemma_contribution_total_error_sticks(cs: Seq<OrderItemPriceContributionView>, currency: Seq<char>, k: int)
    requires
        0 <= k <= cs.len(),
        contribution_total(cs.take(k), currency) is Err,
    ensures
        contribution_total(cs, currency) == contribution_total(cs.take(k), currency),
    decreases cs.len() - k,
{
    if k == cs.len() {
        assert(cs.take(k) =~= cs);
    } else {
        assert(cs.take(k + 1).drop_last() =~= cs.take(k));
        lemma_contribution_total_error_sticks(cs, currency, k + 1);
    }
}

/// The abstract value of an order item's modifier price.
pub struct OrderItemModifierPriceView {
    pub contributions: Seq<OrderItemPriceContributionView>,
    pub total: MoneyView,
}

/// The priced modifier contributions of an order item and their total,
/// which is always their sum.
#[derive(Debug, Eq, PartialEq)]
pub struct OrderItemModifierPrice {
    contributions: Vec<OrderItemPriceContribution>,
    total: Money,
}

impl View for OrderItemModifierPrice {
    type V = OrderItemModifierPriceView;

    closed spec fn view(&self) -> OrderItemModifierPriceView {
        OrderItemModifierPriceView { contributions: contribution_views(self.contributions@), total: self.total@ }
    }
}

impl OrderItemModifierPrice {
    #[verifier::type_invariant]
    spec fn well_formed(self) -> bool {
        contribution_total(contribution_views(self.contributions@), self.total@.currency) == Ok::<MoneyView, MoneyErrorView>(
            self.total@,
        )
    }
}

fn clone_contribution_list(cs: &[OrderItemPriceContribution]) -> (r: Vec<OrderItemPriceContribution>)
    ensures
        contribution_views(r@) == contribution_views(cs@),
{
    let mut out: Vec<OrderItemPriceContribution> = Vec::new();
    let mut i: usize = 0;
    while i < cs.len()
        invariant
            i <= cs.len(),
            contribution_views(out@) == contribution_views(cs@).take(i as int),
        decreases cs.len() - i,
    {
        let c = cs[i].clone();
        let ghost before = out@;
        out.push(c);
        assert(contribution_views(out@) =~= contribution_views(before).push(c@));
        assert(contribution_views(cs@).take(i + 1) =~= contribution_views(cs@).take(i as int).push(cs@[i as int]@));
        i += 1;
    }
    assert(contribution_views(cs@).take(i as int) =~= contribution_views(cs@));
    out
}

impl Clone for OrderItemModifierPrice {
    fn clone(&self) -> (r: Self)
        ensures
            r@ == self@,
    {
        proof {
            use_type_invariant(self);
        }
        OrderItemModifierPrice {
            contributions: clone_contribution_list(self.contributions.as_slice()),
            total: self.total.clone(),
        }
    }
}

/// The recorded form of a priced configuration.
pub open spec fn record_price(p: PricedConfigurationView) -> OrderItemModifierPriceView {
    OrderItemModifierPriceView {
        contributions: p.contributions.map_values(|c: PriceContributionView| record_contribution(c)),
        total: p.total,
    }
}

impl OrderItemModifierPrice {
    /// A modifier price; its total must be the sum of the contributions.
    pub fn new(contributions: Vec<OrderItemPriceContribution>, total: Money) -> (r: Result<Self, OrderItemError>)
        ensures
            match r {
                Ok(p) => spec_validate_total(contribution_views(contributions@), total@) == Ok::<(), OrderItemErrorView>(())
                    && p@ == (OrderItemModifierPriceView { contributions: contribution_views(contributions@), total: total@ }),
                Err(e) => spec_validate_total(contribution_views(contributions@), total@) == Err::<(), OrderItemErrorView>(e@),
            },
    {
        validate_total(contributions.as_slice(), &total)?;
        Ok(OrderItemModifierPrice { contributions, total })
    }

    /// No contributions and a zero total.
    pub fn empty(currency: CurrencyCode) -> (r: Self)
        ensures
            r@ == (OrderItemModifierPriceView {
                contributions: Seq::empty(),
                total: MoneyView { amount: 0, currency: currency@ },
            }),
    {
        let contributions: Vec<OrderItemPriceContribution> = Vec::new();
        assert(contribution_views(contributions@) =~= Seq::<OrderItemPriceContributionView>::empty());
        OrderItemModifierPrice { contributions, total: Money::zero(currency) }
    }

    pub fn contributions(&self) -> (r: &[OrderItemPriceContribution])
        ensures
            contribution_views(r@) == self@.contributions,
    {
        self.contributions.as_slice()
    }

    pub fn total(&self) -> (r: &Money)
        ensures
            r@ == self@.total,
            contribution_total(self@.contributions, self@.total.currency) == Ok::<MoneyView, MoneyErrorView>(self@.total),
    {
        proof {
            use_type_invariant(self);
        }
        &self.total
    }

    fn from_priced_configuration(price: &PricedConfiguration) -> (r: Result<Self, OrderItemError>)
        ensures
            match r {
                Ok(p) => spec_validate_total(record_price(price@).contributions, price@.total) == Ok::<(), OrderItemErrorView>(())
                    && p@ == record_price(price@),
                Err(e) => spec_validate_total(record_price(price@).contributions, price@.total) == Err::<(), OrderItemErrorView>(e@),
            },
    {
        let source = price.contributions();
        let ghost target = price@.contributions.map_values(|c: PriceContributionView| record_contribution(c));
        let mut contributions: Vec<OrderItemPriceContribution> = Vec::new();
        let mut i: usize = 0;
        while i < source.len()
            invariant
                i <= source.len(),
                source.deep_view() == price@.contributions,
                target == price@.contributions.map_values(|c: PriceContributionView| record_contribution(c)),
                contribution_views(contributions@) == target.take(i as int),
            decreases source.len() - i,
        {
            let c = OrderItemPriceContribution::from_price_contribution(&source[i]);
            assert(source.deep_view()[i as int] == source@[i as int]@);
            let ghost before = contributions@;
            contributions.push(c);
            assert(contribution_views(contributions@) =~= contribution_views(before).push(c@));
            assert(target.take(i + 1) =~= target.take(i as int).push(record_contribution(source@[i as int]@)));
            i += 1;
        }
        assert(target.take(i as int) =~= target);
        Self::new(contributions, price.total().clone())
    }
}

/// The abstract value of a recorded prompt.
pub struct OrderItemPromptSnapshotView {
    pub prompt_id: Option<PrefixedIdView>,
    pub label: LabelView,
    pub description: Option<LabelView>,
    pub effects: Seq<EffectView>,
    pub choices: Seq<OrderItemChoiceSnapshotView>,
}

/// The abstract value of a recorded choice.
pub struct OrderItemChoiceSnapshotView {
    pub choice_id: Option<PrefixedIdView>,
    pub label: LabelView,
    pub quantity: u32,
    pub source: SelectionSource,
    pub effects: Seq<EffectView>,
    pub price: ChoicePriceView,
    pub modifiers: Seq<OrderItemPromptSnapshotView>,
}

/// A prompt as the order item records it; its id is absent for a
/// hand-entered prompt.
#[derive(Debug, Eq, PartialEq)]
pub struct OrderItemPromptSnapshot {
    prompt_id: Option<ComponentId>,
    label: Label,
    description: Option<Label>,
    effects: Vec<Effect>,
    choices: Vec<OrderItemChoiceSnapshot>,
}

/// A chosen choice as the order item records it, with the prompts nested
/// under it.
#[derive(Debug, Eq, PartialEq)]
pub struct OrderItemChoiceSnapshot {
    choice_id: Option<ComponentId>,
    label: Label,
    quantity: u32,
    source: SelectionSource,
    effects: Vec<Effect>,
    price: ChoicePrice,
    modifiers: Vec<OrderItemPromptSnapshot>,
}

spec fn prompt_seq_view(ps: Seq<OrderItemPromptSnapshot>, n: nat) -> Seq<OrderItemPromptSnapshotView>
    decreases ps, 0nat, n,
{
    if n == 0 || n > ps.len() {
        Seq::empty()
    } else {
        prompt_seq_view(ps, (n - 1) as nat).push(prompt_view(ps[n - 1]))
    }
}

spec fn prompt_view(p: OrderItemPromptSnapshot) -> OrderItemPromptSnapshotView
    decreases p, 1nat, 0nat,
{
    OrderItemPromptSnapshotView {
        prompt_id: opt_id_view(p.prompt_id),
        label: p.label@,
        description: opt_label_view(p.description),
        effects: p.effects.deep_view(),
        choices: choice_seq_view(p.choices@, p.choices@.len()),
    }
}

spec fn choice_seq_view(cs: Seq<OrderItemChoiceSnapshot>, n: nat) -> Seq<OrderItemChoiceSnapshotView>
    decreases cs, 0nat, n,
{
    if n == 0 || n > cs.len() {
        Seq::empty()
    } else {
        choice_seq_view(cs, (n - 1) as nat).push(choice_view(cs[n - 1]))
    }
}

spec fn choice_view(c: OrderItemChoiceSnapshot) -> OrderItemChoiceSnapshotView
    decreases c, 1nat, 0nat,
{
    OrderItemChoiceSnapshotView {
        choice_id: opt_id_view(c.choice_id),
        label: c.label@,
        quantity: c.quantity,
        source: c.source,
        effects: c.effects.deep_view(),
        price: c.price@,
        modifiers: prompt_seq_view(c.modifiers@, c.modifiers@.len()),
    }
}

impl View for OrderItemPromptSnapshot {
    type V = OrderItemPromptSnapshotView;

    closed spec fn view(&self) -> OrderItemPromptSnapshotView {
        prompt_view(*self)
    }
}

impl View for OrderItemChoiceSnapshot {
    type V = OrderItemChoiceSnapshotView;

    closed spec fn view(&self) -> OrderItemChoiceSnapshotView {
        choice_view(*self)
    }
}

pub open spec fn prompt_views(ps: Seq<OrderItemPromptSnapshot>) -> Seq<OrderItemPromptSnapshotView> {
    ps.map_values(|p: OrderItemPromptSnapshot| p@)
}

pub open spec fn choice_views(cs: Seq<OrderItemChoiceSnapshot>) -> Seq<OrderItemChoiceSnapshotView> {
    cs.map_values(|c: OrderItemChoiceSnapshot| c@)
}

proof fn lemma_prompt_seq_view(ps: Seq<OrderItemPromptSnapshot>, n: nat)
    requires
        n <= ps.len(),
    ensures
        prompt_seq_view(ps, n) =~= prompt_views(ps.take(n as int)),
    decreases n,
{
    if n > 0 {
        lemma_prompt_seq_view(ps, (n - 1) as nat);
        assert(ps.take(n as int).drop_last() =~= ps.take(n - 1));
    }
}

proof fn lemma_choice_seq_view(cs: Seq<OrderItemChoiceSnapshot>, n: nat)
    requires
        n <= cs.len(),
    ensures
        choice_seq_view(cs, n) =~= choice_views(cs.take(n as int)),
    decreases n,
{
    if n > 0 {
        lemma_choice_seq_view(cs, (n - 1) as nat);
        assert(cs.take(n as int).drop_last() =~= cs.take(n - 1));
    }
}

proof fn lemma_all_prompts(ps: Seq<OrderItemPromptSnapshot>)
    ensures
        prompt_seq_view(ps, ps.len()) == prompt_views(ps),
{
    lemma_prompt_seq_view(ps, ps.len());
    assert(ps.take(ps.len() as int) =~= ps);
}

proof fn lemma_all_choices(cs: Seq<OrderItemChoiceSnapshot>)
    ensures
        choice_seq_view(cs, cs.len()) == choice_views(cs),
{
    lemma_choice_seq_view(cs, cs.len());
    assert(cs.take(cs.len() as int) =~= cs);
}

/// The recorded form of snapshot prompts: each prompt and choice keeps its
/// id, its label definition, its effects and its price.
pub open spec fn record_prompts(ps: Seq<PromptSnapshotView>, n: nat) -> Seq<OrderItemPromptSnapshotView>
    decreases ps, 0nat, n,
{
    if n == 0 || n > ps.len() {
        Seq::empty()
    } else {
        record_prompts(ps, (n - 1) as nat).push(record_prompt(ps[n - 1]))
    }
}

pub open spec fn record_prompt(p: PromptSnapshotView) -> OrderItemPromptSnapshotView
    decreases p, 1nat, 0nat,
{
    OrderItemPromptSnapshotView {
        prompt_id: Some(p.prompt_id),
        label: p.label_definition,
        description: p.description_definition,
        effects: p.effects,
        choices: record_choices(p.choices, p.choices.len()),
    }
}

pub open spec fn record_choices(cs: Seq<ChoiceSnapshotView>, n: nat) -> Seq<OrderItemChoiceSnapshotView>
    decreases cs, 0nat, n,
{
    if n == 0 || n > cs.len() {
        Seq::empty()
    } else {
        record_choices(cs, (n - 1) as nat).push(record_choice(cs[n - 1]))
    }
}

pub open spec fn record_choice(c: ChoiceSnapshotView) -> OrderItemChoiceSnapshotView
    decreases c, 1nat, 0nat,
{
    OrderItemChoiceSnapshotView {
        choice_id: Some(c.choice_id),
        label: c.label_definition,
        quantity: c.quantity,
        source: c.source,
        effects: c.effects,
        price: c.price,
        modifiers: record_prompts(c.modifiers, c.modifiers.len()),
    }
}

fn clone_opt_label(l: Option<&Label>) -> (r: Option<Label>)
    ensures
        match l {
            Some(x) => r matches Some(y) && y@ == x@,
            None => r is None,
        },
{
    match l {
        Some(x) => Some(x.clone()),
        None => None,
    }
}

fn record_prompt_list(prompts: &[PromptSnapshot]) -> (r: Vec<OrderItemPromptSnapshot>)
    ensures
        prompt_views(r@) == record_prompts(prompt_snapshot_views(prompts@), prompts@.len()),
    decreases prompt_snapshot_views(prompts@), 1nat,
{
    let ghost ps = prompt_snapshot_views(prompts@);
    let mut out: Vec<OrderItemPromptSnapshot> = Vec::new();
    let mut i: usize = 0;
    assert(prompt_views(out@) =~= record_prompts(ps, 0));
    while i < prompts.len()
        invariant
            i <= prompts.len(),
            ps == prompt_snapshot_views(prompts@),
            prompt_views(out@) == record_prompts(ps, i as nat),
        decreases prompts.len() - i,
    {
        let prompt = &prompts[i];
        assert(ps[i as int] == prompt@);
        let source_choices = prompt.choices();
        assert(decreases_to!(ps => ps[i as int]));
        assert(decreases_to!(ps[i as int] => ps[i as int].choices));
        let choices = record_choice_list(source_choices);
        let snapshot = OrderItemPromptSnapshot {
            prompt_id: Some(prompt.prompt_id().clone()),
            label: prompt.label_definition().clone(),
            description: clone_opt_label(prompt.description_label_definition()),
            effects: clone_effects(prompt.effects()),
            choices,
        };
        proof {
            lemma_all_choices(snapshot.choices@);
            assert(snapshot@ == record_prompt(prompt@));
        }
        let ghost before = out@;
        out.push(snapshot);
        assert(prompt_views(out@) =~= prompt_views(before).push(snapshot@));
        i += 1;
    }
    out
}

fn record_choice_list(choices: &[ChoiceSnapshot]) -> (r: Vec<OrderItemChoiceSnapshot>)
    ensures
        choice_views(r@) == record_choices(choice_snapshot_views(choices@), choices@.len()),
    decreases choice_snapshot_views(choices@), 1nat,
{
    let ghost cs = choice_snapshot_views(choices@);
    let mut out: Vec<OrderItemChoiceSnapshot> = Vec::new();
    let mut i: usize = 0;
    assert(choice_views(out@) =~= record_choices(cs, 0));
    while i < choices.len()
        invariant
            i <= choices.len(),
            cs == choice_snapshot_views(choices@),
            choice_views(out@) == record_choices(cs, i as nat),
        decreases choices.len() - i,
    {
        let choice = &choices[i];
        assert(cs[i as int] == choice@);
        let source_modifiers = choice.modifiers();
        assert(decreases_to!(cs => cs[i as int]));
        assert(decreases_to!(cs[i as int] => cs[i as int].modifiers));
        let modifiers = record_prompt_list(source_modifiers);
        let snapshot = OrderItemChoiceSnapshot {
            choice_id: Some(choice.choice_id().clone()),
            label: choice.label_definition().clone(),
            quantity: choice.quantity(),
            source: choice.source(),
            effects: clone_effects(choice.effects()),
            price: choice.price_definition().clone(),
            modifiers,
        };
        proof {
            lemma_all_prompts(snapshot.modifiers@);
            assert(snapshot@ == record_choice(choice@));
        }
        let ghost before = out@;
        out.push(snapshot);
        assert(choice_views(out@) =~= choice_views(before).push(snapshot@));
        i += 1;
    }
    out
}

proof fn lemma_prompt_view(p: OrderItemPromptSnapshot)
    ensures
        p@ == (OrderItemPromptSnapshotView {
            prompt_id: opt_id_view(p.prompt_id),
            label: p.label@,
            description: opt_label_view(p.description),
            effects: p.effects.deep_view(),
            choices: choice_views(p.choices@),
        }),
{
    lemma_all_choices(p.choices@);
}

proof fn lemma_choice_view(c: OrderItemChoiceSnapshot)
    ensures
        c@ == (OrderItemChoiceSnapshotView {
            choice_id: opt_id_view(c.choice_id),
            label: c.label@,
            quantity: c.quantity,
            source: c.source,
            effects: c.effects.deep_view(),
            price: c.price@,
            modifiers: prompt_views(c.modifiers@),
        }),
{
    lemma_all_prompts(c.modifiers@);
}

impl Clone for OrderItemPromptSnapshot {
    fn clone(&self) -> (r: Self)
        ensures
            r@ == self@,
        decreases self,
    {
        proof {
            lemma_prompt_view(*self);
        }
        let mut choices: Vec<OrderItemChoiceSnapshot> = Vec::new();
        let mut i: usize = 0;
        while i < self.choices.len()
            invariant
                i <= self.choices.len(),
                choice_views(choices@) == choice_views(self.choices@).take(i as int),
            decreases self.choices.len() - i,
        {
            assert(decreases_to!(self => self.choices@[i as int]));
            let c = self.choices[i].clone();
            let ghost before = choices@;
            choices.push(c);
            assert(choice_views(choices@) =~= choice_views(before).push(c@));
            assert(choice_views(self.choices@).take(i + 1) =~= choice_views(self.choices@).take(i as int).push(
                self.choices@[i as int]@,
            ));
            i += 1;
        }
        let r = OrderItemPromptSnapshot {
            prompt_id: clone_opt_id(self.prompt_id.as_ref()),
            label: self.label.clone(),
            description: clone_opt_label(self.description.as_ref()),
            effects: clone_effects(self.effects.as_slice()),
            choices,
        };
        proof {
            lemma_prompt_view(r);
            assert(choice_views(self.choices@).take(self.choices.len() as int) =~= choice_views(self.choices@));
        }
        r
    }
}

impl Clone for OrderItemChoiceSnapshot {
    fn clone(&self) -> (r: Self)
        ensures
            r@ == self@,
        decreases self,
    {
        proof {
            lemma_choice_view(*self);
        }
        let mut modifiers: Vec<OrderItemPromptSnapshot> = Vec::new();
        let mut i: usize = 0;
        while i < self.modifiers.len()
            invariant
                i <= self.modifiers.len(),
                prompt_views(modifiers@) == prompt_views(self.modifiers@).take(i as int),
            decreases self.modifiers.len() - i,
        {
            assert(decreases_to!(self => self.modifiers@[i as int]));
            let p = self.modifiers[i].clone();
            let ghost before = modifiers@;
            modifiers.push(p);
            assert(prompt_views(modifiers@) =~= prompt_views(before).push(p@));
            assert(prompt_views(self.modifiers@).take(i + 1) =~= prompt_views(self.modifiers@).take(i as int).push(
                self.modifiers@[i as int]@,
            ));
            i += 1;
        }
        let r = OrderItemChoiceSnapshot {
            choice_id: clone_opt_id(self.choice_id.as_ref()),
            label: self.label.clone(),
            quantity: self.quantity,
            source: self.source,
            effects: clone_effects(self.effects.as_slice()),
            price: self.price.clone(),
            modifiers,
        };
        proof {
            lemma_choice_view(r);
            assert(prompt_views(self.modifiers@).take(self.modifiers.len() as int) =~= prompt_views(self.modifiers@));
        }
        r
    }
}

fn clone_prompt_list(ps: &[OrderItemPromptSnapshot]) -> (r: Vec<OrderItemPromptSnapshot>)
    ensures
        prompt_views(r@) == prompt_views(ps@),
{
    let mut out: Vec<OrderItemPromptSnapshot> = Vec::new();
    let mut i: usize = 0;
    while i < ps.len()
        invariant
            i <= ps.len(),
            prompt_views(out@) == prompt_views(ps@).take(i as int),
        decreases ps.len() - i,
    {
        let p = ps[i].clone();
        let ghost before = out@;
        out.push(p);
        assert(prompt_views(out@) =~= prompt_views(before).push(p@));
        assert(prompt_views(ps@).take(i + 1) =~= prompt_views(ps@).take(i as int).push(ps@[i as int]@));
        i += 1;
    }
    assert(prompt_views(ps@).take(i as int) =~= prompt_views(ps@));
    out
}

impl OrderItemPromptSnapshot {
    pub fn new(
        prompt_id: Option<ComponentId>,
        label: Label,
        description: Option<Label>,
        effects: Vec<Effect>,
        choices: Vec<OrderItemChoiceSnapshot>,
    ) -> (r: Self)
        ensures
            r@ == (OrderItemPromptSnapshotView {
                prompt_id: opt_id_view(prompt_id),
                label: label@,
                description: opt_label_view(description),
                effects: effects.deep_view(),
                choices: choice_views(choices@),
            }),
    {
        let r = OrderItemPromptSnapshot { prompt_id, label, description, effects, choices };
        proof {
            lemma_prompt_view(r);
        }
        r
    }

    pub fn prompt_id(&self) -> (r: Option<&ComponentId>)
        ensures
            opt_ref_id(r) == self@.prompt_id,
    {
        proof {
            lemma_prompt_view(*self);
        }
        self.prompt_id.as_ref()
    }

    pub fn label(&self) -> (r: &Label)
        ensures
            r@ == self@.label,
    {
        proof {
            lemma_prompt_view(*self);
        }
        &self.label
    }

    pub fn title(&self) -> (r: &str)
        ensures
            r@ == self@.label.default,
    {
        proof {
            lemma_prompt_view(*self);
        }
        self.label.default_text()
    }

    pub fn description_label(&self) -> (r: Option<&Label>)
        ensures
            match r {
                Some(l) => self@.description == Some(l@),
                None => self@.description is None,
            },
    {
        proof {
            lemma_prompt_view(*self);
        }
        self.description.as_ref()
    }

    pub fn description(&self) -> (r: Option<&str>)
        ensures
            match r {
                Some(d) => self@.description matches Some(l) && l.default == d@,
                None => self@.description is None,
            },
    {
        proof {
            lemma_prompt_view(*self);
        }
        match &self.description {
            Some(l) => Some(l.default_text()),
            None => None,
        }
    }

    pub fn effects(&self) -> (r: &[Effect])
        ensures
            r.deep_view() == self@.effects,
    {
        proof {
            lemma_prompt_view(*self);
        }
        self.effects.as_slice()
    }

    pub fn choices(&self) -> (r: &[OrderItemChoiceSnapshot])
        ensures
            choice_views(r@) == self@.choices,
    {
        proof {
            lemma_prompt_view(*self);
        }
        self.choices.as_slice()
    }
}

impl OrderItemChoiceSnapshot {
    /// A recorded choice; a zero quantity is refused.
    pub fn new(
        choice_id: Option<ComponentId>,
        label: Label,
        quantity: u32,
        source: SelectionSource,
        effects: Vec<Effect>,
        price: ChoicePrice,
        modifiers: Vec<OrderItemPromptSnapshot>,
    ) -> (r: Result<Self, OrderItemError>)
        ensures
            r is Ok <==> quantity != 0,
            r matches Ok(c) ==> c@ == (OrderItemChoiceSnapshotView {
                choice_id: opt_id_view(choice_id),
                label: label@,
                quantity,
                source,
                effects: effects.deep_view(),
                price: price@,
                modifiers: prompt_views(modifiers@),
            }),
            r matches Err(e) ==> e@ == OrderItemErrorView::ZeroQuantity,
    {
        if quantity == 0 {
            return Err(OrderItemError::ZeroQuantity);
        }
        let r = OrderItemChoiceSnapshot { choice_id, label, quantity, source, effects, price, modifiers };
        proof {
            lemma_choice_view(r);
        }
        Ok(r)
    }

    pub fn choice_id(&self) -> (r: Option<&ComponentId>)
        ensures
            opt_ref_id(r) == self@.choice_id,
    {
        proof {
            lemma_choice_view(*self);
        }
        self.choice_id.as_ref()
    }

    pub fn label(&self) -> (r: &Label)
        ensures
            r@ == self@.label,
    {
        proof {
            lemma_choice_view(*self);
        }
        &self.label
    }

    pub fn title(&self) -> (r: &str)
        ensures
            r@ == self@.label.default,
    {
        proof {
            lemma_choice_view(*self);
        }
        self.label.default_text()
    }

    pub fn quantity(&self) -> (r: u32)
        ensures
            r == self@.quantity,
    {
        proof {
            lemma_choice_view(*self);
        }
        self.quantity
    }

    pub fn source(&self) -> (r: SelectionSource)
        ensures
            r == self@.source,
    {
        proof {
            lemma_choice_view(*self);
        }
        self.source
    }

    pub fn effects(&self) -> (r: &[Effect])
        ensures
            r.deep_view() == self@.effects,
    {
        proof {
            lemma_choice_view(*self);
        }
        self.effects.as_slice()
    }

    pub fn price_definition(&self) -> (r: &ChoicePrice)
        ensures
            r@ == self@.price,
    {
        proof {
            lemma_choice_view(*self);
        }
        &self.price
    }

    pub fn modifiers(&self) -> (r: &[OrderItemPromptSnapshot])
        ensures
            prompt_views(r@) == self@.modifiers,
    {
        proof {
            lemma_choice_view(*self);
        }
        self.modifiers.as_slice()
    }
}

/// The abstract value of an order item's modifier record.
pub struct OrderItemModifierSnapshotView {
    pub prompts: Seq<OrderItemPromptSnapshotView>,
    pub price: OrderItemModifierPriceView,
}

/// The modifiers of an order item as recorded: prompts, choices and price.
#[derive(Debug, Eq, PartialEq)]
pub struct OrderItemModifierSnapshot {
    prompts: Vec<OrderItemPromptSnapshot>,
    price: OrderItemModifierPrice,
}

impl View for OrderItemModifierSnapshot {
    type V = OrderItemModifierSnapshotView;

    closed spec fn view(&self) -> OrderItemModifierSnapshotView {
        OrderItemModifierSnapshotView { prompts: prompt_views(self.prompts@), price: self.price@ }
    }
}

impl Clone for OrderItemModifierSnapshot {
    fn clone(&self) -> (r: Self)
        ensures
            r@ == self@,
    {
        OrderItemModifierSnapshot { prompts: clone_prompt_list(self.prompts.as_slice()), price: self.price.clone() }
    }
}

/// What recording a configuration snapshot gives: its price must be
/// consistent with its contributions.
pub open spec fn spec_record_snapshot(snapshot: ConfigurationSnapshotView) -> Result<
    OrderItemModifierSnapshotView,
    OrderItemErrorView,
> {
    let price = record_price(snapshot.price);
    match spec_validate_total(price.contributions, price.total) {
        Err(e) => Err(e),
        Ok(_) => Ok(OrderItemModifierSnapshotView {
            prompts: record_prompts(snapshot.prompts, snapshot.prompts.len()),
            price,
        }),
    }
}

/// Index of the first prompt with the given id, or the number of prompts.
pub open spec fn first_prompt_with(ps: Seq<OrderItemPromptSnapshotView>, id: PrefixedIdView) -> int
    decreases ps.len(),
{
    if ps.len() == 0 {
        0
    } else if ps[0].prompt_id == Some(id) {
        0
    } else {
        1 + first_prompt_with(ps.drop_first(), id)
    }
}

proof fn lemma_first_prompt_with(ps: Seq<OrderItemPromptSnapshotView>, id: PrefixedIdView)
    ensures
        0 <= first_prompt_with(ps, id) <= ps.len(),
        first_prompt_with(ps, id) < ps.len() ==> ps[first_prompt_with(ps, id)].prompt_id == Some(id),
        forall|j: int| 0 <= j < first_prompt_with(ps, id) ==> (#[trigger] ps[j]).prompt_id != Some(id),
    decreases ps.len(),
{
    if ps.len() > 0 && ps[0].prompt_id != Some(id) {
        lemma_first_prompt_with(ps.drop_first(), id);
        assert forall|j: int| 0 <= j < first_prompt_with(ps, id) implies (#[trigger] ps[j]).prompt_id != Some(id) by {
            if j > 0 {
                assert(ps[j] == ps.drop_first()[j - 1]);
            }
        }
    }
}

impl OrderItemModifierSnapshot {
    pub fn new(prompts: Vec<OrderItemPromptSnapshot>, price: OrderItemModifierPrice) -> (r: Result<Self, OrderItemError>)
        ensures
            r matches Ok(s) && s@ == (OrderItemModifierSnapshotView { prompts: prompt_views(prompts@), price: price@ }),
    {
        Ok(OrderItemModifierSnapshot { prompts, price })
    }

    /// No prompts and no price, in a currency.
    pub fn empty(currency: CurrencyCode) -> (r: Self)
        ensures
            r@ == (OrderItemModifierSnapshotView {
                prompts: Seq::empty(),
                price: OrderItemModifierPriceView {
                    contributions: Seq::empty(),
                    total: MoneyView { amount: 0, currency: currency@ },
                },
            }),
    {
        let prompts: Vec<OrderItemPromptSnapshot> = Vec::new();
        assert(prompt_views(prompts@) =~= Seq::<OrderItemPromptSnapshotView>::empty());
        OrderItemModifierSnapshot { prompts, price: OrderItemModifierPrice::empty(currency) }
    }

    pub fn prompts(&self) -> (r: &[OrderItemPromptSnapshot])
        ensures
            prompt_views(r@) == self@.prompts,
    {
        self.prompts.as_slice()
    }

    pub fn price(&self) -> (r: &OrderItemModifierPrice)
        ensures
            r@ == self@.price,
    {
        &self.price
    }

    /// The first recorded prompt with the given id.
    pub fn prompt(&self, prompt_id: &ComponentId) -> (r: Option<&OrderItemPromptSnapshot>)
        ensures
            match r {
                Some(p) => first_prompt_with(self@.prompts, prompt_id@) < self@.prompts.len()
                    && p@ == self@.prompts[first_prompt_with(self@.prompts, prompt_id@)],
                None => first_prompt_with(self@.prompts, prompt_id@) == self@.prompts.len(),
            },
    {
        let ghost ps = self@.prompts;
        proof {
            lemma_first_prompt_with(ps, prompt_id@);
        }
        let mut i: usize = 0;
        while i < self.prompts.len()
            invariant
                i <= self.prompts.len(),
                ps == prompt_views(self.prompts@),
                0 <= first_prompt_with(ps, prompt_id@) <= ps.len(),
                first_prompt_with(ps, prompt_id@) < ps.len() ==> ps[first_prompt_with(ps, prompt_id@)].prompt_id == Some(prompt_id@),
                forall|j: int| 0 <= j < first_prompt_with(ps, prompt_id@) ==> (#[trigger] ps[j]).prompt_id != Some(prompt_id@),
                i <= first_prompt_with(ps, prompt_id@),
            decreases self.prompts.len() - i,
        {
            let found = match self.prompts[i].prompt_id() {
                Some(id) => id.same_as(prompt_id),
                None => false,
            };
            assert(ps[i as int] == self.prompts@[i as int]@);
            if found {
                return Some(&self.prompts[i]);
            }
            i += 1;
        }
        None
    }

    fn from_configuration_snapshot(snapshot: &ConfigurationSnapshot) -> (r: Result<Self, OrderItemError>)
        ensures
            match r {
                Ok(s) => spec_record_snapshot(snapshot@) == Ok::<OrderItemModifierSnapshotView, OrderItemErrorView>(s@),
                Err(e) => spec_record_snapshot(snapshot@) == Err::<OrderItemModifierSnapshotView, OrderItemErrorView>(e@),
            },
    {
        let price = OrderItemModifierPrice::from_priced_configuration(snapshot.price())?;
        let prompts = record_prompt_list(snapshot.prompts());
        Ok(OrderItemModifierSnapshot { prompts, price })
    }
}

/// The abstract value of an order item.
pub struct OrderItemView {
    pub order_item_id: PrefixedIdView,
    pub source: OrderItemSourceView,
    pub item_label: LabelView,
    pub variant_label: Option<LabelView>,
    pub quantity: u32,
    pub invariant_unit_price: MoneyView,
    pub modifier_unit_price: MoneyView,
    pub unit_price: MoneyView,
    pub total_price: MoneyView,
    pub effects: Seq<EffectView>,
    pub modifiers: OrderItemModifierSnapshotView,
}

/// What building an order item gives: a positive quantity, a unit price
/// that is the invariant price plus the modifier total, and a total price
/// that is the unit price times the quantity.
pub open spec fn spec_new_item(
    order_item_id: PrefixedIdView,
    source: OrderItemSourceView,
    item_label: LabelView,
    variant_label: Option<LabelView>,
    quantity: u32,
    invariant_unit_price: MoneyView,
    modifiers: OrderItemModifierSnapshotView,
    effects: Seq<EffectView>,
) -> Result<OrderItemView, OrderItemErrorView> {
    if quantity == 0 {
        Err(OrderItemErrorView::ZeroQuantity)
    } else {
        match spec_money_add(invariant_unit_price, modifiers.price.total) {
            Err(e) => Err(OrderItemErrorView::Money(e)),
            Ok(unit_price) => match spec_money_mul_quantity(unit_price, quantity as int) {
                Err(e) => Err(OrderItemErrorView::Money(e)),
                Ok(total_price) => Ok(OrderItemView {
                    order_item_id,
                    source,
                    item_label,
                    variant_label,
                    quantity,
                    invariant_unit_price,
                    modifier_unit_price: modifiers.price.total,
                    unit_price,
                    total_price,
                    effects,
                    modifiers,
                }),
            },
        }
    }
}

/// What recording a configured catalog item gives: its modifiers are
/// snapshot and priced from its invariant price, then the item is built.
pub open spec fn spec_from_configured(
    order_item_id: PrefixedIdView,
    catalog_version_id: PrefixedIdView,
    quantity: u32,
    c: ConfiguredCatalogItemView,
) -> Result<OrderItemView, OrderItemErrorView> {
    match spec_price(c.modifiers, c.invariant_price, c.pricing_policy) {
        Err(e) => Err(OrderItemErrorView::Modifier(e)),
        Ok(price) => {
            let snapshot = ConfigurationSnapshotView {
                prompts: snapshot_prompts(c.modifiers.prompts, c.modifiers.prompts.len()),
                price,
            };
            match spec_record_snapshot(snapshot) {
                Err(e) => Err(e),
                Ok(modifiers) => spec_new_item(
                    order_item_id,
                    OrderItemSourceView::Catalog {
                        catalog_version_id,
                        catalog_item_id: c.catalog_item_id,
                        variant_id: c.variant_id,
                    },
                    c.catalog_item_label_definition,
                    Some(c.variant_label_definition),
                    quantity,
                    c.invariant_price,
                    modifiers,
                    c.effects,
                ),
            }
        },
    }
}

/// What an order item always satisfies.
pub open spec fn item_consistent(o: OrderItemView) -> bool {
    &&& o.quantity > 0
    &&& o.modifier_unit_price == o.modifiers.price.total
    &&& spec_money_add(o.invariant_unit_price, o.modifier_unit_price) == Ok::<MoneyView, MoneyErrorView>(o.unit_price)
    &&& spec_money_mul_quantity(o.unit_price, o.quantity as int) == Ok::<MoneyView, MoneyErrorView>(o.total_price)
    &&& contribution_total(o.modifiers.price.contributions, o.modifiers.price.total.currency) == Ok::<
        MoneyView,
        MoneyErrorView,
    >(o.modifiers.price.total)
}

/// The entry description: the item label, then the variant label in
/// parentheses when there is one.
pub open spec fn item_description(o: OrderItemView) -> Seq<char> {
    match o.variant_label {
        Some(v) => o.item_label.default + seq![' ', '('] + v.default + seq![')'],
        None => o.item_label.default,
    }
}

/// Where the item entry comes from.
pub open spec fn item_entry_source(source: OrderItemSourceView) -> EntrySourceView {
    match source {
        OrderItemSourceView::Catalog { catalog_version_id, catalog_item_id, variant_id } => EntrySourceView::CatalogItem {
            catalog_version_id,
            catalog_item_id,
            variant_id,
        },
        OrderItemSourceView::External { system, external_id } => EntrySourceView::External {
            system,
            external_id,
            mapped_component_id: None,
        },
        OrderItemSourceView::Manual => EntrySourceView::Manual,
    }
}

/// Where a modifier entry comes from: the catalog component when both the
/// item and the contribution name one, the outside system for an external
/// item, and otherwise a manual entry.
pub open spec fn modifier_entry_source(source: OrderItemSourceView, choice_id: Option<PrefixedIdView>) -> EntrySourceView {
    match source {
        OrderItemSourceView::Catalog { catalog_version_id, .. } => match choice_id {
            Some(component_id) => EntrySourceView::Catalog { catalog_version_id, component_id },
            None => EntrySourceView::Manual,
        },
        OrderItemSourceView::External { system, external_id } => EntrySourceView::External {
            system,
            external_id,
            mapped_component_id: choice_id,
        },
        OrderItemSourceView::Manual => EntrySourceView::Manual,
    }
}

pub open spec fn item_builder(o: OrderItemView, entry_id: PrefixedIdView) -> BuilderView {
    BuilderView {
        entry_id,
        kind: EntryKind::Item,
        source: item_entry_source(o.source),
        description: item_description(o),
        quantity: o.quantity,
        unit_amount: o.invariant_unit_price,
        price_category: Some(PriceCategory::BaseItem),
        accounting_category: None,
    }
}

pub open spec fn modifier_builder(o: OrderItemView, entry_id: PrefixedIdView, c: OrderItemPriceContributionView) -> BuilderView {
    BuilderView {
        entry_id,
        kind: EntryKind::Modifier,
        source: modifier_entry_source(o.source, c.choice_id),
        description: c.label.default,
        quantity: o.quantity,
        unit_amount: c.amount,
        price_category: Some(PriceCategory::Modifier),
        accounting_category: None,
    }
}

/// The entries of the first `n` modifier contributions, one each.
pub open spec fn modifier_entries(o: OrderItemView, ids: Seq<PrefixedIdView>, n: int) -> Result<
    Seq<OrderEntryView>,
    OrderItemErrorView,
>
    decreases n,
{
    if n <= 0 {
        Ok(Seq::empty())
    } else {
        match modifier_entries(o, ids, n - 1) {
            Err(e) => Err(e),
            Ok(es) => match spec_build(modifier_builder(o, ids[n - 1], o.modifiers.price.contributions[n - 1])) {
                Err(e) => Err(OrderItemErrorView::Entry(e)),
                Ok(e) => Ok(es.push(e)),
            },
        }
    }
}

/// The entries an order item expands to: its base entry, then one entry
/// per priced modifier contribution, with one given id per contribution.
pub open spec fn spec_entries(o: OrderItemView, item_entry_id: PrefixedIdView, ids: Seq<PrefixedIdView>) -> Result<
    Seq<OrderEntryView>,
    OrderItemErrorView,
> {
    let cs = o.modifiers.price.contributions;
    if ids.len() != cs.len() {
        Err(OrderItemErrorView::ModifierEntryIdCountMismatch { expected: cs.len() as usize, actual: ids.len() as usize })
    } else {
        match spec_build(item_builder(o, item_entry_id)) {
            Err(e) => Err(OrderItemErrorView::Entry(e)),
            Ok(item) => match modifier_entries(o, ids, ids.len() as int) {
                Err(e) => Err(e),
                Ok(ms) => Ok(seq![item] + ms),
            },
        }
    }
}

pub open spec fn item_result(r: Result<OrderItem, OrderItemError>) -> Result<OrderItemView, OrderItemErrorView> {
    match r {
        Ok(o) => Ok(o@),
        Err(e) => Err(e@),
    }
}

pub open spec fn entries_result(r: Result<Vec<OrderEntry>, OrderItemError>) -> Result<Seq<OrderEntryView>, OrderItemErrorView> {
    match r {
        Ok(v) => Ok(entry_views(v@)),
        Err(e) => Err(e@),
    }
}

/// The sum of the entries' total amounts.
pub open spec fn entries_amount(es: Seq<OrderEntryView>) -> int
    decreases es.len(),
{
    if es.len() == 0 {
        0
    } else {
        entries_amount(es.drop_last()) + es.last().total_amount.amount
    }
}

/// A configured catalog item or a hand-entered item as an order holds it,
/// with its prices fixed.
#[derive(Debug, Eq, PartialEq)]
pub struct OrderItem {
    order_item_id: OrderItemId,
    source: OrderItemSource,
    item_label: Label,
    variant_label: Option<Label>,
    quantity: u32,
    invariant_unit_price: Money,
    modifier_unit_price: Money,
    unit_price: Money,
    total_price: Money,
    effects: Vec<Effect>,
    modifiers: OrderItemModifierSnapshot,
}

impl View for OrderItem {
    type V = OrderItemView;

    closed spec fn view(&self) -> OrderItemView {
        OrderItemView {
            order_item_id: self.order_item_id@,
            source: self.source@,
            item_label: self.item_label@,
            variant_label: opt_label_view(self.variant_label),
            quantity: self.quantity,
            invariant_unit_price: self.invariant_unit_price@,
            modifier_unit_price: self.modifier_unit_price@,
            unit_price: self.unit_price@,
            total_price: self.total_price@,
            effects: self.effects.deep_view(),
            modifiers: self.modifiers@,
        }
    }
}

impl OrderItem {
    #[verifier::type_invariant]
    spec fn well_formed(self) -> bool {
        item_consistent(self@)
    }
}

impl Clone for OrderItem {
    fn clone(&self) -> (r: Self)
        ensures
            r@ == self@,
    {
        proof {
            use_type_invariant(self);
        }
        OrderItem {
            order_item_id: self.order_item_id.clone(),
            source: self.source.clone(),
            item_label: self.item_label.clone(),
            variant_label: clone_opt_label(self.variant_label.as_ref()),
            quantity: self.quantity,
            invariant_unit_price: self.invariant_unit_price.clone(),
            modifier_unit_price: self.modifier_unit_price.clone(),
            unit_price: self.unit_price.clone(),
            total_price: self.total_price.clone(),
            effects: clone_effects(self.effects.as_slice()),
            modifiers: self.modifiers.clone(),
        }
    }
}

impl OrderItem {
    /// Records a configured catalog item: its modifiers are snapshot and
    /// priced from its invariant price.
    pub fn from_configured_catalog_item(
        order_item_id: OrderItemId,
        catalog_version_id: CatalogVersionId,
        quantity: u32,
        configured: &ConfiguredCatalogItem,
    ) -> (r: Result<Self, OrderItemError>)
        ensures
            item_result(r) == spec_from_configured(order_item_id@, catalog_version_id@, quantity, configured@),
    {
        let snapshot = match configured.modifiers().snapshot(configured.invariant_price(), configured.pricing_policy()) {
            Ok(s) => s,
            Err(e) => return Err(OrderItemError::Modifier(e)),
        };
        let modifiers = OrderItemModifierSnapshot::from_configuration_snapshot(&snapshot)?;
        Self::new(
            order_item_id,
            OrderItemSource::Catalog {
                catalog_version_id,
                catalog_item_id: configured.catalog_item_id().clone(),
                variant_id: configured.variant_id().clone(),
            },
            configured.catalog_item_label_definition().clone(),
            Some(configured.variant_label_definition().clone()),
            quantity,
            configured.invariant_price().clone(),
            modifiers,
            clone_effects(configured.effects()),
        )
    }

    /// A hand-entered order item with no catalog source.
    pub fn manual(
        order_item_id: OrderItemId,
        item_label: Label,
        variant_label: Option<Label>,
        quantity: u32,
        invariant_unit_price: Money,
        modifiers: OrderItemModifierSnapshot,
    ) -> (r: Result<Self, OrderItemError>)
        ensures
            item_result(r) == spec_new_item(
                order_item_id@,
                OrderItemSourceView::Manual,
                item_label@,
                opt_label_view(variant_label),
                quantity,
                invariant_unit_price@,
                modifiers@,
                Seq::empty(),
            ),
    {
        let effects: Vec<Effect> = Vec::new();
        assert(effects.deep_view() =~= Seq::<EffectView>::empty());
        Self::new(
            order_item_id,
            OrderItemSource::Manual,
            item_label,
            variant_label,
            quantity,
            invariant_unit_price,
            modifiers,
            effects,
        )
    }

    fn new(
        order_item_id: OrderItemId,
        source: OrderItemSource,
        item_label: Label,
        variant_label: Option<Label>,
        quantity: u32,
        invariant_unit_price: Money,
        modifiers: OrderItemModifierSnapshot,
        effects: Vec<Effect>,
    ) -> (r: Result<Self, OrderItemError>)
        ensures
            item_result(r) == spec_new_item(
                order_item_id@,
                source@,
                item_label@,
                opt_label_view(variant_label),
                quantity,
                invariant_unit_price@,
                modifiers@,
                effects.deep_view(),
            ),
    {
        if quantity == 0 {
            return Err(OrderItemError::ZeroQuantity);
        }
        let modifier_unit_price = modifiers.price().total().clone();
        let unit_price = match invariant_unit_price.checked_add(&modifier_unit_price) {
            Ok(m) => m,
            Err(e) => return Err(OrderItemError::Money(e)),
        };
        let total_price = match unit_price.checked_mul_quantity(quantity) {
            Ok(m) => m,
            Err(e) => return Err(OrderItemError::Money(e)),
        };
        Ok(OrderItem {
            order_item_id,
            source,
            item_label,
            variant_label,
            quantity,
            invariant_unit_price,
            modifier_unit_price,
            unit_price,
            total_price,
            effects,
            modifiers,
        })
    }

    pub fn order_item_id(&self) -> (r: &OrderItemId)
        ensures
            r@ == self@.order_item_id,
    {
        &self.order_item_id
    }

    pub fn source(&self) -> (r: &OrderItemSource)
        ensures
            r@ == self@.source,
    {
        &self.source
    }

    pub fn catalog_version_id(&self) -> (r: Option<&CatalogVersionId>)
        ensures
            match r {
                Some(id) => self@.source matches OrderItemSourceView::Catalog { catalog_version_id, .. }
                    && catalog_version_id == id@,
                None => !(self@.source is Catalog),
            },
    {
        match &self.source {
            OrderItemSource::Catalog { catalog_version_id, .. } => Some(catalog_version_id),
            _ => None,
        }
    }

    pub fn catalog_item_id(&self) -> (r: Option<&CatalogItemId>)
        ensures
            match r {
                Some(id) => self@.source matches OrderItemSourceView::Catalog { catalog_item_id, .. }
                    && catalog_item_id == id@,
                None => !(self@.source is Catalog),
            },
    {
        match &self.source {
            OrderItemSource::Catalog { catalog_item_id, .. } => Some(catalog_item_id),
            _ => None,
        }
    }

    pub fn variant_id(&self) -> (r: Option<&VariantId>)
        ensures
            match r {
                Some(id) => self@.source matches OrderItemSourceView::Catalog { variant_id, .. } && variant_id == id@,
                None => !(self@.source is Catalog),
            },
    {
        match &self.source {
            OrderItemSource::Catalog { variant_id, .. } => Some(variant_id),
            _ => None,
        }
    }

    pub fn item_label(&self) -> (r: &Label)
        ensures
            r@ == self@.item_label,
    {
        &self.item_label
    }

    pub fn catalog_item_label(&self) -> (r: &Label)
        ensures
            r@ == self@.item_label,
    {
        &self.item_label
    }

    pub fn variant_label(&self) -> (r: Option<&Label>)
        ensures
            match r {
                Some(l) => self@.variant_label == Some(l@),
                None => self@.variant_label is None,
            },
    {
        self.variant_label.as_ref()
    }

    /// The item label, followed by the variant label in parentheses.
    pub fn description(&self) -> (r: String)
        ensures
            r@ == item_description(self@),
    {
        match &self.variant_label {
            Some(variant_label) => {
                let mut text = owned(self.item_label.default_text());
                push_char(&mut text, ' ');
                push_char(&mut text, '(');
                push_text(&mut text, variant_label.default_text());
                push_char(&mut text, ')');
                assert(text@ =~= item_description(self@));
                text
            },
            None => owned(self.item_label.default_text()),
        }
    }

    pub fn quantity(&self) -> (r: u32)
        ensures
            r == self@.quantity,
            r > 0,
    {
        proof {
            use_type_invariant(self);
        }
        self.quantity
    }

    pub fn invariant_unit_price(&self) -> (r: &Money)
        ensures
            r@ == self@.invariant_unit_price,
    {
        &self.invariant_unit_price
    }

    pub fn modifier_unit_price(&self) -> (r: &Money)
        ensures
            r@ == self@.modifier_unit_price,
    {
        &self.modifier_unit_price
    }

    /// The invariant unit price plus the modifier unit price.
    pub fn unit_price(&self) -> (r: &Money)
        ensures
            r@ == self@.unit_price,
            spec_money_add(self@.invariant_unit_price, self@.modifier_unit_price) == Ok::<MoneyView, MoneyErrorView>(r@),
    {
        proof {
            use_type_invariant(self);
        }
        &self.unit_price
    }

    /// The unit price times the quantity.
    pub fn total_price(&self) -> (r: &Money)
        ensures
            r@ == self@.total_price,
            spec_money_mul_quantity(self@.unit_price, self@.quantity as int) == Ok::<MoneyView, MoneyErrorView>(r@),
    {
        proof {
            use_type_invariant(self);
        }
        &self.total_price
    }

    pub fn effects(&self) -> (r: &[Effect])
        ensures
            r.deep_view() == self@.effects,
    {
        self.effects.as_slice()
    }

    pub fn modifiers(&self) -> (r: &OrderItemModifierSnapshot)
        ensures
            r@ == self@.modifiers,
    {
        &self.modifiers
    }

    fn item_entry_source(&self) -> (r: EntrySource)
        ensures
            r@ == item_entry_source(self@.source),
    {
        match &self.source {
            OrderItemSource::Catalog { catalog_version_id, catalog_item_id, variant_id } => EntrySource::CatalogItem {
                catalog_version_id: catalog_version_id.clone(),
                catalog_item_id: catalog_item_id.clone(),
                variant_id: variant_id.clone(),
            },
            OrderItemSource::External { system, external_id } => EntrySource::External {
                system: system.clone(),
                external_id: clone_opt_text(external_id),
                mapped_component_id: None,
            },
            OrderItemSource::Manual => EntrySource::Manual,
        }
    }

    fn modifier_entry_source(&self, contribution: &OrderItemPriceContribution) -> (r: EntrySource)
        ensures
            r@ == modifier_entry_source(self@.source, contribution@.choice_id),
    {
        match (&self.source, contribution.choice_id()) {
            (OrderItemSource::Catalog { catalog_version_id, .. }, Some(component_id)) => EntrySource::Catalog {
                catalog_version_id: catalog_version_id.clone(),
                component_id: component_id.clone(),
            },
            (OrderItemSource::External { system, external_id }, component_id) => EntrySource::External {
                system: system.clone(),
                external_id: clone_opt_text(external_id),
                mapped_component_id: clone_opt_id(component_id),
            },
            _ => EntrySource::Manual,
        }
    }
}

impl OrderItem {
    /// The entries the item expands to: its base entry, then one entry per
    /// priced modifier contribution under the matching id. Their total
    /// amounts add up to the item's total price.
    pub fn entries(&self, item_entry_id: EntryId, modifier_entry_ids: Vec<EntryId>) -> (r: Result<
        Vec<OrderEntry>,
        OrderItemError,
    >)
        ensures
            entries_result(r) == spec_entries(self@, item_entry_id@, id_views(modifier_entry_ids@)),
            r matches Ok(es) ==> entries_amount(entry_views(es@)) == self@.total_price.amount,
    {
        proof {
            use_type_invariant(self);
        }
        let ghost o = self@;
        let ghost ids = id_views(modifier_entry_ids@);
        let contributions = self.modifiers.price().contributions();
        if modifier_entry_ids.len() != contributions.len() {
            return Err(
                OrderItemError::ModifierEntryIdCountMismatch {
                    expected: contributions.len(),
                    actual: modifier_entry_ids.len(),
                },
            );
        }
        let description = self.description();
        let ghost item_id = item_entry_id@;
        let item_entry = match OrderEntry::builder(
            item_entry_id,
            EntryKind::Item,
            self.item_entry_source(),
            description.as_str(),
            self.quantity,
            self.invariant_unit_price.clone(),
        ).with_price_category(PriceCategory::BaseItem).build() {
            Ok(e) => e,
            Err(e) => return Err(OrderItemError::Entry(e)),
        };
        let mut modifier_entries_out: Vec<OrderEntry> = Vec::new();
        let mut i: usize = 0;
        assert(entry_views(modifier_entries_out@) =~= Seq::<OrderEntryView>::empty());
        while i < contributions.len()
            invariant
                i <= contributions.len(),
                contributions.len() == modifier_entry_ids.len(),
                o == self@,
                ids == id_views(modifier_entry_ids@),
                ids.len() == contributions.len(),
                contribution_views(contributions@) == o.modifiers.price.contributions,
                spec_build(item_builder(o, item_id)) == Ok::<OrderEntryView, EntryErrorView>(item_entry@),
                modifier_entries(o, ids, i as int) == Ok::<Seq<OrderEntryView>, OrderItemErrorView>(
                    entry_views(modifier_entries_out@),
                ),
            decreases contributions.len() - i,
        {
            let contribution = &contributions[i];
            assert(o.modifiers.price.contributions[i as int] == contribution@);
            assert(ids[i as int] == modifier_entry_ids@[i as int]@);
            let built = OrderEntry::builder(
                modifier_entry_ids[i].clone(),
                EntryKind::Modifier,
                self.modifier_entry_source(contribution),
                contribution.label().default_text(),
                self.quantity,
                contribution.amount().clone(),
            ).with_price_category(PriceCategory::Modifier).build();
            match built {
                Ok(e) => {
                    let ghost before = modifier_entries_out@;
                    modifier_entries_out.push(e);
                    assert(entry_views(modifier_entries_out@) =~= entry_views(before).push(e@));
                },
                Err(e) => {
                    proof {
                        assert(modifier_entries(o, ids, i + 1) == Err::<Seq<OrderEntryView>, OrderItemErrorView>(
                            OrderItemErrorView::Entry(e@),
                        ));
                        lemma_modifier_entries_error_sticks(o, ids, i + 1, ids.len() as int);
                    }
                    return Err(OrderItemError::Entry(e));
                },
            }
            i += 1;
        }
        let mut entries: Vec<OrderEntry> = Vec::new();
        entries.push(item_entry);
        let ghost item_view = item_entry@;
        let ghost mods = entry_views(modifier_entries_out@);
        entries.append(&mut modifier_entries_out);
        assert(entry_views(entries@) =~= seq![item_view] + mods);
        proof {
            lemma_entries_amount(o, item_entry_id@, ids);
        }
        Ok(entries)
    }
}

proof fn lemma_modifier_entries_error_sticks(o: OrderItemView, ids: Seq<PrefixedIdView>, k: int, n: int)
    requires
        0 <= k <= n,
        modifier_entries(o, ids, k) is Err,
    ensures
        modifier_entries(o, ids, n) == modifier_entries(o, ids, k),
    decreases n - k,
{
    if n > k {
        lemma_modifier_entries_error_sticks(o, ids, k, n - 1);
    }
}

/// The plain sum of recorded contribution amounts.
pub open spec fn contribution_amount_sum(cs: Seq<OrderItemPriceContributionView>) -> int
    decreases cs.len(),
{
    if cs.len() == 0 {
        0
    } else {
        contribution_amount_sum(cs.drop_last()) + cs.last().amount.amount
    }
}

/// A successful running total is the plain sum, in the currency it started from.
pub proof fn lemma_contribution_total(cs: Seq<OrderItemPriceContributionView>, currency: Seq<char>)
    requires
        contribution_total(cs, currency) is Ok,
    ensures
        contribution_total(cs, currency)->Ok_0.amount == contribution_amount_sum(cs),
        contribution_total(cs, currency)->Ok_0.currency == currency,
    decreases cs.len(),
{
    if cs.len() > 0 {
        lemma_contribution_total(cs.drop_last(), currency);
    }
}

proof fn lemma_entries_amount_prepend(a: OrderEntryView, es: Seq<OrderEntryView>)
    ensures
        entries_amount(seq![a] + es) == a.total_amount.amount + entries_amount(es),
    decreases es.len(),
{
    if es.len() > 0 {
        lemma_entries_amount_prepend(a, es.drop_last());
        assert((seq![a] + es).drop_last() =~= seq![a] + es.drop_last());
        assert((seq![a] + es).last() == es.last());
    } else {
        assert(seq![a] + es =~= seq![a]);
        assert(seq![a].drop_last() =~= Seq::<OrderEntryView>::empty());
        assert(entries_amount(Seq::<OrderEntryView>::empty()) == 0);
        assert(entries_amount(seq![a]) == entries_amount(seq![a].drop_last()) + a.total_amount.amount);
    }
}

proof fn lemma_modifier_entries_amount(o: OrderItemView, ids: Seq<PrefixedIdView>, n: int)
    requires
        0 <= n <= o.modifiers.price.contributions.len(),
        modifier_entries(o, ids, n) is Ok,
    ensures
        modifier_entries(o, ids, n)->Ok_0.len() == n,
        entries_amount(modifier_entries(o, ids, n)->Ok_0) == contribution_amount_sum(
            o.modifiers.price.contributions.take(n),
        ) * o.quantity,
    decreases n,
{
    let cs = o.modifiers.price.contributions;
    if n == 0 {
        assert(cs.take(0) =~= Seq::<OrderItemPriceContributionView>::empty());
    } else {
        lemma_modifier_entries_amount(o, ids, n - 1);
        let prev = modifier_entries(o, ids, n - 1)->Ok_0;
        let e = spec_build(modifier_builder(o, ids[n - 1], cs[n - 1]))->Ok_0;
        assert(modifier_entries(o, ids, n)->Ok_0 == prev.push(e));
        assert(prev.push(e).drop_last() =~= prev);
        assert(cs.take(n).drop_last() =~= cs.take(n - 1));
        let s0 = contribution_amount_sum(cs.take(n - 1));
        let a = cs[n - 1].amount.amount;
        let q = o.quantity as int;
        assert(e.total_amount.amount == a * q);
        assert(s0 * q + a * q == (s0 + a) * q) by (nonlinear_arith);
    }
}

/// The entries an order item expands to add up to its total price.
pub proof fn lemma_entries_amount(o: OrderItemView, item_entry_id: PrefixedIdView, ids: Seq<PrefixedIdView>)
    requires
        item_consistent(o),
        spec_entries(o, item_entry_id, ids) is Ok,
    ensures
        entries_amount(spec_entries(o, item_entry_id, ids)->Ok_0) == o.total_price.amount,
{
    let cs = o.modifiers.price.contributions;
    let item = spec_build(item_builder(o, item_entry_id))->Ok_0;
    let n = ids.len() as int;
    lemma_modifier_entries_amount(o, ids, n);
    let ms = modifier_entries(o, ids, n)->Ok_0;
    lemma_entries_amount_prepend(item, ms);
    assert(cs.take(n) =~= cs);
    lemma_contribution_total(cs, o.modifiers.price.total.currency);
    let q = o.quantity as int;
    let inv = o.invariant_unit_price.amount;
    let m = o.modifier_unit_price.amount;
    assert(item.total_amount.amount == inv * q);
    assert(o.unit_price.amount == inv + m);
    assert(o.total_price.amount == (inv + m) * q);
    assert(inv * q + m * q == (inv + m) * q) by (nonlinear_arith);
}

} // verus!
