//! Modifier prices: what a choice costs, and how a configuration is priced.
use vstd::prelude::*;

use crate::modifier::mod_error::{ModifierError, ModifierErrorView};
use crate::modifier::mod_selection::SelectionSource;
use crate::primitives::ids::{ComponentId, PrefixedIdView};
use crate::primitives::label::{Label, LabelView, ResolvedLabel, ResolvedLabelView};
use crate::primitives::money::{
    money_result, rational_result, spec_rational_add, spec_rational_mul_quantity, spec_rational_mul_rate, spec_round,
    Money, MoneyView, Rate, RateView, RationalMoney, RationalView, RoundingStrategy,
};

verus! {

pub open spec fn opt_money_view(m: Option<Money>) -> Option<MoneyView> {
    match m {
        Some(x) => Some(x@),
        None => None,
    }
}

pub open spec fn opt_rate_view(r: Option<Rate>) -> Option<RateView> {
    match r {
        Some(x) => Some(x@),
        None => None,
    }
}

fn clone_opt_money(m: &Option<Money>) -> (r: Option<Money>)
    ensures
        opt_money_view(r) == opt_money_view(*m),
{
    match m {
        Some(x) => Some(x.clone()),
        None => None,
    }
}

/// The abstract value of a choice price.
pub struct ChoicePriceView {
    pub flat_amount: Option<MoneyView>,
    pub invariant_rate: RateView,
    pub factor: Option<RateView>,
}

impl ChoicePriceView {
    /// A price has an amount when its flat amount is positive or its rate of
    /// the invariant price is not zero.
    pub open spec fn has_amount(self) -> bool {
        (self.flat_amount matches Some(a) && a.amount > 0) || self.invariant_rate.numerator != 0
    }
}

/// What a choice adds: a flat amount, a rate of the invariant price, and a
/// factor that multiplies the priced choices below it.
#[derive(Debug, Eq, PartialEq)]
pub struct ChoicePrice {
    flat_amount: Option<Money>,
    invariant_rate: Rate,
    factor: Option<Rate>,
}

impl View for ChoicePrice {
    type V = ChoicePriceView;

    closed spec fn view(&self) -> ChoicePriceView {
        ChoicePriceView {
            flat_amount: opt_money_view(self.flat_amount),
            invariant_rate: self.invariant_rate@,
            factor: opt_rate_view(self.factor),
        }
    }
}

impl Clone for ChoicePrice {
    fn clone(&self) -> (r: Self)
        ensures
            r@ == self@,
    {
        ChoicePrice { flat_amount: clone_opt_money(&self.flat_amount), invariant_rate: self.invariant_rate, factor: self.factor }
    }
}

impl Default for ChoicePrice {
    fn default() -> (r: Self)
        ensures
            r@ == (ChoicePriceView { flat_amount: None, invariant_rate: RateView { numerator: 0, denominator: 1 }, factor: None }),
    {
        Self::none()
    }
}

impl ChoicePrice {
    pub fn none() -> (r: Self)
        ensures
            r@ == (ChoicePriceView { flat_amount: None, invariant_rate: RateView { numerator: 0, denominator: 1 }, factor: None }),
    {
        ChoicePrice { flat_amount: None, invariant_rate: Rate::zero(), factor: None }
    }

    pub fn flat_amount(amount: Money) -> (r: Result<Self, ModifierError>)
        ensures
            r is Ok <==> amount@.amount >= 0,
            r matches Ok(p) ==> p@ == (ChoicePriceView {
                flat_amount: Some(amount@),
                invariant_rate: RateView { numerator: 0, denominator: 1 },
                factor: None,
            }),
            r matches Err(e) ==> e@ == ModifierErrorView::NegativeChoicePrice,
    {
        Self::none().with_flat_amount(amount)
    }

    pub fn from_invariant_rate(rate: Rate) -> (r: Self)
        ensures
            r@ == (ChoicePriceView { flat_amount: None, invariant_rate: rate@, factor: None }),
    {
        Self::none().with_invariant_rate(rate)
    }

    pub fn from_factor(rate: Rate) -> (r: Self)
        ensures
            r@ == (ChoicePriceView { flat_amount: None, invariant_rate: RateView { numerator: 0, denominator: 1 }, factor: Some(rate@) }),
    {
        Self::none().with_factor(rate)
    }

    /// Sets the flat amount; a negative amount is refused.
    pub fn with_flat_amount(self, amount: Money) -> (r: Result<Self, ModifierError>)
        ensures
            r is Ok <==> amount@.amount >= 0,
            r matches Ok(p) ==> p@ == (ChoicePriceView { flat_amount: Some(amount@), ..self@ }),
            r matches Err(e) ==> e@ == ModifierErrorView::NegativeChoicePrice,
    {
        if amount.amount_minor() < 0 {
            return Err(ModifierError::NegativeChoicePrice);
        }
        Ok(ChoicePrice { flat_amount: Some(amount), ..self })
    }

    pub fn with_invariant_rate(self, rate: Rate) -> (r: Self)
        ensures
            r@ == (ChoicePriceView { invariant_rate: rate@, ..self@ }),
    {
        ChoicePrice { invariant_rate: rate, ..self }
    }

    pub fn with_factor(self, rate: Rate) -> (r: Self)
        ensures
            r@ == (ChoicePriceView { factor: Some(rate@), ..self@ }),
    {
        ChoicePrice { factor: Some(rate), ..self }
    }

    pub fn flat_amount_ref(&self) -> (r: Option<&Money>)
        ensures
            match r {
                Some(m) => self@.flat_amount == Some(m@),
                None => self@.flat_amount is None,
            },
    {
        match &self.flat_amount {
            Some(m) => Some(m),
            None => None,
        }
    }

    pub fn invariant_rate(&self) -> (r: Rate)
        ensures
            r@ == self@.invariant_rate,
    {
        self.invariant_rate
    }

    pub fn factor(&self) -> (r: Option<Rate>)
        ensures
            opt_rate_view(r) == self@.factor,
    {
        self.factor
    }

    pub fn has_amount(&self) -> (r: bool)
        ensures
            r == self@.has_amount(),
    {
        let flat = match &self.flat_amount {
            Some(m) => m.amount_minor() > 0,
            None => false,
        };
        flat || !self.invariant_rate.is_zero()
    }
}

/// How modifier prices are computed: whether defaults are free, and how exact
/// amounts are rounded.
#[derive(Debug, Copy, Clone, Eq, PartialEq, Hash)]
pub struct ModifierPricingPolicy {
    defaults_are_free: bool,
    rounding: RoundingStrategy,
}

pub struct PricingPolicyView {
    pub defaults_are_free: bool,
    pub rounding: RoundingStrategy,
}

impl View for ModifierPricingPolicy {
    type V = PricingPolicyView;

    closed spec fn view(&self) -> PricingPolicyView {
        PricingPolicyView { defaults_are_free: self.defaults_are_free, rounding: self.rounding }
    }
}

impl Default for ModifierPricingPolicy {
    fn default() -> (r: Self)
        ensures
            r@ == (PricingPolicyView { defaults_are_free: true, rounding: RoundingStrategy::CentRoundUp }),
    {
        Self::new(true, RoundingStrategy::CentRoundUp)
    }
}

impl ModifierPricingPolicy {
    pub fn new(defaults_are_free: bool, rounding: RoundingStrategy) -> (r: Self)
        ensures
            r@ == (PricingPolicyView { defaults_are_free, rounding }),
    {
        ModifierPricingPolicy { defaults_are_free, rounding }
    }

    pub fn defaults_are_free(self) -> (r: bool)
        ensures
            r == self@.defaults_are_free,
    {
        self.defaults_are_free
    }

    pub fn rounding(self) -> (r: RoundingStrategy)
        ensures
            r == self@.rounding,
    {
        self.rounding
    }
}

/// The abstract value of a price factor.
pub struct PriceFactorView {
    pub choice_id: PrefixedIdView,
    pub rate: RateView,
}

/// A factor that a choice contributes to the nearest priced choice above it.
#[derive(Debug, Eq, PartialEq)]
pub struct PriceFactor {
    choice_id: ComponentId,
    rate: Rate,
}

impl View for PriceFactor {
    type V = PriceFactorView;

    closed spec fn view(&self) -> PriceFactorView {
        PriceFactorView { choice_id: self.choice_id@, rate: self.rate@ }
    }
}

impl DeepView for PriceFactor {
    type V = PriceFactorView;

    open spec fn deep_view(&self) -> PriceFactorView {
        self@
    }
}

impl Clone for PriceFactor {
    fn clone(&self) -> (r: Self)
        ensures
            r@ == self@,
    {
        PriceFactor { choice_id: self.choice_id.clone(), rate: self.rate }
    }
}

impl PriceFactor {
    pub fn new(choice_id: ComponentId, rate: Rate) -> (r: Self)
        ensures
            r@ == (PriceFactorView { choice_id: choice_id@, rate: rate@ }),
    {
        PriceFactor { choice_id, rate }
    }

    pub fn choice_id(&self) -> (r: &ComponentId)
        ensures
            r@ == self@.choice_id,
    {
        &self.choice_id
    }

    pub fn rate(&self) -> (r: Rate)
        ensures
            r@ == self@.rate,
    {
        self.rate
    }
}

/// The abstract value of a price contribution.
pub struct PriceContributionView {
    pub choice_id: PrefixedIdView,
    pub label: ResolvedLabelView,
    pub label_definition: LabelView,
    pub quantity: u32,
    pub source: SelectionSource,
    pub amount: MoneyView,
    pub flat_amount: Option<MoneyView>,
    pub invariant_rate: RateView,
    pub factors: Seq<PriceFactorView>,
}

/// The amount one priced choice adds, with what it was computed from.
#[derive(Debug, Eq, PartialEq)]
pub struct PriceContribution {
    choice_id: ComponentId,
    label: ResolvedLabel,
    label_definition: Label,
    quantity: u32,
    source: SelectionSource,
    amount: Money,
    flat_amount: Option<Money>,
    invariant_rate: Rate,
    factors: Vec<PriceFactor>,
}

impl View for PriceContribution {
    type V = PriceContributionView;

    closed spec fn view(&self) -> PriceContributionView {
        PriceContributionView {
            choice_id: self.choice_id@,
            label: self.label@,
            label_definition: self.label_definition@,
            quantity: self.quantity,
            source: self.source,
            amount: self.amount@,
            flat_amount: opt_money_view(self.flat_amount),
            invariant_rate: self.invariant_rate@,
            factors: self.factors.deep_view(),
        }
    }
}

impl DeepView for PriceContribution {
    type V = PriceContributionView;

    open spec fn deep_view(&self) -> PriceContributionView {
        self@
    }
}

/// A copy of a list of price factors.
pub(crate) fn clone_factors(factors: &[PriceFactor]) -> (r: Vec<PriceFactor>)
    ensures
        r.deep_view() == factors.deep_view(),
{
    let mut out: Vec<PriceFactor> = Vec::new();
    let mut i: usize = 0;
    while i < factors.len()
        invariant
            i <= factors.len(),
            out.deep_view() == factors.deep_view().take(i as int),
        decreases factors.len() - i,
    {
        let f = factors[i].clone();
        let ghost before = out.deep_view();
        out.push(f);
        assert(out.deep_view() =~= before.push(f@));
        assert(factors.deep_view().take(i + 1) =~= factors.deep_view().take(i as int).push(factors.deep_view()[i as int]));
        i += 1;
    }
    assert(factors.deep_view().take(factors.len() as int) =~= factors.deep_view());
    out
}

impl Clone for PriceContribution {
    fn clone(&self) -> (r: Self)
        ensures
            r@ == self@,
    {
        PriceContribution {
            choice_id: self.choice_id.clone(),
            label: self.label.clone(),
            label_definition: self.label_definition.clone(),
            quantity: self.quantity,
            source: self.source,
            amount: self.amount.clone(),
            flat_amount: clone_opt_money(&self.flat_amount),
            invariant_rate: self.invariant_rate,
            factors: clone_factors(self.factors.as_slice()),
        }
    }
}

impl PriceContribution {
    pub fn new(
        choice_id: ComponentId,
        label: ResolvedLabel,
        label_definition: Label,
        quantity: u32,
        source: SelectionSource,
        amount: Money,
        price: &ChoicePrice,
        factors: Vec<PriceFactor>,
    ) -> (r: Self)
        ensures
            r@ == (PriceContributionView {
                choice_id: choice_id@,
                label: label@,
                label_definition: label_definition@,
                quantity,
                source,
                amount: amount@,
                flat_amount: price@.flat_amount,
                invariant_rate: price@.invariant_rate,
                factors: factors.deep_view(),
            }),
    {
        PriceContribution {
            choice_id,
            label,
            label_definition,
            quantity,
            source,
            amount,
            flat_amount: clone_opt_money(&price.flat_amount),
            invariant_rate: price.invariant_rate,
            factors,
        }
    }

    pub fn choice_id(&self) -> (r: &ComponentId)
        ensures
            r@ == self@.choice_id,
    {
        &self.choice_id
    }

    pub fn title(&self) -> (r: &str)
        ensures
            r@ == self@.label.value,
    {
        self.label.value()
    }

    pub fn label(&self) -> (r: &ResolvedLabel)
        ensures
            r@ == self@.label,
    {
        &self.label
    }

    pub fn label_definition(&self) -> (r: &Label)
        ensures
            r@ == self@.label_definition,
    {
        &self.label_definition
    }

    pub fn quantity(&self) -> (r: u32)
        ensures
            r == self@.quantity,
    {
        self.quantity
    }

    pub fn source(&self) -> (r: SelectionSource)
        ensures
            r == self@.source,
    {
        self.source
    }

    pub fn amount(&self) -> (r: &Money)
        ensures
            r@ == self@.amount,
    {
        &self.amount
    }

    pub fn flat_amount(&self) -> (r: Option<&Money>)
        ensures
            match r {
                Some(m) => self@.flat_amount == Some(m@),
                None => self@.flat_amount is None,
            },
    {
        match &self.flat_amount {
            Some(m) => Some(m),
            None => None,
        }
    }

    pub fn invariant_rate(&self) -> (r: Rate)
        ensures
            r@ == self@.invariant_rate,
    {
        self.invariant_rate
    }

    pub fn factors(&self) -> (r: &[PriceFactor])
        ensures
            r.deep_view() == self@.factors,
    {
        self.factors.as_slice()
    }
}

/// The abstract value of a priced configuration.
pub struct PricedConfigurationView {
    pub contributions: Seq<PriceContributionView>,
    pub total: MoneyView,
}

/// The contributions of a configuration and their total.
#[derive(Debug, Eq, PartialEq)]
pub struct PricedConfiguration {
    contributions: Vec<PriceContribution>,
    total: Money,
}

impl View for PricedConfiguration {
    type V = PricedConfigurationView;

    closed spec fn view(&self) -> PricedConfigurationView {
        PricedConfigurationView { contributions: self.contributions.deep_view(), total: self.total@ }
    }
}

pub(crate) fn clone_contributions(items: &[PriceContribution]) -> (r: Vec<PriceContribution>)
    ensures
        r.deep_view() == items.deep_view(),
{
    let mut out: Vec<PriceContribution> = Vec::new();
    let mut i: usize = 0;
    while i < items.len()
        invariant
            i <= items.len(),
            out.deep_view() == items.deep_view().take(i as int),
        decreases items.len() - i,
    {
        let f = items[i].clone();
        let ghost before = out.deep_view();
        out.push(f);
        assert(out.deep_view() =~= before.push(f@));
        assert(items.deep_view().take(i + 1) =~= items.deep_view().take(i as int).push(items.deep_view()[i as int]));
        i += 1;
    }
    assert(items.deep_view().take(items.len() as int) =~= items.deep_view());
    out
}

impl Clone for PricedConfiguration {
    fn clone(&self) -> (r: Self)
        ensures
            r@ == self@,
    {
        PricedConfiguration { contributions: clone_contributions(self.contributions.as_slice()), total: self.total.clone() }
    }
}

impl PricedConfiguration {
    pub fn new(contributions: Vec<PriceContribution>, total: Money) -> (r: Self)
        ensures
            r@ == (PricedConfigurationView { contributions: contributions.deep_view(), total: total@ }),
    {
        PricedConfiguration { contributions, total }
    }

    pub fn contributions(&self) -> (r: &[PriceContribution])
        ensures
            r.deep_view() == self@.contributions,
    {
        self.contributions.as_slice()
    }

    pub fn total(&self) -> (r: &Money)
        ensures
            r@ == self@.total,
    {
        &self.total
    }
}

/// Multiplies an exact amount by each factor's rate in turn.
pub open spec fn apply_factors(amount: RationalView, factors: Seq<PriceFactorView>) -> Result<RationalView, ModifierErrorView>
    decreases factors.len(),
{
    if factors.len() == 0 {
        Ok(amount)
    } else {
        match apply_factors(amount, factors.drop_last()) {
            Err(e) => Err(e),
            Ok(a) => match spec_rational_mul_rate(a, factors.last().rate) {
                Err(e) => Err(ModifierErrorView::Money(e)),
                Ok(b) => Ok(b),
            },
        }
    }
}

/// The amount of a priced branch: the flat amount plus the rate of the
/// invariant price, multiplied by each factor from below, then by the
/// quantity, then rounded.
pub open spec fn spec_branch_amount(
    invariant_price: MoneyView,
    price: ChoicePriceView,
    quantity: u32,
    factors: Seq<PriceFactorView>,
    rounding: RoundingStrategy,
) -> Result<MoneyView, ModifierErrorView> {
    let start = match price.flat_amount {
        Some(f) => RationalView { numerator: f.amount, denominator: 1, currency: f.currency },
        None => RationalView { numerator: 0, denominator: 1, currency: invariant_price.currency },
    };
    let exact_invariant = RationalView { numerator: invariant_price.amount, denominator: 1, currency: invariant_price.currency };
    match spec_rational_mul_rate(exact_invariant, price.invariant_rate) {
        Err(e) => Err(ModifierErrorView::Money(e)),
        Ok(component) => match spec_rational_add(start, component) {
            Err(e) => Err(ModifierErrorView::Money(e)),
            Ok(sum) => match apply_factors(sum, factors) {
                Err(e) => Err(e),
                Ok(factored) => branch_tail(factored, quantity, rounding),
            },
        },
    }
}

/// The last steps of a branch amount: multiply by the quantity, then round.
pub open spec fn branch_tail(factored: RationalView, quantity: u32, rounding: RoundingStrategy) -> Result<MoneyView, ModifierErrorView> {
    match spec_rational_mul_quantity(factored, quantity as int) {
        Err(e) => Err(ModifierErrorView::Money(e)),
        Ok(total) => match spec_round(total, rounding) {
            Err(e) => Err(ModifierErrorView::Money(e)),
            Ok(m) => Ok(m),
        },
    }
}

pub(crate) fn branch_amount(
    invariant_price: &Money,
    price: &ChoicePrice,
    quantity: u32,
    factors: &[PriceFactor],
    rounding: RoundingStrategy,
) -> (r: Result<Money, ModifierError>)
    ensures
        match r {
            Ok(m) => spec_branch_amount(invariant_price@, price@, quantity, factors.deep_view(), rounding) == Ok::<MoneyView, ModifierErrorView>(m@),
            Err(e) => spec_branch_amount(invariant_price@, price@, quantity, factors.deep_view(), rounding) == Err::<MoneyView, ModifierErrorView>(e@),
        },
{
    let mut amount = match price.flat_amount_ref() {
        Some(flat) => match RationalMoney::from_money(flat.clone()) {
            Ok(a) => a,
            Err(e) => return Err(ModifierError::Money(e)),
        },
        None => RationalMoney::zero(invariant_price.currency().clone()),
    };
    let component = match RationalMoney::from_money_rate(invariant_price, price.invariant_rate()) {
        Ok(c) => c,
        Err(e) => return Err(ModifierError::Money(e)),
    };
    amount = match amount.checked_add(&component) {
        Ok(a) => a,
        Err(e) => return Err(ModifierError::Money(e)),
    };
    let ghost sum = amount@;
    let ghost fs = factors.deep_view();
    let ghost whole = spec_branch_amount(invariant_price@, price@, quantity, fs, rounding);
    assert(whole == match apply_factors(sum, fs) {
        Err(e) => Err(e),
        Ok(f) => branch_tail(f, quantity, rounding),
    });
    let mut i: usize = 0;
    while i < factors.len()
        invariant
            i <= factors.len(),
            fs == factors.deep_view(),
            whole == spec_branch_amount(invariant_price@, price@, quantity, fs, rounding),
            whole == match apply_factors(sum, fs) {
                Err(e) => Err(e),
                Ok(f) => branch_tail(f, quantity, rounding),
            },
            apply_factors(sum, fs.take(i as int)) == Ok::<RationalView, ModifierErrorView>(amount@),
        decreases factors.len() - i,
    {
        assert(fs.take(i + 1).drop_last() =~= fs.take(i as int));
        assert(fs[i as int] == factors@[i as int]@);
        amount = match amount.checked_mul_rate(factors[i].rate()) {
            Ok(a) => a,
            Err(e) => {
                proof {
                    lemma_apply_factors_error_sticks(sum, fs, i + 1);
                }
                return Err(ModifierError::Money(e));
            },
        };
        i += 1;
    }
    assert(fs.take(factors.len() as int) =~= fs);
    let total = match amount.checked_mul_quantity(quantity) {
        Ok(t) => t,
        Err(e) => return Err(ModifierError::Money(e)),
    };
    match total.round(rounding) {
        Ok(m) => Ok(m),
        Err(e) => Err(ModifierError::Money(e)),
    }
}

proof fn lemma_apply_factors_error_sticks(amount: RationalView, factors: Seq<PriceFactorView>, k: int)
    requires
        0 <= k <= factors.len(),
        apply_factors(amount, factors.take(k)) is Err,
    ensures
        apply_factors(amount, factors) == apply_factors(amount, factors.take(k)),
    decreases factors.len() - k,
{
    if k == factors.len() {
        assert(factors.take(k) =~= factors);
    } else {
        assert(factors.take(k + 1).drop_last() =~= factors.take(k));
        lemma_apply_factors_error_sticks(amount, factors, k + 1);
    }
}

} // verus!
