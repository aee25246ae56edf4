//! Configurations: validated, hydrated selections with resolved labels.
use vstd::prelude::*;

use crate::effect::{clone_effects, Effect, EffectView};
use crate::modifier::mod_definition::{Modifiers, ModifiersView, opt_label_view};
use crate::modifier::mod_error::{ModifierError, ModifierErrorView};
use crate::modifier::mod_price::{
    branch_amount, clone_factors, spec_branch_amount, ChoicePrice, ChoicePriceView, ModifierPricingPolicy, PriceContribution,
    PriceContributionView, PriceFactor, PriceFactorView, PricedConfiguration, PricedConfigurationView, PricingPolicyView,
};
use crate::primitives::money::{spec_money_add, Money, MoneyErrorView, MoneyView};
use crate::modifier::mod_selection::{
    ChoiceInputValue, ChoiceInputValueView, ChoiceSelection, ChoiceSelectionView, PromptSelection, PromptSelectionView, SelectionSource,
    Selections, SelectionsView, choice_selection_views, prompt_selection_views, clone_input_values,
};
use crate::primitives::ids::{ComponentId, PrefixedIdView};
use crate::primitives::label::{Label, LabelView, ResolvedLabel, ResolvedLabelView};
use crate::modifier::mod_selection::{count_id, lemma_count_id_step};

verus! {

pub open spec fn opt_resolved_view(l: Option<ResolvedLabel>) -> Option<ResolvedLabelView> {
    match l {
        Some(x) => Some(x@),
        None => None,
    }
}

/// The abstract value of a configured input value.
pub struct ChoiceInputConfigurationView {
    pub input_id: PrefixedIdView,
    pub label: ResolvedLabelView,
    pub label_definition: LabelView,
    pub unit: Option<u32>,
    pub value: Seq<char>,
}

/// An input value with its input's label resolved.
#[derive(Debug, Eq, PartialEq)]
pub struct ChoiceInputConfiguration {
    input_id: ComponentId,
    label: ResolvedLabel,
    label_definition: Label,
    unit: Option<u32>,
    value: String,
}

impl View for ChoiceInputConfiguration {
    type V = ChoiceInputConfigurationView;

    closed spec fn view(&self) -> ChoiceInputConfigurationView {
        ChoiceInputConfigurationView {
            input_id: self.input_id@,
            label: self.label@,
            label_definition: self.label_definition@,
            unit: self.unit,
            value: self.value@,
        }
    }
}

impl DeepView for ChoiceInputConfiguration {
    type V = ChoiceInputConfigurationView;

    open spec fn deep_view(&self) -> ChoiceInputConfigurationView {
        self@
    }
}

impl Clone for ChoiceInputConfiguration {
    fn clone(&self) -> (r: Self)
        ensures
            r@ == self@,
    {
        ChoiceInputConfiguration {
            input_id: self.input_id.clone(),
            label: self.label.clone(),
            label_definition: self.label_definition.clone(),
            unit: self.unit,
            value: self.value.clone(),
        }
    }
}

impl ChoiceInputConfiguration {
    pub fn new(input_id: ComponentId, label: ResolvedLabel, label_definition: Label, unit: Option<u32>, value: String) -> (r: Self)
        ensures
            r@ == (ChoiceInputConfigurationView {
                input_id: input_id@,
                label: label@,
                label_definition: label_definition@,
                unit,
                value: value@,
            }),
    {
        ChoiceInputConfiguration { input_id, label, label_definition, unit, value }
    }

    pub fn input_id(&self) -> (r: &ComponentId)
        ensures
            r@ == self@.input_id,
    {
        &self.input_id
    }

    pub fn title(&self) -> (r: &str)
        ensures
            r@ == self@.label.value,
    {
        self.label.value()
    }

    pub fn label(&self) -> (r: &ResolvedLabel)
        ensures
            r@ == self@.label,
    {
        &self.label
    }

    pub fn label_definition(&self) -> (r: &Label)
        ensures
            r@ == self@.label_definition,
    {
        &self.label_definition
    }

    pub fn unit(&self) -> (r: Option<u32>)
        ensures
            r == self@.unit,
    {
        self.unit
    }

    pub fn value(&self) -> (r: &str)
        ensures
            r@ == self@.value,
    {
        self.value.as_str()
    }
}

fn clone_input_configurations(items: &Vec<ChoiceInputConfiguration>) -> (r: Vec<ChoiceInputConfiguration>)
    ensures
        r.deep_view() == items.deep_view(),
{
    let mut out: Vec<ChoiceInputConfiguration> = Vec::new();
    let mut i: usize = 0;
    while i < items.len()
        invariant
            i <= items.len(),
            out.deep_view() == items.deep_view().take(i as int),
        decreases items.len() - i,
    {
        let v = items[i].clone();
        let ghost before = out.deep_view();
        out.push(v);
        assert(out.deep_view() =~= before.push(v@));
        assert(items.deep_view().take(i + 1) =~= items.deep_view().take(i as int).push(items.deep_view()[i as int]));
        i += 1;
    }
    assert(items.deep_view().take(items.len() as int) =~= items.deep_view());
    out
}

/// The abstract value of a configuration.
pub struct ConfigurationView {
    pub prompts: Seq<PromptConfigurationView>,
}

/// The abstract value of a configured prompt.
pub struct PromptConfigurationView {
    pub prompt_id: PrefixedIdView,
    pub label: ResolvedLabelView,
    pub label_definition: LabelView,
    pub description: Option<ResolvedLabelView>,
    pub description_definition: Option<LabelView>,
    pub effects: Seq<EffectView>,
    pub choices: Seq<ChoiceConfigurationView>,
}

/// The abstract value of a configured choice.
pub struct ChoiceConfigurationView {
    pub choice_id: PrefixedIdView,
    pub label: ResolvedLabelView,
    pub label_definition: LabelView,
    pub quantity: u32,
    pub source: SelectionSource,
    pub effects: Seq<EffectView>,
    pub price: ChoicePriceView,
    pub inputs: Seq<ChoiceInputConfigurationView>,
    pub modifiers: Option<Box<ConfigurationView>>,
}

/// Hydrated selections: each applicable prompt with its configured choices.
#[derive(Debug, Eq, PartialEq)]
pub struct Configuration {
    prompts: Vec<PromptConfiguration>,
}

/// A prompt with its labels resolved and its choices configured.
#[derive(Debug, Eq, PartialEq)]
pub struct PromptConfiguration {
    prompt_id: ComponentId,
    label: ResolvedLabel,
    label_definition: Label,
    description: Option<ResolvedLabel>,
    description_definition: Option<Label>,
    effects: Vec<Effect>,
    choices: Vec<ChoiceConfiguration>,
}

/// A selected choice with its label resolved and its nested configuration.
#[derive(Debug, Eq, PartialEq)]
pub struct ChoiceConfiguration {
    choice_id: ComponentId,
    label: ResolvedLabel,
    label_definition: Label,
    quantity: u32,
    source: SelectionSource,
    effects: Vec<Effect>,
    price: ChoicePrice,
    inputs: Vec<ChoiceInputConfiguration>,
    modifiers: Option<Box<Configuration>>,
}

spec fn configuration_view(c: Configuration) -> ConfigurationView
    decreases c, 1nat, 0nat,
{
    ConfigurationView { prompts: prompt_configuration_seq_view(c.prompts@, c.prompts@.len()) }
}

spec fn prompt_configuration_seq_view(ps: Seq<PromptConfiguration>, n: nat) -> Seq<PromptConfigurationView>
    decreases ps, 0nat, n,
{
    if n == 0 || n > ps.len() {
        Seq::empty()
    } else {
        prompt_configuration_seq_view(ps, (n - 1) as nat).push(prompt_configuration_view(ps[n - 1]))
    }
}

spec fn prompt_configuration_view(p: PromptConfiguration) -> PromptConfigurationView
    decreases p, 1nat, 0nat,
{
    PromptConfigurationView {
        prompt_id: p.prompt_id@,
        label: p.label@,
        label_definition: p.label_definition@,
        description: opt_resolved_view(p.description),
        description_definition: opt_label_view(p.description_definition),
        effects: p.effects.deep_view(),
        choices: choice_configuration_seq_view(p.choices@, p.choices@.len()),
    }
}

spec fn choice_configuration_seq_view(cs: Seq<ChoiceConfiguration>, n: nat) -> Seq<ChoiceConfigurationView>
    decreases cs, 0nat, n,
{
    if n == 0 || n > cs.len() {
        Seq::empty()
    } else {
        choice_configuration_seq_view(cs, (n - 1) as nat).push(choice_configuration_view(cs[n - 1]))
    }
}

spec fn choice_configuration_view(c: ChoiceConfiguration) -> ChoiceConfigurationView
    decreases c, 1nat, 0nat,
{
    ChoiceConfigurationView {
        choice_id: c.choice_id@,
        label: c.label@,
        label_definition: c.label_definition@,
        quantity: c.quantity,
        source: c.source,
        effects: c.effects.deep_view(),
        price: c.price@,
        inputs: c.inputs.deep_view(),
        modifiers: match c.modifiers {
            Some(b) => Some(Box::new(configuration_view(*b))),
            None => None,
        },
    }
}

impl View for Configuration {
    type V = ConfigurationView;

    closed spec fn view(&self) -> ConfigurationView {
        configuration_view(*self)
    }
}

impl View for PromptConfiguration {
    type V = PromptConfigurationView;

    closed spec fn view(&self) -> PromptConfigurationView {
        prompt_configuration_view(*self)
    }
}

impl View for ChoiceConfiguration {
    type V = ChoiceConfigurationView;

    closed spec fn view(&self) -> ChoiceConfigurationView {
        choice_configuration_view(*self)
    }
}

/// The views of a list of configured prompts.
pub open spec fn prompt_configuration_views(ps: Seq<PromptConfiguration>) -> Seq<PromptConfigurationView> {
    ps.map_values(|p: PromptConfiguration| p@)
}

/// The views of a list of configured choices.
pub open spec fn choice_configuration_views(cs: Seq<ChoiceConfiguration>) -> Seq<ChoiceConfigurationView> {
    cs.map_values(|c: ChoiceConfiguration| c@)
}

proof fn lemma_prompt_configuration_seq_view(ps: Seq<PromptConfiguration>, n: nat)
    requires
        n <= ps.len(),
    ensures
        prompt_configuration_seq_view(ps, n) =~= prompt_configuration_views(ps.take(n as int)),
    decreases n,
{
    if n > 0 {
        lemma_prompt_configuration_seq_view(ps, (n - 1) as nat);
        assert(ps.take(n as int).drop_last() =~= ps.take(n - 1));
    }
}

proof fn lemma_choice_configuration_seq_view(cs: Seq<ChoiceConfiguration>, n: nat)
    requires
        n <= cs.len(),
    ensures
        choice_configuration_seq_view(cs, n) =~= choice_configuration_views(cs.take(n as int)),
    decreases n,
{
    if n > 0 {
        lemma_choice_configuration_seq_view(cs, (n - 1) as nat);
        assert(cs.take(n as int).drop_last() =~= cs.take(n - 1));
    }
}

proof fn lemma_configuration_view(c: Configuration)
    ensures
        c@ == (ConfigurationView { prompts: prompt_configuration_views(c.prompts@) }),
{
    lemma_prompt_configuration_seq_view(c.prompts@, c.prompts@.len());
    assert(c.prompts@.take(c.prompts@.len() as int) =~= c.prompts@);
}

proof fn lemma_prompt_configuration_view(p: PromptConfiguration)
    ensures
        p@ == (PromptConfigurationView {
            prompt_id: p.prompt_id@,
            label: p.label@,
            label_definition: p.label_definition@,
            description: opt_resolved_view(p.description),
            description_definition: opt_label_view(p.description_definition),
            effects: p.effects.deep_view(),
            choices: choice_configuration_views(p.choices@),
        }),
{
    lemma_choice_configuration_seq_view(p.choices@, p.choices@.len());
    assert(p.choices@.take(p.choices@.len() as int) =~= p.choices@);
}

impl Configuration {
    pub fn new(prompts: Vec<PromptConfiguration>) -> (r: Self)
        ensures
            r@ == (ConfigurationView { prompts: prompt_configuration_views(prompts@) }),
    {
        let r = Configuration { prompts };
        proof {
            lemma_configuration_view(r);
        }
        r
    }

    pub fn prompts(&self) -> (r: &[PromptConfiguration])
        ensures
            prompt_configuration_views(r@) == self@.prompts,
    {
        proof {
            lemma_configuration_view(*self);
        }
        self.prompts.as_slice()
    }
}

impl PromptConfiguration {
    pub fn new(
        prompt_id: ComponentId,
        label: ResolvedLabel,
        label_definition: Label,
        description: Option<ResolvedLabel>,
        description_definition: Option<Label>,
        effects: Vec<Effect>,
        choices: Vec<ChoiceConfiguration>,
    ) -> (r: Self)
        ensures
            r@ == (PromptConfigurationView {
                prompt_id: prompt_id@,
                label: label@,
                label_definition: label_definition@,
                description: opt_resolved_view(description),
                description_definition: opt_label_view(description_definition),
                effects: effects.deep_view(),
                choices: choice_configuration_views(choices@),
            }),
    {
        let r = PromptConfiguration { prompt_id, label, label_definition, description, description_definition, effects, choices };
        proof {
            lemma_prompt_configuration_view(r);
        }
        r
    }

    pub fn prompt_id(&self) -> (r: &ComponentId)
        ensures
            r@ == self@.prompt_id,
    {
        proof {
            lemma_prompt_configuration_view(*self);
        }
        &self.prompt_id
    }

    pub fn title(&self) -> (r: &str)
        ensures
            r@ == self@.label.value,
    {
        proof {
            lemma_prompt_configuration_view(*self);
        }
        self.label.value()
    }

    pub fn label(&self) -> (r: &ResolvedLabel)
        ensures
            r@ == self@.label,
    {
        proof {
            lemma_prompt_configuration_view(*self);
        }
        &self.label
    }

    pub fn label_definition(&self) -> (r: &Label)
        ensures
            r@ == self@.label_definition,
    {
        proof {
            lemma_prompt_configuration_view(*self);
        }
        &self.label_definition
    }

    pub fn description(&self) -> (r: Option<&str>)
        ensures
            match r {
                Some(d) => self@.description matches Some(l) && l.value == d@,
                None => self@.description is None,
            },
    {
        proof {
            lemma_prompt_configuration_view(*self);
        }
        match &self.description {
            Some(l) => Some(l.value()),
            None => None,
        }
    }

    pub fn description_label(&self) -> (r: Option<&ResolvedLabel>)
        ensures
            match r {
                Some(l) => self@.description == Some(l@),
                None => self@.description is None,
            },
    {
        proof {
            lemma_prompt_configuration_view(*self);
        }
        match &self.description {
            Some(l) => Some(l),
            None => None,
        }
    }

    pub fn description_label_definition(&self) -> (r: Option<&Label>)
        ensures
            match r {
                Some(l) => self@.description_definition == Some(l@),
                None => self@.description_definition is None,
            },
    {
        proof {
            lemma_prompt_configuration_view(*self);
        }
        match &self.description_definition {
            Some(l) => Some(l),
            None => None,
        }
    }

    pub fn effects(&self) -> (r: &[Effect])
        ensures
            r.deep_view() == self@.effects,
    {
        proof {
            lemma_prompt_configuration_view(*self);
        }
        self.effects.as_slice()
    }

    pub fn choices(&self) -> (r: &[ChoiceConfiguration])
        ensures
            choice_configuration_views(r@) == self@.choices,
    {
        proof {
            lemma_prompt_configuration_view(*self);
        }
        self.choices.as_slice()
    }
}

impl ChoiceConfiguration {
    pub fn new(
        choice_id: ComponentId,
        label: ResolvedLabel,
        label_definition: Label,
        quantity: u32,
        source: SelectionSource,
        effects: Vec<Effect>,
        price: ChoicePrice,
        inputs: Vec<ChoiceInputConfiguration>,
        modifiers: Option<Configuration>,
    ) -> (r: Self)
        ensures
            r@ == (ChoiceConfigurationView {
                choice_id: choice_id@,
                label: label@,
                label_definition: label_definition@,
                quantity,
                source,
                effects: effects.deep_view(),
                price: price@,
                inputs: inputs.deep_view(),
                modifiers: match modifiers {
                    Some(m) => Some(Box::new(m@)),
                    None => None,
                },
            }),
    {
        let modifiers = match modifiers {
            Some(m) => Some(Box::new(m)),
            None => None,
        };
        ChoiceConfiguration { choice_id, label, label_definition, quantity, source, effects, price, inputs, modifiers }
    }

    pub fn choice_id(&self) -> (r: &ComponentId)
        ensures
            r@ == self@.choice_id,
    {
        &self.choice_id
    }

    pub fn title(&self) -> (r: &str)
        ensures
            r@ == self@.label.value,
    {
        self.label.value()
    }

    pub fn label(&self) -> (r: &ResolvedLabel)
        ensures
            r@ == self@.label,
    {
        &self.label
    }

    pub fn label_definition(&self) -> (r: &Label)
        ensures
            r@ == self@.label_definition,
    {
        &self.label_definition
    }

    pub fn quantity(&self) -> (r: u32)
        ensures
            r == self@.quantity,
    {
        self.quantity
    }

    pub fn source(&self) -> (r: SelectionSource)
        ensures
            r == self@.source,
    {
        self.source
    }

    pub fn effects(&self) -> (r: &[Effect])
        ensures
            r.deep_view() == self@.effects,
    {
        self.effects.as_slice()
    }

    pub fn price_definition(&self) -> (r: &ChoicePrice)
        ensures
            r@ == self@.price,
    {
        &self.price
    }

    pub fn inputs(&self) -> (r: &[ChoiceInputConfiguration])
        ensures
            r.deep_view() == self@.inputs,
    {
        self.inputs.as_slice()
    }

    pub fn modifiers(&self) -> (r: Option<&Configuration>)
        ensures
            match r {
                Some(m) => self@.modifiers == Some(Box::new(m@)),
                None => self@.modifiers is None,
            },
    {
        match &self.modifiers {
            Some(b) => Some(&**b),
            None => None,
        }
    }
}

impl Clone for Configuration {
    fn clone(&self) -> (r: Self)
        ensures
            r@ == self@,
        decreases self,
    {
        proof {
            lemma_configuration_view(*self);
        }
        let mut prompts: Vec<PromptConfiguration> = Vec::new();
        let mut i: usize = 0;
        while i < self.prompts.len()
            invariant
                i <= self.prompts.len(),
                prompt_configuration_views(prompts@) == prompt_configuration_views(self.prompts@).take(i as int),
            decreases self.prompts.len() - i,
        {
            assert(decreases_to!(self => self.prompts@[i as int]));
            let p = self.prompts[i].clone();
            let ghost before = prompts@;
            prompts.push(p);
            assert(prompt_configuration_views(prompts@) =~= prompt_configuration_views(before).push(p@));
            assert(prompt_configuration_views(self.prompts@).take(i + 1) =~= prompt_configuration_views(self.prompts@).take(i as int).push(self.prompts@[i as int]@));
            i += 1;
        }
        let r = Configuration { prompts };
        proof {
            lemma_configuration_view(r);
            assert(prompt_configuration_views(self.prompts@).take(self.prompts.len() as int) =~= prompt_configuration_views(self.prompts@));
        }
        r
    }
}

impl Clone for PromptConfiguration {
    fn clone(&self) -> (r: Self)
        ensures
            r@ == self@,
        decreases self,
    {
        proof {
            lemma_prompt_configuration_view(*self);
        }
        let mut choices: Vec<ChoiceConfiguration> = Vec::new();
        let mut i: usize = 0;
        while i < self.choices.len()
            invariant
                i <= self.choices.len(),
                choice_configuration_views(choices@) == choice_configuration_views(self.choices@).take(i as int),
            decreases self.choices.len() - i,
        {
            assert(decreases_to!(self => self.choices@[i as int]));
            let c = self.choices[i].clone();
            let ghost before = choices@;
            choices.push(c);
            assert(choice_configuration_views(choices@) =~= choice_configuration_views(before).push(c@));
            assert(choice_configuration_views(self.choices@).take(i + 1) =~= choice_configuration_views(self.choices@).take(i as int).push(self.choices@[i as int]@));
            i += 1;
        }
        let description = match &self.description {
            Some(l) => Some(l.clone()),
            None => None,
        };
        let description_definition = match &self.description_definition {
            Some(l) => Some(l.clone()),
            None => None,
        };
        let r = PromptConfiguration {
            prompt_id: self.prompt_id.clone(),
            label: self.label.clone(),
            label_definition: self.label_definition.clone(),
            description,
            description_definition,
            effects: clone_effects(self.effects.as_slice()),
            choices,
        };
        proof {
            lemma_prompt_configuration_view(r);
            assert(choice_configuration_views(self.choices@).take(self.choices.len() as int) =~= choice_configuration_views(self.choices@));
        }
        r
    }
}

impl Clone for ChoiceConfiguration {
    fn clone(&self) -> (r: Self)
        ensures
            r@ == self@,
        decreases self,
    {
        let modifiers = match &self.modifiers {
            Some(b) => {
                assert(decreases_to!(self => **b));
                Some(Box::new((**b).clone()))
            },
            None => None,
        };
        ChoiceConfiguration {
            choice_id: self.choice_id.clone(),
            label: self.label.clone(),
            label_definition: self.label_definition.clone(),
            quantity: self.quantity,
            source: self.source,
            effects: clone_effects(self.effects.as_slice()),
            price: self.price.clone(),
            inputs: clone_input_configurations(&self.inputs),
            modifiers,
        }
    }
}

/// The abstract value of a validated choice selection.
pub struct ValidatedView {
    pub choice_id: PrefixedIdView,
    pub quantity: u32,
    pub source: SelectionSource,
    pub effects: Seq<EffectView>,
    pub price: ChoicePriceView,
    pub inputs: Seq<ChoiceInputValueView>,
    pub modifiers: Option<Box<ModifiersView>>,
}

/// A candidate that passed validation, with what its choice defines.
#[derive(Debug, Eq, PartialEq)]
pub struct ValidatedChoiceSelection {
    choice_id: ComponentId,
    quantity: u32,
    source: SelectionSource,
    effects: Vec<Effect>,
    price: ChoicePrice,
    inputs: Vec<ChoiceInputValue>,
    modifiers: Option<Box<Modifiers>>,
}

impl View for ValidatedChoiceSelection {
    type V = ValidatedView;

    closed spec fn view(&self) -> ValidatedView {
        ValidatedView {
            choice_id: self.choice_id@,
            quantity: self.quantity,
            source: self.source,
            effects: self.effects.deep_view(),
            price: self.price@,
            inputs: self.inputs.deep_view(),
            modifiers: match self.modifiers {
                Some(b) => Some(Box::new((*b)@)),
                None => None,
            },
        }
    }
}

impl DeepView for ValidatedChoiceSelection {
    type V = ValidatedView;

    open spec fn deep_view(&self) -> ValidatedView {
        self@
    }
}

impl ValidatedChoiceSelection {
    pub fn new(
        choice_id: ComponentId,
        quantity: u32,
        source: SelectionSource,
        effects: Vec<Effect>,
        price: ChoicePrice,
        inputs: Vec<ChoiceInputValue>,
        modifiers: Option<Modifiers>,
    ) -> (r: Self)
        ensures
            r@ == (ValidatedView {
                choice_id: choice_id@,
                quantity,
                source,
                effects: effects.deep_view(),
                price: price@,
                inputs: inputs.deep_view(),
                modifiers: match modifiers {
                    Some(m) => Some(Box::new(m@)),
                    None => None,
                },
            }),
    {
        let modifiers = match modifiers {
            Some(m) => Some(Box::new(m)),
            None => None,
        };
        ValidatedChoiceSelection { choice_id, quantity, source, effects, price, inputs, modifiers }
    }

    pub fn choice_id(&self) -> (r: &ComponentId)
        ensures
            r@ == self@.choice_id,
    {
        &self.choice_id
    }

    pub fn quantity(&self) -> (r: u32)
        ensures
            r == self@.quantity,
    {
        self.quantity
    }

    pub fn source(&self) -> (r: SelectionSource)
        ensures
            r == self@.source,
    {
        self.source
    }

    pub fn effects(&self) -> (r: &[Effect])
        ensures
            r.deep_view() == self@.effects,
    {
        self.effects.as_slice()
    }

    pub fn price_definition(&self) -> (r: &ChoicePrice)
        ensures
            r@ == self@.price,
    {
        &self.price
    }

    pub fn inputs(&self) -> (r: &[ChoiceInputValue])
        ensures
            r.deep_view() == self@.inputs,
    {
        self.inputs.as_slice()
    }

    pub fn modifiers(&self) -> (r: Option<&Modifiers>)
        ensures
            match r {
                Some(m) => self@.modifiers == Some(Box::new(m@)),
                None => self@.modifiers is None,
            },
    {
        match &self.modifiers {
            Some(b) => Some(&**b),
            None => None,
        }
    }
}

/// The selections a configuration dehydrates to: each prompt with at least
/// one choice, each choice with its quantity, source and non-empty nested
/// selections.
pub open spec fn dehydrate_configuration(c: ConfigurationView) -> SelectionsView
    decreases c, 1nat, 0nat,
{
    SelectionsView { prompts: dehydrate_prompts(c.prompts, c.prompts.len()) }
}

pub open spec fn dehydrate_prompts(ps: Seq<PromptConfigurationView>, n: nat) -> Seq<PromptSelectionView>
    decreases ps, 0nat, n,
{
    if n == 0 || n > ps.len() {
        Seq::empty()
    } else {
        let p = ps[n - 1];
        let choices = dehydrate_choices(p.choices, p.choices.len());
        if choices.len() == 0 {
            dehydrate_prompts(ps, (n - 1) as nat)
        } else {
            dehydrate_prompts(ps, (n - 1) as nat).push(PromptSelectionView { prompt_id: p.prompt_id, choices })
        }
    }
}

pub open spec fn dehydrate_choices(cs: Seq<ChoiceConfigurationView>, n: nat) -> Seq<ChoiceSelectionView>
    decreases cs, 0nat, n,
{
    if n == 0 || n > cs.len() {
        Seq::empty()
    } else {
        dehydrate_choices(cs, (n - 1) as nat).push(dehydrate_choice(cs[n - 1]))
    }
}

pub open spec fn dehydrate_choice(c: ChoiceConfigurationView) -> ChoiceSelectionView
    decreases c, 1nat, 0nat,
{
    ChoiceSelectionView {
        choice_id: c.choice_id,
        quantity: c.quantity,
        source: c.source,
        inputs: Seq::empty(),
        modifiers: match c.modifiers {
            Some(m) => {
                let nested = dehydrate_configuration(*m);
                if nested.prompts.len() == 0 {
                    None
                } else {
                    Some(Box::new(nested))
                }
            },
            None => None,
        },
    }
}

/// The prompt identifiers of configured prompts.
pub open spec fn configured_prompt_ids(ps: Seq<PromptConfigurationView>) -> Seq<PrefixedIdView> {
    ps.map_values(|p: PromptConfigurationView| p.prompt_id)
}

/// The `occurrence`-th configured prompt (from zero) with the identifier.
pub open spec fn configured_prompt_at(ps: Seq<PromptConfigurationView>, id: PrefixedIdView, occurrence: nat) -> Option<PromptConfigurationView> {
    if exists|i: int| 0 <= i < ps.len() && #[trigger] ps[i].prompt_id == id && count_id(configured_prompt_ids(ps).take(i), id) == occurrence {
        let i = choose|i: int| 0 <= i < ps.len() && #[trigger] ps[i].prompt_id == id && count_id(configured_prompt_ids(ps).take(i), id) == occurrence;
        Some(ps[i])
    } else {
        None
    }
}

impl Configuration {
    /// The first configured prompt with the identifier.
    pub fn prompt(&self, prompt_id: &ComponentId) -> (r: Option<&PromptConfiguration>)
        ensures
            match r {
                Some(p) => configured_prompt_at(self@.prompts, prompt_id@, 0) == Some(p@),
                None => configured_prompt_at(self@.prompts, prompt_id@, 0) is None,
            },
    {
        self.prompt_at(prompt_id, 0)
    }

    /// The `occurrence`-th configured prompt (from zero) with the identifier.
    pub fn prompt_at(&self, prompt_id: &ComponentId, occurrence: usize) -> (r: Option<&PromptConfiguration>)
        ensures
            match r {
                Some(p) => configured_prompt_at(self@.prompts, prompt_id@, occurrence as nat) == Some(p@),
                None => configured_prompt_at(self@.prompts, prompt_id@, occurrence as nat) is None,
            },
    {
        proof {
            lemma_configuration_view(*self);
        }
        let ghost ps = self@.prompts;
        let ghost ids = configured_prompt_ids(ps);
        let mut seen: usize = 0;
        let mut i: usize = 0;
        while i < self.prompts.len()
            invariant
                i <= self.prompts.len(),
                ps == self@.prompts,
                ps == prompt_configuration_views(self.prompts@),
                ids == configured_prompt_ids(ps),
                seen == count_id(ids.take(i as int), prompt_id@),
                seen <= occurrence,
                forall|j: int| 0 <= j < i && #[trigger] ps[j].prompt_id == prompt_id@ ==> count_id(ids.take(j), prompt_id@) < occurrence,
            decreases self.prompts.len() - i,
        {
            assert(ps[i as int] == self.prompts@[i as int]@);
            proof {
                lemma_prompt_configuration_view(self.prompts@[i as int]);
                lemma_count_id_step(ids, prompt_id@, i as int);
            }
            if self.prompts[i].prompt_id.same_as(prompt_id) {
                if seen == occurrence {
                    proof {
                        assert(ps[i as int].prompt_id == prompt_id@ && count_id(ids.take(i as int), prompt_id@) == occurrence);
                        assert(ids[i as int] == prompt_id@);
                        assert(count_id(ids.take(i + 1), prompt_id@) == occurrence + 1);
                        let c = choose|c: int| 0 <= c < ps.len() && #[trigger] ps[c].prompt_id == prompt_id@ && count_id(configured_prompt_ids(ps).take(c), prompt_id@) == occurrence as nat;
                        if c < i {
                            assert(count_id(ids.take(c), prompt_id@) < occurrence);
                        } else if c > i {
                            crate::modifier::mod_selection::lemma_count_id_monotone(ids, prompt_id@, i + 1, c);
                        }
                    }
                    return Some(&self.prompts[i]);
                }
                seen += 1;
            }
            i += 1;
        }
        proof {
            assert(ids.take(ps.len() as int) =~= ids);
            if exists|c: int| 0 <= c < ps.len() && #[trigger] ps[c].prompt_id == prompt_id@ && count_id(configured_prompt_ids(ps).take(c), prompt_id@) == occurrence as nat {
                let c = choose|c: int| 0 <= c < ps.len() && #[trigger] ps[c].prompt_id == prompt_id@ && count_id(configured_prompt_ids(ps).take(c), prompt_id@) == occurrence as nat;
                assert(count_id(ids.take(c), prompt_id@) < occurrence);
            }
        }
        None
    }

    /// The selections that hydrate back to this configuration's choices.
    pub fn dehydrate(&self) -> (r: Selections)
        ensures
            r@ == dehydrate_configuration(self@),
        decreases self, 1nat,
    {
        proof {
            lemma_configuration_view(*self);
        }
        let ghost ps = self@.prompts;
        let mut selections = Selections::new();
        let mut i: usize = 0;
        assert(selections@.prompts =~= dehydrate_prompts(ps, 0));
        while i < self.prompts.len()
            invariant
                i <= self.prompts.len(),
                ps == self@.prompts,
                ps == prompt_configuration_views(self.prompts@),
                selections@.prompts == dehydrate_prompts(ps, i as nat),
            decreases self.prompts.len() - i,
        {
            let prompt = &self.prompts[i];
            assert(ps[i as int] == prompt@);
            assert(decreases_to!(self => self.prompts@[i as int]));
            let choices = prompt.dehydrate_choices();
            if choices.len() > 0 {
                let ps_sel = PromptSelection::new(prompt.prompt_id.clone(), choices);
                proof {
                    lemma_prompt_configuration_view(*prompt);
                }
                selections.push_prompt(ps_sel);
            }
            i += 1;
        }
        selections
    }
}

impl PromptConfiguration {
    /// The prompt's selection, when at least one choice is configured.
    pub fn dehydrate(&self) -> (r: Option<PromptSelection>)
        ensures
            match r {
                Some(s) => dehydrate_choices(self@.choices, self@.choices.len()).len() > 0
                    && s@ == (PromptSelectionView { prompt_id: self@.prompt_id, choices: dehydrate_choices(self@.choices, self@.choices.len()) }),
                None => dehydrate_choices(self@.choices, self@.choices.len()).len() == 0,
            },
    {
        proof {
            lemma_prompt_configuration_view(*self);
        }
        let choices = self.dehydrate_choices();
        if choices.len() == 0 {
            return None;
        }
        Some(PromptSelection::new(self.prompt_id.clone(), choices))
    }

    fn dehydrate_choices(&self) -> (r: Vec<ChoiceSelection>)
        ensures
            choice_selection_views(r@) == dehydrate_choices(self@.choices, self@.choices.len()),
        decreases self, 0nat,
    {
        proof {
            lemma_prompt_configuration_view(*self);
        }
        let ghost cs = self@.choices;
        let mut out: Vec<ChoiceSelection> = Vec::new();
        let mut i: usize = 0;
        assert(choice_selection_views(out@) =~= dehydrate_choices(cs, 0));
        while i < self.choices.len()
            invariant
                i <= self.choices.len(),
                cs == self@.choices,
                cs == choice_configuration_views(self.choices@),
                choice_selection_views(out@) == dehydrate_choices(cs, i as nat),
            decreases self.choices.len() - i,
        {
            assert(cs[i as int] == self.choices@[i as int]@);
            assert(decreases_to!(self => self.choices@[i as int]));
            let c = self.choices[i].dehydrate_choice();
            let ghost before = out@;
            out.push(c);
            assert(choice_selection_views(out@) =~= choice_selection_views(before).push(c@));
            i += 1;
        }
        out
    }
}

impl ChoiceConfiguration {
    /// The choice's selection; every configured choice has one.
    pub fn dehydrate(&self) -> (r: Option<ChoiceSelection>)
        ensures
            r matches Some(s) && s@ == dehydrate_choice(self@),
    {
        Some(self.dehydrate_choice())
    }

    fn dehydrate_choice(&self) -> (r: ChoiceSelection)
        ensures
            r@ == dehydrate_choice(self@),
        decreases self, 0nat,
    {
        let selection = ChoiceSelection::new(self.choice_id.clone(), self.quantity).with_source(self.source);
        match &self.modifiers {
            Some(b) => {
                assert(decreases_to!(self => **b));
                let nested = (**b).dehydrate();
                if !nested.is_empty() {
                    return selection.with_modifiers(nested);
                }
                selection
            },
            None => selection,
        }
    }
}

/// The abstract value of a partial pricing: the contributions so far, and
/// the factors still waiting for a priced choice above them.
pub struct PriceWalkView {
    pub contributions: Seq<PriceContributionView>,
    pub upward_factors: Seq<PriceFactorView>,
}

pub open spec fn empty_walk() -> PriceWalkView {
    PriceWalkView { contributions: Seq::empty(), upward_factors: Seq::empty() }
}

pub open spec fn join_walks(a: PriceWalkView, b: PriceWalkView) -> PriceWalkView {
    PriceWalkView { contributions: a.contributions + b.contributions, upward_factors: a.upward_factors + b.upward_factors }
}

/// The factors a choice sends up: its factor once per unit of its quantity.
pub open spec fn own_factors(c: ChoiceConfigurationView) -> Seq<PriceFactorView> {
    match c.price.factor {
        Some(f) => Seq::new(c.quantity as nat, |i: int| PriceFactorView { choice_id: c.choice_id, rate: f }),
        None => Seq::empty(),
    }
}

/// The pricing of the first `n` configured prompts, in order.
pub open spec fn price_prompts(ps: Seq<PromptConfigurationView>, base: MoneyView, policy: PricingPolicyView, n: nat) -> Result<PriceWalkView, ModifierErrorView>
    decreases ps, 1nat, n,
{
    if n == 0 || n > ps.len() {
        Ok(empty_walk())
    } else {
        match price_prompts(ps, base, policy, (n - 1) as nat) {
            Err(e) => Err(e),
            Ok(w) => match price_choices(ps[n - 1].choices, base, policy, ps[n - 1].choices.len()) {
                Err(e) => Err(e),
                Ok(w2) => Ok(join_walks(w, w2)),
            },
        }
    }
}

/// The pricing of the first `n` configured choices, in order.
pub open spec fn price_choices(cs: Seq<ChoiceConfigurationView>, base: MoneyView, policy: PricingPolicyView, n: nat) -> Result<PriceWalkView, ModifierErrorView>
    decreases cs, 1nat, n,
{
    if n == 0 || n > cs.len() {
        Ok(empty_walk())
    } else {
        match price_choices(cs, base, policy, (n - 1) as nat) {
            Err(e) => Err(e),
            Ok(w) => match price_choice(cs[n - 1], base, policy) {
                Err(e) => Err(e),
                Ok(w2) => Ok(join_walks(w, w2)),
            },
        }
    }
}

/// The pricing of one configured choice: its nested choices are priced
/// first; a choice with an amount consumes the factors from below and adds
/// a contribution (unless it is a default and defaults are free), and sends
/// its own factors up; a choice without an amount passes the factors from
/// below up together with its own.
pub open spec fn price_choice(c: ChoiceConfigurationView, base: MoneyView, policy: PricingPolicyView) -> Result<PriceWalkView, ModifierErrorView>
    decreases c, 0nat, 0nat,
{
    let nested = match c.modifiers {
        Some(m) => price_prompts(m.prompts, base, policy, m.prompts.len()),
        None => Ok(empty_walk()),
    };
    match nested {
        Err(e) => Err(e),
        Ok(b) => if c.price.has_amount() {
            if policy.defaults_are_free && c.source == SelectionSource::Default {
                Ok(PriceWalkView { contributions: b.contributions, upward_factors: own_factors(c) })
            } else {
                match spec_branch_amount(base, c.price, c.quantity, b.upward_factors, policy.rounding) {
                    Err(e) => Err(e),
                    Ok(amount) => Ok(PriceWalkView {
                        contributions: b.contributions.push(PriceContributionView {
                            choice_id: c.choice_id,
                            label: c.label,
                            label_definition: c.label_definition,
                            quantity: c.quantity,
                            source: c.source,
                            amount,
                            flat_amount: c.price.flat_amount,
                            invariant_rate: c.price.invariant_rate,
                            factors: b.upward_factors,
                        }),
                        upward_factors: own_factors(c),
                    }),
                }
            }
        } else {
            Ok(PriceWalkView { contributions: b.contributions, upward_factors: b.upward_factors + own_factors(c) })
        },
    }
}

/// The running total of contribution amounts, from zero in a currency.
pub open spec fn sum_amounts(cs: Seq<PriceContributionView>, currency: Seq<char>) -> Result<MoneyView, MoneyErrorView>
    decreases cs.len(),
{
    if cs.len() == 0 {
        Ok(MoneyView { amount: 0, currency })
    } else {
        match sum_amounts(cs.drop_last(), currency) {
            Err(e) => Err(e),
            Ok(t) => spec_money_add(t, cs.last().amount),
        }
    }
}

/// The plain sum of contribution amounts.
pub open spec fn amount_sum(cs: Seq<PriceContributionView>) -> int
    decreases cs.len(),
{
    if cs.len() == 0 {
        0
    } else {
        amount_sum(cs.drop_last()) + cs.last().amount.amount
    }
}

/// The priced configuration: every factor must be consumed by a priced
/// choice, and the total is the sum of the contributions.
pub open spec fn spec_price(c: ConfigurationView, base: MoneyView, policy: PricingPolicyView) -> Result<PricedConfigurationView, ModifierErrorView> {
    match price_prompts(c.prompts, base, policy, c.prompts.len()) {
        Err(e) => Err(e),
        Ok(w) => if w.upward_factors.len() > 0 {
            Err(ModifierErrorView::UnconsumedPriceFactor(w.upward_factors[0].choice_id))
        } else {
            match sum_amounts(w.contributions, base.currency) {
                Err(e) => Err(ModifierErrorView::Money(e)),
                Ok(total) => Ok(PricedConfigurationView { contributions: w.contributions, total }),
            }
        },
    }
}

/// A successful running total is the plain sum of the amounts, in the
/// currency it started from.
pub proof fn lemma_sum_amounts(cs: Seq<PriceContributionView>, currency: Seq<char>)
    requires
        sum_amounts(cs, currency) is Ok,
    ensures
        sum_amounts(cs, currency)->Ok_0.amount == amount_sum(cs),
        sum_amounts(cs, currency)->Ok_0.currency == currency,
    decreases cs.len(),
{
    if cs.len() > 0 {
        lemma_sum_amounts(cs.drop_last(), currency);
    }
}

/// A priced configuration's total is the sum of its contributions' amounts,
/// in the currency of the invariant price.
pub proof fn lemma_price_total_is_sum(c: ConfigurationView, base: MoneyView, policy: PricingPolicyView)
    requires
        spec_price(c, base, policy) is Ok,
    ensures
        spec_price(c, base, policy)->Ok_0.total.amount == amount_sum(spec_price(c, base, policy)->Ok_0.contributions),
        spec_price(c, base, policy)->Ok_0.total.currency == base.currency,
{
    let w = price_prompts(c.prompts, base, policy, c.prompts.len())->Ok_0;
    lemma_sum_amounts(w.contributions, base.currency);
}

struct PriceWalk {
    contributions: Vec<PriceContribution>,
    upward_factors: Vec<PriceFactor>,
}

impl View for PriceWalk {
    type V = PriceWalkView;

    closed spec fn view(&self) -> PriceWalkView {
        PriceWalkView { contributions: self.contributions.deep_view(), upward_factors: self.upward_factors.deep_view() }
    }
}

impl PriceWalk {
    fn empty() -> (r: Self)
        ensures
            r@ == empty_walk(),
    {
        let r = PriceWalk { contributions: Vec::new(), upward_factors: Vec::new() };
        assert(r@.contributions =~= Seq::<PriceContributionView>::empty());
        assert(r@.upward_factors =~= Seq::<PriceFactorView>::empty());
        r
    }

    fn append(&mut self, other: PriceWalk)
        ensures
            final(self)@ == join_walks(old(self)@, other@),
    {
        let ghost a = self@;
        let ghost b = other@;
        let mut other = other;
        self.contributions.append(&mut other.contributions);
        self.upward_factors.append(&mut other.upward_factors);
        assert(self@.contributions =~= a.contributions + b.contributions);
        assert(self@.upward_factors =~= a.upward_factors + b.upward_factors);
    }
}

proof fn lemma_price_prompts_error_sticks(ps: Seq<PromptConfigurationView>, base: MoneyView, policy: PricingPolicyView, n: nat)
    requires
        n <= ps.len(),
        price_prompts(ps, base, policy, n) is Err,
    ensures
        price_prompts(ps, base, policy, ps.len()) == price_prompts(ps, base, policy, n),
    decreases ps.len() - n,
{
    if n < ps.len() {
        lemma_price_prompts_error_sticks(ps, base, policy, n + 1);
    }
}

proof fn lemma_price_choices_error_sticks(cs: Seq<ChoiceConfigurationView>, base: MoneyView, policy: PricingPolicyView, n: nat)
    requires
        n <= cs.len(),
        price_choices(cs, base, policy, n) is Err,
    ensures
        price_choices(cs, base, policy, cs.len()) == price_choices(cs, base, policy, n),
    decreases cs.len() - n,
{
    if n < cs.len() {
        lemma_price_choices_error_sticks(cs, base, policy, n + 1);
    }
}

/// Prices a list of configured prompts.
fn price_prompt_list(prompts: &Vec<PromptConfiguration>, base: &Money, policy: ModifierPricingPolicy) -> (r: Result<PriceWalk, ModifierError>)
    ensures
        match r {
            Ok(w) => price_prompts(prompt_configuration_views(prompts@), base@, policy@, prompts.len() as nat) == Ok::<PriceWalkView, ModifierErrorView>(w@),
            Err(e) => price_prompts(prompt_configuration_views(prompts@), base@, policy@, prompts.len() as nat) == Err::<PriceWalkView, ModifierErrorView>(e@),
        },
    decreases prompts, 1nat,
{
    let ghost ps = prompt_configuration_views(prompts@);
    let mut priced = PriceWalk::empty();
    let mut i: usize = 0;
    while i < prompts.len()
        invariant
            i <= prompts.len(),
            ps == prompt_configuration_views(prompts@),
            price_prompts(ps, base@, policy@, i as nat) == Ok::<PriceWalkView, ModifierErrorView>(priced@),
        decreases prompts.len() - i,
    {
        let prompt = &prompts[i];
        assert(ps[i as int] == prompt@);
        proof {
            lemma_prompt_configuration_view(*prompt);
        }
        assert(decreases_to!(prompts => prompts@[i as int]));
        assert(decreases_to!(prompts@[i as int] => prompts@[i as int].choices));
        match price_choice_list(&prompt.choices, base, policy) {
            Ok(w) => priced.append(w),
            Err(e) => {
                proof {
                    lemma_price_prompts_error_sticks(ps, base@, policy@, (i + 1) as nat);
                }
                return Err(e);
            },
        }
        i += 1;
    }
    Ok(priced)
}

/// Prices a list of configured choices.
fn price_choice_list(choices: &Vec<ChoiceConfiguration>, base: &Money, policy: ModifierPricingPolicy) -> (r: Result<PriceWalk, ModifierError>)
    ensures
        match r {
            Ok(w) => price_choices(choice_configuration_views(choices@), base@, policy@, choices.len() as nat) == Ok::<PriceWalkView, ModifierErrorView>(w@),
            Err(e) => price_choices(choice_configuration_views(choices@), base@, policy@, choices.len() as nat) == Err::<PriceWalkView, ModifierErrorView>(e@),
        },
    decreases choices, 1nat,
{
    let ghost cs = choice_configuration_views(choices@);
    let mut priced = PriceWalk::empty();
    let mut i: usize = 0;
    while i < choices.len()
        invariant
            i <= choices.len(),
            cs == choice_configuration_views(choices@),
            price_choices(cs, base@, policy@, i as nat) == Ok::<PriceWalkView, ModifierErrorView>(priced@),
        decreases choices.len() - i,
    {
        assert(cs[i as int] == choices@[i as int]@);
        assert(decreases_to!(choices => choices@[i as int]));
        match price_one_choice(&choices[i], base, policy) {
            Ok(w) => priced.append(w),
            Err(e) => {
                proof {
                    lemma_price_choices_error_sticks(cs, base@, policy@, (i + 1) as nat);
                }
                return Err(e);
            },
        }
        i += 1;
    }
    Ok(priced)
}

/// Prices one configured choice and what is nested below it.
fn price_one_choice(choice: &ChoiceConfiguration, base: &Money, policy: ModifierPricingPolicy) -> (r: Result<PriceWalk, ModifierError>)
    ensures
        match r {
            Ok(w) => price_choice(choice@, base@, policy@) == Ok::<PriceWalkView, ModifierErrorView>(w@),
            Err(e) => price_choice(choice@, base@, policy@) == Err::<PriceWalkView, ModifierErrorView>(e@),
        },
    decreases choice, 0nat,
{
    let priced = match &choice.modifiers {
        Some(b) => {
            proof {
                lemma_configuration_view(**b);
            }
            assert(decreases_to!(choice => (**b).prompts));
            price_prompt_list(&(**b).prompts, base, policy)?
        },
        None => PriceWalk::empty(),
    };
    let mut own: Vec<PriceFactor> = Vec::new();
    match choice.price.factor() {
        Some(factor) => {
            let mut n: u32 = 0;
            while n < choice.quantity
                invariant
                    n <= choice.quantity,
                    own.deep_view() == Seq::new(n as nat, |i: int| PriceFactorView { choice_id: choice@.choice_id, rate: factor@ }),
                decreases choice.quantity - n,
            {
                let f = PriceFactor::new(choice.choice_id.clone(), factor);
                assert(f@ == PriceFactorView { choice_id: choice@.choice_id, rate: factor@ });
                let ghost before = own.deep_view();
                own.push(f);
                assert(own.deep_view() =~= before.push(f@));
                assert(own.deep_view() =~= Seq::new((n + 1) as nat, |i: int| PriceFactorView { choice_id: choice@.choice_id, rate: factor@ }));
                n += 1;
            }
        },
        None => {},
    }
    assert(own.deep_view() =~= own_factors(choice@));
    if choice.price.has_amount() {
        let PriceWalk { mut contributions, upward_factors } = priced;
        if !(policy.defaults_are_free() && choice.source == SelectionSource::Default) {
            let amount = branch_amount(base, &choice.price, choice.quantity, upward_factors.as_slice(), policy.rounding())?;
            let contribution = PriceContribution::new(
                choice.choice_id.clone(),
                choice.label.clone(),
                choice.label_definition.clone(),
                choice.quantity,
                choice.source,
                amount,
                &choice.price,
                upward_factors,
            );
            let ghost before = contributions.deep_view();
            contributions.push(contribution);
            assert(contributions.deep_view() =~= before.push(contribution@));
        }
        Ok(PriceWalk { contributions, upward_factors: own })
    } else {
        let PriceWalk { contributions, mut upward_factors } = priced;
        let ghost before = upward_factors.deep_view();
        let ghost added = own.deep_view();
        upward_factors.append(&mut own);
        assert(upward_factors.deep_view() =~= before + added);
        Ok(PriceWalk { contributions, upward_factors })
    }
}

impl Configuration {
    /// Prices the configuration against an invariant price.
    pub fn price(&self, invariant_price: &Money, policy: ModifierPricingPolicy) -> (r: Result<PricedConfiguration, ModifierError>)
        ensures
            match r {
                Ok(p) => spec_price(self@, invariant_price@, policy@) == Ok::<PricedConfigurationView, ModifierErrorView>(p@),
                Err(e) => spec_price(self@, invariant_price@, policy@) == Err::<PricedConfigurationView, ModifierErrorView>(e@),
            },
    {
        proof {
            lemma_configuration_view(*self);
        }
        let priced = price_prompt_list(&self.prompts, invariant_price, policy)?;
        let PriceWalk { contributions, upward_factors } = priced;
        if upward_factors.len() > 0 {
            assert(upward_factors.deep_view()[0] == upward_factors@[0]@);
            return Err(ModifierError::UnconsumedPriceFactor(upward_factors[0].choice_id().clone()));
        }
        let ghost cv = contributions.deep_view();
        let ghost whole = spec_price(self@, invariant_price@, policy@);
        assert(whole == match sum_amounts(cv, invariant_price@.currency) {
            Err(e) => Err(ModifierErrorView::Money(e)),
            Ok(total) => Ok(PricedConfigurationView { contributions: cv, total }),
        });
        let mut total = Money::zero(invariant_price.currency().clone());
        let mut i: usize = 0;
        assert(cv.take(0) =~= Seq::<PriceContributionView>::empty());
        while i < contributions.len()
            invariant
                i <= contributions.len(),
                cv == contributions.deep_view(),
                whole == spec_price(self@, invariant_price@, policy@),
                whole == match sum_amounts(cv, invariant_price@.currency) {
                    Err(e) => Err(ModifierErrorView::Money(e)),
                    Ok(total) => Ok(PricedConfigurationView { contributions: cv, total }),
                },
                sum_amounts(cv.take(i as int), invariant_price@.currency) == Ok::<MoneyView, MoneyErrorView>(total@),
            decreases contributions.len() - i,
        {
            assert(cv.take(i + 1).drop_last() =~= cv.take(i as int));
            assert(cv[i as int] == contributions@[i as int]@);
            total = match total.checked_add(contributions[i].amount()) {
                Ok(t) => t,
                Err(e) => {
                    proof {
                        lemma_sum_amounts_error_sticks(cv, invariant_price@.currency, i + 1);
                    }
                    return Err(ModifierError::Money(e));
                },
            };
            i += 1;
        }
        assert(cv.take(contributions.len() as int) =~= cv);
        Ok(PricedConfiguration::new(contributions, total))
    }
}

proof fn lemma_sum_amounts_error_sticks(cs: Seq<PriceContributionView>, currency: Seq<char>, k: int)
    requires
        0 <= k <= cs.len(),
        sum_amounts(cs.take(k), currency) is Err,
    ensures
        sum_amounts(cs, currency) == sum_amounts(cs.take(k), currency),
    decreases cs.len() - k,
{
    if k == cs.len() {
        assert(cs.take(k) =~= cs);
    } else {
        assert(cs.take(k + 1).drop_last() =~= cs.take(k));
        lemma_sum_amounts_error_sticks(cs, currency, k + 1);
    }
}

/// The abstract value of a snapshot of a configured prompt.
pub struct PromptSnapshotView {
    pub prompt_id: PrefixedIdView,
    pub label: ResolvedLabelView,
    pub label_definition: LabelView,
    pub description: Option<ResolvedLabelView>,
    pub description_definition: Option<LabelView>,
    pub effects: Seq<EffectView>,
    pub choices: Seq<ChoiceSnapshotView>,
}

/// The abstract value of a snapshot of a configured choice.
pub struct ChoiceSnapshotView {
    pub choice_id: PrefixedIdView,
    pub label: ResolvedLabelView,
    pub label_definition: LabelView,
    pub quantity: u32,
    pub source: SelectionSource,
    pub effects: Seq<EffectView>,
    pub price: ChoicePriceView,
    pub modifiers: Seq<PromptSnapshotView>,
}

/// The abstract value of a configuration snapshot.
pub struct ConfigurationSnapshotView {
    pub prompts: Seq<PromptSnapshotView>,
    pub price: PricedConfigurationView,
}

/// A configured prompt as recorded, with nested prompts flattened into each
/// choice's list.
#[derive(Debug, Eq, PartialEq)]
pub struct PromptSnapshot {
    prompt_id: ComponentId,
    label: ResolvedLabel,
    label_definition: Label,
    description: Option<ResolvedLabel>,
    description_definition: Option<Label>,
    effects: Vec<Effect>,
    choices: Vec<ChoiceSnapshot>,
}

/// A configured choice as recorded.
#[derive(Debug, Eq, PartialEq)]
pub struct ChoiceSnapshot {
    choice_id: ComponentId,
    label: ResolvedLabel,
    label_definition: Label,
    quantity: u32,
    source: SelectionSource,
    effects: Vec<Effect>,
    price: ChoicePrice,
    modifiers: Vec<PromptSnapshot>,
}

/// A configuration as recorded, with its price.
#[derive(Debug, Eq, PartialEq)]
pub struct ConfigurationSnapshot {
    prompts: Vec<PromptSnapshot>,
    price: PricedConfiguration,
}

spec fn prompt_snapshot_seq_view(ps: Seq<PromptSnapshot>, n: nat) -> Seq<PromptSnapshotView>
    decreases ps, 0nat, n,
{
    if n == 0 || n > ps.len() {
        Seq::empty()
    } else {
        prompt_snapshot_seq_view(ps, (n - 1) as nat).push(prompt_snapshot_view(ps[n - 1]))
    }
}

spec fn prompt_snapshot_view(p: PromptSnapshot) -> PromptSnapshotView
    decreases p, 1nat, 0nat,
{
    PromptSnapshotView {
        prompt_id: p.prompt_id@,
        label: p.label@,
        label_definition: p.label_definition@,
        description: opt_resolved_view(p.description),
        description_definition: opt_label_view(p.description_definition),
        effects: p.effects.deep_view(),
        choices: choice_snapshot_seq_view(p.choices@, p.choices@.len()),
    }
}

spec fn choice_snapshot_seq_view(cs: Seq<ChoiceSnapshot>, n: nat) -> Seq<ChoiceSnapshotView>
    decreases cs, 0nat, n,
{
    if n == 0 || n > cs.len() {
        Seq::empty()
    } else {
        choice_snapshot_seq_view(cs, (n - 1) as nat).push(choice_snapshot_view(cs[n - 1]))
    }
}

spec fn choice_snapshot_view(c: ChoiceSnapshot) -> ChoiceSnapshotView
    decreases c, 1nat, 0nat,
{
    ChoiceSnapshotView {
        choice_id: c.choice_id@,
        label: c.label@,
        label_definition: c.label_definition@,
        quantity: c.quantity,
        source: c.source,
        effects: c.effects.deep_view(),
        price: c.price@,
        modifiers: prompt_snapshot_seq_view(c.modifiers@, c.modifiers@.len()),
    }
}

impl View for PromptSnapshot {
    type V = PromptSnapshotView;

    closed spec fn view(&self) -> PromptSnapshotView {
        prompt_snapshot_view(*self)
    }
}

impl View for ChoiceSnapshot {
    type V = ChoiceSnapshotView;

    closed spec fn view(&self) -> ChoiceSnapshotView {
        choice_snapshot_view(*self)
    }
}

impl View for ConfigurationSnapshot {
    type V = ConfigurationSnapshotView;

    closed spec fn view(&self) -> ConfigurationSnapshotView {
        ConfigurationSnapshotView { prompts: prompt_snapshot_seq_view(self.prompts@, self.prompts@.len()), price: self.price@ }
    }
}

pub open spec fn prompt_snapshot_views(ps: Seq<PromptSnapshot>) -> Seq<PromptSnapshotView> {
    ps.map_values(|p: PromptSnapshot| p@)
}

pub open spec fn choice_snapshot_views(cs: Seq<ChoiceSnapshot>) -> Seq<ChoiceSnapshotView> {
    cs.map_values(|c: ChoiceSnapshot| c@)
}

proof fn lemma_prompt_snapshot_seq_view(ps: Seq<PromptSnapshot>, n: nat)
    requires
        n <= ps.len(),
    ensures
        prompt_snapshot_seq_view(ps, n) =~= prompt_snapshot_views(ps.take(n as int)),
    decreases n,
{
    if n > 0 {
        lemma_prompt_snapshot_seq_view(ps, (n - 1) as nat);
        assert(ps.take(n as int).drop_last() =~= ps.take(n - 1));
    }
}

proof fn lemma_choice_snapshot_seq_view(cs: Seq<ChoiceSnapshot>, n: nat)
    requires
        n <= cs.len(),
    ensures
        choice_snapshot_seq_view(cs, n) =~= choice_snapshot_views(cs.take(n as int)),
    decreases n,
{
    if n > 0 {
        lemma_choice_snapshot_seq_view(cs, (n - 1) as nat);
        assert(cs.take(n as int).drop_last() =~= cs.take(n - 1));
    }
}

proof fn lemma_all_prompt_snapshots(ps: Seq<PromptSnapshot>)
    ensures
        prompt_snapshot_seq_view(ps, ps.len()) == prompt_snapshot_views(ps),
{
    lemma_prompt_snapshot_seq_view(ps, ps.len());
    assert(ps.take(ps.len() as int) =~= ps);
}

proof fn lemma_all_choice_snapshots(cs: Seq<ChoiceSnapshot>)
    ensures
        choice_snapshot_seq_view(cs, cs.len()) == choice_snapshot_views(cs),
{
    lemma_choice_snapshot_seq_view(cs, cs.len());
    assert(cs.take(cs.len() as int) =~= cs);
}

/// The snapshot of configured prompts: the same prompts and choices, with
/// each choice's nested prompts recorded in its list.
pub open spec fn snapshot_prompts(ps: Seq<PromptConfigurationView>, n: nat) -> Seq<PromptSnapshotView>
    decreases ps, 0nat, n,
{
    if n == 0 || n > ps.len() {
        Seq::empty()
    } else {
        snapshot_prompts(ps, (n - 1) as nat).push(snapshot_prompt(ps[n - 1]))
    }
}

pub open spec fn snapshot_prompt(p: PromptConfigurationView) -> PromptSnapshotView
    decreases p, 1nat, 0nat,
{
    PromptSnapshotView {
        prompt_id: p.prompt_id,
        label: p.label,
        label_definition: p.label_definition,
        description: p.description,
        description_definition: p.description_definition,
        effects: p.effects,
        choices: snapshot_choices(p.choices, p.choices.len()),
    }
}

pub open spec fn snapshot_choices(cs: Seq<ChoiceConfigurationView>, n: nat) -> Seq<ChoiceSnapshotView>
    decreases cs, 0nat, n,
{
    if n == 0 || n > cs.len() {
        Seq::empty()
    } else {
        snapshot_choices(cs, (n - 1) as nat).push(snapshot_choice(cs[n - 1]))
    }
}

pub open spec fn snapshot_choice(c: ChoiceConfigurationView) -> ChoiceSnapshotView
    decreases c, 1nat, 0nat,
{
    ChoiceSnapshotView {
        choice_id: c.choice_id,
        label: c.label,
        label_definition: c.label_definition,
        quantity: c.quantity,
        source: c.source,
        effects: c.effects,
        price: c.price,
        modifiers: match c.modifiers {
            Some(m) => snapshot_prompts(m.prompts, m.prompts.len()),
            None => Seq::empty(),
        },
    }
}

fn snapshot_prompt_list(prompts: &Vec<PromptConfiguration>) -> (r: Vec<PromptSnapshot>)
    ensures
        prompt_snapshot_views(r@) == snapshot_prompts(prompt_configuration_views(prompts@), prompts.len() as nat),
    decreases prompts, 1nat,
{
    let ghost ps = prompt_configuration_views(prompts@);
    let mut out: Vec<PromptSnapshot> = Vec::new();
    let mut i: usize = 0;
    assert(prompt_snapshot_views(out@) =~= snapshot_prompts(ps, 0));
    while i < prompts.len()
        invariant
            i <= prompts.len(),
            ps == prompt_configuration_views(prompts@),
            prompt_snapshot_views(out@) == snapshot_prompts(ps, i as nat),
        decreases prompts.len() - i,
    {
        let prompt = &prompts[i];
        assert(ps[i as int] == prompt@);
        proof {
            lemma_prompt_configuration_view(*prompt);
        }
        assert(decreases_to!(prompts => prompts@[i as int]));
        assert(decreases_to!(prompts@[i as int] => prompts@[i as int].choices));
        let choices = snapshot_choice_list(&prompt.choices);
        let description = match &prompt.description {
            Some(l) => Some(l.clone()),
            None => None,
        };
        let description_definition = match &prompt.description_definition {
            Some(l) => Some(l.clone()),
            None => None,
        };
        let snapshot = PromptSnapshot {
            prompt_id: prompt.prompt_id.clone(),
            label: prompt.label.clone(),
            label_definition: prompt.label_definition.clone(),
            description,
            description_definition,
            effects: clone_effects(prompt.effects.as_slice()),
            choices,
        };
        proof {
            lemma_all_choice_snapshots(snapshot.choices@);
            assert(snapshot@ == snapshot_prompt(prompt@));
        }
        let ghost before = out@;
        out.push(snapshot);
        assert(prompt_snapshot_views(out@) =~= prompt_snapshot_views(before).push(snapshot@));
        i += 1;
    }
    out
}

fn snapshot_choice_list(choices: &Vec<ChoiceConfiguration>) -> (r: Vec<ChoiceSnapshot>)
    ensures
        choice_snapshot_views(r@) == snapshot_choices(choice_configuration_views(choices@), choices.len() as nat),
    decreases choices, 1nat,
{
    let ghost cs = choice_configuration_views(choices@);
    let mut out: Vec<ChoiceSnapshot> = Vec::new();
    let mut i: usize = 0;
    assert(choice_snapshot_views(out@) =~= snapshot_choices(cs, 0));
    while i < choices.len()
        invariant
            i <= choices.len(),
            cs == choice_configuration_views(choices@),
            choice_snapshot_views(out@) == snapshot_choices(cs, i as nat),
        decreases choices.len() - i,
    {
        let choice = &choices[i];
        assert(cs[i as int] == choice@);
        let modifiers = match &choice.modifiers {
            Some(b) => {
                proof {
                    lemma_configuration_view(**b);
                }
                assert(decreases_to!(choices => choices@[i as int]));
                assert(decreases_to!(choices@[i as int] => (**b).prompts));
                snapshot_prompt_list(&(**b).prompts)
            },
            None => Vec::new(),
        };
        let snapshot = ChoiceSnapshot {
            choice_id: choice.choice_id.clone(),
            label: choice.label.clone(),
            label_definition: choice.label_definition.clone(),
            quantity: choice.quantity,
            source: choice.source,
            effects: clone_effects(choice.effects.as_slice()),
            price: choice.price.clone(),
            modifiers,
        };
        proof {
            lemma_all_prompt_snapshots(snapshot.modifiers@);
            if choice.modifiers is None {
                assert(prompt_snapshot_views(snapshot.modifiers@) =~= Seq::<PromptSnapshotView>::empty());
            }
            assert(snapshot@ == snapshot_choice(choice@));
        }
        let ghost before = out@;
        out.push(snapshot);
        assert(choice_snapshot_views(out@) =~= choice_snapshot_views(before).push(snapshot@));
        i += 1;
    }
    out
}

impl Configuration {
    /// The configuration as recorded, with its price.
    pub fn snapshot(&self, invariant_price: &Money, policy: ModifierPricingPolicy) -> (r: Result<ConfigurationSnapshot, ModifierError>)
        ensures
            match r {
                Ok(s) => spec_price(self@, invariant_price@, policy@) == Ok::<PricedConfigurationView, ModifierErrorView>(s@.price)
                    && s@.prompts == snapshot_prompts(self@.prompts, self@.prompts.len()),
                Err(e) => spec_price(self@, invariant_price@, policy@) == Err::<PricedConfigurationView, ModifierErrorView>(e@),
            },
    {
        proof {
            lemma_configuration_view(*self);
        }
        let prompts = snapshot_prompt_list(&self.prompts);
        let price = self.price(invariant_price, policy)?;
        let r = ConfigurationSnapshot { prompts, price };
        proof {
            lemma_all_prompt_snapshots(r.prompts@);
        }
        Ok(r)
    }
}

impl ConfigurationSnapshot {
    pub fn prompts(&self) -> (r: &[PromptSnapshot])
        ensures
            prompt_snapshot_views(r@) == self@.prompts,
    {
        proof {
            lemma_all_prompt_snapshots(self.prompts@);
        }
        self.prompts.as_slice()
    }

    pub fn price(&self) -> (r: &PricedConfiguration)
        ensures
            r@ == self@.price,
    {
        &self.price
    }

    /// The first recorded prompt with the identifier.
    pub fn prompt(&self, prompt_id: &ComponentId) -> (r: Option<&PromptSnapshot>)
        ensures
            match r {
                Some(p) => exists|i: int| 0 <= i < self@.prompts.len() && #[trigger] self@.prompts[i] == p@
                    && p@.prompt_id == prompt_id@ && forall|j: int| 0 <= j < i ==> #[trigger] self@.prompts[j].prompt_id != prompt_id@,
                None => forall|j: int| 0 <= j < self@.prompts.len() ==> #[trigger] self@.prompts[j].prompt_id != prompt_id@,
            },
    {
        proof {
            lemma_all_prompt_snapshots(self.prompts@);
        }
        let ghost ps = self@.prompts;
        let mut i: usize = 0;
        while i < self.prompts.len()
            invariant
                i <= self.prompts.len(),
                ps == self@.prompts,
                ps == prompt_snapshot_views(self.prompts@),
                forall|j: int| 0 <= j < i ==> #[trigger] ps[j].prompt_id != prompt_id@,
            decreases self.prompts.len() - i,
        {
            assert(ps[i as int] == self.prompts@[i as int]@);
            if self.prompts[i].prompt_id().same_as(prompt_id) {
                assert(ps[i as int] == self.prompts@[i as int]@);
                return Some(&self.prompts[i]);
            }
            i += 1;
        }
        None
    }
}

impl PromptSnapshot {
    pub fn prompt_id(&self) -> (r: &ComponentId)
        ensures
            r@ == self@.prompt_id,
    {
        &self.prompt_id
    }

    pub fn title(&self) -> (r: &str)
        ensures
            r@ == self@.label.value,
    {
        self.label.value()
    }

    pub fn label(&self) -> (r: &ResolvedLabel)
        ensures
            r@ == self@.label,
    {
        &self.label
    }

    pub fn label_definition(&self) -> (r: &Label)
        ensures
            r@ == self@.label_definition,
    {
        &self.label_definition
    }

    pub fn description(&self) -> (r: Option<&str>)
        ensures
            match r {
                Some(d) => self@.description matches Some(l) && l.value == d@,
                None => self@.description is None,
            },
    {
        match &self.description {
            Some(l) => Some(l.value()),
            None => None,
        }
    }

    pub fn description_label(&self) -> (r: Option<&ResolvedLabel>)
        ensures
            match r {
                Some(l) => self@.description == Some(l@),
                None => self@.description is None,
            },
    {
        match &self.description {
            Some(l) => Some(l),
            None => None,
        }
    }

    pub fn description_label_definition(&self) -> (r: Option<&Label>)
        ensures
            match r {
                Some(l) => self@.description_definition == Some(l@),
                None => self@.description_definition is None,
            },
    {
        match &self.description_definition {
            Some(l) => Some(l),
            None => None,
        }
    }

    pub fn effects(&self) -> (r: &[Effect])
        ensures
            r.deep_view() == self@.effects,
    {
        self.effects.as_slice()
    }

    pub fn choices(&self) -> (r: &[ChoiceSnapshot])
        ensures
            choice_snapshot_views(r@) == self@.choices,
    {
        proof {
            lemma_all_choice_snapshots(self.choices@);
        }
        self.choices.as_slice()
    }
}

impl ChoiceSnapshot {
    pub fn choice_id(&self) -> (r: &ComponentId)
        ensures
            r@ == self@.choice_id,
    {
        &self.choice_id
    }

    pub fn title(&self) -> (r: &str)
        ensures
            r@ == self@.label.value,
    {
        self.label.value()
    }

    pub fn label(&self) -> (r: &ResolvedLabel)
        ensures
            r@ == self@.label,
    {
        &self.label
    }

    pub fn label_definition(&self) -> (r: &Label)
        ensures
            r@ == self@.label_definition,
    {
        &self.label_definition
    }

    pub fn quantity(&self) -> (r: u32)
        ensures
            r == self@.quantity,
    {
        self.quantity
    }

    pub fn source(&self) -> (r: SelectionSource)
        ensures
            r == self@.source,
    {
        self.source
    }

    pub fn effects(&self) -> (r: &[Effect])
        ensures
            r.deep_view() == self@.effects,
    {
        self.effects.as_slice()
    }

    pub fn price_definition(&self) -> (r: &ChoicePrice)
        ensures
            r@ == self@.price,
    {
        &self.price
    }

    pub fn modifiers(&self) -> (r: &[PromptSnapshot])
        ensures
            prompt_snapshot_views(r@) == self@.modifiers,
    {
        proof {
            lemma_all_prompt_snapshots(self.modifiers@);
        }
        self.modifiers.as_slice()
    }
}

} // verus!
