//! Modifier definitions: `Modifiers -> Prompt -> Choice -> Modifiers`.
use vstd::prelude::*;

use crate::effect::{clone_effects, Effect, EffectView};
use crate::modifier::mod_error::{ChoiceInputError, ChoiceInputErrorView, ModifierError, ModifierErrorView};
use crate::modifier::mod_price::{ChoicePrice, ChoicePriceView};
use crate::modifier::mod_rule::{any_default_rule, has_default_rule, spec_bounds, Rule, SelectionBounds};
use crate::modifier::mod_selection::{
    CandidateView, ChoiceInputValue, ChoiceInputValueView, ChoiceSelection, ChoiceSelectionView, PromptSelection, PromptSelectionView,
    SelectionCandidate, SelectionSource, Selections, SelectionsView, choice_selection_views, clone_input_values, count_id,
    lemma_count_id_step, lemma_count_id_all, prompt_selection_at, selection_prompt_ids,
};
use crate::primitives::consumer::ConsumerProfile;
use crate::primitives::label::{LabelErrorView, ResolvedLabelView};
use crate::modifier::mod_state::{
    ChoiceConfiguration, ChoiceConfigurationView, ChoiceInputConfiguration, ChoiceInputConfigurationView, Configuration, ConfigurationView,
    PromptConfiguration, PromptConfigurationView, ValidatedChoiceSelection, ValidatedView, choice_configuration_views,
    prompt_configuration_views,
};
use crate::primitives::ids::{ComponentId, IdKind, LabelId, LabelIdKind, PrefixedIdView, valid_suffix};
use crate::primitives::label::{Label, LabelView};
use crate::primitives::media::{MediaCollection, MediaView};
use crate::primitives::schedule::{Schedule, ScheduleView};
use crate::primitives::time::{EvaluationTime, EvaluationTimeView};
use crate::text::{concat, is_alnum, is_blank, str_is_blank};

verus! {

/// The label a definition generates for one of its texts: identified by the
/// given suffix, with the text as its default.
pub open spec fn generated_label_view(suffix: Seq<char>, text: Seq<char>) -> LabelView {
    LabelView {
        label_id: Some(PrefixedIdView { prefix: LabelIdKind::spec_prefix(), suffix }),
        default: text,
        values: Seq::empty(),
    }
}

/// The label with identifier suffix `suffix` and default `text`.
pub(crate) fn generated_label(suffix: &str, text: &str) -> (r: Label)
    requires
        valid_suffix(suffix@),
        !is_blank(text@),
    ensures
        r@ == generated_label_view(suffix@, text@),
{
    let label_id = match LabelId::from_suffix(suffix) {
        Ok(id) => id,
        Err(_) => vstd::pervasive::unreached(),
    };
    match Label::new(label_id, text) {
        Ok(l) => l,
        Err(_) => vstd::pervasive::unreached(),
    }
}

/// The suffix `owner` followed by `slot`, for a generated label.
pub(crate) fn slot_suffix(owner: &str, slot: &str) -> (r: String)
    requires
        valid_suffix(owner@),
        forall|i: int| 0 <= i < slot@.len() ==> is_alnum(#[trigger] slot@[i]) || slot@[i] == '-',
    ensures
        r@ == owner@ + slot@,
        valid_suffix(r@),
{
    let r = concat(owner, slot);
    assert forall|i: int| 0 <= i < r@.len() implies is_alnum(#[trigger] r@[i]) || r@[i] == '-' by {
        if i < owner@.len() {
            assert(r@[i] == owner@[i]);
        } else {
            assert(r@[i] == slot@[i - owner@.len()]);
        }
    }
    r
}

/// The abstract value of a choice input definition.
pub struct ChoiceInputView {
    pub input_id: PrefixedIdView,
    pub label: LabelView,
    pub required: bool,
    pub min_length: Option<u32>,
    pub max_length: Option<u32>,
    pub repeat_per_quantity: bool,
}

/// A text value a choice asks for, once or once per unit of its quantity.
#[derive(Debug, Eq, PartialEq)]
pub struct ChoiceInput {
    input_id: ComponentId,
    label: Label,
    required: bool,
    min_length: Option<u32>,
    max_length: Option<u32>,
    repeat_per_quantity: bool,
}

impl View for ChoiceInput {
    type V = ChoiceInputView;

    closed spec fn view(&self) -> ChoiceInputView {
        ChoiceInputView {
            input_id: self.input_id@,
            label: self.label@,
            required: self.required,
            min_length: self.min_length,
            max_length: self.max_length,
            repeat_per_quantity: self.repeat_per_quantity,
        }
    }
}

impl DeepView for ChoiceInput {
    type V = ChoiceInputView;

    open spec fn deep_view(&self) -> ChoiceInputView {
        self@
    }
}

impl Clone for ChoiceInput {
    fn clone(&self) -> (r: Self)
        ensures
            r@ == self@,
    {
        ChoiceInput {
            input_id: self.input_id.clone(),
            label: self.label.clone(),
            required: self.required,
            min_length: self.min_length,
            max_length: self.max_length,
            repeat_per_quantity: self.repeat_per_quantity,
        }
    }
}

/// What defining an input with a label gives: the minimum length may not
/// exceed the maximum.
pub open spec fn spec_choice_input(
    input_id: PrefixedIdView,
    label: LabelView,
    required: bool,
    min_length: Option<u32>,
    max_length: Option<u32>,
    repeat_per_quantity: bool,
) -> Result<ChoiceInputView, ModifierErrorView> {
    if min_length is Some && max_length is Some && min_length->0 > max_length->0 {
        Err(ModifierErrorView::ChoiceInput(ChoiceInputErrorView::InvalidLengthConstraints {
            input_id,
            min_length: min_length->0,
            max_length: max_length->0,
        }))
    } else {
        Ok(ChoiceInputView { input_id, label, required, min_length, max_length, repeat_per_quantity })
    }
}

impl ChoiceInput {
    pub fn new(
        input_id: ComponentId,
        title: &str,
        required: bool,
        min_length: Option<u32>,
        max_length: Option<u32>,
        repeat_per_quantity: bool,
    ) -> (r: Result<Self, ModifierError>)
        ensures
            match r {
                Ok(i) => !is_blank(title@) && spec_choice_input(
                    input_id@,
                    generated_label_view(input_id@.suffix + "-TITLE"@, title@),
                    required,
                    min_length,
                    max_length,
                    repeat_per_quantity,
                ) == Ok::<ChoiceInputView, ModifierErrorView>(i@),
                Err(e) => if is_blank(title@) {
                    e@ == ModifierErrorView::ChoiceInput(ChoiceInputErrorView::EmptyTitle)
                } else {
                    spec_choice_input(
                        input_id@,
                        generated_label_view(input_id@.suffix + "-TITLE"@, title@),
                        required,
                        min_length,
                        max_length,
                        repeat_per_quantity,
                    ) == Err::<ChoiceInputView, ModifierErrorView>(e@)
                },
            },
    {
        if str_is_blank(title) {
            return Err(ModifierError::from(ChoiceInputError::EmptyTitle));
        }
        proof {
            reveal_strlit("-TITLE");
        }
        let suffix = slot_suffix(input_id.suffix(), "-TITLE");
        let label = generated_label(suffix.as_str(), title);
        Self::new_labeled(input_id, label, required, min_length, max_length, repeat_per_quantity)
    }

    pub fn new_labeled(
        input_id: ComponentId,
        label: Label,
        required: bool,
        min_length: Option<u32>,
        max_length: Option<u32>,
        repeat_per_quantity: bool,
    ) -> (r: Result<Self, ModifierError>)
        ensures
            match r {
                Ok(i) => spec_choice_input(input_id@, label@, required, min_length, max_length, repeat_per_quantity) == Ok::<ChoiceInputView, ModifierErrorView>(i@),
                Err(e) => spec_choice_input(input_id@, label@, required, min_length, max_length, repeat_per_quantity) == Err::<ChoiceInputView, ModifierErrorView>(e@),
            },
    {
        if let (Some(lo), Some(hi)) = (min_length, max_length) {
            if lo > hi {
                return Err(ModifierError::from(ChoiceInputError::InvalidLengthConstraints {
                    input_id,
                    min_length: lo,
                    max_length: hi,
                }));
            }
        }
        Ok(ChoiceInput { input_id, label, required, min_length, max_length, repeat_per_quantity })
    }

    pub fn input_id(&self) -> (r: &ComponentId)
        ensures
            r@ == self@.input_id,
    {
        &self.input_id
    }

    pub fn title(&self) -> (r: &str)
        ensures
            r@ == self@.label.default,
    {
        self.label.default_text()
    }

    pub fn label(&self) -> (r: &Label)
        ensures
            r@ == self@.label,
    {
        &self.label
    }

    pub fn required(&self) -> (r: bool)
        ensures
            r == self@.required,
    {
        self.required
    }

    pub fn min_length(&self) -> (r: Option<u32>)
        ensures
            r == self@.min_length,
    {
        self.min_length
    }

    pub fn max_length(&self) -> (r: Option<u32>)
        ensures
            r == self@.max_length,
    {
        self.max_length
    }

    pub fn repeat_per_quantity(&self) -> (r: bool)
        ensures
            r == self@.repeat_per_quantity,
    {
        self.repeat_per_quantity
    }
}

/// The abstract value of the modifiers of a catalog item or a choice.
pub struct ModifiersView {
    pub label: Option<LabelView>,
    pub prompts: Seq<PromptView>,
}

/// The abstract value of a prompt definition.
pub struct PromptView {
    pub prompt_id: PrefixedIdView,
    pub label: LabelView,
    pub description: Option<LabelView>,
    pub rules: Seq<Rule>,
    pub effects: Seq<EffectView>,
    pub choices: Seq<ChoiceView>,
}

/// The abstract value of a choice definition.
pub struct ChoiceView {
    pub choice_id: PrefixedIdView,
    pub label: LabelView,
    pub media: Seq<MediaView>,
    pub schedule: Option<ScheduleView>,
    pub rules: Seq<Rule>,
    pub effects: Seq<EffectView>,
    pub price: ChoicePriceView,
    pub inputs: Seq<ChoiceInputView>,
    pub modifiers: Option<Box<ModifiersView>>,
}

/// An optional title and the prompts of a modifier level.
#[derive(Debug, Eq, PartialEq)]
pub struct Modifiers {
    label: Option<Label>,
    prompts: Vec<Prompt>,
}

/// A question with rules on how many of its choices may be selected.
#[derive(Debug, Eq, PartialEq)]
pub struct Prompt {
    prompt_id: ComponentId,
    label: Label,
    description: Option<Label>,
    rules: Vec<Rule>,
    effects: Vec<Effect>,
    choices: Vec<Choice>,
}

/// An answer to a prompt, with its rules, effects, price, inputs and nested
/// modifiers.
#[derive(Debug, Eq, PartialEq)]
pub struct Choice {
    choice_id: ComponentId,
    label: Label,
    media: MediaCollection,
    schedule: Option<Schedule>,
    rules: Vec<Rule>,
    effects: Vec<Effect>,
    price: ChoicePrice,
    inputs: Vec<ChoiceInput>,
    modifiers: Option<Box<Modifiers>>,
}

pub open spec fn opt_label_view(l: Option<Label>) -> Option<LabelView> {
    match l {
        Some(x) => Some(x@),
        None => None,
    }
}

pub open spec fn opt_schedule_view(s: Option<Schedule>) -> Option<ScheduleView> {
    match s {
        Some(x) => Some(x@),
        None => None,
    }
}

spec fn modifiers_view(m: Modifiers) -> ModifiersView
    decreases m, 1nat, 0nat,
{
    ModifiersView { label: opt_label_view(m.label), prompts: prompt_seq_view(m.prompts@, m.prompts@.len()) }
}

spec fn prompt_seq_view(ps: Seq<Prompt>, n: nat) -> Seq<PromptView>
    decreases ps, 0nat, n,
{
    if n == 0 || n > ps.len() {
        Seq::empty()
    } else {
        prompt_seq_view(ps, (n - 1) as nat).push(prompt_view(ps[n - 1]))
    }
}

spec fn prompt_view(p: Prompt) -> PromptView
    decreases p, 1nat, 0nat,
{
    PromptView {
        prompt_id: p.prompt_id@,
        label: p.label@,
        description: opt_label_view(p.description),
        rules: p.rules@,
        effects: p.effects.deep_view(),
        choices: choice_seq_view(p.choices@, p.choices@.len()),
    }
}

spec fn choice_seq_view(cs: Seq<Choice>, n: nat) -> Seq<ChoiceView>
    decreases cs, 0nat, n,
{
    if n == 0 || n > cs.len() {
        Seq::empty()
    } else {
        choice_seq_view(cs, (n - 1) as nat).push(choice_view(cs[n - 1]))
    }
}

spec fn choice_view(c: Choice) -> ChoiceView
    decreases c, 1nat, 0nat,
{
    ChoiceView {
        choice_id: c.choice_id@,
        label: c.label@,
        media: c.media@,
        schedule: opt_schedule_view(c.schedule),
        rules: c.rules@,
        effects: c.effects.deep_view(),
        price: c.price@,
        inputs: c.inputs.deep_view(),
        modifiers: match c.modifiers {
            Some(b) => Some(Box::new(modifiers_view(*b))),
            None => None,
        },
    }
}

impl View for Modifiers {
    type V = ModifiersView;

    closed spec fn view(&self) -> ModifiersView {
        modifiers_view(*self)
    }
}

impl View for Prompt {
    type V = PromptView;

    closed spec fn view(&self) -> PromptView {
        prompt_view(*self)
    }
}

impl View for Choice {
    type V = ChoiceView;

    closed spec fn view(&self) -> ChoiceView {
        choice_view(*self)
    }
}

/// The views of a list of prompts.
pub open spec fn prompt_views(ps: Seq<Prompt>) -> Seq<PromptView> {
    ps.map_values(|p: Prompt| p@)
}

/// The views of a list of choices.
pub open spec fn choice_views(cs: Seq<Choice>) -> Seq<ChoiceView> {
    cs.map_values(|c: Choice| c@)
}

proof fn lemma_prompt_seq_view(ps: Seq<Prompt>, n: nat)
    requires
        n <= ps.len(),
    ensures
        prompt_seq_view(ps, n) =~= prompt_views(ps.take(n as int)),
    decreases n,
{
    if n > 0 {
        lemma_prompt_seq_view(ps, (n - 1) as nat);
        assert(ps.take(n as int).drop_last() =~= ps.take(n - 1));
    }
}

proof fn lemma_choice_seq_view(cs: Seq<Choice>, n: nat)
    requires
        n <= cs.len(),
    ensures
        choice_seq_view(cs, n) =~= choice_views(cs.take(n as int)),
    decreases n,
{
    if n > 0 {
        lemma_choice_seq_view(cs, (n - 1) as nat);
        assert(cs.take(n as int).drop_last() =~= cs.take(n - 1));
    }
}

proof fn lemma_modifiers_view(m: Modifiers)
    ensures
        m@ == (ModifiersView { label: opt_label_view(m.label), prompts: prompt_views(m.prompts@) }),
{
    lemma_prompt_seq_view(m.prompts@, m.prompts@.len());
    assert(m.prompts@.take(m.prompts@.len() as int) =~= m.prompts@);
}

proof fn lemma_prompt_view(p: Prompt)
    ensures
        p@ == (PromptView {
            prompt_id: p.prompt_id@,
            label: p.label@,
            description: opt_label_view(p.description),
            rules: p.rules@,
            effects: p.effects.deep_view(),
            choices: choice_views(p.choices@),
        }),
{
    lemma_choice_seq_view(p.choices@, p.choices@.len());
    assert(p.choices@.take(p.choices@.len() as int) =~= p.choices@);
}

/// The default quantities met in a choice's rules, or the first zero or
/// duplicate default.
pub open spec fn default_scan(rules: Seq<Rule>, choice_id: PrefixedIdView) -> Result<Option<u32>, ModifierErrorView>
    decreases rules.len(),
{
    if rules.len() == 0 {
        Ok(None)
    } else {
        match default_scan(rules.drop_last(), choice_id) {
            Err(e) => Err(e),
            Ok(found) => match rules.last() {
                Rule::Default(q) => if q == 0 {
                    Err(ModifierErrorView::ZeroDefaultQuantity(choice_id))
                } else if found is Some {
                    Err(ModifierErrorView::DuplicateDefault(choice_id))
                } else {
                    Ok(Some(q))
                },
                _ => Ok(found),
            },
        }
    }
}

proof fn lemma_default_scan_step(rules: Seq<Rule>, choice_id: PrefixedIdView, i: int)
    requires
        0 <= i < rules.len(),
    ensures
        default_scan(rules.take(i + 1), choice_id) == match default_scan(rules.take(i), choice_id) {
            Err(e) => Err(e),
            Ok(found) => match rules[i] {
                Rule::Default(q) => if q == 0 {
                    Err(ModifierErrorView::ZeroDefaultQuantity(choice_id))
                } else if found is Some {
                    Err(ModifierErrorView::DuplicateDefault(choice_id))
                } else {
                    Ok(Some(q))
                },
                _ => Ok::<Option<u32>, ModifierErrorView>(found),
            },
        },
{
    assert(rules.take(i + 1).drop_last() =~= rules.take(i));
}

proof fn lemma_default_scan_error_sticks(rules: Seq<Rule>, choice_id: PrefixedIdView, k: int)
    requires
        0 <= k <= rules.len(),
        default_scan(rules.take(k), choice_id) is Err,
    ensures
        default_scan(rules, choice_id) == default_scan(rules.take(k), choice_id),
    decreases rules.len() - k,
{
    if k == rules.len() {
        assert(rules.take(k) =~= rules);
    } else {
        lemma_default_scan_step(rules, choice_id, k);
        lemma_default_scan_error_sticks(rules, choice_id, k + 1);
    }
}

/// The ordering key of an input value's unit: no unit before any unit.
pub open spec fn unit_key(unit: Option<u32>) -> int {
    match unit {
        Some(u) => u as int,
        None => -1,
    }
}

/// Whether an input with the given identifier is defined.
pub open spec fn has_input(inputs: Seq<ChoiceInputView>, id: PrefixedIdView) -> bool {
    exists|i: int| 0 <= i < inputs.len() && #[trigger] inputs[i].input_id == id
}

/// The first definition of the input with the given identifier.
pub open spec fn first_input(inputs: Seq<ChoiceInputView>, id: PrefixedIdView) -> ChoiceInputView {
    inputs[choose|i: int| 0 <= i < inputs.len() && #[trigger] inputs[i].input_id == id && forall|j: int| 0 <= j < i ==> #[trigger] inputs[j].input_id != id]
}

/// The values entered for the given input, in order.
pub open spec fn values_with(values: Seq<ChoiceInputValueView>, id: PrefixedIdView) -> Seq<ChoiceInputValueView>
    decreases values.len(),
{
    if values.len() == 0 {
        Seq::empty()
    } else if values.last().input_id == id {
        values_with(values.drop_last(), id).push(values.last())
    } else {
        values_with(values.drop_last(), id)
    }
}

/// Inserts a value after every value whose unit orders before or with it.
pub open spec fn insert_by_unit(sorted: Seq<ChoiceInputValueView>, v: ChoiceInputValueView) -> Seq<ChoiceInputValueView>
    decreases sorted.len(),
{
    if sorted.len() == 0 || unit_key(sorted.last().unit) <= unit_key(v.unit) {
        sorted.push(v)
    } else {
        insert_by_unit(sorted.drop_last(), v).push(sorted.last())
    }
}

/// The values ordered by unit, values with equal units keeping their order.
pub open spec fn sort_by_unit(values: Seq<ChoiceInputValueView>) -> Seq<ChoiceInputValueView>
    decreases values.len(),
{
    if values.len() == 0 {
        Seq::empty()
    } else {
        insert_by_unit(sort_by_unit(values.drop_last()), values.last())
    }
}

/// The values grouped by input definition, in definition order, each group
/// ordered by unit.
pub open spec fn normalize_values(inputs: Seq<ChoiceInputView>, values: Seq<ChoiceInputValueView>) -> Seq<ChoiceInputValueView>
    decreases inputs.len(),
{
    if inputs.len() == 0 {
        Seq::empty()
    } else {
        normalize_values(inputs.drop_last(), values) + sort_by_unit(values_with(values, inputs.last().input_id))
    }
}

impl ChoiceView {
    /// The default quantity of the choice, if a rule sets one.
    pub open spec fn default_quantity(self) -> Result<Option<u32>, ModifierErrorView> {
        default_scan(self.rules, self.choice_id)
    }

    /// Whether a quantity lies within the choice's own bounds.
    pub open spec fn check_quantity(self, quantity: u32) -> Result<(), ModifierErrorView> {
        match spec_bounds(self.rules) {
            Err(e) => Err(e),
            Ok(b) => if quantity < b.min {
                Err(ModifierErrorView::ChoiceBelowMinimum { choice_id: self.choice_id, min_select: b.min, actual: quantity })
            } else if b.max is Some && quantity > b.max->0 {
                Err(ModifierErrorView::ChoiceAboveMaximum { choice_id: self.choice_id, max_select: b.max->0, actual: quantity })
            } else {
                Ok(())
            },
        }
    }

    /// The rules are valid: bounds, a unique non-zero default, and the default
    /// within the bounds.
    pub open spec fn check_rules(self) -> Result<(), ModifierErrorView> {
        match spec_bounds(self.rules) {
            Err(e) => Err(e),
            Ok(_) => match self.default_quantity() {
                Err(e) => Err(e),
                Ok(None) => Ok(()),
                Ok(Some(q)) => self.check_quantity(q),
            },
        }
    }

    /// Whether the choice can be selected at an evaluation time; a scheduled
    /// choice needs one.
    pub open spec fn availability(self, time: Option<EvaluationTimeView>) -> Result<bool, ModifierErrorView> {
        match self.schedule {
            None => Ok(true),
            Some(s) => match time {
                None => Err(ModifierErrorView::ScheduledChoiceRequiresEvaluationTime(self.choice_id)),
                Some(t) => Ok(s.scheduled(t.utc_time, t.calendar_moment)),
            },
        }
    }

    /// Whether the choice is shown at an evaluation time.
    pub open spec fn visible_at(self, t: EvaluationTimeView) -> bool {
        match self.schedule {
            None => true,
            Some(s) => s.scheduled(t.utc_time, t.calendar_moment),
        }
    }

    /// What is wrong with the `k`-th input value, if anything.
    #[verifier::opaque]
    pub open spec fn value_error(self, quantity: u32, values: Seq<ChoiceInputValueView>, k: int) -> Option<ChoiceInputErrorView> {
        let v = values[k];
        let choice_id = self.choice_id;
        let input_id = v.input_id;
        if !has_input(self.inputs, input_id) {
            Some(ChoiceInputErrorView::UnknownInput { choice_id, input_id })
        } else {
            let input = first_input(self.inputs, input_id);
            if !input.repeat_per_quantity && v.unit is Some {
                Some(ChoiceInputErrorView::UnexpectedUnit { choice_id, input_id })
            } else if input.repeat_per_quantity && v.unit is None {
                Some(ChoiceInputErrorView::UnitRequired { choice_id, input_id })
            } else if input.repeat_per_quantity && (v.unit->0 == 0 || v.unit->0 > quantity) {
                Some(ChoiceInputErrorView::UnitOutOfRange { choice_id, input_id, unit: v.unit->0, quantity })
            } else if exists|j: int| 0 <= j < k && #[trigger] values[j].input_id == input_id && values[j].unit == v.unit {
                Some(ChoiceInputErrorView::DuplicateValue { choice_id, input_id, unit: v.unit })
            } else if input.min_length is Some && v.value.len() < input.min_length->0 {
                Some(ChoiceInputErrorView::BelowMinimumLength {
                    choice_id,
                    input_id,
                    min_length: input.min_length->0,
                    actual: v.value.len(),
                })
            } else if input.max_length is Some && v.value.len() > input.max_length->0 {
                Some(ChoiceInputErrorView::AboveMaximumLength {
                    choice_id,
                    input_id,
                    max_length: input.max_length->0,
                    actual: v.value.len(),
                })
            } else {
                None
            }
        }
    }

    /// What is wrong with the `i`-th input definition's values, if anything:
    /// a required input needs one value, or one per unit when it repeats.
    pub open spec fn missing_error(self, quantity: u32, values: Seq<ChoiceInputValueView>, i: int) -> Option<ChoiceInputErrorView> {
        let input = self.inputs[i];
        let expected: u32 = if input.repeat_per_quantity { quantity } else { 1 };
        let actual = values_with(values, input.input_id).len();
        if input.required && actual != expected {
            Some(ChoiceInputErrorView::MissingRequiredValue {
                choice_id: self.choice_id,
                input_id: input.input_id,
                expected,
                actual,
            })
        } else {
            None
        }
    }

    /// The validated input values of a selection of the choice: the first
    /// wrong value, then the first missing required input, is refused;
    /// otherwise the values are normalized.
    #[verifier::opaque]
    pub open spec fn validate_inputs(self, quantity: u32, values: Seq<ChoiceInputValueView>) -> Result<Seq<ChoiceInputValueView>, ModifierErrorView> {
        if exists|k: int| 0 <= k < values.len() && #[trigger] self.value_error(quantity, values, k) is Some {
            let k = choose|k: int| 0 <= k < values.len() && #[trigger] self.value_error(quantity, values, k) is Some
                && forall|j: int| 0 <= j < k ==> #[trigger] self.value_error(quantity, values, j) is None;
            Err(ModifierErrorView::ChoiceInput(self.value_error(quantity, values, k)->0))
        } else if exists|i: int| 0 <= i < self.inputs.len() && #[trigger] self.missing_error(quantity, values, i) is Some {
            let i = choose|i: int| 0 <= i < self.inputs.len() && #[trigger] self.missing_error(quantity, values, i) is Some
                && forall|j: int| 0 <= j < i ==> #[trigger] self.missing_error(quantity, values, j) is None;
            Err(ModifierErrorView::ChoiceInput(self.missing_error(quantity, values, i)->0))
        } else {
            Ok(normalize_values(self.inputs, values))
        }
    }
}

/// Whether a value's length lies within its input definition's bounds.
pub open spec fn length_within(input: ChoiceInputView, value: Seq<char>) -> bool {
    &&& (input.min_length matches Some(min) ==> value.len() >= min)
    &&& (input.max_length matches Some(max) ==> value.len() <= max)
}

proof fn lemma_values_with_from(values: Seq<ChoiceInputValueView>, id: PrefixedIdView)
    ensures
        forall|v: ChoiceInputValueView| #[trigger] values_with(values, id).contains(v) ==> values.contains(v),
    decreases values.len(),
{
    if values.len() > 0 {
        lemma_values_with_from(values.drop_last(), id);
        assert forall|v: ChoiceInputValueView| #[trigger] values_with(values, id).contains(v) implies values.contains(v) by {
            let w = values_with(values.drop_last(), id);
            if values_with(values, id) == w.push(values.last()) && v == values.last() {
                assert(values[values.len() - 1] == v);
            } else {
                assert(w.contains(v));
                let j = choose|j: int| 0 <= j < values.drop_last().len() && values.drop_last()[j] == v;
                assert(values[j] == v);
            }
        }
    }
}

proof fn lemma_insert_by_unit_from(sorted: Seq<ChoiceInputValueView>, x: ChoiceInputValueView)
    ensures
        forall|v: ChoiceInputValueView| #[trigger] insert_by_unit(sorted, x).contains(v) ==> v == x || sorted.contains(v),
    decreases sorted.len(),
{
    if sorted.len() > 0 && unit_key(sorted.last().unit) > unit_key(x.unit) {
        lemma_insert_by_unit_from(sorted.drop_last(), x);
        assert forall|v: ChoiceInputValueView| #[trigger] insert_by_unit(sorted, x).contains(v) implies v == x || sorted.contains(v) by {
            let w = insert_by_unit(sorted.drop_last(), x);
            if v == sorted.last() {
                assert(sorted[sorted.len() - 1] == v);
            } else {
                assert(w.push(sorted.last()).contains(v));
                let j = choose|j: int| 0 <= j < w.push(sorted.last()).len() && w.push(sorted.last())[j] == v;
                assert(j < w.len());
                assert(w.contains(v));
                if v != x {
                    let i = choose|i: int| 0 <= i < sorted.drop_last().len() && sorted.drop_last()[i] == v;
                    assert(sorted[i] == v);
                }
            }
        }
    } else {
        assert forall|v: ChoiceInputValueView| #[trigger] insert_by_unit(sorted, x).contains(v) implies v == x || sorted.contains(v) by {
            let j = choose|j: int| 0 <= j < sorted.push(x).len() && sorted.push(x)[j] == v;
            if j < sorted.len() {
                assert(sorted[j] == v);
            }
        }
    }
}

proof fn lemma_sort_by_unit_from(values: Seq<ChoiceInputValueView>)
    ensures
        forall|v: ChoiceInputValueView| #[trigger] sort_by_unit(values).contains(v) ==> values.contains(v),
    decreases values.len(),
{
    if values.len() > 0 {
        lemma_sort_by_unit_from(values.drop_last());
        lemma_insert_by_unit_from(sort_by_unit(values.drop_last()), values.last());
        assert forall|v: ChoiceInputValueView| #[trigger] sort_by_unit(values).contains(v) implies values.contains(v) by {
            if v == values.last() {
                assert(values[values.len() - 1] == v);
            } else {
                assert(sort_by_unit(values.drop_last()).contains(v));
                let j = choose|j: int| 0 <= j < values.drop_last().len() && values.drop_last()[j] == v;
                assert(values[j] == v);
            }
        }
    }
}

proof fn lemma_normalize_values_from(inputs: Seq<ChoiceInputView>, values: Seq<ChoiceInputValueView>)
    ensures
        forall|v: ChoiceInputValueView| #[trigger] normalize_values(inputs, values).contains(v) ==> values.contains(v),
    decreases inputs.len(),
{
    if inputs.len() > 0 {
        lemma_normalize_values_from(inputs.drop_last(), values);
        let id = inputs.last().input_id;
        lemma_values_with_from(values, id);
        lemma_sort_by_unit_from(values_with(values, id));
        let a = normalize_values(inputs.drop_last(), values);
        let b = sort_by_unit(values_with(values, id));
        assert forall|v: ChoiceInputValueView| #[trigger] normalize_values(inputs, values).contains(v) implies values.contains(v) by {
            let j = choose|j: int| 0 <= j < (a + b).len() && (a + b)[j] == v;
            if j < a.len() {
                assert(a[j] == v);
                assert(a.contains(v));
            } else {
                assert(b[j - a.len()] == v);
                assert(b.contains(v));
                assert(values_with(values, id).contains(v));
            }
        }
    }
}

/// Validation lets through only values that fit their inputs: when a
/// choice's input values validate, every value it returns was entered,
/// belongs to one of the choice's input definitions, and has a length within
/// that input's minimum and maximum.
pub proof fn lemma_validated_values_respect_lengths(c: ChoiceView, quantity: u32, values: Seq<ChoiceInputValueView>)
    requires
        c.validate_inputs(quantity, values) is Ok,
    ensures
        forall|v: ChoiceInputValueView| #[trigger] c.validate_inputs(quantity, values)->Ok_0.contains(v) ==> {
            &&& values.contains(v)
            &&& has_input(c.inputs, v.input_id)
            &&& length_within(first_input(c.inputs, v.input_id), v.value)
        },
{
    reveal(ChoiceView::validate_inputs);
    assert(forall|k: int| 0 <= k < values.len() ==> #[trigger] c.value_error(quantity, values, k) is None);
    lemma_normalize_values_from(c.inputs, values);
    assert forall|v: ChoiceInputValueView| #[trigger] c.validate_inputs(quantity, values)->Ok_0.contains(v) implies {
        &&& values.contains(v)
        &&& has_input(c.inputs, v.input_id)
        &&& length_within(first_input(c.inputs, v.input_id), v.value)
    } by {
        assert(normalize_values(c.inputs, values).contains(v));
        let k = choose|k: int| 0 <= k < values.len() && values[k] == v;
        assert(c.value_error(quantity, values, k) is None);
        reveal(ChoiceView::value_error);
    }
}

/// The first input definition whose identifier an earlier one already has.
pub open spec fn duplicate_input(inputs: Seq<ChoiceInputView>, j: int) -> bool {
    exists|i: int| 0 <= i < j && #[trigger] inputs[i].input_id == inputs[j].input_id
}

/// The view of a choice freshly defined from its parts.
pub open spec fn new_choice_view(choice_id: PrefixedIdView, label: LabelView, rules: Seq<Rule>, effects: Seq<EffectView>) -> ChoiceView {
    ChoiceView {
        choice_id,
        label,
        media: Seq::empty(),
        schedule: None,
        rules,
        effects,
        price: ChoicePriceView { flat_amount: None, invariant_rate: crate::primitives::money::RateView { numerator: 0, denominator: 1 }, factor: None },
        inputs: Seq::empty(),
        modifiers: None,
    }
}

proof fn lemma_values_with_step(values: Seq<ChoiceInputValueView>, id: PrefixedIdView, i: int)
    requires
        0 <= i < values.len(),
    ensures
        values_with(values.take(i + 1), id) == if values[i].input_id == id {
            values_with(values.take(i), id).push(values[i])
        } else {
            values_with(values.take(i), id)
        },
{
    assert(values.take(i + 1).drop_last() =~= values.take(i));
}

proof fn lemma_insert_at(sorted: Seq<ChoiceInputValueView>, v: ChoiceInputValueView, p: int)
    requires
        0 <= p <= sorted.len(),
        p == 0 || unit_key(sorted[p - 1].unit) <= unit_key(v.unit),
        forall|i: int| p <= i < sorted.len() ==> unit_key(#[trigger] sorted[i].unit) > unit_key(v.unit),
    ensures
        insert_by_unit(sorted, v) == sorted.insert(p, v),
    decreases sorted.len(),
{
    if sorted.len() == p {
        assert(sorted.insert(p, v) =~= sorted.push(v));
    } else {
        let init = sorted.drop_last();
        assert forall|i: int| p <= i < init.len() implies unit_key(#[trigger] init[i].unit) > unit_key(v.unit) by {
            assert(init[i] == sorted[i]);
        }
        lemma_insert_at(init, v, p);
        assert(sorted.insert(p, v) =~= init.insert(p, v).push(sorted.last()));
    }
}

/// Inserts `v` into a list kept in the order `insert_by_unit` gives.
fn insert_value_by_unit(sorted: &mut Vec<ChoiceInputValue>, v: ChoiceInputValue)
    ensures
        final(sorted).deep_view() == insert_by_unit(old(sorted).deep_view(), v@),
{
    let ghost before = sorted.deep_view();
    let mut p: usize = sorted.len();
    while p > 0 && unit_key_exec(sorted[p - 1].unit()) > unit_key_exec(v.unit())
        invariant
            p <= sorted.len(),
            before == sorted.deep_view(),
            forall|i: int| p <= i < before.len() ==> unit_key(#[trigger] before[i].unit) > unit_key(v@.unit),
        decreases p,
    {
        assert(before[p - 1] == sorted@[p - 1]@);
        p -= 1;
    }
    proof {
        if p > 0 {
            assert(before[p - 1] == sorted@[p - 1]@);
        }
        lemma_insert_at(before, v@, p as int);
    }
    let ghost vv = v@;
    sorted.insert(p, v);
    assert(sorted.deep_view() =~= before.insert(p as int, vv));
}

fn unit_key_exec(unit: Option<u32>) -> (r: i64)
    ensures
        r == unit_key(unit),
{
    match unit {
        Some(u) => u as i64,
        None => -1,
    }
}

impl Choice {
    pub fn new(choice_id: ComponentId, title: &str, rules: Vec<Rule>, effects: Vec<Effect>) -> (r: Result<Self, ModifierError>)
        ensures
            match r {
                Ok(c) => !is_blank(title@)
                    && new_choice_view(choice_id@, generated_label_view(choice_id@.suffix + "-TITLE"@, title@), rules@, effects.deep_view()).check_rules() is Ok
                    && c@ == new_choice_view(choice_id@, generated_label_view(choice_id@.suffix + "-TITLE"@, title@), rules@, effects.deep_view()),
                Err(e) => if is_blank(title@) {
                    e@ == ModifierErrorView::EmptyChoiceTitle
                } else {
                    new_choice_view(choice_id@, generated_label_view(choice_id@.suffix + "-TITLE"@, title@), rules@, effects.deep_view()).check_rules()
                        == Err::<(), ModifierErrorView>(e@)
                },
            },
    {
        if str_is_blank(title) {
            return Err(ModifierError::EmptyChoiceTitle);
        }
        proof {
            reveal_strlit("-TITLE");
        }
        let suffix = slot_suffix(choice_id.suffix(), "-TITLE");
        let label = generated_label(suffix.as_str(), title);
        Self::new_labeled(choice_id, label, rules, effects)
    }

    pub fn new_labeled(choice_id: ComponentId, label: Label, rules: Vec<Rule>, effects: Vec<Effect>) -> (r: Result<Self, ModifierError>)
        ensures
            match r {
                Ok(c) => new_choice_view(choice_id@, label@, rules@, effects.deep_view()).check_rules() is Ok
                    && c@ == new_choice_view(choice_id@, label@, rules@, effects.deep_view()),
                Err(e) => new_choice_view(choice_id@, label@, rules@, effects.deep_view()).check_rules() == Err::<(), ModifierErrorView>(e@),
            },
    {
        let choice = Choice {
            choice_id,
            label,
            media: MediaCollection::empty(),
            schedule: None,
            rules,
            effects,
            price: ChoicePrice::none(),
            inputs: Vec::new(),
            modifiers: None,
        };
        assert(choice.inputs.deep_view() =~= Seq::<ChoiceInputView>::empty());
        choice.validate_rules()?;
        Ok(choice)
    }

    pub fn with_modifiers(self, modifiers: Modifiers) -> (r: Self)
        ensures
            r@ == (ChoiceView { modifiers: Some(Box::new(modifiers@)), ..self@ }),
    {
        Choice { modifiers: Some(Box::new(modifiers)), ..self }
    }

    pub fn with_price(self, price: ChoicePrice) -> (r: Self)
        ensures
            r@ == (ChoiceView { price: price@, ..self@ }),
    {
        Choice { price, ..self }
    }

    /// Sets the input definitions; an input identifier used twice is refused.
    pub fn with_inputs(self, inputs: Vec<ChoiceInput>) -> (r: Result<Self, ModifierError>)
        ensures
            r is Ok <==> !exists|j: int| 0 <= j < inputs.len() && #[trigger] duplicate_input(inputs.deep_view(), j),
            r matches Ok(c) ==> c@ == (ChoiceView { inputs: inputs.deep_view(), ..self@ }),
            r matches Err(e) ==> exists|j: int| 0 <= j < inputs.len() && #[trigger] duplicate_input(inputs.deep_view(), j)
                && (forall|k: int| 0 <= k < j ==> !duplicate_input(inputs.deep_view(), k))
                && e@ == ModifierErrorView::ChoiceInput(ChoiceInputErrorView::DuplicateDefinition(inputs.deep_view()[j].input_id)),
    {
        let ghost iv = inputs.deep_view();
        let mut j: usize = 0;
        while j < inputs.len()
            invariant
                j <= inputs.len(),
                iv == inputs.deep_view(),
                forall|k: int| 0 <= k < j ==> !#[trigger] duplicate_input(iv, k),
            decreases inputs.len() - j,
        {
            let mut i: usize = 0;
            while i < j
                invariant
                    i <= j < inputs.len(),
                    iv == inputs.deep_view(),
                    forall|k: int| 0 <= k < j ==> !#[trigger] duplicate_input(iv, k),
                    forall|k: int| 0 <= k < i ==> #[trigger] iv[k].input_id != iv[j as int].input_id,
                decreases j - i,
            {
                assert(iv[i as int] == inputs@[i as int]@);
                assert(iv[j as int] == inputs@[j as int]@);
                if inputs[i].input_id.same_as(&inputs[j].input_id) {
                    assert(iv[i as int].input_id == iv[j as int].input_id);
                    assert(duplicate_input(iv, j as int));
                    return Err(ModifierError::from(ChoiceInputError::DuplicateDefinition(inputs[j].input_id.clone())));
                }
                i += 1;
            }
            j += 1;
        }
        Ok(Choice { inputs, ..self })
    }

    pub fn with_media(self, media: MediaCollection) -> (r: Self)
        ensures
            r@ == (ChoiceView { media: media@, ..self@ }),
    {
        Choice { media, ..self }
    }

    pub fn with_schedule(self, schedule: Schedule) -> (r: Self)
        ensures
            r@ == (ChoiceView { schedule: Some(schedule@), ..self@ }),
    {
        Choice { schedule: Some(schedule), ..self }
    }

    pub fn choice_id(&self) -> (r: &ComponentId)
        ensures
            r@ == self@.choice_id,
    {
        &self.choice_id
    }

    pub fn title(&self) -> (r: &str)
        ensures
            r@ == self@.label.default,
    {
        self.label.default_text()
    }

    pub fn label(&self) -> (r: &Label)
        ensures
            r@ == self@.label,
    {
        &self.label
    }

    pub fn media(&self) -> (r: &MediaCollection)
        ensures
            r@ == self@.media,
    {
        &self.media
    }

    pub fn schedule(&self) -> (r: Option<&Schedule>)
        ensures
            match r {
                Some(s) => self@.schedule == Some(s@),
                None => self@.schedule is None,
            },
    {
        match &self.schedule {
            Some(s) => Some(s),
            None => None,
        }
    }

    pub fn is_available_at(&self, evaluation_time: Option<&EvaluationTime>) -> (r: Result<bool, ModifierError>)
        ensures
            match r {
                Ok(b) => self@.availability(opt_time_view(evaluation_time)) == Ok::<bool, ModifierErrorView>(b),
                Err(e) => self@.availability(opt_time_view(evaluation_time)) == Err::<bool, ModifierErrorView>(e@),
            },
    {
        match &self.schedule {
            None => Ok(true),
            Some(schedule) => match evaluation_time {
                None => Err(ModifierError::ScheduledChoiceRequiresEvaluationTime(self.choice_id.clone())),
                Some(t) => Ok(schedule.is_scheduled_at(t)),
            },
        }
    }

    pub fn rules(&self) -> (r: &[Rule])
        ensures
            r@ == self@.rules,
    {
        self.rules.as_slice()
    }

    pub fn effects(&self) -> (r: &[Effect])
        ensures
            r.deep_view() == self@.effects,
    {
        self.effects.as_slice()
    }

    pub fn price(&self) -> (r: &ChoicePrice)
        ensures
            r@ == self@.price,
    {
        &self.price
    }

    pub fn inputs(&self) -> (r: &[ChoiceInput])
        ensures
            r.deep_view() == self@.inputs,
    {
        self.inputs.as_slice()
    }

    pub fn modifiers(&self) -> (r: Option<&Modifiers>)
        ensures
            match r {
                Some(m) => self@.modifiers == Some(Box::new(m@)),
                None => self@.modifiers is None,
            },
    {
        match &self.modifiers {
            Some(b) => Some(&**b),
            None => None,
        }
    }

    pub fn is_visible_at(&self, evaluation_time: &EvaluationTime) -> (r: bool)
        ensures
            r == self@.visible_at(evaluation_time@),
    {
        match &self.schedule {
            Some(schedule) => schedule.is_scheduled_at(evaluation_time),
            None => true,
        }
    }

    fn validate_rules(&self) -> (r: Result<(), ModifierError>)
        ensures
            match r {
                Ok(_) => self@.check_rules() is Ok,
                Err(e) => self@.check_rules() == Err::<(), ModifierErrorView>(e@),
            },
    {
        SelectionBounds::from_rules(self.rules.as_slice())?;
        if let Some(q) = self.default_quantity()? {
            self.validate_quantity(q)?;
        }
        Ok(())
    }

    fn validate_quantity(&self, quantity: u32) -> (r: Result<(), ModifierError>)
        ensures
            match r {
                Ok(_) => self@.check_quantity(quantity) is Ok,
                Err(e) => self@.check_quantity(quantity) == Err::<(), ModifierErrorView>(e@),
            },
    {
        let bounds = SelectionBounds::from_rules(self.rules.as_slice())?;
        if quantity < bounds.min {
            return Err(ModifierError::ChoiceBelowMinimum { choice_id: self.choice_id.clone(), min_select: bounds.min, actual: quantity });
        }
        if let Some(max_select) = bounds.max {
            if quantity > max_select {
                return Err(ModifierError::ChoiceAboveMaximum { choice_id: self.choice_id.clone(), max_select, actual: quantity });
            }
        }
        Ok(())
    }

    fn default_quantity(&self) -> (r: Result<Option<u32>, ModifierError>)
        ensures
            match r {
                Ok(q) => self@.default_quantity() == Ok::<Option<u32>, ModifierErrorView>(q),
                Err(e) => self@.default_quantity() == Err::<Option<u32>, ModifierErrorView>(e@),
            },
    {
        let ghost rules = self.rules@;
        let mut found: Option<u32> = None;
        let mut i: usize = 0;
        while i < self.rules.len()
            invariant
                i <= self.rules.len(),
                rules == self.rules@,
                default_scan(rules.take(i as int), self@.choice_id) == Ok::<Option<u32>, ModifierErrorView>(found),
            decreases self.rules.len() - i,
        {
            proof {
                lemma_default_scan_step(rules, self@.choice_id, i as int);
            }
            if let Rule::Default(q) = self.rules[i] {
                if q == 0 {
                    proof {
                        lemma_default_scan_error_sticks(rules, self@.choice_id, i + 1);
                    }
                    return Err(ModifierError::ZeroDefaultQuantity(self.choice_id.clone()));
                }
                if found.is_some() {
                    proof {
                        lemma_default_scan_error_sticks(rules, self@.choice_id, i + 1);
                    }
                    return Err(ModifierError::DuplicateDefault(self.choice_id.clone()));
                }
                found = Some(q);
            }
            i += 1;
        }
        assert(rules.take(self.rules.len() as int) =~= rules);
        Ok(found)
    }
}

pub open spec fn opt_time_view(t: Option<&EvaluationTime>) -> Option<EvaluationTimeView> {
    match t {
        Some(x) => Some(x@),
        None => None,
    }
}

proof fn lemma_first_value_error(c: ChoiceView, quantity: u32, values: Seq<ChoiceInputValueView>, k: int)
    requires
        0 <= k < values.len(),
        c.value_error(quantity, values, k) is Some,
        forall|j: int| 0 <= j < k ==> #[trigger] c.value_error(quantity, values, j) is None,
    ensures
        c.validate_inputs(quantity, values) == Err::<Seq<ChoiceInputValueView>, ModifierErrorView>(
            ModifierErrorView::ChoiceInput(c.value_error(quantity, values, k)->0),
        ),
{
    reveal(ChoiceView::validate_inputs);
    let w = choose|w: int| 0 <= w < values.len() && #[trigger] c.value_error(quantity, values, w) is Some
        && forall|j: int| 0 <= j < w ==> #[trigger] c.value_error(quantity, values, j) is None;
    assert(c.value_error(quantity, values, k) is Some);
    if w < k {
        assert(c.value_error(quantity, values, w) is None);
    } else if w > k {
        assert(c.value_error(quantity, values, k) is None);
    }
}

proof fn lemma_first_missing_error(c: ChoiceView, quantity: u32, values: Seq<ChoiceInputValueView>, i: int)
    requires
        0 <= i < c.inputs.len(),
        forall|k: int| 0 <= k < values.len() ==> #[trigger] c.value_error(quantity, values, k) is None,
        c.missing_error(quantity, values, i) is Some,
        forall|j: int| 0 <= j < i ==> #[trigger] c.missing_error(quantity, values, j) is None,
    ensures
        c.validate_inputs(quantity, values) == Err::<Seq<ChoiceInputValueView>, ModifierErrorView>(
            ModifierErrorView::ChoiceInput(c.missing_error(quantity, values, i)->0),
        ),
{
    reveal(ChoiceView::validate_inputs);
    let w = choose|w: int| 0 <= w < c.inputs.len() && #[trigger] c.missing_error(quantity, values, w) is Some
        && forall|j: int| 0 <= j < w ==> #[trigger] c.missing_error(quantity, values, j) is None;
    assert(c.missing_error(quantity, values, i) is Some);
    if w < i {
        assert(c.missing_error(quantity, values, w) is None);
    } else if w > i {
        assert(c.missing_error(quantity, values, i) is None);
    }
}

impl Choice {
    /// The first definition of an input, by identifier.
    fn find_input(&self, input_id: &ComponentId) -> (r: Option<usize>)
        ensures
            match r {
                Some(i) => i < self.inputs.len() && has_input(self@.inputs, input_id@)
                    && first_input(self@.inputs, input_id@) == self@.inputs[i as int]
                    && self.inputs@[i as int]@ == self@.inputs[i as int],
                None => !has_input(self@.inputs, input_id@),
            },
    {
        let ghost iv = self@.inputs;
        let mut i: usize = 0;
        while i < self.inputs.len()
            invariant
                i <= self.inputs.len(),
                iv == self@.inputs,
                iv == self.inputs.deep_view(),
                forall|j: int| 0 <= j < i ==> #[trigger] iv[j].input_id != input_id@,
            decreases self.inputs.len() - i,
        {
            assert(iv[i as int] == self.inputs@[i as int]@);
            if self.inputs[i].input_id.same_as(input_id) {
                proof {
                    assert(iv[i as int].input_id == input_id@);
                    assert(has_input(iv, input_id@));
                    let w = choose|w: int| 0 <= w < iv.len() && #[trigger] iv[w].input_id == input_id@ && forall|j: int| 0 <= j < w ==> #[trigger] iv[j].input_id != input_id@;
                    if w < i {
                        assert(iv[w].input_id != input_id@);
                    } else if w > i {
                        assert(iv[i as int].input_id != input_id@);
                    }
                }
                return Some(i);
            }
            i += 1;
        }
        None
    }

    /// Checks the `k`-th input value of a selection of `quantity` units.
    fn check_input_value(&self, quantity: u32, values: &[ChoiceInputValue], k: usize) -> (r: Result<(), ModifierError>)
        requires
            k < values.len(),
        ensures
            match r {
                Ok(_) => self@.value_error(quantity, values.deep_view(), k as int) is None,
                Err(e) => self@.value_error(quantity, values.deep_view(), k as int) matches Some(ie)
                    && e@ == ModifierErrorView::ChoiceInput(ie),
            },
    {
        proof {
            reveal(ChoiceView::value_error);
        }
        let ghost vs = values.deep_view();
        let value = &values[k];
        assert(vs[k as int] == value@);
        let input_index = match self.find_input(value.input_id()) {
            Some(i) => i,
            None => {
                return Err(ModifierError::from(ChoiceInputError::UnknownInput {
                    choice_id: self.choice_id.clone(),
                    input_id: value.input_id().clone(),
                }));
            },
        };
        let input = &self.inputs[input_index];
        match (input.repeat_per_quantity, value.unit()) {
            (false, Some(_)) => {
                return Err(ModifierError::from(ChoiceInputError::UnexpectedUnit {
                    choice_id: self.choice_id.clone(),
                    input_id: value.input_id().clone(),
                }));
            },
            (true, None) => {
                return Err(ModifierError::from(ChoiceInputError::UnitRequired {
                    choice_id: self.choice_id.clone(),
                    input_id: value.input_id().clone(),
                }));
            },
            (true, Some(unit)) => {
                if unit == 0 || unit > quantity {
                    return Err(ModifierError::from(ChoiceInputError::UnitOutOfRange {
                        choice_id: self.choice_id.clone(),
                        input_id: value.input_id().clone(),
                        unit,
                        quantity,
                    }));
                }
            },
            (false, None) => {},
        }
        if duplicate_before(values, k) {
            return Err(ModifierError::from(ChoiceInputError::DuplicateValue {
                choice_id: self.choice_id.clone(),
                input_id: values[k].input_id().clone(),
                unit: values[k].unit(),
            }));
        }
        let length = crate::text::chars_of(value.value()).len();
        if let Some(min_length) = input.min_length {
            if (length as u64) < (min_length as u64) {
                return Err(ModifierError::from(ChoiceInputError::BelowMinimumLength {
                    choice_id: self.choice_id.clone(),
                    input_id: value.input_id().clone(),
                    min_length,
                    actual: length,
                }));
            }
        }
        if let Some(max_length) = input.max_length {
            if (length as u64) > (max_length as u64) {
                return Err(ModifierError::from(ChoiceInputError::AboveMaximumLength {
                    choice_id: self.choice_id.clone(),
                    input_id: value.input_id().clone(),
                    max_length,
                    actual: length,
                }));
            }
        }
        Ok(())
    }

    /// Checks that the `i`-th input definition has the values it requires.
    fn check_required_input(&self, quantity: u32, values: &[ChoiceInputValue], i: usize) -> (r: Result<(), ModifierError>)
        requires
            i < self@.inputs.len(),
        ensures
            match r {
                Ok(_) => self@.missing_error(quantity, values.deep_view(), i as int) is None,
                Err(e) => self@.missing_error(quantity, values.deep_view(), i as int) matches Some(ie)
                    && e@ == ModifierErrorView::ChoiceInput(ie),
            },
    {
        proof {
            reveal(ChoiceView::missing_error);
        }
        let ghost vs = values.deep_view();
        assert(self@.inputs == self.inputs.deep_view());
        let input = &self.inputs[i];
        assert(self@.inputs[i as int] == input@);
        if !input.required {
            return Ok(());
        }
        let expected: u32 = if input.repeat_per_quantity { quantity } else { 1 };
        let actual = count_values_with(values, &input.input_id);
        if (actual as u64) != (expected as u64) {
            return Err(ModifierError::from(ChoiceInputError::MissingRequiredValue {
                choice_id: self.choice_id.clone(),
                input_id: input.input_id.clone(),
                expected,
                actual,
            }));
        }
        Ok(())
    }

    /// Checks the input values of a selection of `quantity` units and returns
    /// them grouped by input definition and ordered by unit.
    #[verifier::spinoff_prover]
    fn validate_inputs(&self, quantity: u32, values: &[ChoiceInputValue]) -> (r: Result<Vec<ChoiceInputValue>, ModifierError>)
        ensures
            match r {
                Ok(v) => self@.validate_inputs(quantity, values.deep_view()) == Ok::<Seq<ChoiceInputValueView>, ModifierErrorView>(v.deep_view()),
                Err(e) => self@.validate_inputs(quantity, values.deep_view()) == Err::<Seq<ChoiceInputValueView>, ModifierErrorView>(e@),
            },
    {
        let ghost vs = values.deep_view();
        let ghost c = self@;
        let mut k: usize = 0;
        while k < values.len()
            invariant
                k <= values.len(),
                vs == values.deep_view(),
                c == self@,
                forall|j: int| 0 <= j < k ==> #[trigger] c.value_error(quantity, vs, j) is None,
            decreases values.len() - k,
        {
            match self.check_input_value(quantity, values, k) {
                Ok(_) => {},
                Err(e) => {
                    proof {
                        lemma_first_value_error(c, quantity, vs, k as int);
                    }
                    return Err(e);
                },
            }
            k += 1;
        }
        let mut i: usize = 0;
        while i < self.inputs.len()
            invariant
                i <= self.inputs.len(),
                vs == values.deep_view(),
                c == self@,
                c.inputs == self.inputs.deep_view(),
                forall|j: int| 0 <= j < values.len() ==> #[trigger] c.value_error(quantity, vs, j) is None,
                forall|j: int| 0 <= j < i ==> #[trigger] c.missing_error(quantity, vs, j) is None,
            decreases self.inputs.len() - i,
        {
            match self.check_required_input(quantity, values, i) {
                Ok(_) => {},
                Err(e) => {
                    proof {
                        lemma_first_missing_error(c, quantity, vs, i as int);
                    }
                    return Err(e);
                },
            }
            i += 1;
        }
        let normalized = self.normalize(values);
        proof {
            reveal(ChoiceView::validate_inputs);
            assert(!exists|k: int| 0 <= k < vs.len() && #[trigger] c.value_error(quantity, vs, k) is Some);
            assert(!exists|j: int| 0 <= j < c.inputs.len() && #[trigger] c.missing_error(quantity, vs, j) is Some);
        }
        Ok(normalized)
    }

    /// The values grouped by input definition and ordered by unit.
    fn normalize(&self, values: &[ChoiceInputValue]) -> (r: Vec<ChoiceInputValue>)
        ensures
            r.deep_view() == normalize_values(self@.inputs, values.deep_view()),
    {
        let ghost vs = values.deep_view();
        let ghost inputs = self@.inputs;
        assert(inputs == self.inputs.deep_view());
        let mut normalized: Vec<ChoiceInputValue> = Vec::new();
        let mut i: usize = 0;
        assert(normalized.deep_view() =~= normalize_values(inputs.take(0), vs));
        while i < self.inputs.len()
            invariant
                i <= self.inputs.len(),
                vs == values.deep_view(),
                inputs == self.inputs.deep_view(),
                normalized.deep_view() == normalize_values(inputs.take(i as int), vs),
            decreases self.inputs.len() - i,
        {
            assert(inputs[i as int] == self.inputs@[i as int]@);
            let mut group = sorted_values_with(values, &self.inputs[i].input_id);
            let ghost before = normalized.deep_view();
            let ghost gv = group.deep_view();
            normalized.append(&mut group);
            proof {
                assert(normalized.deep_view() =~= before + gv);
                assert(inputs.take(i + 1).drop_last() =~= inputs.take(i as int));
            }
            i += 1;
        }
        assert(inputs.take(self.inputs.len() as int) =~= inputs);
        normalized
    }
}

/// How many values were entered for the given input.
fn count_values_with(values: &[ChoiceInputValue], input_id: &ComponentId) -> (r: usize)
    ensures
        r == values_with(values.deep_view(), input_id@).len(),
{
    let ghost vs = values.deep_view();
    let mut actual: usize = 0;
    let mut m: usize = 0;
    while m < values.len()
        invariant
            m <= values.len(),
            vs == values.deep_view(),
            actual == values_with(vs.take(m as int), input_id@).len(),
            actual <= m,
        decreases values.len() - m,
    {
        proof {
            lemma_values_with_step(vs, input_id@, m as int);
        }
        assert(vs[m as int] == values@[m as int]@);
        if values[m].input_id().same_as(input_id) {
            actual += 1;
        }
        m += 1;
    }
    assert(vs.take(values.len() as int) =~= vs);
    actual
}

/// The values entered for the given input, ordered by unit.
fn sorted_values_with(values: &[ChoiceInputValue], input_id: &ComponentId) -> (r: Vec<ChoiceInputValue>)
    ensures
        r.deep_view() == sort_by_unit(values_with(values.deep_view(), input_id@)),
{
    let ghost vs = values.deep_view();
    let mut group: Vec<ChoiceInputValue> = Vec::new();
    let mut m: usize = 0;
    assert(group.deep_view() =~= sort_by_unit(values_with(vs.take(0), input_id@)));
    while m < values.len()
        invariant
            m <= values.len(),
            vs == values.deep_view(),
            group.deep_view() == sort_by_unit(values_with(vs.take(m as int), input_id@)),
        decreases values.len() - m,
    {
        proof {
            lemma_values_with_step(vs, input_id@, m as int);
        }
        assert(vs[m as int] == values@[m as int]@);
        if values[m].input_id().same_as(input_id) {
            let v = values[m].clone();
            proof {
                let w = values_with(vs.take(m as int), input_id@);
                assert(w.push(v@).drop_last() =~= w);
            }
            insert_value_by_unit(&mut group, v);
        }
        m += 1;
    }
    assert(vs.take(values.len() as int) =~= vs);
    group
}

/// Whether an earlier value has the same input and unit as the `k`-th.
fn duplicate_before(values: &[ChoiceInputValue], k: usize) -> (r: bool)
    requires
        k < values.len(),
    ensures
        r == exists|j: int| 0 <= j < k && #[trigger] values.deep_view()[j].input_id == values.deep_view()[k as int].input_id
            && values.deep_view()[j].unit == values.deep_view()[k as int].unit,
{
    let ghost vs = values.deep_view();
    assert(vs[k as int] == values@[k as int]@);
    let mut j: usize = 0;
    while j < k
        invariant
            j <= k < values.len(),
            vs == values.deep_view(),
            vs[k as int] == values@[k as int]@,
            forall|m: int| 0 <= m < j ==> !(#[trigger] vs[m].input_id == vs[k as int].input_id && vs[m].unit == vs[k as int].unit),
        decreases k - j,
    {
        assert(vs[j as int] == values@[j as int]@);
        if values[j].input_id().same_as(values[k].input_id()) && values[j].unit() == values[k].unit() {
            assert(vs[j as int].input_id == vs[k as int].input_id && vs[j as int].unit == vs[k as int].unit);
            return true;
        }
        j += 1;
    }
    false
}

impl Clone for Modifiers {
    fn clone(&self) -> (r: Self)
        ensures
            r@ == self@,
        decreases self,
    {
        proof {
            lemma_modifiers_view(*self);
        }
        let label = match &self.label {
            Some(l) => Some(l.clone()),
            None => None,
        };
        let mut prompts: Vec<Prompt> = Vec::new();
        let mut i: usize = 0;
        while i < self.prompts.len()
            invariant
                i <= self.prompts.len(),
                prompt_views(prompts@) == prompt_views(self.prompts@).take(i as int),
            decreases self.prompts.len() - i,
        {
            assert(decreases_to!(self => self.prompts@[i as int]));
            let p = self.prompts[i].clone();
            let ghost before = prompts@;
            prompts.push(p);
            assert(prompt_views(prompts@) =~= prompt_views(before).push(p@));
            assert(prompt_views(self.prompts@).take(i + 1) =~= prompt_views(self.prompts@).take(i as int).push(self.prompts@[i as int]@));
            i += 1;
        }
        let r = Modifiers { label, prompts };
        proof {
            lemma_modifiers_view(r);
            assert(prompt_views(self.prompts@).take(self.prompts.len() as int) =~= prompt_views(self.prompts@));
        }
        r
    }
}

impl Clone for Prompt {
    fn clone(&self) -> (r: Self)
        ensures
            r@ == self@,
        decreases self,
    {
        proof {
            lemma_prompt_view(*self);
        }
        let description = match &self.description {
            Some(l) => Some(l.clone()),
            None => None,
        };
        let mut choices: Vec<Choice> = Vec::new();
        let mut i: usize = 0;
        while i < self.choices.len()
            invariant
                i <= self.choices.len(),
                choice_views(choices@) == choice_views(self.choices@).take(i as int),
            decreases self.choices.len() - i,
        {
            assert(decreases_to!(self => self.choices@[i as int]));
            let c = self.choices[i].clone();
            let ghost before = choices@;
            choices.push(c);
            assert(choice_views(choices@) =~= choice_views(before).push(c@));
            assert(choice_views(self.choices@).take(i + 1) =~= choice_views(self.choices@).take(i as int).push(self.choices@[i as int]@));
            i += 1;
        }
        let r = Prompt {
            prompt_id: self.prompt_id.clone(),
            label: self.label.clone(),
            description,
            rules: self.rules.clone(),
            effects: clone_effects(self.effects.as_slice()),
            choices,
        };
        proof {
            lemma_prompt_view(r);
            assert(choice_views(self.choices@).take(self.choices.len() as int) =~= choice_views(self.choices@));
            assert(r.rules@ =~= self.rules@);
        }
        r
    }
}

fn clone_inputs(inputs: &Vec<ChoiceInput>) -> (r: Vec<ChoiceInput>)
    ensures
        r.deep_view() == inputs.deep_view(),
{
    let mut out: Vec<ChoiceInput> = Vec::new();
    let mut i: usize = 0;
    while i < inputs.len()
        invariant
            i <= inputs.len(),
            out.deep_view() == inputs.deep_view().take(i as int),
        decreases inputs.len() - i,
    {
        let v = inputs[i].clone();
        let ghost before = out.deep_view();
        out.push(v);
        assert(out.deep_view() =~= before.push(v@));
        assert(inputs.deep_view().take(i + 1) =~= inputs.deep_view().take(i as int).push(inputs.deep_view()[i as int]));
        i += 1;
    }
    assert(inputs.deep_view().take(inputs.len() as int) =~= inputs.deep_view());
    out
}

impl Clone for Choice {
    fn clone(&self) -> (r: Self)
        ensures
            r@ == self@,
        decreases self,
    {
        let modifiers = match &self.modifiers {
            Some(b) => {
                assert(decreases_to!(self => **b));
                Some(Box::new((**b).clone()))
            },
            None => None,
        };
        let schedule = match &self.schedule {
            Some(s) => Some(s.clone()),
            None => None,
        };
        let r = Choice {
            choice_id: self.choice_id.clone(),
            label: self.label.clone(),
            media: self.media.clone(),
            schedule,
            rules: self.rules.clone(),
            effects: clone_effects(self.effects.as_slice()),
            price: self.price.clone(),
            inputs: clone_inputs(&self.inputs),
            modifiers,
        };
        assert(r.rules@ =~= self.rules@);
        r
    }
}

/// The abstract value of an applicability: the prompts and choices left out.
pub struct ApplicabilityView {
    pub inapplicable_prompts: Set<PrefixedIdView>,
    pub inapplicable_choices: Set<PrefixedIdView>,
}

/// Which prompts and choices apply, for example to one variant.
#[derive(Debug, Eq, PartialEq)]
pub struct ModifierApplicability {
    inapplicable_prompts: Vec<ComponentId>,
    inapplicable_choices: Vec<ComponentId>,
}

/// The set of the views of a list of identifiers.
pub open spec fn id_set(ids: Seq<ComponentId>) -> Set<PrefixedIdView> {
    Set::new(|x: PrefixedIdView| exists|i: int| 0 <= i < ids.len() && #[trigger] ids[i]@ == x)
}

impl View for ModifierApplicability {
    type V = ApplicabilityView;

    closed spec fn view(&self) -> ApplicabilityView {
        ApplicabilityView {
            inapplicable_prompts: id_set(self.inapplicable_prompts@),
            inapplicable_choices: id_set(self.inapplicable_choices@),
        }
    }
}

fn ids_contain(ids: &Vec<ComponentId>, id: &ComponentId) -> (r: bool)
    ensures
        r == id_set(ids@).contains(id@),
{
    let mut i: usize = 0;
    while i < ids.len()
        invariant
            i <= ids.len(),
            forall|j: int| 0 <= j < i ==> #[trigger] ids@[j]@ != id@,
        decreases ids.len() - i,
    {
        if ids[i].same_as(id) {
            assert(id_set(ids@).contains(id@));
            return true;
        }
        i += 1;
    }
    false
}

fn ids_with(ids: Vec<ComponentId>, id: ComponentId) -> (r: Vec<ComponentId>)
    ensures
        id_set(r@) == id_set(ids@).insert(id@),
{
    if ids_contain(&ids, &id) {
        assert(id_set(ids@) =~= id_set(ids@).insert(id@));
        return ids;
    }
    let ghost before = ids@;
    let ghost v = id@;
    let mut out = ids;
    out.push(id);
    assert forall|x: PrefixedIdView| #[trigger] id_set(out@).contains(x) == id_set(before).insert(v).contains(x) by {
        if id_set(out@).contains(x) {
            let i = choose|i: int| 0 <= i < out@.len() && #[trigger] out@[i]@ == x;
            if i < before.len() {
                assert(before[i]@ == x);
            }
        }
        if id_set(before).contains(x) {
            let i = choose|i: int| 0 <= i < before.len() && #[trigger] before[i]@ == x;
            assert(out@[i]@ == x);
        }
        if x == v {
            assert(out@[before.len() as int]@ == x);
        }
    }
    assert(id_set(out@) =~= id_set(before).insert(v));
    out
}

fn clone_ids(ids: &Vec<ComponentId>) -> (r: Vec<ComponentId>)
    ensures
        r@.len() == ids@.len(),
        forall|i: int| 0 <= i < ids@.len() ==> #[trigger] r@[i]@ == ids@[i]@,
{
    let mut out: Vec<ComponentId> = Vec::new();
    let mut i: usize = 0;
    while i < ids.len()
        invariant
            i <= ids.len(),
            out@.len() == i,
            forall|j: int| 0 <= j < i ==> #[trigger] out@[j]@ == ids@[j]@,
        decreases ids.len() - i,
    {
        out.push(ids[i].clone());
        i += 1;
    }
    out
}

impl Clone for ModifierApplicability {
    fn clone(&self) -> (r: Self)
        ensures
            r@ == self@,
    {
        let r = ModifierApplicability {
            inapplicable_prompts: clone_ids(&self.inapplicable_prompts),
            inapplicable_choices: clone_ids(&self.inapplicable_choices),
        };
        assert forall|x: PrefixedIdView| #[trigger] id_set(r.inapplicable_prompts@).contains(x) == id_set(self.inapplicable_prompts@).contains(x) by {
            if id_set(r.inapplicable_prompts@).contains(x) {
                let i = choose|i: int| 0 <= i < r.inapplicable_prompts@.len() && #[trigger] r.inapplicable_prompts@[i]@ == x;
                assert(self.inapplicable_prompts@[i]@ == x);
            }
            if id_set(self.inapplicable_prompts@).contains(x) {
                let i = choose|i: int| 0 <= i < self.inapplicable_prompts@.len() && #[trigger] self.inapplicable_prompts@[i]@ == x;
                assert(r.inapplicable_prompts@[i]@ == x);
            }
        }
        assert forall|x: PrefixedIdView| #[trigger] id_set(r.inapplicable_choices@).contains(x) == id_set(self.inapplicable_choices@).contains(x) by {
            if id_set(r.inapplicable_choices@).contains(x) {
                let i = choose|i: int| 0 <= i < r.inapplicable_choices@.len() && #[trigger] r.inapplicable_choices@[i]@ == x;
                assert(self.inapplicable_choices@[i]@ == x);
            }
            if id_set(self.inapplicable_choices@).contains(x) {
                let i = choose|i: int| 0 <= i < self.inapplicable_choices@.len() && #[trigger] self.inapplicable_choices@[i]@ == x;
                assert(r.inapplicable_choices@[i]@ == x);
            }
        }
        assert(r@.inapplicable_prompts =~= self@.inapplicable_prompts);
        assert(r@.inapplicable_choices =~= self@.inapplicable_choices);
        r
    }
}

impl Default for ModifierApplicability {
    fn default() -> (r: Self)
        ensures
            r@.inapplicable_prompts == Set::<PrefixedIdView>::empty(),
            r@.inapplicable_choices == Set::<PrefixedIdView>::empty(),
    {
        Self::all()
    }
}

impl ModifierApplicability {
    /// Every prompt and choice applies.
    pub fn all() -> (r: Self)
        ensures
            r@.inapplicable_prompts == Set::<PrefixedIdView>::empty(),
            r@.inapplicable_choices == Set::<PrefixedIdView>::empty(),
    {
        let r = ModifierApplicability { inapplicable_prompts: Vec::new(), inapplicable_choices: Vec::new() };
        assert(r@.inapplicable_prompts =~= Set::<PrefixedIdView>::empty());
        assert(r@.inapplicable_choices =~= Set::<PrefixedIdView>::empty());
        r
    }

    pub fn without_prompt(self, prompt_id: ComponentId) -> (r: Self)
        ensures
            r@ == (ApplicabilityView { inapplicable_prompts: self@.inapplicable_prompts.insert(prompt_id@), ..self@ }),
    {
        ModifierApplicability { inapplicable_prompts: ids_with(self.inapplicable_prompts, prompt_id), ..self }
    }

    pub fn without_choice(self, choice_id: ComponentId) -> (r: Self)
        ensures
            r@ == (ApplicabilityView { inapplicable_choices: self@.inapplicable_choices.insert(choice_id@), ..self@ }),
    {
        ModifierApplicability { inapplicable_choices: ids_with(self.inapplicable_choices, choice_id), ..self }
    }

    pub fn is_prompt_applicable(&self, prompt_id: &ComponentId) -> (r: bool)
        ensures
            r == !self@.inapplicable_prompts.contains(prompt_id@),
    {
        !ids_contain(&self.inapplicable_prompts, prompt_id)
    }

    pub fn is_choice_applicable(&self, choice_id: &ComponentId) -> (r: bool)
        ensures
            r == !self@.inapplicable_choices.contains(choice_id@),
    {
        !ids_contain(&self.inapplicable_choices, choice_id)
    }
}

/// Whether the `j`-th choice repeats the identifier of an earlier one.
pub open spec fn duplicate_choice(choices: Seq<ChoiceView>, j: int) -> bool {
    exists|i: int| 0 <= i < j && #[trigger] choices[i].choice_id == choices[j].choice_id
}

/// What defining a prompt with labels gives: no default rule, valid bounds, a
/// choice when a minimum is set, and each choice identifier once.
pub open spec fn spec_prompt(
    prompt_id: PrefixedIdView,
    label: LabelView,
    description: Option<LabelView>,
    rules: Seq<Rule>,
    effects: Seq<EffectView>,
    choices: Seq<ChoiceView>,
) -> Result<PromptView, ModifierErrorView> {
    if has_default_rule(rules) {
        Err(ModifierErrorView::DefaultRuleOnPrompt)
    } else {
        match spec_bounds(rules) {
            Err(e) => Err(e),
            Ok(b) => if b.min > 0 && choices.len() == 0 {
                Err(ModifierErrorView::RequiredPromptHasNoChoices { prompt_id, min_select: b.min })
            } else if exists|j: int| 0 <= j < choices.len() && #[trigger] duplicate_choice(choices, j) {
                let j = choose|j: int| 0 <= j < choices.len() && #[trigger] duplicate_choice(choices, j)
                    && forall|k: int| 0 <= k < j ==> !#[trigger] duplicate_choice(choices, k);
                Err(ModifierErrorView::DuplicateChoice(choices[j].choice_id))
            } else {
                Ok(PromptView { prompt_id, label, description, rules, effects, choices })
            },
        }
    }
}

/// The description label a prompt generates: none for a missing or blank
/// description.
pub open spec fn generated_description(suffix: Seq<char>, description: Option<Seq<char>>) -> Option<LabelView> {
    match description {
        Some(d) => if is_blank(d) {
            None
        } else {
            Some(generated_label_view(suffix + "-DESCRIPTION"@, d))
        },
        None => None,
    }
}

pub open spec fn opt_string_view(s: Option<String>) -> Option<Seq<char>> {
    match s {
        Some(x) => Some(x@),
        None => None,
    }
}

impl Prompt {
    pub fn new(
        prompt_id: ComponentId,
        title: &str,
        description: Option<String>,
        rules: Vec<Rule>,
        effects: Vec<Effect>,
        choices: Vec<Choice>,
    ) -> (r: Result<Self, ModifierError>)
        ensures
            is_blank(title@) ==> (r matches Err(e) && e@ == ModifierErrorView::EmptyPromptTitle),
            !is_blank(title@) ==> match r {
                Ok(p) => spec_prompt(
                    prompt_id@,
                    generated_label_view(prompt_id@.suffix + "-TITLE"@, title@),
                    generated_description(prompt_id@.suffix, opt_string_view(description)),
                    rules@,
                    effects.deep_view(),
                    choice_views(choices@),
                ) == Ok::<PromptView, ModifierErrorView>(p@),
                Err(e) => spec_prompt(
                    prompt_id@,
                    generated_label_view(prompt_id@.suffix + "-TITLE"@, title@),
                    generated_description(prompt_id@.suffix, opt_string_view(description)),
                    rules@,
                    effects.deep_view(),
                    choice_views(choices@),
                ) == Err::<PromptView, ModifierErrorView>(e@),
            },
    {
        if str_is_blank(title) {
            return Err(ModifierError::EmptyPromptTitle);
        }
        proof {
            reveal_strlit("-TITLE");
            reveal_strlit("-DESCRIPTION");
        }
        let title_suffix = slot_suffix(prompt_id.suffix(), "-TITLE");
        let label = generated_label(title_suffix.as_str(), title);
        let description = match description {
            Some(d) => if str_is_blank(d.as_str()) {
                None
            } else {
                let description_suffix = slot_suffix(prompt_id.suffix(), "-DESCRIPTION");
                Some(generated_label(description_suffix.as_str(), d.as_str()))
            },
            None => None,
        };
        Self::new_labeled(prompt_id, label, description, rules, effects, choices)
    }

    pub fn new_labeled(
        prompt_id: ComponentId,
        label: Label,
        description: Option<Label>,
        rules: Vec<Rule>,
        effects: Vec<Effect>,
        choices: Vec<Choice>,
    ) -> (r: Result<Self, ModifierError>)
        ensures
            match r {
                Ok(p) => spec_prompt(prompt_id@, label@, opt_label_view(description), rules@, effects.deep_view(), choice_views(choices@))
                    == Ok::<PromptView, ModifierErrorView>(p@),
                Err(e) => spec_prompt(prompt_id@, label@, opt_label_view(description), rules@, effects.deep_view(), choice_views(choices@))
                    == Err::<PromptView, ModifierErrorView>(e@),
            },
    {
        if any_default_rule(rules.as_slice()) {
            return Err(ModifierError::DefaultRuleOnPrompt);
        }
        let bounds = SelectionBounds::from_rules(rules.as_slice())?;
        if bounds.min > 0 && choices.len() == 0 {
            return Err(ModifierError::RequiredPromptHasNoChoices { prompt_id, min_select: bounds.min });
        }
        validate_choices(&choices)?;
        let p = Prompt { prompt_id, label, description, rules, effects, choices };
        proof {
            lemma_prompt_view(p);
        }
        Ok(p)
    }

    pub fn prompt_id(&self) -> (r: &ComponentId)
        ensures
            r@ == self@.prompt_id,
    {
        proof {
            lemma_prompt_view(*self);
        }
        &self.prompt_id
    }

    pub fn title(&self) -> (r: &str)
        ensures
            r@ == self@.label.default,
    {
        proof {
            lemma_prompt_view(*self);
        }
        self.label.default_text()
    }

    pub fn label(&self) -> (r: &Label)
        ensures
            r@ == self@.label,
    {
        proof {
            lemma_prompt_view(*self);
        }
        &self.label
    }

    pub fn description(&self) -> (r: Option<&str>)
        ensures
            match r {
                Some(d) => self@.description matches Some(l) && l.default == d@,
                None => self@.description is None,
            },
    {
        proof {
            lemma_prompt_view(*self);
        }
        match &self.description {
            Some(l) => Some(l.default_text()),
            None => None,
        }
    }

    pub fn description_label(&self) -> (r: Option<&Label>)
        ensures
            match r {
                Some(l) => self@.description == Some(l@),
                None => self@.description is None,
            },
    {
        proof {
            lemma_prompt_view(*self);
        }
        match &self.description {
            Some(l) => Some(l),
            None => None,
        }
    }

    pub fn rules(&self) -> (r: &[Rule])
        ensures
            r@ == self@.rules,
    {
        proof {
            lemma_prompt_view(*self);
        }
        self.rules.as_slice()
    }

    pub fn effects(&self) -> (r: &[Effect])
        ensures
            r.deep_view() == self@.effects,
    {
        proof {
            lemma_prompt_view(*self);
        }
        self.effects.as_slice()
    }

    pub fn choices(&self) -> (r: &[Choice])
        ensures
            choice_views(r@) == self@.choices,
    {
        proof {
            lemma_prompt_view(*self);
        }
        self.choices.as_slice()
    }
}

/// Refuses the first choice whose identifier an earlier choice already has.
fn validate_choices(choices: &Vec<Choice>) -> (r: Result<(), ModifierError>)
    ensures
        match r {
            Ok(_) => !exists|j: int| 0 <= j < choices.len() && #[trigger] duplicate_choice(choice_views(choices@), j),
            Err(e) => exists|j: int| 0 <= j < choices.len() && #[trigger] duplicate_choice(choice_views(choices@), j)
                && (forall|k: int| 0 <= k < j ==> !duplicate_choice(choice_views(choices@), k))
                && e@ == ModifierErrorView::DuplicateChoice(choice_views(choices@)[j].choice_id),
        },
{
    let ghost cv = choice_views(choices@);
    let mut j: usize = 0;
    while j < choices.len()
        invariant
            j <= choices.len(),
            cv == choice_views(choices@),
            forall|k: int| 0 <= k < j ==> !#[trigger] duplicate_choice(cv, k),
        decreases choices.len() - j,
    {
        let mut i: usize = 0;
        while i < j
            invariant
                i <= j < choices.len(),
                cv == choice_views(choices@),
                forall|k: int| 0 <= k < j ==> !#[trigger] duplicate_choice(cv, k),
                forall|k: int| 0 <= k < i ==> #[trigger] cv[k].choice_id != cv[j as int].choice_id,
            decreases j - i,
        {
            if choices[i].choice_id.same_as(&choices[j].choice_id) {
                assert(cv[i as int].choice_id == cv[j as int].choice_id);
                assert(duplicate_choice(cv, j as int));
                return Err(ModifierError::DuplicateChoice(choices[j].choice_id.clone()));
            }
            i += 1;
        }
        j += 1;
    }
    Ok(())
}

/// The generated label of a modifier title.
pub open spec fn modifiers_title_view(title: Seq<char>) -> LabelView {
    generated_label_view("MODIFIERS-TITLE"@, title)
}

impl Modifiers {
    pub fn new(prompts: Vec<Prompt>) -> (r: Self)
        ensures
            r@ == (ModifiersView { label: None, prompts: prompt_views(prompts@) }),
    {
        let r = Modifiers { label: None, prompts };
        proof {
            lemma_modifiers_view(r);
        }
        r
    }

    /// Modifiers with a generated title label; the title must not be blank.
    pub fn titled(title: &str, prompts: Vec<Prompt>) -> (r: Self)
        requires
            !is_blank(title@),
        ensures
            r@ == (ModifiersView { label: Some(modifiers_title_view(title@)), prompts: prompt_views(prompts@) }),
    {
        let suffix = "MODIFIERS-TITLE";
        proof {
            reveal_strlit("MODIFIERS-TITLE");
            assert(valid_suffix(suffix@));
        }
        let label = generated_label(suffix, title);
        let r = Modifiers { label: Some(label), prompts };
        proof {
            lemma_modifiers_view(r);
        }
        r
    }

    pub fn titled_labeled(label: Label, prompts: Vec<Prompt>) -> (r: Self)
        ensures
            r@ == (ModifiersView { label: Some(label@), prompts: prompt_views(prompts@) }),
    {
        let r = Modifiers { label: Some(label), prompts };
        proof {
            lemma_modifiers_view(r);
        }
        r
    }

    pub fn title(&self) -> (r: Option<&str>)
        ensures
            match r {
                Some(t) => self@.label matches Some(l) && l.default == t@,
                None => self@.label is None,
            },
    {
        proof {
            lemma_modifiers_view(*self);
        }
        match &self.label {
            Some(l) => Some(l.default_text()),
            None => None,
        }
    }

    pub fn label(&self) -> (r: Option<&Label>)
        ensures
            match r {
                Some(l) => self@.label == Some(l@),
                None => self@.label is None,
            },
    {
        proof {
            lemma_modifiers_view(*self);
        }
        match &self.label {
            Some(l) => Some(l),
            None => None,
        }
    }

    pub fn prompts(&self) -> (r: &[Prompt])
        ensures
            prompt_views(r@) == self@.prompts,
    {
        proof {
            lemma_modifiers_view(*self);
        }
        self.prompts.as_slice()
    }
}

/// What hydration depends on besides the definitions and selections.
pub struct EnvView {
    pub applicability: ApplicabilityView,
    pub profile: Set<PrefixedIdView>,
    pub time: Option<EvaluationTimeView>,
}

/// Whether a choice with the given identifier is defined.
pub open spec fn has_choice(choices: Seq<ChoiceView>, id: PrefixedIdView) -> bool {
    exists|i: int| 0 <= i < choices.len() && #[trigger] choices[i].choice_id == id
}

/// The index of the first choice with the given identifier.
pub open spec fn first_choice_index(choices: Seq<ChoiceView>, id: PrefixedIdView) -> int {
    choose|i: int| 0 <= i < choices.len() && #[trigger] choices[i].choice_id == id && forall|j: int| 0 <= j < i ==> #[trigger] choices[j].choice_id != id
}

/// Some choice with the identifier comes first.
pub proof fn lemma_first_choice_index(choices: Seq<ChoiceView>, id: PrefixedIdView)
    requires
        has_choice(choices, id),
    ensures
        0 <= first_choice_index(choices, id) < choices.len(),
        choices[first_choice_index(choices, id)].choice_id == id,
        forall|j: int| 0 <= j < first_choice_index(choices, id) ==> #[trigger] choices[j].choice_id != id,
{
    let i = choose|i: int| 0 <= i < choices.len() && #[trigger] choices[i].choice_id == id;
    lemma_minimal_choice_index(choices, id, i);
}

proof fn lemma_minimal_choice_index(choices: Seq<ChoiceView>, id: PrefixedIdView, i: int)
    requires
        0 <= i < choices.len(),
        choices[i].choice_id == id,
    ensures
        exists|m: int| 0 <= m < choices.len() && #[trigger] choices[m].choice_id == id && forall|j: int| 0 <= j < m ==> #[trigger] choices[j].choice_id != id,
    decreases i,
{
    if exists|j: int| 0 <= j < i && #[trigger] choices[j].choice_id == id {
        let j = choose|j: int| 0 <= j < i && #[trigger] choices[j].choice_id == id;
        lemma_minimal_choice_index(choices, id, j);
    } else {
        assert(forall|j: int| 0 <= j < i ==> #[trigger] choices[j].choice_id != id);
    }
}

/// The total quantity of a list of candidates.
pub open spec fn candidate_total(cands: Seq<CandidateView>) -> int
    decreases cands.len(),
{
    if cands.len() == 0 {
        0
    } else {
        candidate_total(cands.drop_last()) + cands.last().quantity
    }
}

/// The views of a list of candidates.
pub open spec fn candidate_views(cands: Seq<SelectionCandidate>) -> Seq<CandidateView> {
    cands.map_values(|c: SelectionCandidate| c@)
}

/// The candidate a selection proposes.
pub open spec fn to_candidate(s: ChoiceSelectionView) -> CandidateView {
    CandidateView { choice_id: s.choice_id, quantity: s.quantity, source: s.source, inputs: s.inputs }
}

impl PromptView {
    /// What the `k`-th candidate validates to, or why it is refused.
    #[verifier::opaque]
    pub open spec fn candidate_result(self, cands: Seq<CandidateView>, k: int, env: EnvView) -> Result<ValidatedView, ModifierErrorView> {
        let cand = cands[k];
        if cand.quantity == 0 {
            Err(ModifierErrorView::ZeroQuantity(cand.choice_id))
        } else if exists|j: int| 0 <= j < k && #[trigger] cands[j].choice_id == cand.choice_id {
            Err(ModifierErrorView::DuplicateSelection(cand.choice_id))
        } else if !has_choice(self.choices, cand.choice_id) {
            Err(ModifierErrorView::UnknownSelection(cand.choice_id))
        } else {
            let c = self.choices[first_choice_index(self.choices, cand.choice_id)];
            if env.applicability.inapplicable_choices.contains(c.choice_id) {
                Err(ModifierErrorView::InapplicableChoiceSelection(c.choice_id))
            } else {
                match c.availability(env.time) {
                    Err(e) => Err(e),
                    Ok(false) => Err(ModifierErrorView::UnavailableChoiceSelection(c.choice_id)),
                    Ok(true) => match c.check_quantity(cand.quantity) {
                        Err(e) => Err(e),
                        Ok(_) => match c.validate_inputs(cand.quantity, cand.inputs) {
                            Err(e) => Err(e),
                            Ok(inputs) => Ok(ValidatedView {
                                choice_id: c.choice_id,
                                quantity: cand.quantity,
                                source: cand.source,
                                effects: c.effects,
                                price: c.price,
                                inputs,
                                modifiers: c.modifiers,
                            }),
                        },
                    },
                }
            }
        }
    }

    /// Why the `k`-th candidate stops validation, if it does.
    pub open spec fn candidate_error(self, cands: Seq<CandidateView>, k: int, env: EnvView) -> Option<ModifierErrorView> {
        match self.candidate_result(cands, k, env) {
            Err(e) => Some(e),
            Ok(_) => if candidate_total(cands.take(k + 1)) > u32::MAX {
                Some(ModifierErrorView::SelectionCountOverflow)
            } else {
                None
            },
        }
    }

    /// The validated candidates: the first refused candidate is reported,
    /// then the total is held to the prompt's bounds.
    pub open spec fn validate_candidates(self, cands: Seq<CandidateView>, env: EnvView) -> Result<Seq<ValidatedView>, ModifierErrorView> {
        match spec_bounds(self.rules) {
            Err(e) => Err(e),
            Ok(b) => if exists|k: int| 0 <= k < cands.len() && #[trigger] self.candidate_error(cands, k, env) is Some {
                let k = choose|k: int| 0 <= k < cands.len() && #[trigger] self.candidate_error(cands, k, env) is Some
                    && forall|j: int| 0 <= j < k ==> #[trigger] self.candidate_error(cands, j, env) is None;
                Err(self.candidate_error(cands, k, env)->0)
            } else {
                let total = candidate_total(cands);
                if total < b.min {
                    Err(ModifierErrorView::BelowMinimum { min_select: b.min, actual: total as u32 })
                } else if b.max is Some && total > b.max->0 {
                    Err(ModifierErrorView::AboveMaximum { max_select: b.max->0, actual: total as u32 })
                } else {
                    Ok(Seq::new(cands.len(), |k: int| self.candidate_result(cands, k, env)->Ok_0))
                }
            },
        }
    }

    /// The default candidate a choice contributes, if any.
    pub open spec fn default_step(c: ChoiceView, env: EnvView) -> Result<Option<CandidateView>, ModifierErrorView> {
        if env.applicability.inapplicable_choices.contains(c.choice_id) {
            Ok(None)
        } else {
            match c.default_quantity() {
                Err(e) => Err(e),
                Ok(None) => Ok(None),
                Ok(Some(q)) => match c.availability(env.time) {
                    Err(e) => Err(e),
                    Ok(false) => Ok(None),
                    Ok(true) => Ok(Some(CandidateView { choice_id: c.choice_id, quantity: q, source: SelectionSource::Default, inputs: Seq::empty() })),
                },
            }
        }
    }

    /// The default candidates of the first `n` choices.
    pub open spec fn defaults_upto(self, env: EnvView, n: nat) -> Result<Seq<CandidateView>, ModifierErrorView>
        decreases n,
    {
        if n == 0 || n > self.choices.len() {
            Ok(Seq::empty())
        } else {
            match self.defaults_upto(env, (n - 1) as nat) {
                Err(e) => Err(e),
                Ok(acc) => match Self::default_step(self.choices[n - 1], env) {
                    Err(e) => Err(e),
                    Ok(None) => Ok(acc),
                    Ok(Some(c)) => Ok(acc.push(c)),
                },
            }
        }
    }

    /// The default candidates of the prompt.
    pub open spec fn default_candidates(self, env: EnvView) -> Result<Seq<CandidateView>, ModifierErrorView> {
        self.defaults_upto(env, self.choices.len())
    }

    /// The validated selections: the defaults when nothing is selected,
    /// otherwise the selections themselves.
    pub open spec fn hydrate_selections(self, selections: Seq<ChoiceSelectionView>, env: EnvView) -> Result<Seq<ValidatedView>, ModifierErrorView> {
        if selections.len() == 0 {
            match self.default_candidates(env) {
                Err(e) => Err(e),
                Ok(d) => self.validate_candidates(d, env),
            }
        } else {
            self.validate_candidates(selections.map_values(|s: ChoiceSelectionView| to_candidate(s)), env)
        }
    }
}

proof fn lemma_first_candidate_error(p: PromptView, cands: Seq<CandidateView>, env: EnvView, k: int)
    requires
        0 <= k < cands.len(),
        spec_bounds(p.rules) is Ok,
        p.candidate_error(cands, k, env) is Some,
        forall|j: int| 0 <= j < k ==> #[trigger] p.candidate_error(cands, j, env) is None,
    ensures
        p.validate_candidates(cands, env) == Err::<Seq<ValidatedView>, ModifierErrorView>(p.candidate_error(cands, k, env)->0),
{
    let w = choose|w: int| 0 <= w < cands.len() && #[trigger] p.candidate_error(cands, w, env) is Some
        && forall|j: int| 0 <= j < w ==> #[trigger] p.candidate_error(cands, j, env) is None;
    assert(p.candidate_error(cands, k, env) is Some);
    if w < k {
        assert(p.candidate_error(cands, w, env) is None);
    } else if w > k {
        assert(p.candidate_error(cands, k, env) is None);
    }
}

proof fn lemma_candidate_total_step(cands: Seq<CandidateView>, k: int)
    requires
        0 <= k < cands.len(),
    ensures
        candidate_total(cands.take(k + 1)) == candidate_total(cands.take(k)) + cands[k].quantity,
{
    assert(cands.take(k + 1).drop_last() =~= cands.take(k));
}

proof fn lemma_defaults_step(p: PromptView, env: EnvView, n: nat)
    requires
        0 < n <= p.choices.len(),
    ensures
        p.defaults_upto(env, n) == match p.defaults_upto(env, (n - 1) as nat) {
            Err(e) => Err(e),
            Ok(acc) => match PromptView::default_step(p.choices[n - 1], env) {
                Err(e) => Err(e),
                Ok(None) => Ok(acc),
                Ok(Some(c)) => Ok::<Seq<CandidateView>, ModifierErrorView>(acc.push(c)),
            },
        },
{
}

proof fn lemma_defaults_error_sticks(p: PromptView, env: EnvView, k: nat)
    requires
        k <= p.choices.len(),
        p.defaults_upto(env, k) is Err,
    ensures
        p.default_candidates(env) == p.defaults_upto(env, k),
    decreases p.choices.len() - k,
{
    if k < p.choices.len() {
        lemma_defaults_step(p, env, k + 1);
        lemma_defaults_error_sticks(p, env, k + 1);
    }
}

/// The view of the hydration environment.
pub open spec fn env_view(applicability: ApplicabilityView, profile: Set<PrefixedIdView>, time: Option<EvaluationTimeView>) -> EnvView {
    EnvView { applicability, profile, time }
}

/// The candidates a list of selections proposes.
fn candidates_of(selections: &[ChoiceSelection]) -> (r: Vec<SelectionCandidate>)
    ensures
        candidate_views(r@) == choice_selection_views(selections@).map_values(|s: ChoiceSelectionView| to_candidate(s)),
{
    let mut out: Vec<SelectionCandidate> = Vec::new();
    let mut i: usize = 0;
    while i < selections.len()
        invariant
            i <= selections.len(),
            candidate_views(out@) == choice_selection_views(selections@).map_values(|s: ChoiceSelectionView| to_candidate(s)).take(i as int),
        decreases selections.len() - i,
    {
        let s = &selections[i];
        let cand = SelectionCandidate {
            choice_id: s.choice_id().clone(),
            quantity: s.quantity(),
            source: s.source(),
            inputs: clone_input_values(s.inputs()),
        };
        let ghost before = out@;
        out.push(cand);
        assert(candidate_views(out@) =~= candidate_views(before).push(cand@));
        assert(choice_selection_views(selections@).map_values(|s: ChoiceSelectionView| to_candidate(s)).take(i + 1)
            =~= choice_selection_views(selections@).map_values(|s: ChoiceSelectionView| to_candidate(s)).take(i as int).push(to_candidate(selections@[i as int]@)));
        i += 1;
    }
    assert(choice_selection_views(selections@).map_values(|s: ChoiceSelectionView| to_candidate(s)).take(selections.len() as int)
        =~= choice_selection_views(selections@).map_values(|s: ChoiceSelectionView| to_candidate(s)));
    out
}

impl Prompt {
    /// The first choice with the given identifier.
    fn choice(&self, choice_id: &ComponentId) -> (r: Option<usize>)
        ensures
            match r {
                Some(i) => i < self.choices.len() && has_choice(self@.choices, choice_id@)
                    && first_choice_index(self@.choices, choice_id@) == i && self.choices@[i as int]@ == self@.choices[i as int],
                None => !has_choice(self@.choices, choice_id@),
            },
    {
        proof {
            lemma_prompt_view(*self);
        }
        let ghost cv = self@.choices;
        let mut i: usize = 0;
        while i < self.choices.len()
            invariant
                i <= self.choices.len(),
                cv == self@.choices,
                cv == choice_views(self.choices@),
                forall|j: int| 0 <= j < i ==> #[trigger] cv[j].choice_id != choice_id@,
            decreases self.choices.len() - i,
        {
            if self.choices[i].choice_id.same_as(choice_id) {
                proof {
                    assert(cv[i as int].choice_id == choice_id@);
                    assert(has_choice(cv, choice_id@));
                    let w = first_choice_index(cv, choice_id@);
                    if w < i {
                        assert(cv[w].choice_id != choice_id@);
                    } else if w > i {
                        assert(cv[i as int].choice_id != choice_id@);
                    }
                }
                return Some(i);
            }
            i += 1;
        }
        None
    }

    /// Validates the `k`-th candidate.
    #[verifier::spinoff_prover]
    #[verifier::rlimit(40)]
    fn validate_candidate(
        &self,
        cands: &Vec<SelectionCandidate>,
        k: usize,
        applicability: &ModifierApplicability,
        time: Option<&EvaluationTime>,
        Ghost(env): Ghost<EnvView>,
    ) -> (r: Result<ValidatedChoiceSelection, ModifierError>)
        requires
            k < cands.len(),
            env.applicability == applicability@,
            env.time == opt_time_view(time),
        ensures
            match r {
                Ok(v) => self@.candidate_result(candidate_views(cands@), k as int, env) == Ok::<ValidatedView, ModifierErrorView>(v@),
                Err(e) => self@.candidate_result(candidate_views(cands@), k as int, env) == Err::<ValidatedView, ModifierErrorView>(e@),
            },
    {
        proof {
            lemma_prompt_view(*self);
            reveal(PromptView::candidate_result);
        }
        let ghost cv = candidate_views(cands@);
        let cand = &cands[k];
        assert(cv[k as int] == cand@);
        if cand.quantity == 0 {
            return Err(ModifierError::ZeroQuantity(cand.choice_id.clone()));
        }
        if duplicate_candidate_before(cands, k) {
            return Err(ModifierError::DuplicateSelection(cands[k].choice_id.clone()));
        }
        let index = match self.choice(&cand.choice_id) {
            Some(i) => i,
            None => return Err(ModifierError::UnknownSelection(cand.choice_id.clone())),
        };
        let choice = &self.choices[index];
        if !applicability.is_choice_applicable(&choice.choice_id) {
            return Err(ModifierError::InapplicableChoiceSelection(choice.choice_id.clone()));
        }
        if !choice.is_available_at(time)? {
            return Err(ModifierError::UnavailableChoiceSelection(choice.choice_id.clone()));
        }
        choice.validate_quantity(cand.quantity)?;
        let inputs = choice.validate_inputs(cand.quantity, cand.inputs.as_slice())?;
        let modifiers = match &choice.modifiers {
            Some(m) => Some((**m).clone()),
            None => None,
        };
        Ok(ValidatedChoiceSelection::new(
            choice.choice_id.clone(),
            cand.quantity,
            cand.source,
            clone_effects(choice.effects.as_slice()),
            choice.price.clone(),
            inputs,
            modifiers,
        ))
    }

    fn validate_candidates(
        &self,
        cands: Vec<SelectionCandidate>,
        applicability: &ModifierApplicability,
        time: Option<&EvaluationTime>,
        Ghost(env): Ghost<EnvView>,
    ) -> (r: Result<Vec<ValidatedChoiceSelection>, ModifierError>)
        requires
            env.applicability == applicability@,
            env.time == opt_time_view(time),
        ensures
            match r {
                Ok(v) => self@.validate_candidates(candidate_views(cands@), env) == Ok::<Seq<ValidatedView>, ModifierErrorView>(v.deep_view()),
                Err(e) => self@.validate_candidates(candidate_views(cands@), env) == Err::<Seq<ValidatedView>, ModifierErrorView>(e@),
            },
    {
        proof {
            lemma_prompt_view(*self);
        }
        let ghost cv = candidate_views(cands@);
        let ghost p = self@;
        let bounds = SelectionBounds::from_rules(self.rules.as_slice())?;
        let mut selected_count: u32 = 0;
        let mut validated: Vec<ValidatedChoiceSelection> = Vec::new();
        let mut k: usize = 0;
        while k < cands.len()
            invariant
                k <= cands.len(),
                cv == candidate_views(cands@),
                p == self@,
                spec_bounds(p.rules) == Ok::<SelectionBounds, ModifierErrorView>(bounds),
                env.applicability == applicability@,
                env.time == opt_time_view(time),
                selected_count == candidate_total(cv.take(k as int)),
                validated@.len() == k,
                forall|j: int| 0 <= j < k ==> #[trigger] p.candidate_error(cv, j, env) is None,
                forall|j: int| 0 <= j < k ==> #[trigger] validated@[j]@ == p.candidate_result(cv, j, env)->Ok_0,
            decreases cands.len() - k,
        {
            let v = match self.validate_candidate(&cands, k, applicability, time, Ghost(env)) {
                Ok(v) => v,
                Err(e) => {
                    proof {
                        lemma_first_candidate_error(p, cv, env, k as int);
                    }
                    return Err(e);
                },
            };
            proof {
                lemma_candidate_total_step(cv, k as int);
            }
            assert(cv[k as int] == cands@[k as int]@);
            selected_count = match selected_count.checked_add(cands[k].quantity) {
                Some(c) => c,
                None => {
                    proof {
                        lemma_first_candidate_error(p, cv, env, k as int);
                    }
                    return Err(ModifierError::SelectionCountOverflow);
                },
            };
            validated.push(v);
            k += 1;
        }
        assert(cv.take(cands.len() as int) =~= cv);
        proof {
            assert(!exists|k: int| 0 <= k < cv.len() && #[trigger] p.candidate_error(cv, k, env) is Some);
        }
        if selected_count < bounds.min {
            return Err(ModifierError::BelowMinimum { min_select: bounds.min, actual: selected_count });
        }
        if let Some(max_select) = bounds.max {
            if selected_count > max_select {
                return Err(ModifierError::AboveMaximum { max_select, actual: selected_count });
            }
        }
        assert(validated.deep_view() =~= Seq::new(cv.len(), |k: int| p.candidate_result(cv, k, env)->Ok_0));
        Ok(validated)
    }

    fn default_candidates(
        &self,
        applicability: &ModifierApplicability,
        time: Option<&EvaluationTime>,
        Ghost(env): Ghost<EnvView>,
    ) -> (r: Result<Vec<SelectionCandidate>, ModifierError>)
        requires
            env.applicability == applicability@,
            env.time == opt_time_view(time),
        ensures
            match r {
                Ok(v) => self@.default_candidates(env) == Ok::<Seq<CandidateView>, ModifierErrorView>(candidate_views(v@)),
                Err(e) => self@.default_candidates(env) == Err::<Seq<CandidateView>, ModifierErrorView>(e@),
            },
    {
        proof {
            lemma_prompt_view(*self);
        }
        let ghost p = self@;
        let mut defaults: Vec<SelectionCandidate> = Vec::new();
        let mut i: usize = 0;
        assert(candidate_views(defaults@) =~= Seq::<CandidateView>::empty());
        while i < self.choices.len()
            invariant
                i <= self.choices.len(),
                p == self@,
                p.choices == choice_views(self.choices@),
                env.applicability == applicability@,
                env.time == opt_time_view(time),
                p.defaults_upto(env, i as nat) == Ok::<Seq<CandidateView>, ModifierErrorView>(candidate_views(defaults@)),
            decreases self.choices.len() - i,
        {
            proof {
                lemma_defaults_step(p, env, (i + 1) as nat);
            }
            let choice = &self.choices[i];
            assert(p.choices[i as int] == choice@);
            if applicability.is_choice_applicable(&choice.choice_id) {
                match choice.default_quantity() {
                    Err(e) => {
                        proof {
                            lemma_defaults_error_sticks(p, env, (i + 1) as nat);
                        }
                        return Err(e);
                    },
                    Ok(None) => {},
                    Ok(Some(quantity)) => {
                        match choice.is_available_at(time) {
                            Err(e) => {
                                proof {
                                    lemma_defaults_error_sticks(p, env, (i + 1) as nat);
                                }
                                return Err(e);
                            },
                            Ok(false) => {},
                            Ok(true) => {
                                let cand = SelectionCandidate {
                                    choice_id: choice.choice_id.clone(),
                                    quantity,
                                    source: SelectionSource::Default,
                                    inputs: Vec::new(),
                                };
                                assert(cand.inputs.deep_view() =~= Seq::<ChoiceInputValueView>::empty());
                                let ghost before = defaults@;
                                defaults.push(cand);
                                assert(candidate_views(defaults@) =~= candidate_views(before).push(cand@));
                            },
                        }
                    },
                }
            }
            i += 1;
        }
        Ok(defaults)
    }

    fn hydrate_selections_with_inputs(
        &self,
        selections: &[ChoiceSelection],
        applicability: &ModifierApplicability,
        time: Option<&EvaluationTime>,
        Ghost(env): Ghost<EnvView>,
    ) -> (r: Result<Vec<ValidatedChoiceSelection>, ModifierError>)
        requires
            env.applicability == applicability@,
            env.time == opt_time_view(time),
        ensures
            match r {
                Ok(v) => self@.hydrate_selections(choice_selection_views(selections@), env) == Ok::<Seq<ValidatedView>, ModifierErrorView>(v.deep_view()),
                Err(e) => self@.hydrate_selections(choice_selection_views(selections@), env) == Err::<Seq<ValidatedView>, ModifierErrorView>(e@),
            },
    {
        if selections.len() == 0 {
            let defaults = self.default_candidates(applicability, time, Ghost(env))?;
            return self.validate_candidates(defaults, applicability, time, Ghost(env));
        }
        let cands = candidates_of(selections);
        self.validate_candidates(cands, applicability, time, Ghost(env))
    }
}

/// Whether an earlier candidate proposes the same choice as the `k`-th.
fn duplicate_candidate_before(cands: &Vec<SelectionCandidate>, k: usize) -> (r: bool)
    requires
        k < cands.len(),
    ensures
        r == exists|j: int| 0 <= j < k && #[trigger] candidate_views(cands@)[j].choice_id
            == candidate_views(cands@)[k as int].choice_id,
{
    let ghost cv = candidate_views(cands@);
    let mut j: usize = 0;
    while j < k
        invariant
            j <= k < cands.len(),
            cv == candidate_views(cands@),
            forall|m: int| 0 <= m < j ==> #[trigger] cv[m].choice_id != cv[k as int].choice_id,
        decreases k - j,
    {
        if cands[j].choice_id.same_as(&cands[k].choice_id) {
            assert(cv[j as int].choice_id == cv[k as int].choice_id);
            return true;
        }
        j += 1;
    }
    false
}

/// The prompt identifiers of a list of prompt definitions.
pub open spec fn prompt_ids(prompts: Seq<PromptView>) -> Seq<PrefixedIdView> {
    prompts.map_values(|p: PromptView| p.prompt_id)
}

impl ModifiersView {
    /// How many applicable prompt instances carry the identifier.
    pub open spec fn allowed_count(self, app: ApplicabilityView, id: PrefixedIdView) -> nat {
        if app.inapplicable_prompts.contains(id) {
            0
        } else {
            count_id(prompt_ids(self.prompts), id)
        }
    }

    /// Whether the `k`-th prompt selection is one too many for its prompt.
    pub open spec fn selection_overflows(self, sels: SelectionsView, app: ApplicabilityView, k: int) -> bool {
        let ids = selection_prompt_ids(sels.prompts);
        count_id(ids.take(k + 1), ids[k]) > self.allowed_count(app, ids[k])
    }

    /// Every prompt selection must match an applicable prompt instance; the
    /// first that does not is reported as inapplicable when its prompt is
    /// defined but left out, and as unknown otherwise.
    pub open spec fn check_prompt_selections(self, sels: SelectionsView, app: ApplicabilityView) -> Result<(), ModifierErrorView> {
        if exists|k: int| 0 <= k < sels.prompts.len() && #[trigger] self.selection_overflows(sels, app, k) {
            let k = choose|k: int| 0 <= k < sels.prompts.len() && #[trigger] self.selection_overflows(sels, app, k)
                && forall|j: int| 0 <= j < k ==> !#[trigger] self.selection_overflows(sels, app, j);
            let id = sels.prompts[k].prompt_id;
            if prompt_ids(self.prompts).contains(id) && self.allowed_count(app, id) == 0 {
                Err(ModifierErrorView::InapplicablePromptSelection(id))
            } else {
                Err(ModifierErrorView::UnknownPromptSelection(id))
            }
        } else {
            Ok(())
        }
    }
}

/// The configuration of a choice's input values, with each input's label
/// resolved for the consumer profile.
pub open spec fn configure_inputs(c: ChoiceView, values: Seq<ChoiceInputValueView>, profile: Set<PrefixedIdView>) -> Result<Seq<ChoiceInputConfigurationView>, ModifierErrorView>
    decreases values.len(),
{
    if values.len() == 0 {
        Ok(Seq::empty())
    } else {
        match configure_inputs(c, values.drop_last(), profile) {
            Err(e) => Err(e),
            Ok(acc) => {
                let v = values.last();
                if !has_input(c.inputs, v.input_id) {
                    Err(ModifierErrorView::ChoiceInput(ChoiceInputErrorView::UnknownInput { choice_id: c.choice_id, input_id: v.input_id }))
                } else {
                    let input = first_input(c.inputs, v.input_id);
                    match input.label.resolve(profile) {
                        Err(le) => Err(ModifierErrorView::Label(le)),
                        Ok(label) => Ok(acc.push(ChoiceInputConfigurationView {
                            input_id: v.input_id,
                            label,
                            label_definition: input.label,
                            unit: v.unit,
                            value: v.value,
                        })),
                    }
                }
            },
        }
    }
}

pub open spec fn empty_selections() -> SelectionsView {
    SelectionsView { prompts: Seq::empty() }
}

/// The configuration a modifier level hydrates to: selections are checked
/// against the applicable prompt instances, then each applicable prompt is
/// hydrated with its own occurrence of the selections.
pub open spec fn hydrate_modifiers(m: ModifiersView, sels: SelectionsView, env: EnvView) -> Result<ConfigurationView, ModifierErrorView>
    decreases m, 2nat, 0nat,
{
    match m.check_prompt_selections(sels, env.applicability) {
        Err(e) => Err(e),
        Ok(_) => match hydrate_prompts(m, sels, env, m.prompts.len()) {
            Err(e) => Err(e),
            Ok(ps) => Ok(ConfigurationView { prompts: ps }),
        },
    }
}

/// The configured prompts among the first `n` prompt definitions.
pub open spec fn hydrate_prompts(m: ModifiersView, sels: SelectionsView, env: EnvView, n: nat) -> Result<Seq<PromptConfigurationView>, ModifierErrorView>
    decreases m, 1nat, n,
{
    if n == 0 || n > m.prompts.len() {
        Ok(Seq::empty())
    } else {
        match hydrate_prompts(m, sels, env, (n - 1) as nat) {
            Err(e) => Err(e),
            Ok(acc) => {
                let p = m.prompts[n - 1];
                if env.applicability.inapplicable_prompts.contains(p.prompt_id) {
                    Ok(acc)
                } else {
                    let occurrence = count_id(prompt_ids(m.prompts).take(n - 1), p.prompt_id);
                    match hydrate_prompt(p, prompt_selection_at(sels.prompts, p.prompt_id, occurrence), env) {
                        Err(e) => Err(e),
                        Ok(pc) => Ok(acc.push(pc)),
                    }
                }
            },
        }
    }
}

/// The configuration of one prompt: its validated selections, each with its
/// nested configuration, then its labels resolved.
pub open spec fn hydrate_prompt(p: PromptView, sel: Option<PromptSelectionView>, env: EnvView) -> Result<PromptConfigurationView, ModifierErrorView>
    decreases p, 2nat, 0nat,
{
    let inputs = match sel {
        Some(s) => s.choices,
        None => Seq::empty(),
    };
    match p.hydrate_selections(inputs, env) {
        Err(e) => Err(e),
        Ok(validated) => match hydrate_choices(p, inputs, validated, env, validated.len()) {
            Err(e) => Err(e),
            Ok(choices) => match p.label.resolve(env.profile) {
                Err(le) => Err(ModifierErrorView::Label(le)),
                Ok(label) => match p.description {
                    None => Ok(PromptConfigurationView {
                        prompt_id: p.prompt_id,
                        label,
                        label_definition: p.label,
                        description: None,
                        description_definition: None,
                        effects: p.effects,
                        choices,
                    }),
                    Some(d) => match d.resolve(env.profile) {
                        Err(le) => Err(ModifierErrorView::Label(le)),
                        Ok(description) => Ok(PromptConfigurationView {
                            prompt_id: p.prompt_id,
                            label,
                            label_definition: p.label,
                            description: Some(description),
                            description_definition: Some(d),
                            effects: p.effects,
                            choices,
                        }),
                    },
                },
            },
        },
    }
}

/// The nested selections a choice selection carries, if any.
pub open spec fn nested_selections(input: Option<ChoiceSelectionView>) -> SelectionsView {
    match input {
        Some(ic) => match ic.modifiers {
            Some(s) => *s,
            None => empty_selections(),
        },
        None => empty_selections(),
    }
}

/// The configured choices of the first `k` validated selections.
pub open spec fn hydrate_choices(
    p: PromptView,
    inputs: Seq<ChoiceSelectionView>,
    validated: Seq<ValidatedView>,
    env: EnvView,
    k: nat,
) -> Result<Seq<ChoiceConfigurationView>, ModifierErrorView>
    decreases p, 1nat, k,
{
    if k == 0 || k > validated.len() {
        Ok(Seq::empty())
    } else {
        match hydrate_choices(p, inputs, validated, env, (k - 1) as nat) {
            Err(e) => Err(e),
            Ok(acc) => match hydrate_choice(p, inputs, validated, env, (k - 1) as nat) {
                Err(e) => Err(e),
                Ok(cc) => Ok(acc.push(cc)),
            },
        }
    }
}

/// The configuration of the `k`-th validated selection: its choice, its
/// inputs, its nested configuration, then its label.
pub open spec fn hydrate_choice(
    p: PromptView,
    inputs: Seq<ChoiceSelectionView>,
    validated: Seq<ValidatedView>,
    env: EnvView,
    k: nat,
) -> Result<ChoiceConfigurationView, ModifierErrorView>
    decreases p, 0nat, k,
{
    if k >= validated.len() {
        Err(ModifierErrorView::SelectionCountOverflow)
    } else {
        let v = validated[k as int];
        if !has_choice(p.choices, v.choice_id) {
            Err(ModifierErrorView::UnknownSelection(v.choice_id))
        } else {
            let idx = first_choice_index(p.choices, v.choice_id);
            let c = p.choices[idx];
            let input: Option<ChoiceSelectionView> = if k < inputs.len() { Some(inputs[k as int]) } else { None };
            match configure_inputs(c, v.inputs, env.profile) {
                Err(e) => Err(e),
                Ok(configured_inputs) => {
                    let nested: Result<Option<Box<ConfigurationView>>, ModifierErrorView> = match c.modifiers {
                        Some(cm) => {
                            proof {
                                lemma_first_choice_index(p.choices, v.choice_id);
                                assert(0 <= idx < p.choices.len());
                                assert(decreases_to!(p => p.choices));
                                assert(decreases_to!(p.choices => p.choices[idx]));
                            }
                            match hydrate_modifiers(*cm, nested_selections(input), env) {
                                Err(e) => Err(e),
                                Ok(cfg) => Ok(Some(Box::new(cfg))),
                            }
                        },
                        None => if nested_selections(input).prompts.len() > 0 {
                            Err(ModifierErrorView::UnexpectedNestedSelections(c.choice_id))
                        } else {
                            Ok(None)
                        },
                    };
                    match nested {
                        Err(e) => Err(e),
                        Ok(modifiers) => match c.label.resolve(env.profile) {
                            Err(le) => Err(ModifierErrorView::Label(le)),
                            Ok(label) => Ok(ChoiceConfigurationView {
                                choice_id: v.choice_id,
                                label,
                                label_definition: c.label,
                                quantity: v.quantity,
                                source: v.source,
                                effects: v.effects,
                                price: v.price,
                                inputs: configured_inputs,
                                modifiers,
                            }),
                        },
                    }
                },
            }
        }
    }
}

#[verifier::spinoff_prover]
proof fn lemma_configured_input_values(c: ChoiceView, values: Seq<ChoiceInputValueView>, profile: Set<PrefixedIdView>)
    requires
        configure_inputs(c, values, profile) is Ok,
    ensures
        configure_inputs(c, values, profile)->Ok_0.len() == values.len(),
        forall|i: int| 0 <= i < values.len() ==> {
            &&& (#[trigger] configure_inputs(c, values, profile)->Ok_0[i]).input_id == values[i].input_id
            &&& configure_inputs(c, values, profile)->Ok_0[i].value == values[i].value
        },
    decreases values.len(),
{
    if values.len() > 0 {
        lemma_configured_input_values(c, values.drop_last(), profile);
        let acc = configure_inputs(c, values.drop_last(), profile)->Ok_0;
        let r = configure_inputs(c, values, profile)->Ok_0;
        let last = values.last();
        let input = first_input(c.inputs, last.input_id);
        let label = input.label.resolve(profile)->Ok_0;
        assert(r == acc.push(ChoiceInputConfigurationView {
            input_id: last.input_id,
            label,
            label_definition: input.label,
            unit: last.unit,
            value: last.value,
        }));
        assert forall|i: int| 0 <= i < values.len() implies {
            &&& (#[trigger] r[i]).input_id == values[i].input_id
            &&& r[i].value == values[i].value
        } by {
            if i < values.len() - 1 {
                assert(r[i] == acc[i]);
                assert(values.drop_last()[i] == values[i]);
            }
        }
    }
}

/// Every input value of a hydrated choice fits its input definition: it
/// belongs to one of the selected choice's inputs and its length lies within
/// that input's minimum and maximum.
pub proof fn lemma_hydrated_inputs_respect_lengths(
    p: PromptView,
    cands: Seq<CandidateView>,
    env: EnvView,
    inputs: Seq<ChoiceSelectionView>,
    k: nat,
)
    requires
        p.validate_candidates(cands, env) is Ok,
        hydrate_choice(p, inputs, p.validate_candidates(cands, env)->Ok_0, env, k) is Ok,
    ensures
        ({
            let cc = hydrate_choice(p, inputs, p.validate_candidates(cands, env)->Ok_0, env, k)->Ok_0;
            let c = p.choices[first_choice_index(p.choices, cc.choice_id)];
            forall|i: int| 0 <= i < cc.inputs.len() ==> {
                &&& has_input(c.inputs, (#[trigger] cc.inputs[i]).input_id)
                &&& length_within(first_input(c.inputs, cc.inputs[i].input_id), cc.inputs[i].value)
            }
        }),
{
    let validated = p.validate_candidates(cands, env)->Ok_0;
    let cc = hydrate_choice(p, inputs, validated, env, k)->Ok_0;
    let ki = k as int;
    assert(ki < validated.len());
    assert(validated.len() == cands.len());
    assert(validated[ki] == p.candidate_result(cands, ki, env)->Ok_0);
    assert(p.candidate_error(cands, ki, env) is None);
    assert(p.candidate_result(cands, ki, env) is Ok);
    reveal(PromptView::candidate_result);
    let cand = cands[ki];
    let idx = first_choice_index(p.choices, cand.choice_id);
    lemma_first_choice_index(p.choices, cand.choice_id);
    let c = p.choices[idx];
    let v = validated[ki];
    assert(v.choice_id == c.choice_id);
    assert(v.inputs == c.validate_inputs(cand.quantity, cand.inputs)->Ok_0);
    lemma_validated_values_respect_lengths(c, cand.quantity, cand.inputs);
    lemma_configured_input_values(c, v.inputs, env.profile);
    assert(cc.choice_id == v.choice_id);
    assert(cc.inputs == configure_inputs(c, v.inputs, env.profile)->Ok_0);
    assert forall|i: int| 0 <= i < cc.inputs.len() implies {
        &&& has_input(c.inputs, (#[trigger] cc.inputs[i]).input_id)
        &&& length_within(first_input(c.inputs, cc.inputs[i].input_id), cc.inputs[i].value)
    } by {
        assert(v.inputs.contains(v.inputs[i]));
    }
}

proof fn lemma_configure_inputs_error_sticks(c: ChoiceView, values: Seq<ChoiceInputValueView>, profile: Set<PrefixedIdView>, k: int)
    requires
        0 <= k <= values.len(),
        configure_inputs(c, values.take(k), profile) is Err,
    ensures
        configure_inputs(c, values, profile) == configure_inputs(c, values.take(k), profile),
    decreases values.len() - k,
{
    if k == values.len() {
        assert(values.take(k) =~= values);
    } else {
        assert(values.take(k + 1).drop_last() =~= values.take(k));
        lemma_configure_inputs_error_sticks(c, values, profile, k + 1);
    }
}

proof fn lemma_hydrate_choices_error_sticks(
    p: PromptView,
    inputs: Seq<ChoiceSelectionView>,
    validated: Seq<ValidatedView>,
    env: EnvView,
    k: nat,
)
    requires
        k <= validated.len(),
        hydrate_choices(p, inputs, validated, env, k) is Err,
    ensures
        hydrate_choices(p, inputs, validated, env, validated.len()) == hydrate_choices(p, inputs, validated, env, k),
    decreases validated.len() - k,
{
    if k < validated.len() {
        lemma_hydrate_choices_error_sticks(p, inputs, validated, env, k + 1);
    }
}

proof fn lemma_hydrate_prompts_error_sticks(m: ModifiersView, sels: SelectionsView, env: EnvView, n: nat)
    requires
        n <= m.prompts.len(),
        hydrate_prompts(m, sels, env, n) is Err,
    ensures
        hydrate_prompts(m, sels, env, m.prompts.len()) == hydrate_prompts(m, sels, env, n),
    decreases m.prompts.len() - n,
{
    if n < m.prompts.len() {
        lemma_hydrate_prompts_error_sticks(m, sels, env, n + 1);
    }
}

/// The configured input values of a choice.
#[verifier::spinoff_prover]
#[verifier::rlimit(60)]
fn configure_choice_inputs(choice: &Choice, values: &[ChoiceInputValue], profile: &ConsumerProfile) -> (r: Result<Vec<ChoiceInputConfiguration>, ModifierError>)
    ensures
        match r {
            Ok(v) => configure_inputs(choice@, values.deep_view(), profile@) == Ok::<Seq<ChoiceInputConfigurationView>, ModifierErrorView>(v.deep_view()),
            Err(e) => configure_inputs(choice@, values.deep_view(), profile@) == Err::<Seq<ChoiceInputConfigurationView>, ModifierErrorView>(e@),
        },
{
    let ghost vs = values.deep_view();
    let ghost c = choice@;
    let mut out: Vec<ChoiceInputConfiguration> = Vec::new();
    let mut m: usize = 0;
    assert(out.deep_view() =~= Seq::<ChoiceInputConfigurationView>::empty());
    assert(vs.take(0) =~= Seq::<ChoiceInputValueView>::empty());
    while m < values.len()
        invariant
            m <= values.len(),
            vs == values.deep_view(),
            c == choice@,
            configure_inputs(c, vs.take(m as int), profile@) == Ok::<Seq<ChoiceInputConfigurationView>, ModifierErrorView>(out.deep_view()),
        decreases values.len() - m,
    {
        assert(vs.take(m + 1).drop_last() =~= vs.take(m as int));
        let value = &values[m];
        assert(vs[m as int] == value@);
        let index = match choice.find_input(value.input_id()) {
            Some(i) => i,
            None => {
                proof {
                    lemma_configure_inputs_error_sticks(c, vs, profile@, m + 1);
                }
                return Err(ModifierError::from(ChoiceInputError::UnknownInput {
                    choice_id: choice.choice_id.clone(),
                    input_id: value.input_id().clone(),
                }));
            },
        };
        let input = &choice.inputs[index];
        let label = match input.label.resolve(profile) {
            Ok(l) => l,
            Err(le) => {
                proof {
                    lemma_configure_inputs_error_sticks(c, vs, profile@, m + 1);
                }
                return Err(ModifierError::from(le));
            },
        };
        let configured = ChoiceInputConfiguration::new(
            value.input_id().clone(),
            label,
            input.label.clone(),
            value.unit(),
            crate::text::owned(value.value()),
        );
        let ghost before = out.deep_view();
        out.push(configured);
        assert(out.deep_view() =~= before.push(configured@));
        m += 1;
    }
    assert(vs.take(values.len() as int) =~= vs);
    Ok(out)
}

pub open spec fn opt_prompt_selection_view(s: Option<&PromptSelection>) -> Option<PromptSelectionView> {
    match s {
        Some(x) => Some(x@),
        None => None,
    }
}

impl Prompt {
    #[verifier::spinoff_prover]
    #[verifier::rlimit(60)]
    fn hydrate_validated_choice(
        &self,
        validated: &Vec<ValidatedChoiceSelection>,
        k: usize,
        input_choices: &[ChoiceSelection],
        applicability: &ModifierApplicability,
        consumer_profile: &ConsumerProfile,
        time: Option<&EvaluationTime>,
        Ghost(env): Ghost<EnvView>,
    ) -> (r: Result<ChoiceConfiguration, ModifierError>)
        requires
            k < validated.len(),
            env == env_view(applicability@, consumer_profile@, opt_time_view(time)),
        ensures
            match r {
                Ok(c) => hydrate_choice(self@, choice_selection_views(input_choices@), validated.deep_view(), env, k as nat)
                    == Ok::<ChoiceConfigurationView, ModifierErrorView>(c@),
                Err(e) => hydrate_choice(self@, choice_selection_views(input_choices@), validated.deep_view(), env, k as nat)
                    == Err::<ChoiceConfigurationView, ModifierErrorView>(e@),
            },
        decreases self, 0nat,
    {
        proof {
            lemma_prompt_view(*self);
        }
        let ghost p = self@;
        let ghost iv = choice_selection_views(input_choices@);
        let ghost vv = validated.deep_view();
        let v = &validated[k];
        assert(vv[k as int] == v@);
        let index = match self.choice(v.choice_id()) {
            Some(i) => i,
            None => return Err(ModifierError::UnknownSelection(v.choice_id().clone())),
        };
        let choice = &self.choices[index];
        assert(p.choices[index as int] == choice@);
        let input_choice: Option<&ChoiceSelection> = if k < input_choices.len() {
            Some(&input_choices[k])
        } else {
            None
        };
        let configured_inputs = configure_choice_inputs(choice, v.inputs(), consumer_profile)?;
        let ghost input_view: Option<ChoiceSelectionView> = if k < iv.len() { Some(iv[k as int]) } else { None };
        let empty_selections = Selections::new();
        let nested: &Selections = match input_choice {
            Some(ic) => match ic.modifiers() {
                Some(s) => s,
                None => &empty_selections,
            },
            None => &empty_selections,
        };
        proof {
            if k < iv.len() {
                assert(iv[k as int] == input_choices@[k as int]@);
            }
            assert(nested@ == nested_selections(input_view));
        }
        let modifiers: Option<Configuration> = match &choice.modifiers {
            Some(b) => {
                assert(decreases_to!(self => self.choices@[index as int]));
                assert(decreases_to!(self => **b));
                Some((**b).hydrate_with_inputs(nested, applicability, consumer_profile, time, Ghost(env))?)
            },
            None => {
                if !nested.is_empty() {
                    return Err(ModifierError::UnexpectedNestedSelections(choice.choice_id.clone()));
                }
                None
            },
        };
        let label = match choice.label.resolve(consumer_profile) {
            Ok(l) => l,
            Err(le) => return Err(ModifierError::from(le)),
        };
        Ok(ChoiceConfiguration::new(
            v.choice_id().clone(),
            label,
            choice.label.clone(),
            v.quantity(),
            v.source(),
            clone_effects(v.effects()),
            v.price_definition().clone(),
            configured_inputs,
            modifiers,
        ))
    }

    #[verifier::spinoff_prover]
    #[verifier::rlimit(60)]
    fn hydrate_with_inputs(
        &self,
        selection: Option<&PromptSelection>,
        applicability: &ModifierApplicability,
        consumer_profile: &ConsumerProfile,
        time: Option<&EvaluationTime>,
        Ghost(env): Ghost<EnvView>,
    ) -> (r: Result<PromptConfiguration, ModifierError>)
        requires
            env == env_view(applicability@, consumer_profile@, opt_time_view(time)),
        ensures
            match r {
                Ok(pc) => hydrate_prompt(self@, opt_prompt_selection_view(selection), env) == Ok::<PromptConfigurationView, ModifierErrorView>(pc@),
                Err(e) => hydrate_prompt(self@, opt_prompt_selection_view(selection), env) == Err::<PromptConfigurationView, ModifierErrorView>(e@),
            },
        decreases self, 1nat,
    {
        proof {
            lemma_prompt_view(*self);
        }
        let ghost p = self@;
        let empty: Vec<ChoiceSelection> = Vec::new();
        let input_choices: &[ChoiceSelection] = match selection {
            Some(s) => s.choices(),
            None => empty.as_slice(),
        };
        let ghost iv = choice_selection_views(input_choices@);
        assert(iv == match opt_prompt_selection_view(selection) {
            Some(s) => s.choices,
            None => Seq::<ChoiceSelectionView>::empty(),
        });
        let validated = self.hydrate_selections_with_inputs(input_choices, applicability, time, Ghost(env))?;
        let ghost vv = validated.deep_view();
        let mut choices: Vec<ChoiceConfiguration> = Vec::new();
        let mut k: usize = 0;
        assert(choice_configuration_views(choices@) =~= Seq::<ChoiceConfigurationView>::empty());
        while k < validated.len()
            invariant
                k <= validated.len(),
                p == self@,
                p.choices == choice_views(self.choices@),
                iv == choice_selection_views(input_choices@),
                iv == match opt_prompt_selection_view(selection) {
                    Some(s) => s.choices,
                    None => Seq::<ChoiceSelectionView>::empty(),
                },
                vv == validated.deep_view(),
                p.hydrate_selections(iv, env) == Ok::<Seq<ValidatedView>, ModifierErrorView>(vv),
                env == env_view(applicability@, consumer_profile@, opt_time_view(time)),
                hydrate_choices(p, iv, vv, env, k as nat) == Ok::<Seq<ChoiceConfigurationView>, ModifierErrorView>(choice_configuration_views(choices@)),
            decreases validated.len() - k,
        {
            let configured = match self.hydrate_validated_choice(&validated, k, input_choices, applicability, consumer_profile, time, Ghost(env)) {
                Ok(c) => c,
                Err(e) => {
                    proof {
                        lemma_hydrate_choices_error_sticks(p, iv, vv, env, (k + 1) as nat);
                    }
                    return Err(e);
                },
            };
            let ghost before = choices@;
            choices.push(configured);
            assert(choice_configuration_views(choices@) =~= choice_configuration_views(before).push(configured@));
            k += 1;
        }
        let label = match self.label.resolve(consumer_profile) {
            Ok(l) => l,
            Err(le) => return Err(ModifierError::from(le)),
        };
        let (description, description_definition) = match &self.description {
            Some(d) => match d.resolve(consumer_profile) {
                Ok(l) => (Some(l), Some(d.clone())),
                Err(le) => return Err(ModifierError::from(le)),
            },
            None => (None, None),
        };
        Ok(PromptConfiguration::new(
            self.prompt_id.clone(),
            label,
            self.label.clone(),
            description,
            description_definition,
            clone_effects(self.effects.as_slice()),
            choices,
        ))
    }
}

/// How many of the first `n` prompt selections are for the given prompt.
fn count_selected(prompts: &[PromptSelection], n: usize, id: &ComponentId) -> (r: usize)
    requires
        n <= prompts.len(),
    ensures
        r == count_id(selection_prompt_ids(crate::modifier::mod_selection::prompt_selection_views(prompts@)).take(n as int), id@),
{
    let ghost ids = selection_prompt_ids(crate::modifier::mod_selection::prompt_selection_views(prompts@));
    let mut count: usize = 0;
    let mut i: usize = 0;
    while i < n
        invariant
            i <= n <= prompts.len(),
            ids == selection_prompt_ids(crate::modifier::mod_selection::prompt_selection_views(prompts@)),
            count == count_id(ids.take(i as int), id@),
            count <= i,
        decreases n - i,
    {
        proof {
            lemma_count_id_step(ids, id@, i as int);
        }
        if prompts[i].prompt_id().same_as(id) {
            count += 1;
        }
        i += 1;
    }
    count
}

/// How many of the first `n` prompt definitions carry the given identifier.
fn count_defined(prompts: &[Prompt], n: usize, id: &ComponentId) -> (r: usize)
    requires
        n <= prompts.len(),
    ensures
        r == count_id(prompt_ids(prompt_views(prompts@)).take(n as int), id@),
{
    let ghost ids = prompt_ids(prompt_views(prompts@));
    let mut count: usize = 0;
    let mut i: usize = 0;
    while i < n
        invariant
            i <= n <= prompts.len(),
            ids == prompt_ids(prompt_views(prompts@)),
            count == count_id(ids.take(i as int), id@),
            count <= i,
        decreases n - i,
    {
        proof {
            lemma_count_id_step(ids, id@, i as int);
        }
        if prompts[i].prompt_id().same_as(id) {
            count += 1;
        }
        i += 1;
    }
    count
}

/// An identifier counted at least once occurs in the list, and conversely.
proof fn lemma_count_id_contains(ids: Seq<PrefixedIdView>, id: PrefixedIdView)
    ensures
        (count_id(ids, id) > 0) == ids.contains(id),
    decreases ids.len(),
{
    if ids.len() > 0 {
        lemma_count_id_contains(ids.drop_last(), id);
        if ids.drop_last().contains(id) {
            let i = choose|i: int| 0 <= i < ids.drop_last().len() && ids.drop_last()[i] == id;
            assert(ids[i] == id);
        }
        if ids.contains(id) && ids.last() != id {
            let i = choose|i: int| 0 <= i < ids.len() && ids[i] == id;
            assert(ids.drop_last()[i] == id);
        }
    }
}

proof fn lemma_first_overflow(m: ModifiersView, sels: SelectionsView, app: ApplicabilityView, k: int)
    requires
        0 <= k < sels.prompts.len(),
        m.selection_overflows(sels, app, k),
        forall|j: int| 0 <= j < k ==> !#[trigger] m.selection_overflows(sels, app, j),
    ensures
        m.check_prompt_selections(sels, app) == if prompt_ids(m.prompts).contains(sels.prompts[k].prompt_id)
            && m.allowed_count(app, sels.prompts[k].prompt_id) == 0 {
            Err::<(), ModifierErrorView>(ModifierErrorView::InapplicablePromptSelection(sels.prompts[k].prompt_id))
        } else {
            Err::<(), ModifierErrorView>(ModifierErrorView::UnknownPromptSelection(sels.prompts[k].prompt_id))
        },
{
    let w = choose|w: int| 0 <= w < sels.prompts.len() && #[trigger] m.selection_overflows(sels, app, w)
        && forall|j: int| 0 <= j < w ==> !#[trigger] m.selection_overflows(sels, app, j);
    assert(m.selection_overflows(sels, app, k));
    if w < k {
        assert(!m.selection_overflows(sels, app, w));
    } else if w > k {
        assert(!m.selection_overflows(sels, app, k));
    }
}

impl Modifiers {
    #[verifier::spinoff_prover]
    #[verifier::rlimit(60)]
    fn validate_prompt_selections(&self, selections: &Selections, applicability: &ModifierApplicability) -> (r: Result<(), ModifierError>)
        ensures
            match r {
                Ok(_) => self@.check_prompt_selections(selections@, applicability@) is Ok,
                Err(e) => self@.check_prompt_selections(selections@, applicability@) == Err::<(), ModifierErrorView>(e@),
            },
    {
        proof {
            lemma_modifiers_view(*self);
        }
        let ghost m = self@;
        let sel = selections.prompts();
        let ghost sv = selections@;
        let ghost ids = selection_prompt_ids(sv.prompts);
        let mut k: usize = 0;
        while k < sel.len()
            invariant
                k <= sel.len(),
                m == self@,
                m.prompts == prompt_views(self.prompts@),
                sv == selections@,
                crate::modifier::mod_selection::prompt_selection_views(sel@) == sv.prompts,
                ids == selection_prompt_ids(sv.prompts),
                forall|j: int| 0 <= j < k ==> !#[trigger] m.selection_overflows(sv, applicability@, j),
            decreases sel.len() - k,
        {
            let id = sel[k].prompt_id();
            assert(sv.prompts[k as int] == sel@[k as int]@);
            assert(ids[k as int] == id@);
            let selected = count_selected(sel, k + 1, id);
            let allowed = if applicability.is_prompt_applicable(id) {
                count_defined(self.prompts.as_slice(), self.prompts.len(), id)
            } else {
                0
            };
            proof {
                assert(prompt_ids(m.prompts).take(self.prompts.len() as int) =~= prompt_ids(m.prompts));
                assert(allowed == m.allowed_count(applicability@, id@));
            }
            if selected > allowed {
                proof {
                    lemma_first_overflow(m, sv, applicability@, k as int);
                }
                let defined = count_defined(self.prompts.as_slice(), self.prompts.len(), id);
                proof {
                    lemma_count_id_contains(prompt_ids(m.prompts), id@);
                }
                if defined > 0 && allowed == 0 {
                    return Err(ModifierError::InapplicablePromptSelection(id.clone()));
                }
                return Err(ModifierError::UnknownPromptSelection(id.clone()));
            }
            k += 1;
        }
        proof {
            assert(!exists|j: int| 0 <= j < sv.prompts.len() && #[trigger] m.selection_overflows(sv, applicability@, j));
        }
        Ok(())
    }

    #[verifier::spinoff_prover]
    #[verifier::rlimit(60)]
    fn hydrate_with_inputs(
        &self,
        selections: &Selections,
        applicability: &ModifierApplicability,
        consumer_profile: &ConsumerProfile,
        time: Option<&EvaluationTime>,
        Ghost(env): Ghost<EnvView>,
    ) -> (r: Result<Configuration, ModifierError>)
        requires
            env == env_view(applicability@, consumer_profile@, opt_time_view(time)),
        ensures
            match r {
                Ok(c) => hydrate_modifiers(self@, selections@, env) == Ok::<ConfigurationView, ModifierErrorView>(c@),
                Err(e) => hydrate_modifiers(self@, selections@, env) == Err::<ConfigurationView, ModifierErrorView>(e@),
            },
        decreases self, 0nat,
    {
        proof {
            lemma_modifiers_view(*self);
        }
        let ghost m = self@;
        self.validate_prompt_selections(selections, applicability)?;
        let mut prompts: Vec<PromptConfiguration> = Vec::new();
        let mut i: usize = 0;
        assert(prompt_configuration_views(prompts@) =~= Seq::<PromptConfigurationView>::empty());
        while i < self.prompts.len()
            invariant
                i <= self.prompts.len(),
                m == self@,
                m.prompts == prompt_views(self.prompts@),
                m.check_prompt_selections(selections@, applicability@) is Ok,
                env == env_view(applicability@, consumer_profile@, opt_time_view(time)),
                hydrate_prompts(m, selections@, env, i as nat) == Ok::<Seq<PromptConfigurationView>, ModifierErrorView>(prompt_configuration_views(prompts@)),
            decreases self.prompts.len() - i,
        {
            let prompt = &self.prompts[i];
            assert(m.prompts[i as int] == prompt@);
            if applicability.is_prompt_applicable(prompt.prompt_id()) {
                let occurrence = count_defined(self.prompts.as_slice(), i, prompt.prompt_id());
                let selection = selections.prompt_at(prompt.prompt_id(), occurrence);
                assert(decreases_to!(self => self.prompts@[i as int]));
                let configured = match prompt.hydrate_with_inputs(selection, applicability, consumer_profile, time, Ghost(env)) {
                    Ok(c) => c,
                    Err(e) => {
                        proof {
                            lemma_hydrate_prompts_error_sticks(m, selections@, env, (i + 1) as nat);
                        }
                        return Err(e);
                    },
                };
                let ghost before = prompts@;
                prompts.push(configured);
                assert(prompt_configuration_views(prompts@) =~= prompt_configuration_views(before).push(configured@));
            }
            i += 1;
        }
        Ok(Configuration::new(prompts))
    }
}

impl Modifiers {
    pub fn hydrate(&self, selections: &Selections) -> (r: Result<Configuration, ModifierError>)
        ensures
            match r {
                Ok(c) => hydrate_modifiers(self@, selections@, env_view(all_applicable(), Set::<PrefixedIdView>::empty(), None)) == Ok::<ConfigurationView, ModifierErrorView>(c@),
                Err(e) => hydrate_modifiers(self@, selections@, env_view(all_applicable(), Set::<PrefixedIdView>::empty(), None)) == Err::<ConfigurationView, ModifierErrorView>(e@),
            },
    {
        let all = ModifierApplicability::all();
        let applicability = &all;
        let empty_profile = ConsumerProfile::empty();
        let consumer_profile = &empty_profile;
        self.hydrate_with_inputs(selections, applicability, consumer_profile, None, Ghost(env_view(applicability@, consumer_profile@, opt_time_view(None))))
    }

    pub fn hydrate_at(&self, selections: &Selections, evaluation_time: &EvaluationTime) -> (r: Result<Configuration, ModifierError>)
        ensures
            match r {
                Ok(c) => hydrate_modifiers(self@, selections@, env_view(all_applicable(), Set::<PrefixedIdView>::empty(), Some(evaluation_time@))) == Ok::<ConfigurationView, ModifierErrorView>(c@),
                Err(e) => hydrate_modifiers(self@, selections@, env_view(all_applicable(), Set::<PrefixedIdView>::empty(), Some(evaluation_time@))) == Err::<ConfigurationView, ModifierErrorView>(e@),
            },
    {
        let all = ModifierApplicability::all();
        let applicability = &all;
        let empty_profile = ConsumerProfile::empty();
        let consumer_profile = &empty_profile;
        self.hydrate_with_inputs(selections, applicability, consumer_profile, Some(evaluation_time), Ghost(env_view(applicability@, consumer_profile@, opt_time_view(Some(evaluation_time)))))
    }

    pub fn hydrate_for_profile(&self, selections: &Selections, consumer_profile: &ConsumerProfile) -> (r: Result<Configuration, ModifierError>)
        ensures
            match r {
                Ok(c) => hydrate_modifiers(self@, selections@, env_view(all_applicable(), consumer_profile@, None)) == Ok::<ConfigurationView, ModifierErrorView>(c@),
                Err(e) => hydrate_modifiers(self@, selections@, env_view(all_applicable(), consumer_profile@, None)) == Err::<ConfigurationView, ModifierErrorView>(e@),
            },
    {
        let all = ModifierApplicability::all();
        let applicability = &all;
        self.hydrate_with_inputs(selections, applicability, consumer_profile, None, Ghost(env_view(applicability@, consumer_profile@, opt_time_view(None))))
    }

    pub fn hydrate_for_profile_at(&self, selections: &Selections, consumer_profile: &ConsumerProfile, evaluation_time: &EvaluationTime) -> (r: Result<Configuration, ModifierError>)
        ensures
            match r {
                Ok(c) => hydrate_modifiers(self@, selections@, env_view(all_applicable(), consumer_profile@, Some(evaluation_time@))) == Ok::<ConfigurationView, ModifierErrorView>(c@),
                Err(e) => hydrate_modifiers(self@, selections@, env_view(all_applicable(), consumer_profile@, Some(evaluation_time@))) == Err::<ConfigurationView, ModifierErrorView>(e@),
            },
    {
        let all = ModifierApplicability::all();
        let applicability = &all;
        self.hydrate_with_inputs(selections, applicability, consumer_profile, Some(evaluation_time), Ghost(env_view(applicability@, consumer_profile@, opt_time_view(Some(evaluation_time)))))
    }

    pub fn hydrate_with_applicability(&self, selections: &Selections, applicability: &ModifierApplicability) -> (r: Result<Configuration, ModifierError>)
        ensures
            match r {
                Ok(c) => hydrate_modifiers(self@, selections@, env_view(applicability@, Set::<PrefixedIdView>::empty(), None)) == Ok::<ConfigurationView, ModifierErrorView>(c@),
                Err(e) => hydrate_modifiers(self@, selections@, env_view(applicability@, Set::<PrefixedIdView>::empty(), None)) == Err::<ConfigurationView, ModifierErrorView>(e@),
            },
    {
        let empty_profile = ConsumerProfile::empty();
        let consumer_profile = &empty_profile;
        self.hydrate_with_inputs(selections, applicability, consumer_profile, None, Ghost(env_view(applicability@, consumer_profile@, opt_time_view(None))))
    }

    pub fn hydrate_with_applicability_at(&self, selections: &Selections, applicability: &ModifierApplicability, evaluation_time: &EvaluationTime) -> (r: Result<Configuration, ModifierError>)
        ensures
            match r {
                Ok(c) => hydrate_modifiers(self@, selections@, env_view(applicability@, Set::<PrefixedIdView>::empty(), Some(evaluation_time@))) == Ok::<ConfigurationView, ModifierErrorView>(c@),
                Err(e) => hydrate_modifiers(self@, selections@, env_view(applicability@, Set::<PrefixedIdView>::empty(), Some(evaluation_time@))) == Err::<ConfigurationView, ModifierErrorView>(e@),
            },
    {
        let empty_profile = ConsumerProfile::empty();
        let consumer_profile = &empty_profile;
        self.hydrate_with_inputs(selections, applicability, consumer_profile, Some(evaluation_time), Ghost(env_view(applicability@, consumer_profile@, opt_time_view(Some(evaluation_time)))))
    }

    pub fn hydrate_with_applicability_and_profile(&self, selections: &Selections, applicability: &ModifierApplicability, consumer_profile: &ConsumerProfile) -> (r: Result<Configuration, ModifierError>)
        ensures
            match r {
                Ok(c) => hydrate_modifiers(self@, selections@, env_view(applicability@, consumer_profile@, None)) == Ok::<ConfigurationView, ModifierErrorView>(c@),
                Err(e) => hydrate_modifiers(self@, selections@, env_view(applicability@, consumer_profile@, None)) == Err::<ConfigurationView, ModifierErrorView>(e@),
            },
    {
        self.hydrate_with_inputs(selections, applicability, consumer_profile, None, Ghost(env_view(applicability@, consumer_profile@, opt_time_view(None))))
    }

    pub fn hydrate_with_applicability_and_profile_at(&self, selections: &Selections, applicability: &ModifierApplicability, consumer_profile: &ConsumerProfile, evaluation_time: &EvaluationTime) -> (r: Result<Configuration, ModifierError>)
        ensures
            match r {
                Ok(c) => hydrate_modifiers(self@, selections@, env_view(applicability@, consumer_profile@, Some(evaluation_time@))) == Ok::<ConfigurationView, ModifierErrorView>(c@),
                Err(e) => hydrate_modifiers(self@, selections@, env_view(applicability@, consumer_profile@, Some(evaluation_time@))) == Err::<ConfigurationView, ModifierErrorView>(e@),
            },
    {
        self.hydrate_with_inputs(selections, applicability, consumer_profile, Some(evaluation_time), Ghost(env_view(applicability@, consumer_profile@, opt_time_view(Some(evaluation_time)))))
    }

}

impl Prompt {
    pub fn hydrate(&self, selection: Option<&PromptSelection>) -> (r: Result<PromptConfiguration, ModifierError>)
        ensures
            match r {
                Ok(c) => hydrate_prompt(self@, opt_prompt_selection_view(selection), env_view(all_applicable(), Set::<PrefixedIdView>::empty(), None)) == Ok::<PromptConfigurationView, ModifierErrorView>(c@),
                Err(e) => hydrate_prompt(self@, opt_prompt_selection_view(selection), env_view(all_applicable(), Set::<PrefixedIdView>::empty(), None)) == Err::<PromptConfigurationView, ModifierErrorView>(e@),
            },
    {
        let all = ModifierApplicability::all();
        let applicability = &all;
        let empty_profile = ConsumerProfile::empty();
        let consumer_profile = &empty_profile;
        self.hydrate_with_inputs(selection, applicability, consumer_profile, None, Ghost(env_view(applicability@, consumer_profile@, opt_time_view(None))))
    }

    pub fn hydrate_at(&self, selection: Option<&PromptSelection>, evaluation_time: &EvaluationTime) -> (r: Result<PromptConfiguration, ModifierError>)
        ensures
            match r {
                Ok(c) => hydrate_prompt(self@, opt_prompt_selection_view(selection), env_view(all_applicable(), Set::<PrefixedIdView>::empty(), Some(evaluation_time@))) == Ok::<PromptConfigurationView, ModifierErrorView>(c@),
                Err(e) => hydrate_prompt(self@, opt_prompt_selection_view(selection), env_view(all_applicable(), Set::<PrefixedIdView>::empty(), Some(evaluation_time@))) == Err::<PromptConfigurationView, ModifierErrorView>(e@),
            },
    {
        let all = ModifierApplicability::all();
        let applicability = &all;
        let empty_profile = ConsumerProfile::empty();
        let consumer_profile = &empty_profile;
        self.hydrate_with_inputs(selection, applicability, consumer_profile, Some(evaluation_time), Ghost(env_view(applicability@, consumer_profile@, opt_time_view(Some(evaluation_time)))))
    }

    pub fn hydrate_for_profile(&self, selection: Option<&PromptSelection>, consumer_profile: &ConsumerProfile) -> (r: Result<PromptConfiguration, ModifierError>)
        ensures
            match r {
                Ok(c) => hydrate_prompt(self@, opt_prompt_selection_view(selection), env_view(all_applicable(), consumer_profile@, None)) == Ok::<PromptConfigurationView, ModifierErrorView>(c@),
                Err(e) => hydrate_prompt(self@, opt_prompt_selection_view(selection), env_view(all_applicable(), consumer_profile@, None)) == Err::<PromptConfigurationView, ModifierErrorView>(e@),
            },
    {
        let all = ModifierApplicability::all();
        let applicability = &all;
        self.hydrate_with_inputs(selection, applicability, consumer_profile, None, Ghost(env_view(applicability@, consumer_profile@, opt_time_view(None))))
    }

    pub fn hydrate_for_profile_at(&self, selection: Option<&PromptSelection>, consumer_profile: &ConsumerProfile, evaluation_time: &EvaluationTime) -> (r: Result<PromptConfiguration, ModifierError>)
        ensures
            match r {
                Ok(c) => hydrate_prompt(self@, opt_prompt_selection_view(selection), env_view(all_applicable(), consumer_profile@, Some(evaluation_time@))) == Ok::<PromptConfigurationView, ModifierErrorView>(c@),
                Err(e) => hydrate_prompt(self@, opt_prompt_selection_view(selection), env_view(all_applicable(), consumer_profile@, Some(evaluation_time@))) == Err::<PromptConfigurationView, ModifierErrorView>(e@),
            },
    {
        let all = ModifierApplicability::all();
        let applicability = &all;
        self.hydrate_with_inputs(selection, applicability, consumer_profile, Some(evaluation_time), Ghost(env_view(applicability@, consumer_profile@, opt_time_view(Some(evaluation_time)))))
    }

    pub fn hydrate_with_applicability(&self, selection: Option<&PromptSelection>, applicability: &ModifierApplicability) -> (r: Result<PromptConfiguration, ModifierError>)
        ensures
            match r {
                Ok(c) => hydrate_prompt(self@, opt_prompt_selection_view(selection), env_view(applicability@, Set::<PrefixedIdView>::empty(), None)) == Ok::<PromptConfigurationView, ModifierErrorView>(c@),
                Err(e) => hydrate_prompt(self@, opt_prompt_selection_view(selection), env_view(applicability@, Set::<PrefixedIdView>::empty(), None)) == Err::<PromptConfigurationView, ModifierErrorView>(e@),
            },
    {
        let empty_profile = ConsumerProfile::empty();
        let consumer_profile = &empty_profile;
        self.hydrate_with_inputs(selection, applicability, consumer_profile, None, Ghost(env_view(applicability@, consumer_profile@, opt_time_view(None))))
    }

    pub fn hydrate_with_applicability_at(&self, selection: Option<&PromptSelection>, applicability: &ModifierApplicability, evaluation_time: &EvaluationTime) -> (r: Result<PromptConfiguration, ModifierError>)
        ensures
            match r {
                Ok(c) => hydrate_prompt(self@, opt_prompt_selection_view(selection), env_view(applicability@, Set::<PrefixedIdView>::empty(), Some(evaluation_time@))) == Ok::<PromptConfigurationView, ModifierErrorView>(c@),
                Err(e) => hydrate_prompt(self@, opt_prompt_selection_view(selection), env_view(applicability@, Set::<PrefixedIdView>::empty(), Some(evaluation_time@))) == Err::<PromptConfigurationView, ModifierErrorView>(e@),
            },
    {
        let empty_profile = ConsumerProfile::empty();
        let consumer_profile = &empty_profile;
        self.hydrate_with_inputs(selection, applicability, consumer_profile, Some(evaluation_time), Ghost(env_view(applicability@, consumer_profile@, opt_time_view(Some(evaluation_time)))))
    }

    pub fn hydrate_selections(&self, selections: &[ChoiceSelection]) -> (r: Result<Vec<ValidatedChoiceSelection>, ModifierError>)
        ensures
            match r {
                Ok(v) => self@.hydrate_selections(choice_selection_views(selections@), env_view(all_applicable(), Set::<PrefixedIdView>::empty(), None))
                    == Ok::<Seq<ValidatedView>, ModifierErrorView>(v.deep_view()),
                Err(e) => self@.hydrate_selections(choice_selection_views(selections@), env_view(all_applicable(), Set::<PrefixedIdView>::empty(), None))
                    == Err::<Seq<ValidatedView>, ModifierErrorView>(e@),
            },
    {
        let all = ModifierApplicability::all();
        let applicability = &all;
        self.hydrate_selections_with_inputs(selections, applicability, None, Ghost(env_view(applicability@, Set::<PrefixedIdView>::empty(), opt_time_view(None))))
    }

    pub fn hydrate_selections_at(&self, selections: &[ChoiceSelection], evaluation_time: &EvaluationTime) -> (r: Result<Vec<ValidatedChoiceSelection>, ModifierError>)
        ensures
            match r {
                Ok(v) => self@.hydrate_selections(choice_selection_views(selections@), env_view(all_applicable(), Set::<PrefixedIdView>::empty(), Some(evaluation_time@)))
                    == Ok::<Seq<ValidatedView>, ModifierErrorView>(v.deep_view()),
                Err(e) => self@.hydrate_selections(choice_selection_views(selections@), env_view(all_applicable(), Set::<PrefixedIdView>::empty(), Some(evaluation_time@)))
                    == Err::<Seq<ValidatedView>, ModifierErrorView>(e@),
            },
    {
        let all = ModifierApplicability::all();
        let applicability = &all;
        self.hydrate_selections_with_inputs(selections, applicability, Some(evaluation_time), Ghost(env_view(applicability@, Set::<PrefixedIdView>::empty(), opt_time_view(Some(evaluation_time)))))
    }

    pub fn hydrate_selections_with_applicability(&self, selections: &[ChoiceSelection], applicability: &ModifierApplicability) -> (r: Result<Vec<ValidatedChoiceSelection>, ModifierError>)
        ensures
            match r {
                Ok(v) => self@.hydrate_selections(choice_selection_views(selections@), env_view(applicability@, Set::<PrefixedIdView>::empty(), None))
                    == Ok::<Seq<ValidatedView>, ModifierErrorView>(v.deep_view()),
                Err(e) => self@.hydrate_selections(choice_selection_views(selections@), env_view(applicability@, Set::<PrefixedIdView>::empty(), None))
                    == Err::<Seq<ValidatedView>, ModifierErrorView>(e@),
            },
    {
        self.hydrate_selections_with_inputs(selections, applicability, None, Ghost(env_view(applicability@, Set::<PrefixedIdView>::empty(), opt_time_view(None))))
    }

    pub fn hydrate_selections_with_applicability_at(&self, selections: &[ChoiceSelection], applicability: &ModifierApplicability, evaluation_time: &EvaluationTime) -> (r: Result<Vec<ValidatedChoiceSelection>, ModifierError>)
        ensures
            match r {
                Ok(v) => self@.hydrate_selections(choice_selection_views(selections@), env_view(applicability@, Set::<PrefixedIdView>::empty(), Some(evaluation_time@)))
                    == Ok::<Seq<ValidatedView>, ModifierErrorView>(v.deep_view()),
                Err(e) => self@.hydrate_selections(choice_selection_views(selections@), env_view(applicability@, Set::<PrefixedIdView>::empty(), Some(evaluation_time@)))
                    == Err::<Seq<ValidatedView>, ModifierErrorView>(e@),
            },
    {
        self.hydrate_selections_with_inputs(selections, applicability, Some(evaluation_time), Ghost(env_view(applicability@, Set::<PrefixedIdView>::empty(), opt_time_view(Some(evaluation_time)))))
    }

    /// Validates explicit selections as given, without applying defaults.
    pub fn validate_selections(&self, selections: &[ChoiceSelection]) -> (r: Result<Vec<ValidatedChoiceSelection>, ModifierError>)
        ensures
            match r {
                Ok(v) => self@.validate_candidates(choice_selection_views(selections@).map_values(|s: ChoiceSelectionView| to_candidate(s)), env_view(all_applicable(), Set::<PrefixedIdView>::empty(), None))
                    == Ok::<Seq<ValidatedView>, ModifierErrorView>(v.deep_view()),
                Err(e) => self@.validate_candidates(choice_selection_views(selections@).map_values(|s: ChoiceSelectionView| to_candidate(s)), env_view(all_applicable(), Set::<PrefixedIdView>::empty(), None))
                    == Err::<Seq<ValidatedView>, ModifierErrorView>(e@),
            },
    {
        let all = ModifierApplicability::all();
        let cands = candidates_of(selections);
        self.validate_candidates(cands, &all, None, Ghost(env_view(all@, Set::<PrefixedIdView>::empty(), None)))
    }

    /// The choices shown at an evaluation time, in order.
    pub fn visible_choices_at(&self, evaluation_time: &EvaluationTime) -> (r: Vec<&Choice>)
        ensures
            r@.map_values(|c: &Choice| c@) == visible_choices(self@.choices, evaluation_time@),
    {
        proof {
            lemma_prompt_view(*self);
        }
        let ghost cv = self@.choices;
        let mut out: Vec<&Choice> = Vec::new();
        let mut i: usize = 0;
        assert(out@.map_values(|c: &Choice| c@) =~= visible_choices(cv.take(0), evaluation_time@));
        while i < self.choices.len()
            invariant
                i <= self.choices.len(),
                cv == choice_views(self.choices@),
                out@.map_values(|c: &Choice| c@) == visible_choices(cv.take(i as int), evaluation_time@),
            decreases self.choices.len() - i,
        {
            assert(cv.take(i + 1).drop_last() =~= cv.take(i as int));
            assert(cv[i as int] == self.choices@[i as int]@);
            let choice = &self.choices[i];
            if choice.is_visible_at(evaluation_time) {
                let ghost before = out@;
                out.push(choice);
                assert(out@.map_values(|c: &Choice| c@) =~= before.map_values(|c: &Choice| c@).push(choice@));
            }
            i += 1;
        }
        assert(cv.take(self.choices.len() as int) =~= cv);
        out
    }
}

/// Every prompt and choice applies.
pub open spec fn all_applicable() -> ApplicabilityView {
    ApplicabilityView { inapplicable_prompts: Set::empty(), inapplicable_choices: Set::empty() }
}

/// The choices visible at an evaluation time, in order.
pub open spec fn visible_choices(choices: Seq<ChoiceView>, t: EvaluationTimeView) -> Seq<ChoiceView>
    decreases choices.len(),
{
    if choices.len() == 0 {
        Seq::empty()
    } else if choices.last().visible_at(t) {
        visible_choices(choices.drop_last(), t).push(choices.last())
    } else {
        visible_choices(choices.drop_last(), t)
    }
}

/// A node of a modifier tree, as a walk visits it.
#[derive(Debug, Copy, Clone, Eq, PartialEq)]
pub enum ModifierNode<'a> {
    Modifiers(&'a Modifiers),
    Prompt(&'a Prompt),
    Choice(&'a Choice),
}

/// The abstract value of a visited node.
pub enum NodeView {
    Modifiers(ModifiersView),
    Prompt(PromptView),
    Choice(ChoiceView),
}

impl<'a> View for ModifierNode<'a> {
    type V = NodeView;

    open spec fn view(&self) -> NodeView {
        match self {
            ModifierNode::Modifiers(m) => NodeView::Modifiers(m@),
            ModifierNode::Prompt(p) => NodeView::Prompt(p@),
            ModifierNode::Choice(c) => NodeView::Choice(c@),
        }
    }
}

pub open spec fn node_views<'a>(nodes: Seq<ModifierNode<'a>>) -> Seq<NodeView> {
    nodes.map_values(|n: ModifierNode<'a>| n@)
}

/// The nodes of a modifier tree in depth-first order, each node before its
/// children; with a time, only the choices visible then, and what is below them.
pub open spec fn walk_modifiers(m: ModifiersView, t: Option<EvaluationTimeView>) -> Seq<NodeView>
    decreases m, 1nat, 0nat,
{
    seq![NodeView::Modifiers(m)] + walk_prompts(m.prompts, t, m.prompts.len())
}

pub open spec fn walk_prompts(ps: Seq<PromptView>, t: Option<EvaluationTimeView>, n: nat) -> Seq<NodeView>
    decreases ps, 0nat, n,
{
    if n == 0 || n > ps.len() {
        Seq::empty()
    } else {
        walk_prompts(ps, t, (n - 1) as nat) + walk_prompt(ps[n - 1], t)
    }
}

pub open spec fn walk_prompt(p: PromptView, t: Option<EvaluationTimeView>) -> Seq<NodeView>
    decreases p, 1nat, 0nat,
{
    seq![NodeView::Prompt(p)] + walk_choices(p.choices, t, p.choices.len())
}

pub open spec fn walk_choices(cs: Seq<ChoiceView>, t: Option<EvaluationTimeView>, n: nat) -> Seq<NodeView>
    decreases cs, 0nat, n,
{
    if n == 0 || n > cs.len() {
        Seq::empty()
    } else {
        let c = cs[n - 1];
        let shown = match t {
            Some(time) => c.visible_at(time),
            None => true,
        };
        walk_choices(cs, t, (n - 1) as nat) + if shown { walk_choice(c, t) } else { Seq::empty() }
    }
}

pub open spec fn walk_choice(c: ChoiceView, t: Option<EvaluationTimeView>) -> Seq<NodeView>
    decreases c, 1nat, 0nat,
{
    seq![NodeView::Choice(c)] + match c.modifiers {
        Some(m) => walk_modifiers(*m, t),
        None => Seq::empty(),
    }
}

impl Modifiers {
    fn walk_nodes<'a>(&'a self, time: Option<&EvaluationTime>) -> (r: Vec<ModifierNode<'a>>)
        ensures
            node_views(r@) == walk_modifiers(self@, opt_time_view(time)),
        decreases self, 0nat,
    {
        proof {
            lemma_modifiers_view(*self);
        }
        let ghost t = opt_time_view(time);
        let mut out: Vec<ModifierNode<'a>> = Vec::new();
        out.push(ModifierNode::Modifiers(self));
        let mut i: usize = 0;
        assert(node_views(out@) =~= seq![NodeView::Modifiers(self@)] + walk_prompts(self@.prompts, t, 0));
        while i < self.prompts.len()
            invariant
                i <= self.prompts.len(),
                self@.prompts == prompt_views(self.prompts@),
                t == opt_time_view(time),
                node_views(out@) == seq![NodeView::Modifiers(self@)] + walk_prompts(self@.prompts, t, i as nat),
            decreases self.prompts.len() - i,
        {
            assert(decreases_to!(self => self.prompts@[i as int]));
            let mut nodes = self.prompts[i].walk_nodes(time);
            assert(self@.prompts[i as int] == self.prompts@[i as int]@);
            let ghost before = out@;
            let ghost added = nodes@;
            out.append(&mut nodes);
            assert(node_views(out@) =~= node_views(before) + node_views(added));
            i += 1;
        }
        out
    }

    /// Every node of the tree, depth first, each before its children.
    pub fn walk<'a>(&'a self) -> (r: Vec<ModifierNode<'a>>)
        ensures
            node_views(r@) == walk_modifiers(self@, None),
    {
        self.walk_nodes(None)
    }

    /// The nodes of the tree that are visible at an evaluation time.
    pub fn walk_visible_at<'a>(&'a self, evaluation_time: &EvaluationTime) -> (r: Vec<ModifierNode<'a>>)
        ensures
            node_views(r@) == walk_modifiers(self@, Some(evaluation_time@)),
    {
        self.walk_nodes(Some(evaluation_time))
    }
}

impl Prompt {
    fn walk_nodes<'a>(&'a self, time: Option<&EvaluationTime>) -> (r: Vec<ModifierNode<'a>>)
        ensures
            node_views(r@) == walk_prompt(self@, opt_time_view(time)),
        decreases self, 1nat,
    {
        proof {
            lemma_prompt_view(*self);
        }
        let ghost t = opt_time_view(time);
        let mut out: Vec<ModifierNode<'a>> = Vec::new();
        out.push(ModifierNode::Prompt(self));
        let mut i: usize = 0;
        assert(node_views(out@) =~= seq![NodeView::Prompt(self@)] + walk_choices(self@.choices, t, 0));
        while i < self.choices.len()
            invariant
                i <= self.choices.len(),
                self@.choices == choice_views(self.choices@),
                t == opt_time_view(time),
                node_views(out@) == seq![NodeView::Prompt(self@)] + walk_choices(self@.choices, t, i as nat),
            decreases self.choices.len() - i,
        {
            let choice = &self.choices[i];
            assert(self@.choices[i as int] == choice@);
            let shown = match time {
                Some(et) => choice.is_visible_at(et),
                None => true,
            };
            let ghost before = out@;
            if shown {
                assert(decreases_to!(self => self.choices@[i as int]));
                let mut nodes = choice.walk_nodes(time);
                let ghost added = nodes@;
                out.append(&mut nodes);
                assert(node_views(out@) =~= node_views(before) + node_views(added));
            } else {
                assert(node_views(out@) =~= node_views(before) + Seq::<NodeView>::empty());
            }
            i += 1;
        }
        out
    }

    /// Every node below and including this prompt, depth first.
    pub fn walk<'a>(&'a self) -> (r: Vec<ModifierNode<'a>>)
        ensures
            node_views(r@) == walk_prompt(self@, None),
    {
        self.walk_nodes(None)
    }

    /// The nodes below and including this prompt that are visible at an evaluation time.
    pub fn walk_visible_at<'a>(&'a self, evaluation_time: &EvaluationTime) -> (r: Vec<ModifierNode<'a>>)
        ensures
            node_views(r@) == walk_prompt(self@, Some(evaluation_time@)),
    {
        self.walk_nodes(Some(evaluation_time))
    }
}

impl Choice {
    fn walk_nodes<'a>(&'a self, time: Option<&EvaluationTime>) -> (r: Vec<ModifierNode<'a>>)
        ensures
            node_views(r@) == walk_choice(self@, opt_time_view(time)),
        decreases self, 0nat,
    {
        let mut out: Vec<ModifierNode<'a>> = Vec::new();
        out.push(ModifierNode::Choice(self));
        match &self.modifiers {
            Some(b) => {
                assert(decreases_to!(self => **b));
                let mut nodes = (**b).walk_nodes(time);
                let ghost before = out@;
                let ghost added = nodes@;
                out.append(&mut nodes);
                assert(node_views(out@) =~= node_views(before) + node_views(added));
            },
            None => {
                assert(node_views(out@) =~= seq![NodeView::Choice(self@)] + Seq::<NodeView>::empty());
            },
        }
        out
    }

    /// This choice and every node below it, depth first.
    pub fn walk<'a>(&'a self) -> (r: Vec<ModifierNode<'a>>)
        ensures
            node_views(r@) == walk_choice(self@, None),
    {
        self.walk_nodes(None)
    }

    /// This choice and the nodes below it that are visible at an evaluation time.
    pub fn walk_visible_at<'a>(&'a self, evaluation_time: &EvaluationTime) -> (r: Vec<ModifierNode<'a>>)
        ensures
            node_views(r@) == walk_choice(self@, Some(evaluation_time@)),
    {
        self.walk_nodes(Some(evaluation_time))
    }
}

} // verus!
