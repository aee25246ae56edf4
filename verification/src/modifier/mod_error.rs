//! Errors of modifier definitions, selections and pricing.
use vstd::prelude::*;

use crate::modifier::mod_rule::RuleKind;
use crate::primitives::ids::{ComponentId, PrefixedIdView};
use crate::primitives::label::{label_error_message, LabelError, LabelErrorView};
use crate::primitives::money::{money_error_message, MoneyError, MoneyErrorView};
use crate::text::{decimal, owned, push_decimal, push_text};

verus! {

/// The abstract value of a choice input error.
pub enum ChoiceInputErrorView {
    EmptyTitle,
    InvalidLengthConstraints { input_id: PrefixedIdView, min_length: u32, max_length: u32 },
    DuplicateDefinition(PrefixedIdView),
    UnknownInput { choice_id: PrefixedIdView, input_id: PrefixedIdView },
    UnexpectedUnit { choice_id: PrefixedIdView, input_id: PrefixedIdView },
    UnitRequired { choice_id: PrefixedIdView, input_id: PrefixedIdView },
    UnitOutOfRange { choice_id: PrefixedIdView, input_id: PrefixedIdView, unit: u32, quantity: u32 },
    DuplicateValue { choice_id: PrefixedIdView, input_id: PrefixedIdView, unit: Option<u32> },
    MissingRequiredValue { choice_id: PrefixedIdView, input_id: PrefixedIdView, expected: u32, actual: nat },
    BelowMinimumLength { choice_id: PrefixedIdView, input_id: PrefixedIdView, min_length: u32, actual: nat },
    AboveMaximumLength { choice_id: PrefixedIdView, input_id: PrefixedIdView, max_length: u32, actual: nat },
}

/// Why a choice input definition or value was refused.
#[derive(Debug, Eq, PartialEq)]
pub enum ChoiceInputError {
    EmptyTitle,
    InvalidLengthConstraints { input_id: ComponentId, min_length: u32, max_length: u32 },
    DuplicateDefinition(ComponentId),
    UnknownInput { choice_id: ComponentId, input_id: ComponentId },
    UnexpectedUnit { choice_id: ComponentId, input_id: ComponentId },
    UnitRequired { choice_id: ComponentId, input_id: ComponentId },
    UnitOutOfRange { choice_id: ComponentId, input_id: ComponentId, unit: u32, quantity: u32 },
    DuplicateValue { choice_id: ComponentId, input_id: ComponentId, unit: Option<u32> },
    MissingRequiredValue { choice_id: ComponentId, input_id: ComponentId, expected: u32, actual: usize },
    BelowMinimumLength { choice_id: ComponentId, input_id: ComponentId, min_length: u32, actual: usize },
    AboveMaximumLength { choice_id: ComponentId, input_id: ComponentId, max_length: u32, actual: usize },
}

impl View for ChoiceInputError {
    type V = ChoiceInputErrorView;

    open spec fn view(&self) -> ChoiceInputErrorView {
        match self {
            ChoiceInputError::EmptyTitle => ChoiceInputErrorView::EmptyTitle,
            ChoiceInputError::InvalidLengthConstraints { input_id, min_length, max_length } =>
                ChoiceInputErrorView::InvalidLengthConstraints { input_id: input_id@, min_length: *min_length, max_length: *max_length },
            ChoiceInputError::DuplicateDefinition(id) => ChoiceInputErrorView::DuplicateDefinition(id@),
            ChoiceInputError::UnknownInput { choice_id, input_id } =>
                ChoiceInputErrorView::UnknownInput { choice_id: choice_id@, input_id: input_id@ },
            ChoiceInputError::UnexpectedUnit { choice_id, input_id } =>
                ChoiceInputErrorView::UnexpectedUnit { choice_id: choice_id@, input_id: input_id@ },
            ChoiceInputError::UnitRequired { choice_id, input_id } =>
                ChoiceInputErrorView::UnitRequired { choice_id: choice_id@, input_id: input_id@ },
            ChoiceInputError::UnitOutOfRange { choice_id, input_id, unit, quantity } =>
                ChoiceInputErrorView::UnitOutOfRange { choice_id: choice_id@, input_id: input_id@, unit: *unit, quantity: *quantity },
            ChoiceInputError::DuplicateValue { choice_id, input_id, unit } =>
                ChoiceInputErrorView::DuplicateValue { choice_id: choice_id@, input_id: input_id@, unit: *unit },
            ChoiceInputError::MissingRequiredValue { choice_id, input_id, expected, actual } =>
                ChoiceInputErrorView::MissingRequiredValue { choice_id: choice_id@, input_id: input_id@, expected: *expected, actual: *actual as nat },
            ChoiceInputError::BelowMinimumLength { choice_id, input_id, min_length, actual } =>
                ChoiceInputErrorView::BelowMinimumLength { choice_id: choice_id@, input_id: input_id@, min_length: *min_length, actual: *actual as nat },
            ChoiceInputError::AboveMaximumLength { choice_id, input_id, max_length, actual } =>
                ChoiceInputErrorView::AboveMaximumLength { choice_id: choice_id@, input_id: input_id@, max_length: *max_length, actual: *actual as nat },
        }
    }
}

/// The abstract value of a modifier error.
pub enum ModifierErrorView {
    EmptyPromptTitle,
    EmptyChoiceTitle,
    ChoiceInput(ChoiceInputErrorView),
    DefaultRuleOnPrompt,
    InvalidConstraints { min_select: u32, max_select: u32 },
    DuplicateRule(RuleKind),
    RequiredPromptHasNoChoices { prompt_id: PrefixedIdView, min_select: u32 },
    DuplicateChoice(PrefixedIdView),
    DuplicateDefault(PrefixedIdView),
    ZeroDefaultQuantity(PrefixedIdView),
    ZeroQuantity(PrefixedIdView),
    DuplicateSelection(PrefixedIdView),
    UnknownPromptSelection(PrefixedIdView),
    UnknownSelection(PrefixedIdView),
    InapplicablePromptSelection(PrefixedIdView),
    InapplicableChoiceSelection(PrefixedIdView),
    ScheduledChoiceRequiresEvaluationTime(PrefixedIdView),
    UnavailableChoiceSelection(PrefixedIdView),
    UnexpectedNestedSelections(PrefixedIdView),
    NegativeChoicePrice,
    UnconsumedPriceFactor(PrefixedIdView),
    Label(LabelErrorView),
    Money(MoneyErrorView),
    SelectionCountOverflow,
    BelowMinimum { min_select: u32, actual: u32 },
    AboveMaximum { max_select: u32, actual: u32 },
    ChoiceBelowMinimum { choice_id: PrefixedIdView, min_select: u32, actual: u32 },
    ChoiceAboveMaximum { choice_id: PrefixedIdView, max_select: u32, actual: u32 },
}

/// Why a modifier definition, selection or price was refused.
#[derive(Debug, Eq, PartialEq)]
pub enum ModifierError {
    EmptyPromptTitle,
    EmptyChoiceTitle,
    ChoiceInput(Box<ChoiceInputError>),
    DefaultRuleOnPrompt,
    InvalidConstraints { min_select: u32, max_select: u32 },
    DuplicateRule(RuleKind),
    RequiredPromptHasNoChoices { prompt_id: ComponentId, min_select: u32 },
    DuplicateChoice(ComponentId),
    DuplicateDefault(ComponentId),
    ZeroDefaultQuantity(ComponentId),
    ZeroQuantity(ComponentId),
    DuplicateSelection(ComponentId),
    UnknownPromptSelection(ComponentId),
    UnknownSelection(ComponentId),
    InapplicablePromptSelection(ComponentId),
    InapplicableChoiceSelection(ComponentId),
    ScheduledChoiceRequiresEvaluationTime(ComponentId),
    UnavailableChoiceSelection(ComponentId),
    UnexpectedNestedSelections(ComponentId),
    NegativeChoicePrice,
    UnconsumedPriceFactor(ComponentId),
    Label(LabelError),
    Money(MoneyError),
    SelectionCountOverflow,
    BelowMinimum { min_select: u32, actual: u32 },
    AboveMaximum { max_select: u32, actual: u32 },
    ChoiceBelowMinimum { choice_id: ComponentId, min_select: u32, actual: u32 },
    ChoiceAboveMaximum { choice_id: ComponentId, max_select: u32, actual: u32 },
}

impl View for ModifierError {
    type V = ModifierErrorView;

    open spec fn view(&self) -> ModifierErrorView {
        match self {
            ModifierError::EmptyPromptTitle => ModifierErrorView::EmptyPromptTitle,
            ModifierError::EmptyChoiceTitle => ModifierErrorView::EmptyChoiceTitle,
            ModifierError::ChoiceInput(e) => ModifierErrorView::ChoiceInput((**e)@),
            ModifierError::DefaultRuleOnPrompt => ModifierErrorView::DefaultRuleOnPrompt,
            ModifierError::InvalidConstraints { min_select, max_select } =>
                ModifierErrorView::InvalidConstraints { min_select: *min_select, max_select: *max_select },
            ModifierError::DuplicateRule(k) => ModifierErrorView::DuplicateRule(*k),
            ModifierError::RequiredPromptHasNoChoices { prompt_id, min_select } =>
                ModifierErrorView::RequiredPromptHasNoChoices { prompt_id: prompt_id@, min_select: *min_select },
            ModifierError::DuplicateChoice(id) => ModifierErrorView::DuplicateChoice(id@),
            ModifierError::DuplicateDefault(id) => ModifierErrorView::DuplicateDefault(id@),
            ModifierError::ZeroDefaultQuantity(id) => ModifierErrorView::ZeroDefaultQuantity(id@),
            ModifierError::ZeroQuantity(id) => ModifierErrorView::ZeroQuantity(id@),
            ModifierError::DuplicateSelection(id) => ModifierErrorView::DuplicateSelection(id@),
            ModifierError::UnknownPromptSelection(id) => ModifierErrorView::UnknownPromptSelection(id@),
            ModifierError::UnknownSelection(id) => ModifierErrorView::UnknownSelection(id@),
            ModifierError::InapplicablePromptSelection(id) => ModifierErrorView::InapplicablePromptSelection(id@),
            ModifierError::InapplicableChoiceSelection(id) => ModifierErrorView::InapplicableChoiceSelection(id@),
            ModifierError::ScheduledChoiceRequiresEvaluationTime(id) => ModifierErrorView::ScheduledChoiceRequiresEvaluationTime(id@),
            ModifierError::UnavailableChoiceSelection(id) => ModifierErrorView::UnavailableChoiceSelection(id@),
            ModifierError::UnexpectedNestedSelections(id) => ModifierErrorView::UnexpectedNestedSelections(id@),
            ModifierError::NegativeChoicePrice => ModifierErrorView::NegativeChoicePrice,
            ModifierError::UnconsumedPriceFactor(id) => ModifierErrorView::UnconsumedPriceFactor(id@),
            ModifierError::Label(e) => ModifierErrorView::Label(e@),
            ModifierError::Money(e) => ModifierErrorView::Money(e@),
            ModifierError::SelectionCountOverflow => ModifierErrorView::SelectionCountOverflow,
            ModifierError::BelowMinimum { min_select, actual } => ModifierErrorView::BelowMinimum { min_select: *min_select, actual: *actual },
            ModifierError::AboveMaximum { max_select, actual } => ModifierErrorView::AboveMaximum { max_select: *max_select, actual: *actual },
            ModifierError::ChoiceBelowMinimum { choice_id, min_select, actual } =>
                ModifierErrorView::ChoiceBelowMinimum { choice_id: choice_id@, min_select: *min_select, actual: *actual },
            ModifierError::ChoiceAboveMaximum { choice_id, max_select, actual } =>
                ModifierErrorView::ChoiceAboveMaximum { choice_id: choice_id@, max_select: *max_select, actual: *actual },
        }
    }
}

impl From<ChoiceInputError> for ModifierError {
    fn from(error: ChoiceInputError) -> (r: Self) {
        ModifierError::ChoiceInput(Box::new(error))
    }
}

impl vstd::std_specs::convert::FromSpecImpl<ChoiceInputError> for ModifierError {
    open spec fn obeys_from_spec() -> bool {
        true
    }

    open spec fn from_spec(v: ChoiceInputError) -> Self {
        ModifierError::ChoiceInput(Box::new(v))
    }
}

impl From<LabelError> for ModifierError {
    fn from(error: LabelError) -> (r: Self) {
        ModifierError::Label(error)
    }
}

impl vstd::std_specs::convert::FromSpecImpl<LabelError> for ModifierError {
    open spec fn obeys_from_spec() -> bool {
        true
    }

    open spec fn from_spec(v: LabelError) -> Self {
        ModifierError::Label(v)
    }
}

/// The text a choice input error reads as.
pub open spec fn choice_input_error_message(e: ChoiceInputErrorView) -> Seq<char> {
    match e {
        ChoiceInputErrorView::EmptyTitle => "choice input title cannot be empty"@,
        ChoiceInputErrorView::InvalidLengthConstraints { input_id, min_length, max_length } => "choice input `"@
            + input_id.full() + "` length constraints are invalid: min "@ + decimal(min_length as nat) + " exceeds max "@
            + decimal(max_length as nat),
        ChoiceInputErrorView::DuplicateDefinition(input_id) => "duplicate choice input `"@ + input_id.full() + "`"@,
        ChoiceInputErrorView::UnknownInput { choice_id, input_id } => "choice `"@ + choice_id.full()
            + "` does not define input `"@ + input_id.full() + "`"@,
        ChoiceInputErrorView::UnexpectedUnit { choice_id, input_id } => "choice input `"@ + input_id.full()
            + "` on choice `"@ + choice_id.full() + "` is collected once and cannot identify a unit"@,
        ChoiceInputErrorView::UnitRequired { choice_id, input_id } => "choice input `"@ + input_id.full()
            + "` on choice `"@ + choice_id.full() + "` repeats per quantity and must identify a unit"@,
        ChoiceInputErrorView::UnitOutOfRange { choice_id, input_id, unit, quantity } => "choice input `"@
            + input_id.full() + "` unit "@ + decimal(unit as nat) + " is outside choice `"@ + choice_id.full()
            + "` quantity "@ + decimal(quantity as nat),
        ChoiceInputErrorView::DuplicateValue { choice_id, input_id, unit } => match unit {
            Some(u) => "choice input `"@ + input_id.full() + "` has duplicate value for choice `"@ + choice_id.full()
                + "` unit "@ + decimal(u as nat),
            None => "choice input `"@ + input_id.full() + "` has duplicate value for choice `"@ + choice_id.full()
                + "`"@,
        },
        ChoiceInputErrorView::MissingRequiredValue { choice_id, input_id, expected, actual } => "required choice input `"@
            + input_id.full() + "` on choice `"@ + choice_id.full() + "` expected "@ + decimal(expected as nat)
            + " value(s), found "@ + decimal(actual),
        ChoiceInputErrorView::BelowMinimumLength { choice_id, input_id, min_length, actual } => "choice input `"@
            + input_id.full() + "` on choice `"@ + choice_id.full() + "` length "@ + decimal(actual)
            + " is below min "@ + decimal(min_length as nat),
        ChoiceInputErrorView::AboveMaximumLength { choice_id, input_id, max_length, actual } => "choice input `"@
            + input_id.full() + "` on choice `"@ + choice_id.full() + "` length "@ + decimal(actual)
            + " exceeds max "@ + decimal(max_length as nat),
    }
}

/// How a rule kind is named in messages.
pub open spec fn rule_kind_name(kind: RuleKind) -> Seq<char> {
    match kind {
        RuleKind::Min => "Min"@,
        RuleKind::Max => "Max"@,
        RuleKind::Default => "Default"@,
    }
}

/// The text a modifier error reads as.
pub open spec fn modifier_error_message(e: ModifierErrorView) -> Seq<char> {
    match e {
        ModifierErrorView::EmptyPromptTitle => "prompt title cannot be empty"@,
        ModifierErrorView::EmptyChoiceTitle => "choice title cannot be empty"@,
        ModifierErrorView::ChoiceInput(error) => choice_input_error_message(error),
        ModifierErrorView::DefaultRuleOnPrompt => "default rules belong on choices, not prompts"@,
        ModifierErrorView::InvalidConstraints { min_select, max_select } => "selection constraints are invalid: min "@
            + decimal(min_select as nat) + " exceeds max "@ + decimal(max_select as nat),
        ModifierErrorView::DuplicateRule(kind) => "duplicate "@ + rule_kind_name(kind) + " rule"@,
        ModifierErrorView::RequiredPromptHasNoChoices { prompt_id, min_select } => "prompt `"@ + prompt_id.full()
            + "` requires "@ + decimal(min_select as nat) + " selections but has no choices"@,
        ModifierErrorView::DuplicateChoice(choice_id) => "duplicate choice `"@ + choice_id.full() + "`"@,
        ModifierErrorView::DuplicateDefault(choice_id) => "duplicate default rule on choice `"@ + choice_id.full()
            + "`"@,
        ModifierErrorView::ZeroDefaultQuantity(choice_id) => "default quantity for choice `"@ + choice_id.full()
            + "` cannot be zero"@,
        ModifierErrorView::ZeroQuantity(choice_id) => "choice selection `"@ + choice_id.full() + "` has zero quantity"@,
        ModifierErrorView::DuplicateSelection(choice_id) => "duplicate choice selection `"@ + choice_id.full() + "`"@,
        ModifierErrorView::UnknownPromptSelection(prompt_id) => "unknown prompt selection `"@ + prompt_id.full()
            + "`"@,
        ModifierErrorView::UnknownSelection(choice_id) => "unknown choice selection `"@ + choice_id.full() + "`"@,
        ModifierErrorView::InapplicablePromptSelection(prompt_id) => "prompt selection `"@ + prompt_id.full()
            + "` is not applicable"@,
        ModifierErrorView::InapplicableChoiceSelection(choice_id) => "choice selection `"@ + choice_id.full()
            + "` is not applicable"@,
        ModifierErrorView::ScheduledChoiceRequiresEvaluationTime(choice_id) => "choice `"@ + choice_id.full()
            + "` has a schedule and requires an evaluation time"@,
        ModifierErrorView::UnavailableChoiceSelection(choice_id) => "choice selection `"@ + choice_id.full()
            + "` is unavailable"@,
        ModifierErrorView::UnexpectedNestedSelections(choice_id) => "choice `"@ + choice_id.full()
            + "` does not accept nested selections"@,
        ModifierErrorView::NegativeChoicePrice => "choice price cannot be negative"@,
        ModifierErrorView::UnconsumedPriceFactor(choice_id) => "choice `"@ + choice_id.full()
            + "` defines a price factor without a priced ancestor"@,
        ModifierErrorView::Label(error) => label_error_message(error),
        ModifierErrorView::Money(error) => money_error_message(error),
        ModifierErrorView::SelectionCountOverflow => "choice selection count overflow"@,
        ModifierErrorView::BelowMinimum { min_select, actual } => "choice count "@ + decimal(actual as nat)
            + " is below min "@ + decimal(min_select as nat),
        ModifierErrorView::AboveMaximum { max_select, actual } => "choice count "@ + decimal(actual as nat)
            + " exceeds max "@ + decimal(max_select as nat),
        ModifierErrorView::ChoiceBelowMinimum { choice_id, min_select, actual } => "choice `"@ + choice_id.full()
            + "` quantity "@ + decimal(actual as nat) + " is below min "@ + decimal(min_select as nat),
        ModifierErrorView::ChoiceAboveMaximum { choice_id, max_select, actual } => "choice `"@ + choice_id.full()
            + "` quantity "@ + decimal(actual as nat) + " exceeds max "@ + decimal(max_select as nat),
    }
}

/// `prefix`, the identifier, then `suffix`.
fn id_phrase(prefix: &str, id: &ComponentId, suffix: &str) -> (r: String)
    ensures
        r@ == prefix@ + id@.full() + suffix@,
{
    let mut s = owned(prefix);
    push_text(&mut s, id.as_str());
    push_text(&mut s, suffix);
    s
}

/// `prefix`, the first identifier, `middle`, the second identifier, then `suffix`.
fn two_id_phrase(prefix: &str, first: &ComponentId, middle: &str, second: &ComponentId, suffix: &str) -> (r: String)
    ensures
        r@ == prefix@ + first@.full() + middle@ + second@.full() + suffix@,
{
    let mut s = id_phrase(prefix, first, middle);
    push_text(&mut s, second.as_str());
    push_text(&mut s, suffix);
    s
}

/// `prefix`, then the number.
fn number_phrase(prefix: &str, n: u64) -> (r: String)
    ensures
        r@ == prefix@ + decimal(n as nat),
{
    let mut s = owned(prefix);
    push_decimal(&mut s, n);
    s
}

impl ChoiceInputError {
    /// The error as text.
    pub fn message(&self) -> (r: String)
        ensures
            r@ == choice_input_error_message(self@),
    {
        match self {
            ChoiceInputError::EmptyTitle => owned("choice input title cannot be empty"),
            ChoiceInputError::InvalidLengthConstraints { input_id, min_length, max_length } => {
                let mut s = id_phrase("choice input `", input_id, "` length constraints are invalid: min ");
                push_decimal(&mut s, *min_length as u64);
                push_text(&mut s, " exceeds max ");
                push_decimal(&mut s, *max_length as u64);
                s
            },
            ChoiceInputError::DuplicateDefinition(input_id) => id_phrase("duplicate choice input `", input_id, "`"),
            ChoiceInputError::UnknownInput { choice_id, input_id } => two_id_phrase(
                "choice `",
                choice_id,
                "` does not define input `",
                input_id,
                "`",
            ),
            ChoiceInputError::UnexpectedUnit { choice_id, input_id } => two_id_phrase(
                "choice input `",
                input_id,
                "` on choice `",
                choice_id,
                "` is collected once and cannot identify a unit",
            ),
            ChoiceInputError::UnitRequired { choice_id, input_id } => two_id_phrase(
                "choice input `",
                input_id,
                "` on choice `",
                choice_id,
                "` repeats per quantity and must identify a unit",
            ),
            ChoiceInputError::UnitOutOfRange { choice_id, input_id, unit, quantity } => {
                let mut s = id_phrase("choice input `", input_id, "` unit ");
                push_decimal(&mut s, *unit as u64);
                push_text(&mut s, " is outside choice `");
                push_text(&mut s, choice_id.as_str());
                push_text(&mut s, "` quantity ");
                push_decimal(&mut s, *quantity as u64);
                s
            },
            ChoiceInputError::DuplicateValue { choice_id, input_id, unit } => match unit {
                Some(u) => {
                    let mut s = two_id_phrase(
                        "choice input `",
                        input_id,
                        "` has duplicate value for choice `",
                        choice_id,
                        "` unit ",
                    );
                    push_decimal(&mut s, *u as u64);
                    s
                },
                None => two_id_phrase(
                    "choice input `",
                    input_id,
                    "` has duplicate value for choice `",
                    choice_id,
                    "`",
                ),
            },
            ChoiceInputError::MissingRequiredValue { choice_id, input_id, expected, actual } => {
                let mut s = two_id_phrase("required choice input `", input_id, "` on choice `", choice_id, "` expected ");
                push_decimal(&mut s, *expected as u64);
                push_text(&mut s, " value(s), found ");
                push_decimal(&mut s, *actual as u64);
                s
            },
            ChoiceInputError::BelowMinimumLength { choice_id, input_id, min_length, actual } => {
                let mut s = two_id_phrase("choice input `", input_id, "` on choice `", choice_id, "` length ");
                push_decimal(&mut s, *actual as u64);
                push_text(&mut s, " is below min ");
                push_decimal(&mut s, *min_length as u64);
                s
            },
            ChoiceInputError::AboveMaximumLength { choice_id, input_id, max_length, actual } => {
                let mut s = two_id_phrase("choice input `", input_id, "` on choice `", choice_id, "` length ");
                push_decimal(&mut s, *actual as u64);
                push_text(&mut s, " exceeds max ");
                push_decimal(&mut s, *max_length as u64);
                s
            },
        }
    }
}

impl ModifierError {
    /// The error as text; nested errors read as their own text.
    pub fn message(&self) -> (r: String)
        ensures
            r@ == modifier_error_message(self@),
    {
        match self {
            ModifierError::EmptyPromptTitle => owned("prompt title cannot be empty"),
            ModifierError::EmptyChoiceTitle => owned("choice title cannot be empty"),
            ModifierError::ChoiceInput(error) => error.message(),
            ModifierError::DefaultRuleOnPrompt => owned("default rules belong on choices, not prompts"),
            ModifierError::InvalidConstraints { min_select, max_select } => {
                let mut s = number_phrase("selection constraints are invalid: min ", *min_select as u64);
                push_text(&mut s, " exceeds max ");
                push_decimal(&mut s, *max_select as u64);
                s
            },
            ModifierError::DuplicateRule(kind) => {
                let mut s = owned("duplicate ");
                match kind {
                    RuleKind::Min => push_text(&mut s, "Min"),
                    RuleKind::Max => push_text(&mut s, "Max"),
                    RuleKind::Default => push_text(&mut s, "Default"),
                }
                push_text(&mut s, " rule");
                s
            },
            ModifierError::RequiredPromptHasNoChoices { prompt_id, min_select } => {
                let mut s = id_phrase("prompt `", prompt_id, "` requires ");
                push_decimal(&mut s, *min_select as u64);
                push_text(&mut s, " selections but has no choices");
                s
            },
            ModifierError::DuplicateChoice(choice_id) => id_phrase("duplicate choice `", choice_id, "`"),
            ModifierError::DuplicateDefault(choice_id) => id_phrase("duplicate default rule on choice `", choice_id, "`"),
            ModifierError::ZeroDefaultQuantity(choice_id) => id_phrase(
                "default quantity for choice `",
                choice_id,
                "` cannot be zero",
            ),
            ModifierError::ZeroQuantity(choice_id) => id_phrase("choice selection `", choice_id, "` has zero quantity"),
            ModifierError::DuplicateSelection(choice_id) => id_phrase("duplicate choice selection `", choice_id, "`"),
            ModifierError::UnknownPromptSelection(prompt_id) => id_phrase("unknown prompt selection `", prompt_id, "`"),
            ModifierError::UnknownSelection(choice_id) => id_phrase("unknown choice selection `", choice_id, "`"),
            ModifierError::InapplicablePromptSelection(prompt_id) => id_phrase(
                "prompt selection `",
                prompt_id,
                "` is not applicable",
            ),
            ModifierError::InapplicableChoiceSelection(choice_id) => id_phrase(
                "choice selection `",
                choice_id,
                "` is not applicable",
            ),
            ModifierError::ScheduledChoiceRequiresEvaluationTime(choice_id) => id_phrase(
                "choice `",
                choice_id,
                "` has a schedule and requires an evaluation time",
            ),
            ModifierError::UnavailableChoiceSelection(choice_id) => id_phrase(
                "choice selection `",
                choice_id,
                "` is unavailable",
            ),
            ModifierError::UnexpectedNestedSelections(choice_id) => id_phrase(
                "choice `",
                choice_id,
                "` does not accept nested selections",
            ),
            ModifierError::NegativeChoicePrice => owned("choice price cannot be negative"),
            ModifierError::UnconsumedPriceFactor(choice_id) => id_phrase(
                "choice `",
                choice_id,
                "` defines a price factor without a priced ancestor",
            ),
            ModifierError::Label(error) => error.message(),
            ModifierError::Money(error) => error.message(),
            ModifierError::SelectionCountOverflow => owned("choice selection count overflow"),
            ModifierError::BelowMinimum { min_select, actual } => {
                let mut s = number_phrase("choice count ", *actual as u64);
                push_text(&mut s, " is below min ");
                push_decimal(&mut s, *min_select as u64);
                s
            },
            ModifierError::AboveMaximum { max_select, actual } => {
                let mut s = number_phrase("choice count ", *actual as u64);
                push_text(&mut s, " exceeds max ");
                push_decimal(&mut s, *max_select as u64);
                s
            },
            ModifierError::ChoiceBelowMinimum { choice_id, min_select, actual } => {
                let mut s = id_phrase("choice `", choice_id, "` quantity ");
                push_decimal(&mut s, *actual as u64);
                push_text(&mut s, " is below min ");
                push_decimal(&mut s, *min_select as u64);
                s
            },
            ModifierError::ChoiceAboveMaximum { choice_id, max_select, actual } => {
                let mut s = id_phrase("choice `", choice_id, "` quantity ");
                push_decimal(&mut s, *actual as u64);
                push_text(&mut s, " exceeds max ");
                push_decimal(&mut s, *max_select as u64);
                s
            },
        }
    }
}

} // verus!
