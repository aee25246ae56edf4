//! Modifiers: prompts of choices, selections of them, and the priced configuration.
pub mod mod_error;
pub mod mod_rule;
pub mod mod_selection;

pub use mod_error::{ChoiceInputError, ModifierError};
pub use mod_rule::{Rule, RuleKind};
pub use mod_selection::{ChoiceInputValue, ChoiceSelection, PromptSelection, SelectionSource, Selections};
pub mod mod_price;
pub use mod_price::{ChoicePrice, ModifierPricingPolicy, PriceContribution, PriceFactor, PricedConfiguration};
pub mod mod_definition;
pub use mod_definition::{Choice, ChoiceInput, ModifierApplicability, ModifierNode, Modifiers, Prompt};
pub mod mod_state;
pub mod mod_round_trip;
pub use mod_state::{
    ChoiceConfiguration, ChoiceInputConfiguration, ChoiceSnapshot, Configuration, ConfigurationSnapshot, PromptConfiguration, PromptSnapshot,
    ValidatedChoiceSelection,
};
