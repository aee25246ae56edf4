//! Order items: what an order holds of a configured catalog item or a
//! hand-entered one, and the entries it expands to.
mod oit_order_item;

pub use oit_order_item::{
    choice_views, money_debug_text, order_item_error_message, contribution_amount_sum, contribution_total, contribution_views, entries_amount, entries_result,
    factor_views, first_prompt_with, item_builder, item_consistent, item_description, item_entry_source, item_result,
    lemma_contribution_total, lemma_entries_amount, modifier_builder, modifier_entries, modifier_entry_source, prompt_views,
    record_choice, record_choices, record_contribution, record_factor, record_price, record_prompt, record_prompts,
    spec_entries, spec_from_configured, spec_new_item, spec_record_snapshot, spec_validate_total, OrderItem,
    OrderItemChoiceSnapshot, OrderItemChoiceSnapshotView, OrderItemError, OrderItemErrorView, OrderItemModifierPrice,
    OrderItemModifierPriceView, OrderItemModifierSnapshot, OrderItemModifierSnapshotView, OrderItemPriceContribution,
    OrderItemPriceContributionView, OrderItemPriceFactor, OrderItemPriceFactorView, OrderItemPromptSnapshot,
    OrderItemPromptSnapshotView, OrderItemSource, OrderItemSourceView, OrderItemView,
};
