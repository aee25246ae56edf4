//! Orders: an id, a status and entries, changed only by events.
mod ord_order;

pub use ord_order::{
    entry_key, entry_views, order_error_message, event_result, has_entry, ids_ascending, insert_by_id, insert_position, lemma_full_injective,
    lemma_added_entry_is_readable, lemma_insert_by_id, lemma_replay_error_sticks, lemma_replay_open, lemma_replay_push, opened, order_result, OrderError, OrderEvent, payloads, position_from, replay_prefix, replay_step, spec_add_entry_event,
    spec_apply, spec_replay, well_keyed, Order, OrderErrorView, OrderEventView, OrderStatus, OrderView,
};
