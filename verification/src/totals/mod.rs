//! Order totals: what an order's entries sum to, by category.
mod ttl_total;

pub use ttl_total::{
    amount_due_index, total_error_message, balanced, lemma_amount_due_balances, bucket_of, calculate_order_totals, category_at, counts_toward_due, empty_totals, id_views,
    lemma_sum_error_sticks, spec_add_entry, spec_total_add, spec_totals, sum_entries, total_views, totals_result, Total,
    TotalCategory, TotalError, TotalErrorView, TotalView,
};
