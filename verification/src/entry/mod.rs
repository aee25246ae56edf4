//! Order entries: the priced lines an order is made of.
mod ent_entry;

pub use ent_entry::{
    entry_error_message, AccountingCategory, EntryError, EntryErrorView, EntryKind, EntrySource, EntrySourceStatus, EntrySourceView, OrderEntry,
    OrderEntryBuilder, OrderEntryView, BuilderView, PriceCategory, entry_status, spec_build,
};
