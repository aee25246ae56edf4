//! POS Core Kernel.
//!
//! Deterministic domain behavior for point-of-sale systems: money, calendar
//! and schedule primitives, labels and media, supply, modifiers, catalog items,
//! order items, entries, orders and totals.
pub mod text;
pub mod primitives;
pub mod supply;
pub mod effect;
pub mod actor;
pub mod event;
pub mod modifier;
pub mod catalog_item;
pub mod entry;
pub mod order;
pub mod totals;
pub mod order_item;
pub mod prelude;
