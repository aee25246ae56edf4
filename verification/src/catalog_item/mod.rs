//! Catalog items: variants with an invariant price, and shared modifiers.
mod itm_catalog_item;

pub use itm_catalog_item::{
    catalog_item_error_message, CatalogItem, CatalogItemError, CatalogItemErrorView, CatalogItemView, ConfiguredCatalogItem, ConfiguredCatalogItemView,
    Variant, VariantView, lemma_configured_total, spec_catalog_item, spec_configure, variant_error,
};
