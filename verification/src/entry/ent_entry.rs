use vstd::prelude::*;

use crate::primitives::ids::{CatalogItemId, CatalogVersionId, ComponentId, EntryId, PrefixedIdView, VariantId};
use crate::primitives::label::opt_id_view;
use crate::primitives::money::{money_error_message, spec_money_mul_quantity, Money, MoneyError, MoneyErrorView, MoneyView};
use crate::text::{is_blank, owned, str_is_blank};

verus! {

/// What an entry is.
#[derive(Debug, Copy, Clone, PartialEq, Eq, Structural, Hash)]
pub enum EntryKind {
    Category,
    Item,
    ExternalItem,
    Modifier,
    LineDiscount,
    OrderDiscount,
    CategoryDiscount,
    ThirdPartyDiscount,
    Fee,
    ServiceCharge,
    Tax,
    TaxAdjustment,
    TaxPaidByThirdParty,
    Note,
    SystemAdjustment,
}

/// How an entry's source relates to the catalog.
#[derive(Debug, Copy, Clone, PartialEq, Eq, Structural, Hash)]
pub enum EntrySourceStatus {
    CatalogBacked,
    ExternalMapped,
    ExternalUnmapped,
    Manual,
    System,
}

/// How an entry's price is classified.
#[derive(Debug, Copy, Clone, PartialEq, Eq, Structural, Hash)]
pub enum PriceCategory {
    BaseItem,
    Modifier,
    Upgrade,
    Included,
    Deposit,
    Package,
    Fee,
    ServiceCharge,
}

/// How an entry is accounted for.
#[derive(Debug, Copy, Clone, PartialEq, Eq, Structural, Hash)]
pub enum AccountingCategory {
    Food,
    Beverage,
    Tax,
    Discount,
    Fee,
    ServiceCharge,
    Tip,
    Other,
}

/// The abstract value of an entry source.
pub enum EntrySourceView {
    CatalogItem { catalog_version_id: PrefixedIdView, catalog_item_id: PrefixedIdView, variant_id: PrefixedIdView },
    Catalog { catalog_version_id: PrefixedIdView, component_id: PrefixedIdView },
    External { system: Seq<char>, external_id: Option<Seq<char>>, mapped_component_id: Option<PrefixedIdView> },
    Manual,
    System,
}

/// Where an entry comes from.
#[derive(Debug, Eq, PartialEq)]
pub enum EntrySource {
    CatalogItem { catalog_version_id: CatalogVersionId, catalog_item_id: CatalogItemId, variant_id: VariantId },
    Catalog { catalog_version_id: CatalogVersionId, component_id: ComponentId },
    External { system: String, external_id: Option<String>, mapped_component_id: Option<ComponentId> },
    Manual,
    System,
}

pub open spec fn opt_string_view(s: Option<String>) -> Option<Seq<char>> {
    match s {
        Some(x) => Some(x@),
        None => None,
    }
}

impl View for EntrySource {
    type V = EntrySourceView;

    open spec fn view(&self) -> EntrySourceView {
        match self {
            EntrySource::CatalogItem { catalog_version_id, catalog_item_id, variant_id } => EntrySourceView::CatalogItem {
                catalog_version_id: catalog_version_id@,
                catalog_item_id: catalog_item_id@,
                variant_id: variant_id@,
            },
            EntrySource::Catalog { catalog_version_id, component_id } => EntrySourceView::Catalog {
                catalog_version_id: catalog_version_id@,
                component_id: component_id@,
            },
            EntrySource::External { system, external_id, mapped_component_id } => EntrySourceView::External {
                system: system@,
                external_id: opt_string_view(*external_id),
                mapped_component_id: opt_id_view(*mapped_component_id),
            },
            EntrySource::Manual => EntrySourceView::Manual,
            EntrySource::System => EntrySourceView::System,
        }
    }
}

impl Clone for EntrySource {
    fn clone(&self) -> (r: Self)
        ensures
            r@ == self@,
    {
        match self {
            EntrySource::CatalogItem { catalog_version_id, catalog_item_id, variant_id } => EntrySource::CatalogItem {
                catalog_version_id: catalog_version_id.clone(),
                catalog_item_id: catalog_item_id.clone(),
                variant_id: variant_id.clone(),
            },
            EntrySource::Catalog { catalog_version_id, component_id } => EntrySource::Catalog {
                catalog_version_id: catalog_version_id.clone(),
                component_id: component_id.clone(),
            },
            EntrySource::External { system, external_id, mapped_component_id } => EntrySource::External {
                system: system.clone(),
                external_id: match external_id {
                    Some(x) => Some(x.clone()),
                    None => None,
                },
                mapped_component_id: match mapped_component_id {
                    Some(x) => Some(x.clone()),
                    None => None,
                },
            },
            EntrySource::Manual => EntrySource::Manual,
            EntrySource::System => EntrySource::System,
        }
    }
}

/// How a source relates to the catalog: catalog sources are backed, an
/// external source is mapped when it names a component.
pub open spec fn entry_status(source: EntrySourceView) -> EntrySourceStatus {
    match source {
        EntrySourceView::CatalogItem { .. } => EntrySourceStatus::CatalogBacked,
        EntrySourceView::Catalog { .. } => EntrySourceStatus::CatalogBacked,
        EntrySourceView::External { mapped_component_id, .. } => if mapped_component_id is Some {
            EntrySourceStatus::ExternalMapped
        } else {
            EntrySourceStatus::ExternalUnmapped
        },
        EntrySourceView::Manual => EntrySourceStatus::Manual,
        EntrySourceView::System => EntrySourceStatus::System,
    }
}

impl EntrySource {
    pub fn status(&self) -> (r: EntrySourceStatus)
        ensures
            r == entry_status(self@),
    {
        match self {
            EntrySource::CatalogItem { .. } => EntrySourceStatus::CatalogBacked,
            EntrySource::Catalog { .. } => EntrySourceStatus::CatalogBacked,
            EntrySource::External { mapped_component_id, .. } => if mapped_component_id.is_some() {
                EntrySourceStatus::ExternalMapped
            } else {
                EntrySourceStatus::ExternalUnmapped
            },
            EntrySource::Manual => EntrySourceStatus::Manual,
            EntrySource::System => EntrySourceStatus::System,
        }
    }
}

/// The abstract value of an order entry.
pub struct OrderEntryView {
    pub entry_id: PrefixedIdView,
    pub kind: EntryKind,
    pub source: EntrySourceView,
    pub description: Seq<char>,
    pub quantity: u32,
    pub unit_amount: MoneyView,
    pub total_amount: MoneyView,
    pub price_category: Option<PriceCategory>,
    pub accounting_category: Option<AccountingCategory>,
}

/// A priced line of an order: quantity times a unit amount.
#[derive(Debug, Eq, PartialEq)]
pub struct OrderEntry {
    entry_id: EntryId,
    kind: EntryKind,
    source: EntrySource,
    description: String,
    quantity: u32,
    unit_amount: Money,
    total_amount: Money,
    price_category: Option<PriceCategory>,
    accounting_category: Option<AccountingCategory>,
}

impl View for OrderEntry {
    type V = OrderEntryView;

    closed spec fn view(&self) -> OrderEntryView {
        OrderEntryView {
            entry_id: self.entry_id@,
            kind: self.kind,
            source: self.source@,
            description: self.description@,
            quantity: self.quantity,
            unit_amount: self.unit_amount@,
            total_amount: self.total_amount@,
            price_category: self.price_category,
            accounting_category: self.accounting_category,
        }
    }
}

impl DeepView for OrderEntry {
    type V = OrderEntryView;

    open spec fn deep_view(&self) -> OrderEntryView {
        self@
    }
}

impl Clone for OrderEntry {
    fn clone(&self) -> (r: Self)
        ensures
            r@ == self@,
    {
        OrderEntry {
            entry_id: self.entry_id.clone(),
            kind: self.kind,
            source: self.source.clone(),
            description: self.description.clone(),
            quantity: self.quantity,
            unit_amount: self.unit_amount.clone(),
            total_amount: self.total_amount.clone(),
            price_category: self.price_category,
            accounting_category: self.accounting_category,
        }
    }
}

impl OrderEntry {
    pub fn builder(entry_id: EntryId, kind: EntryKind, source: EntrySource, description: &str, quantity: u32, unit_amount: Money) -> (r: OrderEntryBuilder)
        ensures
            r@ == (BuilderView {
                entry_id: entry_id@,
                kind,
                source: source@,
                description: description@,
                quantity,
                unit_amount: unit_amount@,
                price_category: None,
                accounting_category: None,
            }),
    {
        OrderEntryBuilder::new(entry_id, kind, source, description, quantity, unit_amount)
    }

    pub fn entry_id(&self) -> (r: &EntryId)
        ensures
            r@ == self@.entry_id,
    {
        &self.entry_id
    }

    pub fn kind(&self) -> (r: EntryKind)
        ensures
            r == self@.kind,
    {
        self.kind
    }

    pub fn source(&self) -> (r: &EntrySource)
        ensures
            r@ == self@.source,
    {
        &self.source
    }

    pub fn description(&self) -> (r: &str)
        ensures
            r@ == self@.description,
    {
        self.description.as_str()
    }

    pub fn quantity(&self) -> (r: u32)
        ensures
            r == self@.quantity,
    {
        self.quantity
    }

    pub fn unit_amount(&self) -> (r: &Money)
        ensures
            r@ == self@.unit_amount,
    {
        &self.unit_amount
    }

    pub fn total_amount(&self) -> (r: &Money)
        ensures
            r@ == self@.total_amount,
    {
        &self.total_amount
    }

    pub fn price_category(&self) -> (r: Option<PriceCategory>)
        ensures
            r == self@.price_category,
    {
        self.price_category
    }
}

/// The abstract value of an entry builder.
pub struct BuilderView {
    pub entry_id: PrefixedIdView,
    pub kind: EntryKind,
    pub source: EntrySourceView,
    pub description: Seq<char>,
    pub quantity: u32,
    pub unit_amount: MoneyView,
    pub price_category: Option<PriceCategory>,
    pub accounting_category: Option<AccountingCategory>,
}

/// The parts of an entry before it is checked and its total computed.
#[derive(Debug)]
pub struct OrderEntryBuilder {
    entry_id: EntryId,
    kind: EntryKind,
    source: EntrySource,
    description: String,
    quantity: u32,
    unit_amount: Money,
    price_category: Option<PriceCategory>,
    accounting_category: Option<AccountingCategory>,
}

impl View for OrderEntryBuilder {
    type V = BuilderView;

    closed spec fn view(&self) -> BuilderView {
        BuilderView {
            entry_id: self.entry_id@,
            kind: self.kind,
            source: self.source@,
            description: self.description@,
            quantity: self.quantity,
            unit_amount: self.unit_amount@,
            price_category: self.price_category,
            accounting_category: self.accounting_category,
        }
    }
}

impl Clone for OrderEntryBuilder {
    fn clone(&self) -> (r: Self)
        ensures
            r@ == self@,
    {
        OrderEntryBuilder {
            entry_id: self.entry_id.clone(),
            kind: self.kind,
            source: self.source.clone(),
            description: self.description.clone(),
            quantity: self.quantity,
            unit_amount: self.unit_amount.clone(),
            price_category: self.price_category,
            accounting_category: self.accounting_category,
        }
    }
}

/// What building an entry gives: a positive quantity, a non-blank
/// description, and a total that fits.
pub open spec fn spec_build(b: BuilderView) -> Result<OrderEntryView, EntryErrorView> {
    if b.quantity == 0 {
        Err(EntryErrorView::ZeroQuantity)
    } else if is_blank(b.description) {
        Err(EntryErrorView::EmptyDescription)
    } else {
        match spec_money_mul_quantity(b.unit_amount, b.quantity as int) {
            Err(e) => Err(EntryErrorView::Money(e)),
            Ok(total) => Ok(OrderEntryView {
                entry_id: b.entry_id,
                kind: b.kind,
                source: b.source,
                description: b.description,
                quantity: b.quantity,
                unit_amount: b.unit_amount,
                total_amount: total,
                price_category: b.price_category,
                accounting_category: b.accounting_category,
            }),
        }
    }
}

impl OrderEntryBuilder {
    fn new(entry_id: EntryId, kind: EntryKind, source: EntrySource, description: &str, quantity: u32, unit_amount: Money) -> (r: Self)
        ensures
            r@ == (BuilderView {
                entry_id: entry_id@,
                kind,
                source: source@,
                description: description@,
                quantity,
                unit_amount: unit_amount@,
                price_category: None,
                accounting_category: None,
            }),
    {
        OrderEntryBuilder {
            entry_id,
            kind,
            source,
            description: owned(description),
            quantity,
            unit_amount,
            price_category: None,
            accounting_category: None,
        }
    }

    pub fn with_price_category(self, price_category: PriceCategory) -> (r: Self)
        ensures
            r@ == (BuilderView { price_category: Some(price_category), ..self@ }),
    {
        OrderEntryBuilder { price_category: Some(price_category), ..self }
    }

    pub fn with_accounting_category(self, accounting_category: AccountingCategory) -> (r: Self)
        ensures
            r@ == (BuilderView { accounting_category: Some(accounting_category), ..self@ }),
    {
        OrderEntryBuilder { accounting_category: Some(accounting_category), ..self }
    }

    pub fn build(self) -> (r: Result<OrderEntry, EntryError>)
        ensures
            match r {
                Ok(e) => spec_build(self@) == Ok::<OrderEntryView, EntryErrorView>(e@),
                Err(e) => spec_build(self@) == Err::<OrderEntryView, EntryErrorView>(e@),
            },
    {
        if self.quantity == 0 {
            return Err(EntryError::ZeroQuantity);
        }
        if str_is_blank(self.description.as_str()) {
            return Err(EntryError::EmptyDescription);
        }
        let total_amount = match self.unit_amount.checked_mul_quantity(self.quantity) {
            Ok(t) => t,
            Err(e) => return Err(EntryError::Money(e)),
        };
        Ok(OrderEntry {
            entry_id: self.entry_id,
            kind: self.kind,
            source: self.source,
            description: self.description,
            quantity: self.quantity,
            unit_amount: self.unit_amount,
            total_amount,
            price_category: self.price_category,
            accounting_category: self.accounting_category,
        })
    }
}

/// The abstract value of an entry error.
pub enum EntryErrorView {
    ZeroQuantity,
    EmptyDescription,
    Money(MoneyErrorView),
}

/// Why an entry could not be built.
#[derive(Debug, Eq, PartialEq)]
pub enum EntryError {
    ZeroQuantity,
    EmptyDescription,
    Money(MoneyError),
}

impl View for EntryError {
    type V = EntryErrorView;

    open spec fn view(&self) -> EntryErrorView {
        match self {
            EntryError::ZeroQuantity => EntryErrorView::ZeroQuantity,
            EntryError::EmptyDescription => EntryErrorView::EmptyDescription,
            EntryError::Money(e) => EntryErrorView::Money(e@),
        }
    }
}

/// The text an entry error reads as.
pub open spec fn entry_error_message(e: EntryErrorView) -> Seq<char> {
    match e {
        EntryErrorView::ZeroQuantity => "entry quantity must be greater than zero"@,
        EntryErrorView::EmptyDescription => "entry description cannot be empty"@,
        EntryErrorView::Money(error) => money_error_message(error),
    }
}

impl EntryError {
    /// The error as text.
    pub fn message(&self) -> (r: String)
        ensures
            r@ == entry_error_message(self@),
    {
        match self {
            EntryError::ZeroQuantity => owned("entry quantity must be greater than zero"),
            EntryError::EmptyDescription => owned("entry description cannot be empty"),
            EntryError::Money(error) => error.message(),
        }
    }
}

impl Clone for EntryError {
    fn clone(&self) -> (r: Self)
        ensures
            r@ == self@,
    {
        match self {
            EntryError::ZeroQuantity => EntryError::ZeroQuantity,
            EntryError::EmptyDescription => EntryError::EmptyDescription,
            EntryError::Money(e) => EntryError::Money(e.clone()),
        }
    }
}

} // verus!
