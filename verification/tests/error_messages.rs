use pos_core_kernel::catalog_item::CatalogItemError;
use pos_core_kernel::modifier::{ChoiceInputError, ModifierError, RuleKind};
use pos_core_kernel::order::OrderError;
use pos_core_kernel::order_item::OrderItemError;
use pos_core_kernel::primitives::calendar::CalendarError;
use pos_core_kernel::primitives::ids::{ComponentId, EntryId, IdParseError, OrderId, VariantId};
use pos_core_kernel::primitives::label::LabelError;
use pos_core_kernel::primitives::money::{CurrencyCode, Money, MoneyError};
use pos_core_kernel::primitives::schedule::ScheduleError;
use pos_core_kernel::primitives::time::{TimeError, UtcTime};
use pos_core_kernel::totals::TotalError;

fn component_id(suffix: &str) -> ComponentId {
    ComponentId::from_suffix(suffix).unwrap()
}

fn usd(amount_minor: i64) -> Money {
    Money::new(amount_minor, CurrencyCode::parse("USD").unwrap())
}

#[test]
fn modifier_errors_read_as_their_text() {
    assert_eq!(ModifierError::DuplicateRule(RuleKind::Min).message(), "duplicate Min rule");
    assert_eq!(
        ModifierError::DuplicateChoice(component_id("01SWISS")).message(),
        "duplicate choice `CMP-01SWISS`"
    );
    assert_eq!(
        ModifierError::ChoiceAboveMaximum { choice_id: component_id("01PEPPER"), max_select: 1, actual: 2 }.message(),
        "choice `CMP-01PEPPER` quantity 2 exceeds max 1"
    );
    assert_eq!(
        ModifierError::InvalidConstraints { min_select: 30, max_select: 7 }.message(),
        "selection constraints are invalid: min 30 exceeds max 7"
    );
    assert_eq!(ModifierError::Money(MoneyError::Overflow).message(), "money arithmetic overflow");
    assert_eq!(ModifierError::Label(LabelError::EmptyDefault).message(), "label default cannot be empty");
    assert_eq!(
        ModifierError::from(ChoiceInputError::EmptyTitle).message(),
        "choice input title cannot be empty"
    );
}

#[test]
fn choice_input_errors_read_as_their_text() {
    assert_eq!(
        ChoiceInputError::UnitOutOfRange {
            choice_id: component_id("01PEPPER"),
            input_id: component_id("01REQUEST"),
            unit: 3,
            quantity: 2,
        }
        .message(),
        "choice input `CMP-01REQUEST` unit 3 is outside choice `CMP-01PEPPER` quantity 2"
    );
    assert_eq!(
        ChoiceInputError::DuplicateValue { choice_id: component_id("01A"), input_id: component_id("01B"), unit: None }
            .message(),
        "choice input `CMP-01B` has duplicate value for choice `CMP-01A`"
    );
    assert_eq!(
        ChoiceInputError::AboveMaximumLength {
            choice_id: component_id("01A"),
            input_id: component_id("01B"),
            max_length: 500,
            actual: 1024,
        }
        .message(),
        "choice input `CMP-01B` on choice `CMP-01A` length 1024 exceeds max 500"
    );
}

#[test]
fn money_label_and_time_errors_read_as_their_text() {
    assert_eq!(
        MoneyError::CurrencyMismatch { left: CurrencyCode::parse("USD").unwrap(), right: CurrencyCode::parse("CAD").unwrap() }
            .message(),
        "currency mismatch `USD` != `CAD`"
    );
    assert_eq!(
        MoneyError::InvalidRoundingEnding(120).message(),
        "rounding ending `120` is invalid; expected a value from 0 to 99"
    );
    assert_eq!(TimeError::InvalidTimeZone("Mars/Base".to_owned()).message(), "invalid time zone name `Mars/Base`");
    assert_eq!(
        ScheduleError::InvalidUtcTimeRange { starts_at: UtcTime::from_unix_millis(-5), ends_at: UtcTime::from_unix_millis(0) }
            .message(),
        "invalid UTC time range `-5`..`0`"
    );
    assert_eq!(
        IdParseError::WrongPrefix { expected: "ENT".to_owned(), actual: "ORD".to_owned() }.message(),
        "wrong ID prefix `ORD`; expected `ENT`"
    );
}

#[test]
fn calendar_errors_pad_dates_like_the_standard_formatter() {
    assert_eq!(
        CalendarError::InvalidDay { year: 2023, month: 2, day: 29 }.message(),
        format!("invalid logical date `{:04}-{:02}-{:02}`", 2023, 2, 29)
    );
    assert_eq!(
        CalendarError::InvalidDay { year: -5, month: 1, day: 40 }.message(),
        format!("invalid logical date `{:04}-{:02}-{:02}`", -5, 1, 40)
    );
    assert_eq!(CalendarError::InvalidMonth(13).message(), "invalid calendar month `13`");
}

#[test]
fn order_errors_read_as_their_text() {
    assert_eq!(
        OrderError::WrongOrder {
            expected: OrderId::from_suffix("01A").unwrap(),
            actual: OrderId::from_suffix("01B").unwrap()
        }
        .message(),
        "event for order `ORD-01B` cannot be applied to `ORD-01A`"
    );
    assert_eq!(
        OrderError::DuplicateEntry(EntryId::from_suffix("01X").unwrap()).message(),
        "duplicate order entry `ENT-01X`"
    );
    assert_eq!(TotalError::Money(MoneyError::Overflow).message(), "money arithmetic overflow");
    assert_eq!(
        OrderItemError::ModifierPriceTotalMismatch { expected: usd(50), actual: usd(-60) }.message(),
        format!("modifier price total `{:?}` does not match contribution sum `{:?}`", usd(-60), usd(50))
    );
    assert_eq!(
        OrderItemError::ModifierEntryIdCountMismatch { expected: 1, actual: 0 }.message(),
        "expected 1 modifier entry IDs but received 0"
    );
    assert_eq!(
        CatalogItemError::UnknownVariant(VariantId::from_suffix("01SMALL").unwrap()).message(),
        "unknown variant `VAR-01SMALL`"
    );
}
