use std::str::FromStr;

use pos_core_kernel::catalog_item::CatalogItemError;
use pos_core_kernel::modifier::{ChoiceInputError, ModifierError};
use pos_core_kernel::primitives::ids::{IdParseError, OrderId};
use pos_core_kernel::primitives::label::LabelError;
use pos_core_kernel::primitives::media::{MediaError, MediaMimeType};
use pos_core_kernel::primitives::time::{TimeError, TimeZone, UtcTime};

#[test]
fn typed_ids_parse_from_str_and_read_as_str() {
    let id: OrderId = "ORD-42".parse().unwrap();
    assert_eq!(id.as_str(), "ORD-42");
    let text: &str = id.as_ref();
    assert_eq!(text, "ORD-42");
    assert_eq!(OrderId::from_str("ORD-42").unwrap(), id);
    assert_eq!(
        OrderId::from_str("ENT-42"),
        Err(IdParseError::WrongPrefix { expected: "ORD".to_owned(), actual: "ENT".to_owned() })
    );
    assert_eq!(OrderId::from_str("ORD42"), Err(IdParseError::MissingSeparator));
}

#[test]
fn mime_types_parse_from_str_and_read_as_str() {
    let mime = MediaMimeType::from_str(" Image/PNG ").unwrap();
    assert_eq!(mime.as_ref(), "image/png");
    assert!(mime.is_image());
    assert_eq!(
        MediaMimeType::from_str("image"),
        Err(MediaError::InvalidMimeType("image".to_owned()))
    );
}

#[test]
fn time_zones_parse_from_str_and_read_as_str() {
    let zone = TimeZone::from_str(" Etc/UTC ").unwrap();
    assert_eq!(zone.as_ref(), "Etc/UTC");
    assert!(zone.is_utc());
    assert_eq!(TimeZone::from_str("   "), Err(TimeError::EmptyTimeZone));
}

#[test]
fn label_and_input_errors_convert_into_their_owners() {
    assert_eq!(ModifierError::from(LabelError::EmptyDefault), ModifierError::Label(LabelError::EmptyDefault));
    assert_eq!(
        ModifierError::from(ChoiceInputError::EmptyTitle),
        ModifierError::ChoiceInput(Box::new(ChoiceInputError::EmptyTitle))
    );
    assert_eq!(MediaError::from(LabelError::EmptyValue), MediaError::Label(LabelError::EmptyValue));
    assert_eq!(CatalogItemError::from(LabelError::EmptyProfile), CatalogItemError::Label(LabelError::EmptyProfile));
}

#[test]
fn epoch_distances_become_instants_or_overflow() {
    assert_eq!(UtcTime::utc_from_epoch_distance(Ok(1234)), Ok(UtcTime::from_unix_millis(1234)));
    assert_eq!(UtcTime::utc_from_epoch_distance(Err(1234)), Ok(UtcTime::from_unix_millis(-1234)));
    assert_eq!(
        UtcTime::utc_from_epoch_distance(Ok(i64::MAX as u128)),
        Ok(UtcTime::from_unix_millis(i64::MAX))
    );
    assert_eq!(UtcTime::utc_from_epoch_distance(Ok(i64::MAX as u128 + 1)), Err(TimeError::UnixMillisOverflow));
    assert_eq!(
        UtcTime::utc_from_epoch_distance(Err(i64::MAX as u128 + 1)),
        Ok(UtcTime::from_unix_millis(i64::MIN))
    );
    assert_eq!(UtcTime::utc_from_epoch_distance(Err(i64::MAX as u128 + 2)), Err(TimeError::UnixMillisOverflow));
}

#[test]
fn instants_give_their_side_and_distance_from_the_epoch() {
    assert_eq!(UtcTime::from_unix_millis(1234).epoch_offset(), (true, 1234));
    assert_eq!(UtcTime::from_unix_millis(0).epoch_offset(), (true, 0));
    assert_eq!(UtcTime::from_unix_millis(-1234).epoch_offset(), (false, 1234));
    assert_eq!(UtcTime::from_unix_millis(i64::MIN).epoch_offset(), (false, 9_223_372_036_854_775_808));
}
