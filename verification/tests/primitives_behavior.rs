use pos_core_kernel::prelude::{
    CalendarError, CalendarMoment, ConsumerAttributeId, ConsumerProfile, ConsumerProfileError, CurrencyCode, DayOfWeek,
    DaysOfWeek, EntryId, EvaluationTime, Label, LabelError, LabelId, LocalTimeOfDay, LocalTimeRange, LogicalDate,
    LogicalDateRange, Money, OrderId, Rate, RoundingStrategy, TimeError, TimeZone, UtcTime,
};

fn consumer_attribute_id(suffix: &str) -> ConsumerAttributeId {
    ConsumerAttributeId::from_suffix(suffix).unwrap()
}

fn label_id(suffix: &str) -> LabelId {
    LabelId::from_suffix(suffix).unwrap()
}

#[test]
fn logical_dates_validate_and_derive_weekdays() {
    assert!(LogicalDate::new(2024, 2, 29).is_ok());
    assert_eq!(LogicalDate::new(2023, 2, 29), Err(CalendarError::InvalidDay { year: 2023, month: 2, day: 29 }));
    assert_eq!(LogicalDate::new(2026, 5, 22).unwrap().day_of_week(), DayOfWeek::Friday);
}

#[test]
fn local_time_ranges_are_half_open() {
    let start = LocalTimeOfDay::from_hms(9, 0, 0).unwrap();
    let end = LocalTimeOfDay::from_hms(17, 0, 0).unwrap();
    let range = LocalTimeRange::new(start, end).unwrap();

    assert!(range.contains(start));
    assert!(!range.contains(end));
    assert_eq!(
        LocalTimeRange::new(end, start),
        Err(CalendarError::InvalidTimeRange { start_second: 61_200, end_second: 32_400 })
    );
}

#[test]
fn logical_date_ranges_are_inclusive() {
    let start = LogicalDate::new(2026, 5, 1).unwrap();
    let end = LogicalDate::new(2026, 5, 31).unwrap();
    let range = LogicalDateRange::new(start, end).unwrap();

    assert!(range.contains(start));
    assert!(range.contains(end));
    assert!(!range.contains(LogicalDate::new(2026, 6, 1).unwrap()));
    assert_eq!(LogicalDateRange::new(end, start), Err(CalendarError::InvalidDateRange { start: end, end: start }));
}

#[test]
fn calendar_moments_preserve_local_interpretation() {
    let date = LogicalDate::new(2026, 5, 22).unwrap();
    let moment = CalendarMoment::new(
        date,
        LocalTimeOfDay::from_hms(12, 30, 0).unwrap(),
        TimeZone::parse("America/Los_Angeles").unwrap(),
    );

    assert_eq!(moment.date(), date);
    assert_eq!(moment.day_of_week(), DayOfWeek::Friday);
    assert_eq!(moment.time_of_day().hour(), 12);
    assert_eq!(moment.time_zone().name(), "America/Los_Angeles");
}

#[test]
fn days_of_week_require_at_least_one_day() {
    assert_eq!(DaysOfWeek::new(Vec::new()), Err(CalendarError::EmptyDaysOfWeek));
    assert!(DaysOfWeek::weekdays().contains(DayOfWeek::Monday));
    assert!(!DaysOfWeek::weekdays().contains(DayOfWeek::Sunday));
}

#[test]
fn ids_typed_ids_validate_prefixes() {
    let order_id = OrderId::parse("ORD-01HX7Y9M8N6ZQ4K3V2B1C0D9EA").unwrap();

    assert_eq!(order_id.as_str(), "ORD-01HX7Y9M8N6ZQ4K3V2B1C0D9EA");
    assert!(EntryId::parse(order_id.as_str()).is_err());
}

#[test]
fn label_consumer_profile_matches_required_attributes_as_a_set() {
    let web = consumer_attribute_id("WEB");
    let delivery = consumer_attribute_id("DELIVERY");
    let spanish = consumer_attribute_id("SPANISH");
    let active = ConsumerProfile::new(vec![web.clone(), delivery.clone(), spanish]).unwrap();
    let required = ConsumerProfile::new(vec![web, delivery]).unwrap();

    assert!(active.contains_all(&required));
}

#[test]
fn label_consumer_profile_rejects_duplicate_attributes() {
    let web = consumer_attribute_id("WEB");

    assert_eq!(
        ConsumerProfile::new(vec![web.clone(), web.clone()]),
        Err(ConsumerProfileError::DuplicateAttribute(web))
    );
}

#[test]
fn label_consumer_profile_rejects_duplicate_attributes_added_later() {
    let web = consumer_attribute_id("WEB");
    let profile = ConsumerProfile::empty().with_attribute(web.clone()).unwrap();

    assert_eq!(profile.with_attribute(web.clone()), Err(ConsumerProfileError::DuplicateAttribute(web)));
}

#[test]
fn label_resolves_most_specific_consumer_profile_value() {
    let web = consumer_attribute_id("WEB");
    let delivery = consumer_attribute_id("DELIVERY");
    let spanish = consumer_attribute_id("SPANISH");
    let profile = ConsumerProfile::new(vec![web.clone(), delivery.clone(), spanish.clone()]).unwrap();
    let label = Label::new(label_id("PEPPERONI"), "Pepperoni")
        .unwrap()
        .with_value(ConsumerProfile::new(vec![web.clone()]).unwrap(), "Pepperoni topping")
        .unwrap()
        .with_value(ConsumerProfile::new(vec![web, delivery, spanish]).unwrap(), "Pepperoni para entrega")
        .unwrap();

    let resolved = label.resolve(&profile).unwrap();

    assert_eq!(resolved.value(), "Pepperoni para entrega");
    assert_eq!(resolved.label_id(), Some(&label_id("PEPPERONI")));
}

#[test]
fn label_falls_back_to_default() {
    let label = Label::new(label_id("PEPPERONI"), "Pepperoni")
        .unwrap()
        .with_value(ConsumerProfile::new(vec![consumer_attribute_id("WEB")]).unwrap(), "Pepperoni topping")
        .unwrap();

    let resolved = label.resolve(&ConsumerProfile::new(vec![consumer_attribute_id("PREP")]).unwrap()).unwrap();

    assert_eq!(resolved.value(), "Pepperoni");
    assert!(resolved.matched_profile().is_none());
}

#[test]
fn label_can_exist_without_id() {
    let label = Label::without_id("Custom sandwich").unwrap();
    let resolved = label.resolve(&ConsumerProfile::empty()).unwrap();

    assert_eq!(label.label_id(), None);
    assert_eq!(resolved.label_id(), None);
    assert_eq!(resolved.value(), "Custom sandwich");
}

#[test]
fn label_rejects_ambiguous_equal_specificity_matches() {
    let web = consumer_attribute_id("WEB");
    let delivery = consumer_attribute_id("DELIVERY");
    let spanish = consumer_attribute_id("SPANISH");
    let label = Label::new(label_id("PEPPERONI"), "Pepperoni")
        .unwrap()
        .with_value(ConsumerProfile::new(vec![web.clone(), delivery.clone()]).unwrap(), "Delivery")
        .unwrap()
        .with_value(ConsumerProfile::new(vec![web.clone(), spanish.clone()]).unwrap(), "Spanish")
        .unwrap();

    assert!(matches!(
        label.resolve(&ConsumerProfile::new(vec![web, delivery, spanish]).unwrap()),
        Err(LabelError::AmbiguousResolution { specificity: 2, .. })
    ));
}

#[test]
fn money_money_uses_checked_minor_units() {
    let usd = CurrencyCode::parse("USD").unwrap();
    let one = Money::new(100, usd.clone());
    let two = Money::new(250, usd);

    assert_eq!(one.checked_add(&two).unwrap().amount_minor(), 350);
}

#[test]
fn money_money_multiplies_by_integer_rates_with_named_rounding() {
    let amount = Money::new(199, CurrencyCode::parse("USD").unwrap());

    assert_eq!(
        amount.checked_mul_rate(Rate::percent(50), RoundingStrategy::CentRoundDown).unwrap().amount_minor(),
        99
    );
    assert_eq!(
        amount.checked_mul_rate(Rate::percent(50), RoundingStrategy::CentRoundUp).unwrap().amount_minor(),
        100
    );
}

#[test]
fn money_money_rounds_up_to_named_increment_and_ending_targets() {
    let amount = Money::new(201, CurrencyCode::parse("USD").unwrap());

    assert_eq!(
        amount.checked_mul_rate(Rate::one(), RoundingStrategy::NearestUpIncrement(25)).unwrap().amount_minor(),
        225
    );
    assert_eq!(
        amount.checked_mul_rate(Rate::one(), RoundingStrategy::NearestUpEnding(99)).unwrap().amount_minor(),
        299
    );
}

#[test]
fn utc_time_stores_unix_milliseconds() {
    let time = UtcTime::from_unix_millis(1_700_000_000_123);

    assert_eq!(time.unix_millis(), 1_700_000_000_123);
}

#[test]
fn utc_time_converts_to_and_from_system_time() {
    let after_epoch = std::time::UNIX_EPOCH + std::time::Duration::from_millis(1234);
    let before_epoch = std::time::UNIX_EPOCH - std::time::Duration::from_millis(1234);

    assert_eq!(UtcTime::from_system_time(after_epoch).unwrap(), UtcTime::from_unix_millis(1234));
    assert_eq!(UtcTime::from_system_time(before_epoch).unwrap(), UtcTime::from_unix_millis(-1234));
    assert_eq!(UtcTime::from_unix_millis(1234).to_system_time().unwrap(), after_epoch);
    assert_eq!(UtcTime::from_unix_millis(-1234).to_system_time().unwrap(), before_epoch);
}

#[test]
fn utc_time_supports_checked_millisecond_arithmetic() {
    let time = UtcTime::from_unix_millis(10);

    assert_eq!(time.checked_add_millis(5), Some(UtcTime::from_unix_millis(15)));
    assert_eq!(time.checked_sub_millis(15), Some(UtcTime::from_unix_millis(-5)));
    assert!(UtcTime::from_unix_millis(i64::MAX).checked_add_millis(1).is_none());
}

#[test]
fn evaluation_time_pairs_utc_and_calendar_time() {
    let utc_time = UtcTime::from_unix_millis(1_779_452_977_000);
    let calendar_moment = CalendarMoment::new(
        LogicalDate::new(2026, 5, 22).unwrap(),
        LocalTimeOfDay::from_hms(12, 30, 0).unwrap(),
        TimeZone::parse("America/Los_Angeles").unwrap(),
    );
    let evaluation_time = EvaluationTime::new(utc_time, calendar_moment.clone());

    assert_eq!(evaluation_time.utc_time(), utc_time);
    assert_eq!(evaluation_time.calendar_moment(), &calendar_moment);
}

#[test]
fn time_zone_validates_iana_shaped_names() {
    let pacific = TimeZone::parse(" America/Los_Angeles ").unwrap();
    let utc = TimeZone::utc();

    assert_eq!(pacific.name(), "America/Los_Angeles");
    assert_eq!(utc.name(), "UTC");
    assert!(utc.is_utc());
    assert_eq!(
        TimeZone::parse("America//Los_Angeles"),
        Err(TimeError::InvalidTimeZone("America//Los_Angeles".to_owned()))
    );
    assert_eq!(TimeZone::parse(" "), Err(TimeError::EmptyTimeZone));
}
