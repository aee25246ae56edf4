use pos_core_kernel::prelude::{
    AvailableSupply, CalendarError, CalendarMoment, ConsumerAttributeId, ConsumerProfile, ConsumerProfileError,
    CurrencyCode, DayOfWeek, DaysOfWeek, EntryId, LabelId, LocalTimeOfDay, LocalTimeRange, LogicalDate,
    LogicalDateRange, Media, MediaCollection, MediaDimensions, MediaError, MediaId, MediaMimeType, MediaVariant, Money,
    OrderId, Rate, RoundingStrategy, Schedule, ScheduleContext, ScheduleError, ScheduleLimit, ScheduleWindow,
    SupplyBucket, SupplyClaimId, SupplyClaimState, SupplyConsume, SupplyError, SupplyKey, SupplyLedger,
    SupplyOperation, SupplyOperationKind, SupplyProvider, SupplyRequest, SupplyReserve, SupplyResolution, SupplyTarget,
    SupplyUnavailableReason, SupplyUnconsume, SupplyUnreserve, SupplyUnresolvedReason, SupplyView, TimeZone,
    UtcTime, UtcTimeRange, CatalogItemId, ComponentId, Label,
};

#[test]
fn logical_dates_validate_months_days_and_leap_years() {
    assert!(LogicalDate::new(2024, 2, 29).is_ok());
    assert_eq!(LogicalDate::new(2023, 2, 29), Err(CalendarError::InvalidDay { year: 2023, month: 2, day: 29 }));
    assert_eq!(LogicalDate::new(2026, 13, 1), Err(CalendarError::InvalidMonth(13)));
}

#[test]
fn logical_dates_derive_day_of_week() {
    let date = LogicalDate::new(2026, 5, 22).unwrap();

    assert_eq!(date.day_of_week(), DayOfWeek::Friday);
}

#[test]
fn local_time_ranges_are_half_open_and_do_not_cross_midnight() {
    let nine = LocalTimeOfDay::from_hms(9, 0, 0).unwrap();
    let five = LocalTimeOfDay::from_hms(17, 0, 0).unwrap();
    let range = LocalTimeRange::new(nine, five).unwrap();

    assert!(range.contains(nine));
    assert!(!range.contains(five));
    assert_eq!(
        LocalTimeRange::new(five, nine),
        Err(CalendarError::InvalidTimeRange { start_second: 61_200, end_second: 32_400 })
    );
}

#[test]
fn date_ranges_are_inclusive() {
    let start = LogicalDate::new(2026, 5, 1).unwrap();
    let end = LogicalDate::new(2026, 5, 31).unwrap();
    let range = LogicalDateRange::new(start, end).unwrap();

    assert!(range.contains(start));
    assert!(range.contains(end));
    assert!(!range.contains(LogicalDate::new(2026, 6, 1).unwrap()));
}

#[test]
fn calendar_moment_pairs_local_values_with_a_time_zone() {
    let date = LogicalDate::new(2026, 5, 22).unwrap();
    let moment = CalendarMoment::new(
        date,
        LocalTimeOfDay::from_hms(12, 30, 0).unwrap(),
        TimeZone::parse("America/Los_Angeles").unwrap(),
    );

    assert_eq!(moment.date(), date);
    assert_eq!(moment.day_of_week(), DayOfWeek::Friday);
    assert_eq!(moment.time_of_day().hour(), 12);
    assert_eq!(moment.time_zone().name(), "America/Los_Angeles");
}

#[test]
fn days_of_week_requires_at_least_one_day() {
    assert_eq!(DaysOfWeek::new(Vec::new()), Err(CalendarError::EmptyDaysOfWeek));
    assert!(DaysOfWeek::weekdays().contains(DayOfWeek::Monday));
    assert!(!DaysOfWeek::weekdays().contains(DayOfWeek::Sunday));
}

fn attribute_id(suffix: &str) -> ConsumerAttributeId {
    ConsumerAttributeId::from_suffix(suffix).unwrap()
}

#[test]
fn mod_consumer_profile_matches_required_attributes_as_a_set() {
    let web = attribute_id("WEB");
    let delivery = attribute_id("DELIVERY");
    let spanish = attribute_id("SPANISH");

    let active = ConsumerProfile::new(vec![web.clone(), delivery.clone(), spanish]).unwrap();
    let required = ConsumerProfile::new(vec![web, delivery]).unwrap();

    assert!(active.contains_all(&required));
}

#[test]
fn mod_consumer_profile_rejects_duplicate_attributes() {
    let web = attribute_id("WEB");

    assert_eq!(
        ConsumerProfile::new(vec![web.clone(), web.clone()]),
        Err(ConsumerProfileError::DuplicateAttribute(web))
    );
}

#[test]
fn mod_consumer_profile_rejects_duplicate_attributes_added_later() {
    let web = attribute_id("WEB");
    let profile = ConsumerProfile::empty().with_attribute(web.clone()).unwrap();

    assert_eq!(profile.with_attribute(web.clone()), Err(ConsumerProfileError::DuplicateAttribute(web)));
}

#[test]
fn mod_typed_ids_validate_prefixes() {
    let order_id = OrderId::parse("ORD-01HX7Y9M8N6ZQ4K3V2B1C0D9EA").unwrap();

    assert_eq!(order_id.as_str(), "ORD-01HX7Y9M8N6ZQ4K3V2B1C0D9EA");
    assert!(EntryId::parse(order_id.as_str()).is_err());
}

#[test]
fn mny_money_money_uses_checked_minor_units() {
    let usd = CurrencyCode::parse("USD").unwrap();
    let one = Money::new(100, usd.clone());
    let two = Money::new(250, usd);

    assert_eq!(one.checked_add(&two).unwrap().amount_minor(), 350);
}

#[test]
fn mny_money_money_multiplies_by_integer_rates_with_named_rounding() {
    let usd = CurrencyCode::parse("USD").unwrap();
    let amount = Money::new(199, usd);

    assert_eq!(
        amount.checked_mul_rate(Rate::percent(50), RoundingStrategy::CentRoundDown).unwrap().amount_minor(),
        99
    );
    assert_eq!(
        amount.checked_mul_rate(Rate::percent(50), RoundingStrategy::CentRoundUp).unwrap().amount_minor(),
        100
    );
}

#[test]
fn mny_money_money_rounds_up_to_named_increment_and_ending_targets() {
    let usd = CurrencyCode::parse("USD").unwrap();
    let amount = Money::new(201, usd);

    assert_eq!(
        amount.checked_mul_rate(Rate::one(), RoundingStrategy::NearestUpIncrement(25)).unwrap().amount_minor(),
        225
    );
    assert_eq!(
        amount.checked_mul_rate(Rate::one(), RoundingStrategy::NearestUpEnding(99)).unwrap().amount_minor(),
        299
    );
}

fn label_id(suffix: &str) -> LabelId {
    LabelId::from_suffix(suffix).unwrap()
}

fn media_id(suffix: &str) -> MediaId {
    MediaId::from_suffix(suffix).unwrap()
}

fn mime(value: &str) -> MediaMimeType {
    MediaMimeType::parse(value).unwrap()
}

#[test]
fn media_collection_rejects_duplicate_default_media_ids() {
    let media_id = media_id("BURGER");

    assert_eq!(
        MediaCollection::new(vec![
            Media::new(media_id.clone(), mime("image/webp")),
            Media::new(media_id.clone(), mime("image/jpeg")),
        ]),
        Err(MediaError::DuplicateMedia(media_id))
    );
}

#[test]
fn media_resolves_most_specific_matching_variant_and_label() {
    let web = attribute_id("WEB");
    let delivery = attribute_id("DELIVERY");
    let profile = ConsumerProfile::new(vec![web.clone(), delivery.clone()]).unwrap();
    let label = Label::new(label_id("BURGER"), "Burger")
        .unwrap()
        .with_value(ConsumerProfile::new(vec![web.clone(), delivery.clone()]).unwrap(), "Delivery burger")
        .unwrap();
    let media = Media::new(media_id("BURGER-DEFAULT"), mime("image/webp"))
        .with_label(label)
        .with_variant(
            MediaVariant::new(ConsumerProfile::new(vec![web.clone()]).unwrap(), media_id("BURGER-WEB"), mime("image/jpeg"))
                .unwrap(),
        )
        .unwrap()
        .with_variant(
            MediaVariant::new(
                ConsumerProfile::new(vec![delivery.clone()]).unwrap(),
                media_id("BURGER-DELIVERY"),
                mime("image/png"),
            )
            .unwrap(),
        )
        .unwrap()
        .with_variant(
            MediaVariant::new(
                ConsumerProfile::new(vec![web.clone(), delivery]).unwrap(),
                media_id("BURGER-WEB-DELIVERY"),
                mime("image/jpeg"),
            )
            .unwrap(),
        )
        .unwrap();

    let resolved = media.resolve(&profile).unwrap();

    assert_eq!(resolved.media_id(), &media_id("BURGER-WEB-DELIVERY"));
    assert_eq!(resolved.mime_type().as_str(), "image/jpeg");
    assert_eq!(resolved.label().unwrap().value(), "Delivery burger");
}

#[test]
fn media_falls_back_to_default_when_no_variant_matches() {
    let media = Media::new(media_id("BURGER-DEFAULT"), mime("image/webp"))
        .with_dimensions(MediaDimensions::new(800, 600).unwrap());

    let resolved = media.resolve(&ConsumerProfile::empty()).unwrap();

    assert_eq!(resolved.media_id(), &media_id("BURGER-DEFAULT"));
    assert_eq!(resolved.mime_type().as_str(), "image/webp");
    assert_eq!(resolved.dimensions().unwrap().width_px(), 800);
    assert!(resolved.matched_profile().is_none());
}

#[test]
fn media_rejects_ambiguous_equal_specificity_variants() {
    let web = attribute_id("WEB");
    let delivery = attribute_id("DELIVERY");
    let spanish = attribute_id("SPANISH");
    let media = Media::new(media_id("BURGER-DEFAULT"), mime("image/webp"))
        .with_variant(
            MediaVariant::new(
                ConsumerProfile::new(vec![web.clone(), delivery.clone()]).unwrap(),
                media_id("BURGER-DELIVERY"),
                mime("image/jpeg"),
            )
            .unwrap(),
        )
        .unwrap()
        .with_variant(
            MediaVariant::new(
                ConsumerProfile::new(vec![web.clone(), spanish.clone()]).unwrap(),
                media_id("BURGER-SPANISH"),
                mime("image/png"),
            )
            .unwrap(),
        )
        .unwrap();

    assert!(matches!(
        media.resolve(&ConsumerProfile::new(vec![web, delivery, spanish]).unwrap()),
        Err(MediaError::AmbiguousResolution { specificity: 2, .. })
    ));
}

#[test]
fn media_validates_mime_types_and_dimensions() {
    let mime_type = MediaMimeType::parse("IMAGE/WEBP").unwrap();

    assert_eq!(mime_type.as_str(), "image/webp");
    assert_eq!(mime_type.top_level_type(), "image");
    assert_eq!(mime_type.subtype(), "webp");
    assert!(mime_type.is_image());
    assert_eq!(MediaMimeType::parse("image"), Err(MediaError::InvalidMimeType("image".to_owned())));
    assert_eq!(MediaDimensions::new(0, 100), Err(MediaError::ZeroWidth));
    assert_eq!(MediaDimensions::new(100, 0), Err(MediaError::ZeroHeight));
}

fn context(unix_millis: i64, year: i32, month: u8, day: u8, hour: u8, minute: u8, second: u8) -> ScheduleContext {
    ScheduleContext::new(
        utc(unix_millis),
        CalendarMoment::new(
            LogicalDate::new(year, month, day).unwrap(),
            LocalTimeOfDay::from_hms(hour, minute, second).unwrap(),
            TimeZone::utc(),
        ),
    )
}

fn utc(unix_millis: i64) -> UtcTime {
    UtcTime::from_unix_millis(unix_millis)
}

#[test]
fn empty_schedule_is_always_scheduled() {
    let schedule = Schedule::always();

    assert!(schedule.includes(&context(100, 2026, 5, 22, 12, 0, 0)));
}

#[test]
fn schedule_limits_gate_the_whole_schedule() {
    let until = Schedule::always().with_limit(ScheduleLimit::Until(utc(200)));
    let after = Schedule::always().with_limit(ScheduleLimit::After(utc(200)));
    let between = Schedule::always().with_limit(ScheduleLimit::between(utc(100), utc(200)).unwrap());

    assert!(until.includes(&context(199, 2026, 5, 22, 12, 0, 0)));
    assert!(!until.includes(&context(200, 2026, 5, 22, 12, 0, 0)));
    assert!(!after.includes(&context(199, 2026, 5, 22, 12, 0, 0)));
    assert!(after.includes(&context(200, 2026, 5, 22, 12, 0, 0)));
    assert!(between.includes(&context(100, 2026, 5, 22, 12, 0, 0)));
    assert!(!between.includes(&context(200, 2026, 5, 22, 12, 0, 0)));
    assert!(!Schedule::never().includes(&context(150, 2026, 5, 22, 12, 0, 0)));
}

#[test]
fn schedule_windows_require_any_matching_window_when_present() {
    let breakfast = ScheduleWindow::new()
        .with_days_of_week(DaysOfWeek::weekdays())
        .with_time_range(LocalTimeRange::from_seconds(6 * 3_600, 10 * 3_600 + 30 * 60).unwrap());
    let schedule = Schedule::with_windows(vec![breakfast]).unwrap();

    assert!(schedule.includes(&context(0, 2026, 5, 22, 9, 30, 0)));
    assert!(!schedule.includes(&context(0, 2026, 5, 22, 11, 0, 0)));
    assert!(!schedule.includes(&context(0, 2026, 5, 23, 9, 30, 0)));
}

#[test]
fn schedule_exclusions_override_windows_and_always() {
    let holiday = ScheduleWindow::new().with_date_range(
        LogicalDateRange::new(LogicalDate::new(2026, 12, 25).unwrap(), LogicalDate::new(2026, 12, 25).unwrap())
            .unwrap(),
    );
    let schedule = Schedule::always().with_exclusion(holiday);

    assert!(!schedule.includes(&context(0, 2026, 12, 25, 12, 0, 0)));
    assert!(schedule.includes(&context(0, 2026, 12, 26, 12, 0, 0)));
}

#[test]
fn schedule_windows_can_combine_dates_days_and_times() {
    let may_friday_lunch = ScheduleWindow::new()
        .with_date_range(
            LogicalDateRange::new(LogicalDate::new(2026, 5, 1).unwrap(), LogicalDate::new(2026, 5, 31).unwrap())
                .unwrap(),
        )
        .with_days_of_week(DaysOfWeek::new(vec![DayOfWeek::Friday]).unwrap())
        .with_time_range(LocalTimeRange::from_seconds(11 * 3_600, 14 * 3_600).unwrap());
    let schedule = Schedule::with_windows(vec![may_friday_lunch]).unwrap();

    assert!(schedule.includes(&context(0, 2026, 5, 22, 12, 0, 0)));
    assert!(!schedule.includes(&context(0, 2026, 5, 22, 15, 0, 0)));
    assert!(!schedule.includes(&context(0, 2026, 6, 5, 12, 0, 0)));
}

#[test]
fn schedule_rejects_empty_windowed_schedules_and_invalid_utc_ranges() {
    assert_eq!(Schedule::with_windows(Vec::new()), Err(ScheduleError::EmptyWindows));
    assert_eq!(
        UtcTimeRange::new(utc(200), utc(200)),
        Err(ScheduleError::InvalidUtcTimeRange { starts_at: utc(200), ends_at: utc(200) })
    );
}

fn request(target: SupplyTarget, quantity: u32) -> SupplyRequest {
    SupplyRequest::new(target, quantity).unwrap()
}

fn bucket(key: &str, value: &str) -> SupplyBucket {
    SupplyBucket::empty().with_dimension(key, value).unwrap()
}

fn component_id(suffix: &str) -> ComponentId {
    ComponentId::from_suffix(suffix).unwrap()
}

fn item_id(suffix: &str) -> CatalogItemId {
    CatalogItemId::from_suffix(suffix).unwrap()
}

fn claim_id(suffix: &str) -> SupplyClaimId {
    SupplyClaimId::from_suffix(suffix).unwrap()
}

#[test]
fn supply_view_resolves_available_unavailable_and_unresolved_requests() {
    let target = SupplyTarget::choice(component_id("01PEPPER"));
    let view = SupplyView::new(vec![AvailableSupply::new(target.clone(), SupplyBucket::empty(), 3)]).unwrap();

    assert_eq!(
        view.resolve_supply(&request(target.clone(), 2)),
        SupplyResolution::Available { requested: 2, available: 3 }
    );
    assert_eq!(
        view.resolve_supply(&request(target.clone(), 5)),
        SupplyResolution::Unavailable {
            requested: 5,
            available: 3,
            reason: SupplyUnavailableReason::InsufficientSupply
        }
    );
    assert_eq!(
        view.resolve_supply(&request(SupplyTarget::catalog_item(item_id("01PIZZA")), 1)),
        SupplyResolution::Unresolved { reason: SupplyUnresolvedReason::MissingAvailableSupply }
    );
}

#[test]
fn supply_buckets_distinguish_calculated_supply() {
    let target = SupplyTarget::custom("delivery-slot").unwrap();
    let six_pm = bucket("time-window", "18:00-18:30");
    let seven_pm = bucket("time-window", "19:00-19:30");
    let view = SupplyView::new(vec![AvailableSupply::new(target.clone(), six_pm.clone(), 2)]).unwrap();

    assert!(view.resolve_supply(&request(target.clone(), 1).with_bucket(six_pm)).is_available());
    assert!(view.resolve_supply(&request(target, 1).with_bucket(seven_pm)).is_unresolved());
}

#[test]
fn supply_keys_and_requests_validate_their_shape() {
    assert_eq!(SupplyKey::new(" "), Err(SupplyError::EmptySupplyKey));
    assert_eq!(SupplyBucket::empty().with_dimension("", "x"), Err(SupplyError::EmptyBucketDimensionKey));
    assert_eq!(
        SupplyRequest::new(SupplyTarget::custom("daily-cap").unwrap(), 0),
        Err(SupplyError::ZeroSupplyQuantity)
    );
}

#[test]
fn supply_reserve_and_unreserve_are_a_reversible_pair() {
    let claim_id = claim_id("01CLAIM");
    let target = SupplyTarget::choice(component_id("01PEPPER"));
    let request = request(target.clone(), 2);
    let mut ledger = SupplyLedger::new();

    ledger.apply(SupplyOperation::Reserve(SupplyReserve::new(claim_id.clone(), request.clone()))).unwrap();

    assert_eq!(ledger.claim(&claim_id), Some(&SupplyClaimState::Reserved { request: request.clone() }));
    assert_eq!(ledger.reserved_quantity(&target, &SupplyBucket::empty()), 2);

    ledger.apply(SupplyOperation::Unreserve(SupplyUnreserve::new(claim_id.clone()))).unwrap();

    assert_eq!(ledger.claim(&claim_id), Some(&SupplyClaimState::Unreserved { request }));
    assert_eq!(ledger.reserved_quantity(&target, &SupplyBucket::empty()), 0);
}

#[test]
fn supply_consume_and_unconsume_are_a_reversible_pair() {
    let claim_id = claim_id("01CLAIM");
    let target = SupplyTarget::custom("brunch-special").unwrap();
    let request = request(target.clone(), 1);
    let mut ledger = SupplyLedger::new();

    ledger.apply(SupplyOperation::Consume(SupplyConsume::new(claim_id.clone(), request.clone()))).unwrap();

    assert_eq!(ledger.consumed_quantity(&target, &SupplyBucket::empty()), 1);

    ledger.apply(SupplyOperation::Unconsume(SupplyUnconsume::new(claim_id.clone()))).unwrap();

    assert_eq!(ledger.claim(&claim_id), Some(&SupplyClaimState::Unconsumed { request }));
    assert_eq!(ledger.consumed_quantity(&target, &SupplyBucket::empty()), 0);
}

#[test]
fn supply_consume_can_commit_a_matching_reservation() {
    let claim_id = claim_id("01CLAIM");
    let request = request(SupplyTarget::choice(component_id("01PEPPER")), 1);
    let mut ledger = SupplyLedger::new();

    ledger.apply(SupplyOperation::Reserve(SupplyReserve::new(claim_id.clone(), request.clone()))).unwrap();
    ledger.apply(SupplyOperation::Consume(SupplyConsume::new(claim_id.clone(), request.clone()))).unwrap();

    assert_eq!(ledger.claim(&claim_id), Some(&SupplyClaimState::Consumed { request }));
}

#[test]
fn supply_ledger_rejects_invalid_transitions_and_mismatched_consumes() {
    let claim_id = claim_id("01CLAIM");
    let pepperoni_request = request(SupplyTarget::choice(component_id("01PEPPER")), 1);
    let mismatch = request(SupplyTarget::choice(component_id("01BACON")), 1);
    let mut ledger = SupplyLedger::new();

    assert_eq!(
        ledger.apply(SupplyOperation::Unreserve(SupplyUnreserve::new(claim_id.clone()))),
        Err(SupplyError::UnknownSupplyClaim(claim_id.clone()))
    );

    ledger.apply(SupplyOperation::Reserve(SupplyReserve::new(claim_id.clone(), pepperoni_request.clone()))).unwrap();

    assert_eq!(
        ledger.apply(SupplyOperation::Consume(SupplyConsume::new(claim_id.clone(), mismatch.clone()))),
        Err(SupplyError::MismatchedSupplyClaim { claim_id: claim_id.clone(), expected: pepperoni_request, actual: mismatch })
    );

    ledger.apply(SupplyOperation::Unreserve(SupplyUnreserve::new(claim_id.clone()))).unwrap();

    assert!(matches!(
        ledger.apply(SupplyOperation::Unconsume(SupplyUnconsume::new(claim_id.clone()))),
        Err(SupplyError::InvalidSupplyTransition { operation: SupplyOperationKind::Unconsume, .. })
    ));
}
