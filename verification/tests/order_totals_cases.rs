use pos_core_kernel::prelude::{
    calculate_order_totals, ActorContext, ActorId, ActorKind, CurrencyCode, EntryId, EntryKind, EntrySource,
    EventEnvelope, EventId, Money, Order, OrderEntry, OrderError, OrderEvent, OrderId, OrderStatus, TotalCategory,
    UtcTime,
};
use pos_core_kernel::primitives::money::MoneyError;
use pos_core_kernel::totals::TotalError;

fn usd(amount_minor: i64) -> Money {
    Money::new(amount_minor, CurrencyCode::parse("USD").unwrap())
}

fn order_id(suffix: &str) -> OrderId {
    OrderId::from_suffix(suffix).unwrap()
}

fn entry_id(suffix: &str) -> EntryId {
    EntryId::from_suffix(suffix).unwrap()
}

fn entry(suffix: &str, kind: EntryKind, amount: Money) -> OrderEntry {
    OrderEntry::builder(entry_id(suffix), kind, EntrySource::System, "Line", 1, amount).build().unwrap()
}

fn envelope(suffix: &str, payload: OrderEvent) -> EventEnvelope<OrderEvent> {
    EventEnvelope::new(
        EventId::from_suffix(suffix).unwrap(),
        ActorContext::new(ActorId::from_suffix("01ACTOR").unwrap(), ActorKind::StaffUser),
        UtcTime::from_unix_millis(1),
        payload,
    )
}

fn order_with(entries: Vec<OrderEntry>) -> Order {
    let mut order = Order::new(order_id("01ORDER"));
    for entry in entries {
        let event = order.add_entry_event(entry).unwrap();
        order.apply(&event).unwrap();
    }
    order
}

#[test]
fn added_entry_is_readable_by_its_id() {
    let order = order_with(vec![entry("01B", EntryKind::Item, usd(100))]);

    assert_eq!(order.status(), OrderStatus::Open);
    assert_eq!(order.get_entry(&entry_id("01B")).unwrap().total_amount().amount_minor(), 100);
    assert!(order.get_entry(&entry_id("01MISSING")).is_none());
}

#[test]
fn entries_come_out_in_ascending_id_order() {
    let order = order_with(vec![
        entry("03C", EntryKind::Item, usd(1)),
        entry("01A", EntryKind::Item, usd(2)),
        entry("02B", EntryKind::Item, usd(3)),
    ]);
    let ids: Vec<&str> = order.entries().iter().map(|entry| entry.entry_id().as_str()).collect();

    assert_eq!(ids, vec!["ENT-01A", "ENT-02B", "ENT-03C"]);
}

#[test]
fn duplicate_entries_and_foreign_events_are_refused_and_leave_the_order_unchanged() {
    let mut order = order_with(vec![entry("01A", EntryKind::Item, usd(2))]);
    let before = order.clone();

    assert_eq!(
        order.add_entry_event(entry("01A", EntryKind::Item, usd(5))),
        Err(OrderError::DuplicateEntry(entry_id("01A")))
    );
    let duplicate = OrderEvent::EntryAdded { order_id: order_id("01ORDER"), entry: entry("01A", EntryKind::Item, usd(5)) };
    assert_eq!(order.apply(&duplicate), Err(OrderError::DuplicateEntry(entry_id("01A"))));
    assert_eq!(order, before);

    let foreign = OrderEvent::EntryAdded { order_id: order_id("01OTHER"), entry: entry("01B", EntryKind::Item, usd(5)) };
    assert_eq!(
        order.apply(&foreign),
        Err(OrderError::WrongOrder { expected: order_id("01ORDER"), actual: order_id("01OTHER") })
    );
    assert_eq!(
        order.apply(&Order::open_event(order_id("01OTHER"))),
        Err(OrderError::WrongOrder { expected: order_id("01ORDER"), actual: order_id("01OTHER") })
    );
    assert_eq!(order, before);
    assert_eq!(order.apply(&Order::open_event(order_id("01ORDER"))), Ok(()));
}

#[test]
fn replay_requires_exactly_one_leading_open_event() {
    let add = OrderEvent::EntryAdded { order_id: order_id("01ORDER"), entry: entry("01A", EntryKind::Item, usd(2)) };

    assert_eq!(Order::replay(&[]), Err(OrderError::MissingOpenEvent));
    assert_eq!(Order::replay(&[envelope("01E", add.clone())]), Err(OrderError::MissingOpenEvent));
    assert_eq!(
        Order::replay(&[
            envelope("01E", Order::open_event(order_id("01ORDER"))),
            envelope("02E", Order::open_event(order_id("01ORDER"))),
        ]),
        Err(OrderError::AlreadyOpened)
    );
    let replayed = Order::replay(&[envelope("01E", Order::open_event(order_id("01ORDER"))), envelope("02E", add)]).unwrap();
    assert_eq!(replayed, order_with(vec![entry("01A", EntryKind::Item, usd(2))]));
    assert_eq!(Order::replay(&[envelope("01E", Order::open_event(order_id("01ORDER")))]).unwrap(), Order::new(order_id("01ORDER")));
}

#[test]
fn totals_sum_each_category_and_leave_third_party_tax_out_of_the_amount_due() {
    let order = order_with(vec![
        entry("01ITEM", EntryKind::Item, usd(1000)),
        entry("02DISC", EntryKind::OrderDiscount, usd(-100)),
        entry("03FEE", EntryKind::Fee, usd(50)),
        entry("04SVC", EntryKind::ServiceCharge, usd(70)),
        entry("05TAX", EntryKind::Tax, usd(80)),
        entry("06TPT", EntryKind::TaxPaidByThirdParty, usd(30)),
        entry("07NOTE", EntryKind::Note, usd(999)),
    ]);
    let totals = calculate_order_totals(&order).unwrap();
    let amounts: Vec<(TotalCategory, i64)> =
        totals.iter().map(|total| (total.category(), total.amount().amount_minor())).collect();

    assert_eq!(
        amounts,
        vec![
            (TotalCategory::GrossSales, 1000),
            (TotalCategory::Discounts, -100),
            (TotalCategory::Fees, 50),
            (TotalCategory::ServiceCharges, 70),
            (TotalCategory::Tax, 80),
            (TotalCategory::TaxPaidByThirdParty, 30),
            (TotalCategory::AmountDue, 1100),
        ]
    );
    assert_eq!(totals[6].source_entry_ids().len(), 5);
    assert_eq!(totals[5].source_entry_ids(), &[entry_id("06TPT")]);
}

#[test]
fn totals_of_an_empty_order_are_empty_and_mixed_currencies_are_refused() {
    assert!(calculate_order_totals(&Order::new(order_id("01ORDER"))).unwrap().is_empty());

    let cad = Money::new(5, CurrencyCode::parse("CAD").unwrap());
    let order = order_with(vec![entry("01A", EntryKind::Item, usd(2)), entry("02B", EntryKind::Item, cad)]);
    assert_eq!(
        calculate_order_totals(&order),
        Err(TotalError::Money(MoneyError::CurrencyMismatch {
            left: CurrencyCode::parse("USD").unwrap(),
            right: CurrencyCode::parse("CAD").unwrap(),
        }))
    );
}
