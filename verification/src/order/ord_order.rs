use vstd::prelude::*;

use crate::entry::{OrderEntry, OrderEntryView};
use crate::event::EventEnvelope;
use crate::primitives::ids::{valid_prefix, EntryId, OrderId, PrefixedIdView};
use crate::text::{lemma_text_less_order, owned, push_text, text_less, text_lt};

verus! {

/// Where an order stands.
#[derive(Debug, Copy, Clone, PartialEq, Eq, Structural, Hash)]
pub enum OrderStatus {
    Open,
    Voided,
    Closed,
}

/// The abstract value of an order: its entries in ascending id order.
pub struct OrderView {
    pub order_id: PrefixedIdView,
    pub status: OrderStatus,
    pub entries: Seq<OrderEntryView>,
}

/// The text an entry is ordered by.
pub open spec fn entry_key(e: OrderEntryView) -> Seq<char> {
    e.entry_id.full()
}

/// Entries stand in strictly ascending id order, so no id occurs twice.
pub open spec fn ids_ascending(s: Seq<OrderEntryView>) -> bool {
    forall|i: int, j: int|
        #![trigger s[i], s[j]]
        0 <= i < j < s.len() ==> text_less(entry_key(s[i]), entry_key(s[j]))
}

/// Ids ascending, each with a well-formed prefix.
pub open spec fn well_keyed(s: Seq<OrderEntryView>) -> bool {
    &&& ids_ascending(s)
    &&& forall|i: int| 0 <= i < s.len() ==> valid_prefix((#[trigger] s[i]).entry_id.prefix)
}

/// Whether an entry with the given id is among `s`.
pub open spec fn has_entry(s: Seq<OrderEntryView>, id: PrefixedIdView) -> bool {
    exists|i: int| 0 <= i < s.len() && (#[trigger] s[i]).entry_id == id
}

/// The first position from `i` on whose entry does not come before `key`.
pub open spec fn position_from(s: Seq<OrderEntryView>, key: Seq<char>, i: int) -> int
    decreases s.len() - i,
{
    if i >= s.len() || i < 0 {
        s.len() as int
    } else if !text_less(entry_key(s[i]), key) {
        i
    } else {
        position_from(s, key, i + 1)
    }
}

/// Where an entry with id text `key` goes to keep the ids ascending.
pub open spec fn insert_position(s: Seq<OrderEntryView>, key: Seq<char>) -> int {
    position_from(s, key, 0)
}

/// `s` with `e` put in its place by id.
pub open spec fn insert_by_id(s: Seq<OrderEntryView>, e: OrderEntryView) -> Seq<OrderEntryView> {
    s.insert(insert_position(s, entry_key(e)), e)
}

/// A freshly opened order.
pub open spec fn opened(order_id: PrefixedIdView) -> OrderView {
    OrderView { order_id, status: OrderStatus::Open, entries: Seq::empty() }
}

/// The abstract value of an order event.
pub enum OrderEventView {
    OrderOpened { order_id: PrefixedIdView },
    EntryAdded { order_id: PrefixedIdView, entry: OrderEntryView },
}

/// The abstract value of an order error.
pub enum OrderErrorView {
    MissingOpenEvent,
    AlreadyOpened,
    WrongOrder { expected: PrefixedIdView, actual: PrefixedIdView },
    OrderNotOpen,
    DuplicateEntry(PrefixedIdView),
}

/// What `add_entry_event` answers for an order and an entry.
pub open spec fn spec_add_entry_event(o: OrderView, entry: OrderEntryView) -> Result<
    OrderEventView,
    OrderErrorView,
> {
    if o.status != OrderStatus::Open {
        Err(OrderErrorView::OrderNotOpen)
    } else if has_entry(o.entries, entry.entry_id) {
        Err(OrderErrorView::DuplicateEntry(entry.entry_id))
    } else {
        Ok(OrderEventView::EntryAdded { order_id: o.order_id, entry })
    }
}

/// What applying an event does to an order.
pub open spec fn spec_apply(o: OrderView, event: OrderEventView) -> Result<OrderView, OrderErrorView> {
    match event {
        OrderEventView::OrderOpened { order_id } => {
            if o.order_id != order_id {
                Err(OrderErrorView::WrongOrder { expected: o.order_id, actual: order_id })
            } else {
                Ok(OrderView { status: OrderStatus::Open, ..o })
            }
        },
        OrderEventView::EntryAdded { order_id, entry } => {
            if o.order_id != order_id {
                Err(OrderErrorView::WrongOrder { expected: o.order_id, actual: order_id })
            } else if has_entry(o.entries, entry.entry_id) {
                Err(OrderErrorView::DuplicateEntry(entry.entry_id))
            } else {
                Ok(OrderView { entries: insert_by_id(o.entries, entry), ..o })
            }
        },
    }
}

/// One step of a replay: nothing opened yet (`None`), an order, or the
/// error that stopped it.
pub open spec fn replay_step(
    state: Result<Option<OrderView>, OrderErrorView>,
    event: OrderEventView,
) -> Result<Option<OrderView>, OrderErrorView> {
    match state {
        Err(e) => Err(e),
        Ok(None) => match event {
            OrderEventView::OrderOpened { order_id } => Ok(Some(opened(order_id))),
            _ => Err(OrderErrorView::MissingOpenEvent),
        },
        Ok(Some(o)) => match event {
            OrderEventView::OrderOpened { .. } => Err(OrderErrorView::AlreadyOpened),
            _ => match spec_apply(o, event) {
                Ok(next) => Ok(Some(next)),
                Err(e) => Err(e),
            },
        },
    }
}

/// The state after replaying the first `n` events.
pub open spec fn replay_prefix(events: Seq<OrderEventView>, n: int) -> Result<
    Option<OrderView>,
    OrderErrorView,
>
    decreases n,
{
    if n <= 0 {
        Ok(None)
    } else {
        replay_step(replay_prefix(events, n - 1), events[n - 1])
    }
}

/// What replaying a whole event log gives.
pub open spec fn spec_replay(events: Seq<OrderEventView>) -> Result<OrderView, OrderErrorView> {
    match replay_prefix(events, events.len() as int) {
        Ok(Some(o)) => Ok(o),
        Ok(None) => Err(OrderErrorView::MissingOpenEvent),
        Err(e) => Err(e),
    }
}

/// Something that happened to an order.
#[derive(Debug, Eq, PartialEq)]
pub enum OrderEvent {
    OrderOpened { order_id: OrderId },
    EntryAdded { order_id: OrderId, entry: OrderEntry },
}

impl View for OrderEvent {
    type V = OrderEventView;

    open spec fn view(&self) -> OrderEventView {
        match self {
            OrderEvent::OrderOpened { order_id } => OrderEventView::OrderOpened { order_id: order_id@ },
            OrderEvent::EntryAdded { order_id, entry } => OrderEventView::EntryAdded {
                order_id: order_id@,
                entry: entry@,
            },
        }
    }
}

impl Clone for OrderEvent {
    fn clone(&self) -> (r: Self)
        ensures
            r@ == self@,
    {
        match self {
            OrderEvent::OrderOpened { order_id } => OrderEvent::OrderOpened { order_id: order_id.clone() },
            OrderEvent::EntryAdded { order_id, entry } => OrderEvent::EntryAdded {
                order_id: order_id.clone(),
                entry: entry.clone(),
            },
        }
    }
}

/// Why an order event could not be made or applied.
#[derive(Debug, Eq, PartialEq)]
pub enum OrderError {
    MissingOpenEvent,
    AlreadyOpened,
    WrongOrder { expected: OrderId, actual: OrderId },
    OrderNotOpen,
    DuplicateEntry(EntryId),
}

impl View for OrderError {
    type V = OrderErrorView;

    open spec fn view(&self) -> OrderErrorView {
        match self {
            OrderError::MissingOpenEvent => OrderErrorView::MissingOpenEvent,
            OrderError::AlreadyOpened => OrderErrorView::AlreadyOpened,
            OrderError::WrongOrder { expected, actual } => OrderErrorView::WrongOrder {
                expected: expected@,
                actual: actual@,
            },
            OrderError::OrderNotOpen => OrderErrorView::OrderNotOpen,
            OrderError::DuplicateEntry(id) => OrderErrorView::DuplicateEntry(id@),
        }
    }
}

impl Clone for OrderError {
    fn clone(&self) -> (r: Self)
        ensures
            r@ == self@,
    {
        match self {
            OrderError::MissingOpenEvent => OrderError::MissingOpenEvent,
            OrderError::AlreadyOpened => OrderError::AlreadyOpened,
            OrderError::WrongOrder { expected, actual } => OrderError::WrongOrder {
                expected: expected.clone(),
                actual: actual.clone(),
            },
            OrderError::OrderNotOpen => OrderError::OrderNotOpen,
            OrderError::DuplicateEntry(id) => OrderError::DuplicateEntry(id.clone()),
        }
    }
}

/// The text an order error reads as.
pub open spec fn order_error_message(e: OrderErrorView) -> Seq<char> {
    match e {
        OrderErrorView::MissingOpenEvent => "order replay is missing an open event"@,
        OrderErrorView::AlreadyOpened => "order replay contains more than one open event"@,
        OrderErrorView::WrongOrder { expected, actual } => "event for order `"@ + actual.full()
            + "` cannot be applied to `"@ + expected.full() + "`"@,
        OrderErrorView::OrderNotOpen => "order is not open"@,
        OrderErrorView::DuplicateEntry(entry_id) => "duplicate order entry `"@ + entry_id.full() + "`"@,
    }
}

impl OrderError {
    /// The error as text.
    pub fn message(&self) -> (r: String)
        ensures
            r@ == order_error_message(self@),
    {
        match self {
            OrderError::MissingOpenEvent => owned("order replay is missing an open event"),
            OrderError::AlreadyOpened => owned("order replay contains more than one open event"),
            OrderError::WrongOrder { expected, actual } => {
                let mut s = owned("event for order `");
                push_text(&mut s, actual.as_str());
                push_text(&mut s, "` cannot be applied to `");
                push_text(&mut s, expected.as_str());
                push_text(&mut s, "`");
                s
            },
            OrderError::OrderNotOpen => owned("order is not open"),
            OrderError::DuplicateEntry(entry_id) => {
                let mut s = owned("duplicate order entry `");
                push_text(&mut s, entry_id.as_str());
                push_text(&mut s, "`");
                s
            },
        }
    }
}

/// The payloads of a log of envelopes.
pub open spec fn payloads(events: Seq<EventEnvelope<OrderEvent>>) -> Seq<OrderEventView> {
    events.map_values(|e: EventEnvelope<OrderEvent>| e@.payload)
}

pub open spec fn entry_views(v: Seq<OrderEntry>) -> Seq<OrderEntryView> {
    v.map_values(|e: OrderEntry| e@)
}

pub open spec fn event_result(r: Result<OrderEvent, OrderError>) -> Result<OrderEventView, OrderErrorView> {
    match r {
        Ok(e) => Ok(e@),
        Err(e) => Err(e@),
    }
}

pub open spec fn order_result(r: Result<Order, OrderError>) -> Result<OrderView, OrderErrorView> {
    match r {
        Ok(o) => Ok(o@),
        Err(e) => Err(e@),
    }
}

/// Inserting in place keeps the ids ascending and adds exactly the entry.
pub proof fn lemma_insert_by_id(s: Seq<OrderEntryView>, e: OrderEntryView)
    requires
        well_keyed(s),
        valid_prefix(e.entry_id.prefix),
        !has_entry(s, e.entry_id),
    ensures
        0 <= insert_position(s, entry_key(e)) <= s.len(),
        well_keyed(insert_by_id(s, e)),
        insert_by_id(s, e).len() == s.len() + 1,
        has_entry(insert_by_id(s, e), e.entry_id),
        forall|x: OrderEntryView| #[trigger] insert_by_id(s, e).contains(x) <==> s.contains(x) || x == e,
{
    let key = entry_key(e);
    lemma_position_from(s, key, 0);
    let p = insert_position(s, key);
    let t = insert_by_id(s, e);
    assert forall|j: int| p <= j < s.len() implies text_less(key, entry_key(s[j])) by {
        lemma_text_less_order(key, entry_key(s[j]), key);
        if entry_key(s[j]) == key {
            lemma_full_injective(s[j].entry_id, e.entry_id);
            assert(s[j].entry_id == e.entry_id);
        }
    }
    assert forall|i: int, j: int| #![trigger t[i], t[j]] 0 <= i < j < t.len() implies text_less(
        entry_key(t[i]),
        entry_key(t[j]),
    ) by {
        if i < p && j == p {
        } else if i < p && j > p {
            assert(t[j] == s[j - 1]);
            assert(s[i] == t[i]);
            lemma_text_less_order(entry_key(s[i]), key, entry_key(s[j - 1]));
        } else if i == p {
            assert(t[j] == s[j - 1]);
        } else if i > p {
            assert(t[i] == s[i - 1]);
            assert(t[j] == s[j - 1]);
        }
    }
    assert(t[p] == e);
    assert forall|i: int| 0 <= i < t.len() implies valid_prefix((#[trigger] t[i]).entry_id.prefix) by {
        if i < p {
            assert(t[i] == s[i]);
        } else if i > p {
            assert(t[i] == s[i - 1]);
        }
    }
    assert forall|x: OrderEntryView| #[trigger] t.contains(x) <==> s.contains(x) || x == e by {
        if t.contains(x) {
            let k = choose|k: int| 0 <= k < t.len() && t[k] == x;
            if k < p {
                assert(s[k] == x);
            } else if k > p {
                assert(s[k - 1] == x);
            }
        }
        if s.contains(x) {
            let k = choose|k: int| 0 <= k < s.len() && s[k] == x;
            if k < p {
                assert(t[k] == x);
            } else {
                assert(t[k + 1] == x);
            }
        }
    }
}

/// Read after write: an entry that `add_entry_event` accepts is, once its
/// event is applied, found in the order under its id, beside every entry
/// the order held before, and the ids stay ascending.
pub proof fn lemma_added_entry_is_readable(o: OrderView, entry: OrderEntryView)
    requires
        well_keyed(o.entries),
        valid_prefix(entry.entry_id.prefix),
        spec_add_entry_event(o, entry) is Ok,
    ensures
        spec_apply(o, spec_add_entry_event(o, entry)->Ok_0) is Ok,
        ({
            let next = spec_apply(o, spec_add_entry_event(o, entry)->Ok_0)->Ok_0;
            &&& has_entry(next.entries, entry.entry_id)
            &&& next.entries.contains(entry)
            &&& next.entries.len() == o.entries.len() + 1
            &&& forall|x: OrderEntryView| o.entries.contains(x) ==> #[trigger] next.entries.contains(x)
            &&& well_keyed(next.entries)
            &&& next.order_id == o.order_id
            &&& next.status == o.status
        }),
{
    lemma_insert_by_id(o.entries, entry);
    let t = insert_by_id(o.entries, entry);
    assert(t[insert_position(o.entries, entry_key(entry))] == entry);
}

/// Replaying a log that ends in an entry event gives what applying that
/// event to the replay of the rest gives.
pub proof fn lemma_replay_push(events: Seq<OrderEventView>, event: OrderEventView)
    requires
        spec_replay(events) is Ok,
        event is EntryAdded,
    ensures
        spec_replay(events.push(event)) == spec_apply(spec_replay(events)->Ok_0, event),
{
    lemma_replay_prefix_of_push(events, event, events.len() as int);
}

/// Extending a log leaves the replay of its first `n` events unchanged.
proof fn lemma_replay_prefix_of_push(events: Seq<OrderEventView>, event: OrderEventView, n: int)
    requires
        0 <= n <= events.len(),
    ensures
        replay_prefix(events.push(event), n) == replay_prefix(events, n),
    decreases n,
{
    if n > 0 {
        lemma_replay_prefix_of_push(events, event, n - 1);
        assert(events.push(event)[n - 1] == events[n - 1]);
    }
}

/// Applying events in turn to an order, stopping at the first refusal.
pub open spec fn apply_all(o: OrderView, events: Seq<OrderEventView>) -> Result<OrderView, OrderErrorView>
    decreases events.len(),
{
    if events.len() == 0 {
        Ok(o)
    } else {
        match apply_all(o, events.drop_last()) {
            Ok(p) => spec_apply(p, events.last()),
            Err(e) => Err(e),
        }
    }
}

/// Replaying a log that opens an order and then only adds entries gives what
/// applying those entry events in turn to the freshly opened order gives:
/// `replay` agrees with `new` followed by `apply` of each later event.
pub proof fn lemma_replay_is_new_then_apply(events: Seq<OrderEventView>, order_id: PrefixedIdView)
    requires
        events.len() > 0,
        events[0] == (OrderEventView::OrderOpened { order_id }),
        forall|i: int| 1 <= i < events.len() ==> #[trigger] events[i] is EntryAdded,
    ensures
        spec_replay(events) == apply_all(opened(order_id), events.subrange(1, events.len() as int)),
{
    lemma_replay_prefix_is_apply_all(events, order_id, events.len() as int);
}

proof fn lemma_replay_prefix_is_apply_all(events: Seq<OrderEventView>, order_id: PrefixedIdView, n: int)
    requires
        1 <= n <= events.len(),
        events[0] == (OrderEventView::OrderOpened { order_id }),
        forall|i: int| 1 <= i < events.len() ==> #[trigger] events[i] is EntryAdded,
    ensures
        replay_prefix(events, n) == match apply_all(opened(order_id), events.subrange(1, n)) {
            Ok(o) => Ok::<Option<OrderView>, OrderErrorView>(Some(o)),
            Err(e) => Err(e),
        },
    decreases n,
{
    if n == 1 {
        assert(replay_prefix(events, 0) == Ok::<Option<OrderView>, OrderErrorView>(None));
        assert(events.subrange(1, 1).len() == 0);
    } else {
        lemma_replay_prefix_is_apply_all(events, order_id, n - 1);
        assert(events.subrange(1, n).drop_last() =~= events.subrange(1, n - 1));
        assert(events.subrange(1, n).last() == events[n - 1]);
        assert(events[n - 1] is EntryAdded);
    }
}

/// A log made of one opening event replays to the freshly opened order.
pub proof fn lemma_replay_open(order_id: PrefixedIdView)
    ensures
        spec_replay(seq![OrderEventView::OrderOpened { order_id }]) == Ok::<OrderView, OrderErrorView>(
            opened(order_id),
        ),
{
    let evs = seq![OrderEventView::OrderOpened { order_id }];
    assert(replay_prefix(evs, 0) == Ok::<Option<OrderView>, OrderErrorView>(None));
}

/// Once a replay has failed, it stays failed with the same error.
pub proof fn lemma_replay_error_sticks(events: Seq<OrderEventView>, k: int, n: int)
    requires
        0 <= k <= n,
        replay_prefix(events, k) is Err,
    ensures
        replay_prefix(events, n) == replay_prefix(events, k),
    decreases n - k,
{
    if n > k {
        lemma_replay_error_sticks(events, k, n - 1);
    }
}

/// Two identifiers with the same text are the same identifier.
pub proof fn lemma_full_injective(a: PrefixedIdView, b: PrefixedIdView)
    requires
        valid_prefix(a.prefix),
        valid_prefix(b.prefix),
        a.full() == b.full(),
    ensures
        a == b,
{
    assert(a.prefix =~= a.full().subrange(0, 3));
    assert(b.prefix =~= b.full().subrange(0, 3));
    assert(a.suffix =~= a.full().subrange(4, a.full().len() as int));
    assert(b.suffix =~= b.full().subrange(4, b.full().len() as int));
}

proof fn lemma_position_from(s: Seq<OrderEntryView>, key: Seq<char>, i: int)
    requires
        0 <= i <= s.len(),
        forall|j: int| 0 <= j < i ==> text_less(entry_key(#[trigger] s[j]), key),
        ids_ascending(s),
    ensures
        i <= position_from(s, key, i) <= s.len(),
        forall|j: int| 0 <= j < position_from(s, key, i) ==> text_less(entry_key(#[trigger] s[j]), key),
        forall|j: int| position_from(s, key, i) <= j < s.len() ==> !text_less(entry_key(#[trigger] s[j]), key),
    decreases s.len() - i,
{
    if i < s.len() {
        if text_less(entry_key(s[i]), key) {
            lemma_position_from(s, key, i + 1);
        } else {
            assert forall|j: int| i <= j < s.len() implies !text_less(entry_key(#[trigger] s[j]), key) by {
                if j > i {
                    lemma_text_less_order(entry_key(s[i]), entry_key(s[j]), key);
                }
            }
        }
    }
}

/// An order: its id, its status and its entries in ascending id order.
#[derive(Debug, Eq, PartialEq)]
pub struct Order {
    order_id: OrderId,
    status: OrderStatus,
    entries: Vec<OrderEntry>,
}

impl View for Order {
    type V = OrderView;

    closed spec fn view(&self) -> OrderView {
        OrderView { order_id: self.order_id@, status: self.status, entries: entry_views(self.entries@) }
    }
}

impl Order {
    #[verifier::type_invariant]
    spec fn well_formed(self) -> bool {
        well_keyed(entry_views(self.entries@))
    }
}

impl Clone for Order {
    fn clone(&self) -> (r: Self)
        ensures
            r@ == self@,
    {
        proof {
            use_type_invariant(self);
        }
        let mut entries: Vec<OrderEntry> = Vec::new();
        let mut i: usize = 0;
        while i < self.entries.len()
            invariant
                i <= self.entries.len(),
                entry_views(entries@) == entry_views(self.entries@).take(i as int),
            decreases self.entries.len() - i,
        {
            let e = self.entries[i].clone();
            let ghost before = entries@;
            entries.push(e);
            assert(entries@ == before.push(e));
            assert(entry_views(entries@) =~= entry_views(before).push(e@));
            assert(entry_views(self.entries@).take(i + 1) =~= entry_views(self.entries@).take(i as int).push(
                self.entries@[i as int]@,
            ));
            i += 1;
        }
        assert(entry_views(self.entries@).take(i as int) =~= entry_views(self.entries@));
        assert(entry_views(entries@) == entry_views(self.entries@));
        Order { order_id: self.order_id.clone(), status: self.status, entries }
    }
}

impl Order {
    pub fn new(order_id: OrderId) -> (r: Self)
        ensures
            r@ == opened(order_id@),
    {
        let r = Order { order_id, status: OrderStatus::Open, entries: Vec::new() };
        assert(entry_views(r.entries@) =~= Seq::<OrderEntryView>::empty());
        r
    }

    pub fn order_id(&self) -> (r: &OrderId)
        ensures
            r@ == self@.order_id,
    {
        &self.order_id
    }

    pub fn status(&self) -> (r: OrderStatus)
        ensures
            r == self@.status,
    {
        self.status
    }

    /// The entries, in ascending id order.
    pub fn entries(&self) -> (r: &[OrderEntry])
        ensures
            entry_views(r@) == self@.entries,
            ids_ascending(self@.entries),
    {
        proof {
            use_type_invariant(self);
        }
        self.entries.as_slice()
    }

    /// The position of the entry with the given id, if there is one.
    fn find(&self, entry_id: &EntryId) -> (r: Option<usize>)
        ensures
            r is Some <==> has_entry(self@.entries, entry_id@),
            r matches Some(i) ==> i < self@.entries.len() && self@.entries[i as int].entry_id == entry_id@,
    {
        let mut i: usize = 0;
        while i < self.entries.len()
            invariant
                i <= self.entries.len(),
                self@.entries == entry_views(self.entries@),
                forall|j: int| 0 <= j < i ==> (#[trigger] self@.entries[j]).entry_id != entry_id@,
            decreases self.entries.len() - i,
        {
            if self.entries[i].entry_id().same_as(entry_id) {
                return Some(i);
            }
            i += 1;
        }
        None
    }

    pub fn get_entry(&self, entry_id: &EntryId) -> (r: Option<&OrderEntry>)
        ensures
            r is Some <==> has_entry(self@.entries, entry_id@),
            r matches Some(e) ==> e@.entry_id == entry_id@ && self@.entries.contains(e@),
    {
        match self.find(entry_id) {
            Some(i) => Some(&self.entries[i]),
            None => None,
        }
    }

    pub fn open_event(order_id: OrderId) -> (r: OrderEvent)
        ensures
            r@ == (OrderEventView::OrderOpened { order_id: order_id@ }),
    {
        OrderEvent::OrderOpened { order_id }
    }

    /// The event that adds `entry`, if the order is open and does not hold
    /// an entry with its id yet.
    pub fn add_entry_event(&self, entry: OrderEntry) -> (r: Result<OrderEvent, OrderError>)
        ensures
            event_result(r) == spec_add_entry_event(self@, entry@),
    {
        if self.status != OrderStatus::Open {
            return Err(OrderError::OrderNotOpen);
        }
        if self.find(entry.entry_id()).is_some() {
            return Err(OrderError::DuplicateEntry(entry.entry_id().clone()));
        }
        Ok(OrderEvent::EntryAdded { order_id: self.order_id.clone(), entry })
    }

    /// Puts `entry` in its place by id; the caller has checked that its id is new.
    fn insert_entry(&mut self, entry: OrderEntry)
        requires
            !has_entry(old(self)@.entries, entry@.entry_id),
        ensures
            final(self)@ == (OrderView { entries: insert_by_id(old(self)@.entries, entry@), ..old(self)@ }),
    {
        proof {
            use_type_invariant(&*self);
        }
        let key = entry.entry_id().as_str();
        let ghost s = self@.entries;
        let mut i: usize = 0;
        while i < self.entries.len() && text_lt(self.entries[i].entry_id().as_str(), key)
            invariant
                i <= self.entries.len(),
                s == entry_views(self.entries@),
                key@ == entry_key(entry@),
                position_from(s, key@, i as int) == insert_position(s, key@),
            decreases self.entries.len() - i,
        {
            i += 1;
        }
        proof {
            lemma_insert_by_id(s, entry@);
        }
        let mut entries: Vec<OrderEntry> = Vec::new();
        std::mem::swap(&mut entries, &mut self.entries);
        entries.insert(i, entry);
        assert(entry_views(entries@) =~= insert_by_id(s, entry@));
        self.entries = entries;
    }

    /// Applies an event. On an error the order is left as it was.
    pub fn apply(&mut self, event: &OrderEvent) -> (r: Result<(), OrderError>)
        ensures
            match r {
                Ok(()) => spec_apply(old(self)@, event@) == Ok::<OrderView, OrderErrorView>(final(self)@),
                Err(e) => spec_apply(old(self)@, event@) == Err::<OrderView, OrderErrorView>(e@)
                    && final(self)@ == old(self)@,
            },
    {
        proof {
            use_type_invariant(&*self);
        }
        match event {
            OrderEvent::OrderOpened { order_id } => {
                if !self.order_id.same_as(order_id) {
                    return Err(
                        OrderError::WrongOrder { expected: self.order_id.clone(), actual: order_id.clone() },
                    );
                }
                self.status = OrderStatus::Open;
                Ok(())
            },
            OrderEvent::EntryAdded { order_id, entry } => {
                self.ensure_order(order_id)?;
                if self.find(entry.entry_id()).is_some() {
                    return Err(OrderError::DuplicateEntry(entry.entry_id().clone()));
                }
                self.insert_entry(entry.clone());
                Ok(())
            },
        }
    }

    /// Replays an event log: the first event must open the order, and no
    /// later one may open it again.
    pub fn replay(events: &[EventEnvelope<OrderEvent>]) -> (r: Result<Self, OrderError>)
        ensures
            order_result(r) == spec_replay(payloads(events@)),
    {
        let ghost evs = payloads(events@);
        let mut order: Option<Order> = None;
        let mut i: usize = 0;
        while i < events.len()
            invariant
                i <= events.len(),
                evs == payloads(events@),
                replay_prefix(evs, i as int) == Ok::<Option<OrderView>, OrderErrorView>(
                    match order {
                        Some(o) => Some(o@),
                        None => None,
                    },
                ),
            decreases events.len() - i,
        {
            let event = events[i].payload();
            assert(evs[i as int] == event@);
            proof {
                if replay_prefix(evs, i + 1) is Err {
                    lemma_replay_error_sticks(evs, i + 1, evs.len() as int);
                }
            }
            match event {
                OrderEvent::OrderOpened { order_id } => {
                    if order.is_some() {
                        return Err(OrderError::AlreadyOpened);
                    }
                    order = Some(Self::new(order_id.clone()));
                },
                _ => {
                    match order {
                        None => {
                            return Err(OrderError::MissingOpenEvent);
                        },
                        Some(mut o) => {
                            match o.apply(event) {
                                Ok(()) => {
                                    order = Some(o);
                                },
                                Err(e) => {
                                    return Err(e);
                                },
                            }
                        },
                    }
                },
            }
            i += 1;
        }
        match order {
            Some(o) => Ok(o),
            None => Err(OrderError::MissingOpenEvent),
        }
    }

    fn ensure_order(&self, order_id: &OrderId) -> (r: Result<(), OrderError>)
        ensures
            r is Ok <==> self@.order_id == order_id@,
            r matches Err(e) ==> e@ == (OrderErrorView::WrongOrder { expected: self@.order_id, actual: order_id@ }),
    {
        if self.order_id.same_as(order_id) {
            Ok(())
        } else {
            Err(OrderError::WrongOrder { expected: self.order_id.clone(), actual: order_id.clone() })
        }
    }
}

} // verus!
