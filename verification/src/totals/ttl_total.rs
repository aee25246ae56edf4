use vstd::prelude::*;

use crate::entry::{EntryKind, OrderEntry, OrderEntryView};
use crate::order::{entry_views, Order};
use crate::primitives::ids::{EntryId, PrefixedIdView};
use crate::primitives::money::{money_error_message, spec_money_add, CurrencyCode, Money, MoneyError, MoneyErrorView, MoneyView};

verus! {

/// What a total sums.
#[derive(Debug, Copy, Clone, PartialEq, Eq, Structural, Hash)]
pub enum TotalCategory {
    GrossSales,
    Discounts,
    Fees,
    ServiceCharges,
    Tax,
    TaxPaidByThirdParty,
    AmountDue,
}

/// The abstract value of a total.
pub struct TotalView {
    pub category: TotalCategory,
    pub amount: MoneyView,
    pub source_entry_ids: Seq<PrefixedIdView>,
}

pub open spec fn id_views(ids: Seq<EntryId>) -> Seq<PrefixedIdView> {
    ids.map_values(|i: EntryId| i@)
}

/// An amount summed over some of an order's entries, with their ids.
#[derive(Debug, Eq, PartialEq)]
pub struct Total {
    category: TotalCategory,
    amount: Money,
    source_entry_ids: Vec<EntryId>,
}

impl View for Total {
    type V = TotalView;

    closed spec fn view(&self) -> TotalView {
        TotalView { category: self.category, amount: self.amount@, source_entry_ids: id_views(self.source_entry_ids@) }
    }
}

impl Clone for Total {
    fn clone(&self) -> (r: Self)
        ensures
            r@ == self@,
    {
        Total {
            category: self.category,
            amount: self.amount.clone(),
            source_entry_ids: clone_ids(&self.source_entry_ids),
        }
    }
}

fn clone_ids(ids: &Vec<EntryId>) -> (r: Vec<EntryId>)
    ensures
        id_views(r@) == id_views(ids@),
{
    let mut out: Vec<EntryId> = Vec::new();
    let mut i: usize = 0;
    while i < ids.len()
        invariant
            i <= ids.len(),
            id_views(out@) == id_views(ids@).take(i as int),
        decreases ids.len() - i,
    {
        let id = ids[i].clone();
        let ghost before = out@;
        out.push(id);
        assert(id_views(out@) =~= id_views(before).push(id@));
        assert(id_views(ids@).take(i + 1) =~= id_views(ids@).take(i as int).push(ids@[i as int]@));
        i += 1;
    }
    assert(id_views(ids@).take(i as int) =~= id_views(ids@));
    out
}

impl Total {
    pub fn new(category: TotalCategory, amount: Money, source_entry_ids: Vec<EntryId>) -> (r: Self)
        ensures
            r@ == (TotalView { category, amount: amount@, source_entry_ids: id_views(source_entry_ids@) }),
    {
        Total { category, amount, source_entry_ids }
    }

    pub fn category(&self) -> (r: TotalCategory)
        ensures
            r == self@.category,
    {
        self.category
    }

    pub fn amount(&self) -> (r: &Money)
        ensures
            r@ == self@.amount,
    {
        &self.amount
    }

    pub fn source_entry_ids(&self) -> (r: &[EntryId])
        ensures
            id_views(r@) == self@.source_entry_ids,
    {
        self.source_entry_ids.as_slice()
    }
}

/// The abstract value of a totals error.
pub enum TotalErrorView {
    Money(MoneyErrorView),
}

/// Why totals could not be calculated.
#[derive(Debug, Eq, PartialEq)]
pub enum TotalError {
    Money(MoneyError),
}

impl View for TotalError {
    type V = TotalErrorView;

    open spec fn view(&self) -> TotalErrorView {
        match self {
            TotalError::Money(e) => TotalErrorView::Money(e@),
        }
    }
}

/// The text a totals error reads as.
pub open spec fn total_error_message(e: TotalErrorView) -> Seq<char> {
    match e {
        TotalErrorView::Money(error) => money_error_message(error),
    }
}

impl TotalError {
    /// The error as text.
    pub fn message(&self) -> (r: String)
        ensures
            r@ == total_error_message(self@),
    {
        match self {
            TotalError::Money(error) => error.message(),
        }
    }
}

impl Clone for TotalError {
    fn clone(&self) -> (r: Self)
        ensures
            r@ == self@,
    {
        match self {
            TotalError::Money(e) => TotalError::Money(e.clone()),
        }
    }
}

/// The categories, in the order the totals come out.
pub open spec fn category_at(i: int) -> TotalCategory {
    if i == 0 {
        TotalCategory::GrossSales
    } else if i == 1 {
        TotalCategory::Discounts
    } else if i == 2 {
        TotalCategory::Fees
    } else if i == 3 {
        TotalCategory::ServiceCharges
    } else if i == 4 {
        TotalCategory::Tax
    } else if i == 5 {
        TotalCategory::TaxPaidByThirdParty
    } else {
        TotalCategory::AmountDue
    }
}

/// Position of the amount-due total.
pub open spec fn amount_due_index() -> int {
    6
}

/// The total an entry of this kind is summed into, if any.
pub open spec fn bucket_of(kind: EntryKind) -> Option<int> {
    match kind {
        EntryKind::Item | EntryKind::ExternalItem | EntryKind::Modifier => Some(0),
        EntryKind::LineDiscount
        | EntryKind::OrderDiscount
        | EntryKind::CategoryDiscount
        | EntryKind::ThirdPartyDiscount => Some(1),
        EntryKind::Fee => Some(2),
        EntryKind::ServiceCharge => Some(3),
        EntryKind::Tax | EntryKind::TaxAdjustment => Some(4),
        EntryKind::TaxPaidByThirdParty => Some(5),
        EntryKind::Category | EntryKind::Note | EntryKind::SystemAdjustment => None,
    }
}

/// Whether an entry of this kind is also owed by the customer.
pub open spec fn counts_toward_due(kind: EntryKind) -> bool {
    match bucket_of(kind) {
        Some(b) => b != 5,
        None => false,
    }
}

/// Seven zero totals of one currency, one per category.
pub open spec fn empty_totals(currency: Seq<char>) -> Seq<TotalView> {
    Seq::new(
        7,
        |i: int|
            TotalView {
                category: category_at(i),
                amount: MoneyView { amount: 0, currency },
                source_entry_ids: Seq::empty(),
            },
    )
}

/// A total with one more entry summed in.
pub open spec fn spec_total_add(t: TotalView, e: OrderEntryView) -> Result<TotalView, TotalErrorView> {
    match spec_money_add(t.amount, e.total_amount) {
        Ok(m) => Ok(TotalView { amount: m, source_entry_ids: t.source_entry_ids.push(e.entry_id), ..t }),
        Err(x) => Err(TotalErrorView::Money(x)),
    }
}

/// The totals with one more entry summed into its total and, where it is
/// owed, into the amount due.
pub open spec fn spec_add_entry(ts: Seq<TotalView>, e: OrderEntryView) -> Result<Seq<TotalView>, TotalErrorView> {
    match bucket_of(e.kind) {
        None => Ok(ts),
        Some(b) => match spec_total_add(ts[b], e) {
            Err(x) => Err(x),
            Ok(t) => {
                let ts1 = ts.update(b, t);
                if counts_toward_due(e.kind) {
                    match spec_total_add(ts1[amount_due_index()], e) {
                        Err(x) => Err(x),
                        Ok(d) => Ok(ts1.update(amount_due_index(), d)),
                    }
                } else {
                    Ok(ts1)
                }
            },
        },
    }
}

/// The totals after summing the first `n` entries of `s` into `ts`.
pub open spec fn sum_entries(ts: Seq<TotalView>, s: Seq<OrderEntryView>, n: int) -> Result<
    Seq<TotalView>,
    TotalErrorView,
>
    decreases n,
{
    if n <= 0 {
        Ok(ts)
    } else {
        match sum_entries(ts, s, n - 1) {
            Err(x) => Err(x),
            Ok(t) => spec_add_entry(t, s[n - 1]),
        }
    }
}

/// The totals of an order's entries: none for an order without entries,
/// otherwise one per category in the currency of the first entry.
pub open spec fn spec_totals(s: Seq<OrderEntryView>) -> Result<Seq<TotalView>, TotalErrorView> {
    if s.len() == 0 {
        Ok(Seq::empty())
    } else {
        sum_entries(empty_totals(s[0].total_amount.currency), s, s.len() as int)
    }
}

pub open spec fn total_views(v: Seq<Total>) -> Seq<TotalView> {
    v.map_values(|t: Total| t@)
}

pub open spec fn totals_result(r: Result<Vec<Total>, TotalError>) -> Result<Seq<TotalView>, TotalErrorView> {
    match r {
        Ok(v) => Ok(total_views(v@)),
        Err(e) => Err(e@),
    }
}

/// One running total.
struct TotalBucket {
    category: TotalCategory,
    amount: Money,
    source_entry_ids: Vec<EntryId>,
}

impl View for TotalBucket {
    type V = TotalView;

    closed spec fn view(&self) -> TotalView {
        TotalView { category: self.category, amount: self.amount@, source_entry_ids: id_views(self.source_entry_ids@) }
    }
}

impl TotalBucket {
    fn new(category: TotalCategory, currency: CurrencyCode) -> (r: Self)
        ensures
            r@ == (TotalView {
                category,
                amount: MoneyView { amount: 0, currency: currency@ },
                source_entry_ids: Seq::empty(),
            }),
    {
        let r = TotalBucket { category, amount: Money::zero(currency), source_entry_ids: Vec::new() };
        assert(id_views(r.source_entry_ids@) =~= Seq::<PrefixedIdView>::empty());
        r
    }

    fn add(&mut self, entry: &OrderEntry) -> (r: Result<(), TotalError>)
        ensures
            match r {
                Ok(()) => spec_total_add(old(self)@, entry@) == Ok::<TotalView, TotalErrorView>(final(self)@),
                Err(e) => spec_total_add(old(self)@, entry@) == Err::<TotalView, TotalErrorView>(e@),
            },
    {
        match self.amount.checked_add(entry.total_amount()) {
            Ok(amount) => {
                self.amount = amount;
            },
            Err(e) => {
                return Err(TotalError::Money(e));
            },
        }
        let ghost before = self.source_entry_ids@;
        self.source_entry_ids.push(entry.entry_id().clone());
        assert(id_views(self.source_entry_ids@) =~= id_views(before).push(entry@.entry_id));
        Ok(())
    }

    fn into_total(self) -> (r: Total)
        ensures
            r@ == self@,
    {
        Total::new(self.category, self.amount, self.source_entry_ids)
    }
}

/// The seven running totals.
struct Buckets {
    gross_sales: TotalBucket,
    discounts: TotalBucket,
    fees: TotalBucket,
    service_charges: TotalBucket,
    tax: TotalBucket,
    tax_paid_by_third_party: TotalBucket,
    amount_due: TotalBucket,
}

impl View for Buckets {
    type V = Seq<TotalView>;

    closed spec fn view(&self) -> Seq<TotalView> {
        seq![
            self.gross_sales@,
            self.discounts@,
            self.fees@,
            self.service_charges@,
            self.tax@,
            self.tax_paid_by_third_party@,
            self.amount_due@,
        ]
    }
}

impl Buckets {
    fn new(currency: CurrencyCode) -> (r: Self)
        ensures
            r@ == empty_totals(currency@),
    {
        let r = Buckets {
            gross_sales: TotalBucket::new(TotalCategory::GrossSales, currency.clone()),
            discounts: TotalBucket::new(TotalCategory::Discounts, currency.clone()),
            fees: TotalBucket::new(TotalCategory::Fees, currency.clone()),
            service_charges: TotalBucket::new(TotalCategory::ServiceCharges, currency.clone()),
            tax: TotalBucket::new(TotalCategory::Tax, currency.clone()),
            tax_paid_by_third_party: TotalBucket::new(TotalCategory::TaxPaidByThirdParty, currency.clone()),
            amount_due: TotalBucket::new(TotalCategory::AmountDue, currency),
        };
        assert(r@ =~= empty_totals(currency@));
        r
    }

    fn add_entry(&mut self, entry: &OrderEntry) -> (r: Result<(), TotalError>)
        ensures
            match r {
                Ok(()) => spec_add_entry(old(self)@, entry@) == Ok::<Seq<TotalView>, TotalErrorView>(final(self)@),
                Err(e) => spec_add_entry(old(self)@, entry@) == Err::<Seq<TotalView>, TotalErrorView>(e@),
            },
    {
        let ghost old_view = self@;
        match entry.kind() {
            EntryKind::Item | EntryKind::ExternalItem | EntryKind::Modifier => {
                self.gross_sales.add(entry)?;
                assert(self@ =~= old_view.update(0, self.gross_sales@));
                self.amount_due.add(entry)?;
                assert(self@ =~= old_view.update(0, self.gross_sales@).update(6, self.amount_due@));
            },
            EntryKind::LineDiscount
            | EntryKind::OrderDiscount
            | EntryKind::CategoryDiscount
            | EntryKind::ThirdPartyDiscount => {
                self.discounts.add(entry)?;
                assert(self@ =~= old_view.update(1, self.discounts@));
                self.amount_due.add(entry)?;
                assert(self@ =~= old_view.update(1, self.discounts@).update(6, self.amount_due@));
            },
            EntryKind::Fee => {
                self.fees.add(entry)?;
                assert(self@ =~= old_view.update(2, self.fees@));
                self.amount_due.add(entry)?;
                assert(self@ =~= old_view.update(2, self.fees@).update(6, self.amount_due@));
            },
            EntryKind::ServiceCharge => {
                self.service_charges.add(entry)?;
                assert(self@ =~= old_view.update(3, self.service_charges@));
                self.amount_due.add(entry)?;
                assert(self@ =~= old_view.update(3, self.service_charges@).update(6, self.amount_due@));
            },
            EntryKind::Tax | EntryKind::TaxAdjustment => {
                self.tax.add(entry)?;
                assert(self@ =~= old_view.update(4, self.tax@));
                self.amount_due.add(entry)?;
                assert(self@ =~= old_view.update(4, self.tax@).update(6, self.amount_due@));
            },
            EntryKind::TaxPaidByThirdParty => {
                self.tax_paid_by_third_party.add(entry)?;
                assert(self@ =~= old_view.update(5, self.tax_paid_by_third_party@));
            },
            EntryKind::Category | EntryKind::Note | EntryKind::SystemAdjustment => {},
        }
        Ok(())
    }

    fn into_totals(self) -> (r: Vec<Total>)
        ensures
            total_views(r@) == self@,
    {
        let mut r: Vec<Total> = Vec::new();
        r.push(self.gross_sales.into_total());
        r.push(self.discounts.into_total());
        r.push(self.fees.into_total());
        r.push(self.service_charges.into_total());
        r.push(self.tax.into_total());
        r.push(self.tax_paid_by_third_party.into_total());
        r.push(self.amount_due.into_total());
        assert(total_views(r@) =~= self@);
        r
    }
}

/// The currency of the first entry, if there is one.
fn first_currency(entries: &[OrderEntry]) -> (r: Option<CurrencyCode>)
    ensures
        match r {
            Some(c) => entries@.len() > 0 && c@ == entries@[0]@.total_amount.currency,
            None => entries@.len() == 0,
        },
{
    if entries.len() == 0 {
        None
    } else {
        Some(entries[0].total_amount().currency().clone())
    }
}

/// The seven totals of an order, summed in entry order: gross sales,
/// discounts, fees, service charges, tax, tax paid by a third party, and
/// the amount due, which sums all of them but the tax paid by a third party.
pub fn calculate_order_totals(order: &Order) -> (r: Result<Vec<Total>, TotalError>)
    ensures
        totals_result(r) == spec_totals(order@.entries),
{
    let entries = order.entries();
    let currency = match first_currency(entries) {
        Some(c) => c,
        None => {
            let r: Vec<Total> = Vec::new();
            assert(total_views(r@) =~= Seq::<TotalView>::empty());
            return Ok(r);
        },
    };
    let ghost s = entry_views(entries@);
    let ghost start = empty_totals(currency@);
    let mut buckets = Buckets::new(currency);
    let mut i: usize = 0;
    while i < entries.len()
        invariant
            i <= entries.len(),
            s == entry_views(entries@),
            s == order@.entries,
            s.len() > 0,
            start == empty_totals(s[0].total_amount.currency),
            sum_entries(start, s, i as int) == Ok::<Seq<TotalView>, TotalErrorView>(buckets@),
        decreases entries.len() - i,
    {
        assert(s[i as int] == entries@[i as int]@);
        let ghost before = buckets@;
        match buckets.add_entry(&entries[i]) {
            Ok(()) => {},
            Err(e) => {
                proof {
                    assert(sum_entries(start, s, i + 1) == spec_add_entry(before, s[i as int]));
                    lemma_sum_error_sticks(start, s, i + 1, s.len() as int);
                }
                return Err(e);
            },
        }
        i += 1;
    }
    Ok(buckets.into_totals())
}

/// Seven totals in category order, all in `currency`, whose amount due sums
/// the first five (tax paid by a third party is not owed), with one source
/// id for each amount summed in.
pub open spec fn balanced(ts: Seq<TotalView>, currency: Seq<char>) -> bool {
    &&& ts.len() == 7
    &&& forall|i: int| 0 <= i < 7 ==> (#[trigger] ts[i]).category == category_at(i)
    &&& forall|i: int| 0 <= i < 7 ==> (#[trigger] ts[i]).amount.currency == currency
    &&& ts[6].amount.amount == ts[0].amount.amount + ts[1].amount.amount + ts[2].amount.amount
        + ts[3].amount.amount + ts[4].amount.amount
    &&& ts[6].source_entry_ids.len() == ts[0].source_entry_ids.len() + ts[1].source_entry_ids.len()
        + ts[2].source_entry_ids.len() + ts[3].source_entry_ids.len() + ts[4].source_entry_ids.len()
}

proof fn lemma_add_entry_balanced(ts: Seq<TotalView>, e: OrderEntryView, currency: Seq<char>)
    requires
        balanced(ts, currency),
        spec_add_entry(ts, e) is Ok,
    ensures
        balanced(spec_add_entry(ts, e)->Ok_0, currency),
{
    let r = spec_add_entry(ts, e)->Ok_0;
    match bucket_of(e.kind) {
        None => {},
        Some(b) => {
            let t = spec_total_add(ts[b], e)->Ok_0;
            let ts1 = ts.update(b, t);
            assert(ts1[b] == t);
            if counts_toward_due(e.kind) {
                let d = spec_total_add(ts1[6], e)->Ok_0;
                assert(r == ts1.update(6, d));
                assert(r[b] == t);
                assert(r[6] == d);
                assert forall|i: int| 0 <= i < 7 && i != b && i != 6 implies #[trigger] r[i] == ts[i] by {}
            } else {
                assert(r == ts1);
                assert forall|i: int| 0 <= i < 7 && i != b implies #[trigger] r[i] == ts[i] by {}
            }
        },
    }
}

proof fn lemma_sum_balanced(ts: Seq<TotalView>, s: Seq<OrderEntryView>, n: int, currency: Seq<char>)
    requires
        balanced(ts, currency),
        sum_entries(ts, s, n) is Ok,
    ensures
        balanced(sum_entries(ts, s, n)->Ok_0, currency),
    decreases n,
{
    if n > 0 {
        lemma_sum_balanced(ts, s, n - 1, currency);
        lemma_add_entry_balanced(sum_entries(ts, s, n - 1)->Ok_0, s[n - 1], currency);
    }
}

/// The amount due is the sum of gross sales, discounts, fees, service
/// charges and tax, with one source id for each entry summed into it; tax
/// paid by a third party is left out. All seven totals come in category
/// order and in the currency of the first entry.
pub proof fn lemma_amount_due_balances(s: Seq<OrderEntryView>)
    requires
        s.len() > 0,
        spec_totals(s) is Ok,
    ensures
        balanced(spec_totals(s)->Ok_0, s[0].total_amount.currency),
{
    let c = s[0].total_amount.currency;
    assert(balanced(empty_totals(c), c));
    lemma_sum_balanced(empty_totals(c), s, s.len() as int, c);
}

/// Once summing has failed, it stays failed with the same error.
pub proof fn lemma_sum_error_sticks(ts: Seq<TotalView>, s: Seq<OrderEntryView>, k: int, n: int)
    requires
        0 <= k <= n,
        sum_entries(ts, s, k) is Err,
    ensures
        sum_entries(ts, s, n) == sum_entries(ts, s, k),
    decreases n - k,
{
    if n > k {
        lemma_sum_error_sticks(ts, s, k, n - 1);
    }
}

/// The sum of the amounts of the entries whose kind satisfies `wanted`.
pub open spec fn amount_where(s: Seq<OrderEntryView>, wanted: spec_fn(EntryKind) -> bool) -> int
    decreases s.len(),
{
    if s.len() == 0 {
        0
    } else {
        amount_where(s.drop_last(), wanted) + if wanted(s.last().kind) {
            s.last().total_amount.amount
        } else {
            0
        }
    }
}

/// The ids of the entries whose kind satisfies `wanted`, in order.
pub open spec fn ids_where(s: Seq<OrderEntryView>, wanted: spec_fn(EntryKind) -> bool) -> Seq<PrefixedIdView>
    decreases s.len(),
{
    if s.len() == 0 {
        Seq::empty()
    } else if wanted(s.last().kind) {
        ids_where(s.drop_last(), wanted).push(s.last().entry_id)
    } else {
        ids_where(s.drop_last(), wanted)
    }
}

/// Whether the total at `i` takes an entry of this kind.
spec fn takes(i: int, kind: EntryKind) -> bool {
    if i == amount_due_index() {
        counts_toward_due(kind)
    } else {
        bucket_of(kind) == Some(i)
    }
}

proof fn lemma_sum_total_at(c: Seq<char>, s: Seq<OrderEntryView>, n: int, i: int, wanted: spec_fn(EntryKind) -> bool)
    requires
        0 <= n <= s.len(),
        0 <= i < 7,
        sum_entries(empty_totals(c), s, n) is Ok,
        forall|k: EntryKind| #[trigger] wanted(k) == takes(i, k),
    ensures
        sum_entries(empty_totals(c), s, n)->Ok_0.len() == 7,
        sum_entries(empty_totals(c), s, n)->Ok_0[i].amount.amount == amount_where(s.take(n), wanted),
        sum_entries(empty_totals(c), s, n)->Ok_0[i].source_entry_ids == ids_where(s.take(n), wanted),
    decreases n,
{
    if n == 0 {
        assert(s.take(0).len() == 0);
    } else {
        lemma_sum_total_at(c, s, n - 1, i, wanted);
        let ts = sum_entries(empty_totals(c), s, n - 1)->Ok_0;
        let e = s[n - 1];
        assert(s.take(n).drop_last() =~= s.take(n - 1));
        assert(s.take(n).last() == e);
        let r = spec_add_entry(ts, e)->Ok_0;
        match bucket_of(e.kind) {
            None => {
                assert(!wanted(e.kind));
            },
            Some(b) => {
                let t = spec_total_add(ts[b], e)->Ok_0;
                let ts1 = ts.update(b, t);
                if counts_toward_due(e.kind) {
                    let d = spec_total_add(ts1[6], e)->Ok_0;
                    assert(r == ts1.update(6, d));
                } else {
                    assert(r == ts1);
                }
                assert(wanted(e.kind) == takes(i, e.kind));
            },
        }
    }
}

/// Each total sums exactly the entries of its kinds, with their ids in
/// order: item, external item and modifier entries into gross sales; the
/// four discount kinds into discounts; fees; service charges; tax and tax
/// adjustments into tax; third-party tax into its own total; and every
/// entry of the first five totals, and no other, into the amount due.
pub proof fn lemma_totals_sum_their_kinds(s: Seq<OrderEntryView>)
    requires
        s.len() > 0,
        spec_totals(s) is Ok,
    ensures
        ({
            let ts = spec_totals(s)->Ok_0;
            let gross = |k: EntryKind| k == EntryKind::Item || k == EntryKind::ExternalItem || k == EntryKind::Modifier;
            let discounts = |k: EntryKind|
                k == EntryKind::LineDiscount || k == EntryKind::OrderDiscount || k == EntryKind::CategoryDiscount
                    || k == EntryKind::ThirdPartyDiscount;
            let fees = |k: EntryKind| k == EntryKind::Fee;
            let service = |k: EntryKind| k == EntryKind::ServiceCharge;
            let tax = |k: EntryKind| k == EntryKind::Tax || k == EntryKind::TaxAdjustment;
            let third_party = |k: EntryKind| k == EntryKind::TaxPaidByThirdParty;
            let due = |k: EntryKind|
                !(k == EntryKind::TaxPaidByThirdParty || k == EntryKind::Category || k == EntryKind::Note
                    || k == EntryKind::SystemAdjustment);
            &&& ts.len() == 7
            &&& ts[0].amount.amount == amount_where(s, gross) && ts[0].source_entry_ids == ids_where(s, gross)
            &&& ts[1].amount.amount == amount_where(s, discounts) && ts[1].source_entry_ids == ids_where(s, discounts)
            &&& ts[2].amount.amount == amount_where(s, fees) && ts[2].source_entry_ids == ids_where(s, fees)
            &&& ts[3].amount.amount == amount_where(s, service) && ts[3].source_entry_ids == ids_where(s, service)
            &&& ts[4].amount.amount == amount_where(s, tax) && ts[4].source_entry_ids == ids_where(s, tax)
            &&& ts[5].amount.amount == amount_where(s, third_party) && ts[5].source_entry_ids == ids_where(s, third_party)
            &&& ts[6].amount.amount == amount_where(s, due) && ts[6].source_entry_ids == ids_where(s, due)
        }),
{
    let c = s[0].total_amount.currency;
    let n = s.len() as int;
    assert(s.take(n) =~= s);
    let gross = |k: EntryKind| k == EntryKind::Item || k == EntryKind::ExternalItem || k == EntryKind::Modifier;
    let discounts = |k: EntryKind|
        k == EntryKind::LineDiscount || k == EntryKind::OrderDiscount || k == EntryKind::CategoryDiscount
            || k == EntryKind::ThirdPartyDiscount;
    let fees = |k: EntryKind| k == EntryKind::Fee;
    let service = |k: EntryKind| k == EntryKind::ServiceCharge;
    let tax = |k: EntryKind| k == EntryKind::Tax || k == EntryKind::TaxAdjustment;
    let third_party = |k: EntryKind| k == EntryKind::TaxPaidByThirdParty;
    let due = |k: EntryKind|
        !(k == EntryKind::TaxPaidByThirdParty || k == EntryKind::Category || k == EntryKind::Note
            || k == EntryKind::SystemAdjustment);
    lemma_sum_total_at(c, s, n, 0, gross);
    lemma_sum_total_at(c, s, n, 1, discounts);
    lemma_sum_total_at(c, s, n, 2, fees);
    lemma_sum_total_at(c, s, n, 3, service);
    lemma_sum_total_at(c, s, n, 4, tax);
    lemma_sum_total_at(c, s, n, 5, third_party);
    lemma_sum_total_at(c, s, n, 6, due);
}

} // verus!
