//! Money in integer minor units, exact rational intermediates, and named rounding.
use vstd::prelude::*;

use crate::text::{chars_of, char_is_upper, decimal, is_upper, owned, push_decimal, push_text};

verus! {

/// Exactly three uppercase ASCII letters, such as `USD`.
pub open spec fn valid_currency(s: Seq<char>) -> bool {
    s.len() == 3 && forall|i: int| 0 <= i < 3 ==> is_upper(#[trigger] s[i])
}

pub open spec fn fits_i64(x: int) -> bool {
    i64::MIN <= x <= i64::MAX
}

pub open spec fn fits_i128(x: int) -> bool {
    i128::MIN <= x <= i128::MAX
}

/// A three-letter currency code.
#[derive(Debug, Eq, PartialEq, Ord, PartialOrd, Hash)]
pub struct CurrencyCode(String);

impl CurrencyCode {
    #[verifier::type_invariant]
    spec fn well_formed(self) -> bool {
        valid_currency(self.0@)
    }
}

impl View for CurrencyCode {
    type V = Seq<char>;

    closed spec fn view(&self) -> Seq<char> {
        self.0@
    }
}

impl DeepView for CurrencyCode {
    type V = Seq<char>;

    open spec fn deep_view(&self) -> Seq<char> {
        self@
    }
}

impl Clone for CurrencyCode {
    fn clone(&self) -> (r: Self)
        ensures
            r@ == self@,
    {
        proof {
            use_type_invariant(self);
        }
        CurrencyCode(self.0.clone())
    }
}

impl CurrencyCode {
    pub fn parse(value: &str) -> (r: Result<Self, MoneyError>)
        ensures
            r is Ok <==> valid_currency(value@),
            r matches Ok(c) ==> c@ == value@,
            r matches Err(e) ==> e@ == MoneyErrorView::InvalidCurrency(value@),
    {
        let v = chars_of(value);
        let mut valid = v.len() == 3;
        let mut i: usize = 0;
        while valid && i < v.len()
            invariant
                v@ == value@,
                i <= v.len(),
                valid ==> v.len() == 3,
                valid ==> forall|j: int| 0 <= j < i ==> is_upper(#[trigger] value@[j]),
                !valid ==> !valid_currency(value@),
            decreases v.len() - i,
        {
            if !char_is_upper(v[i]) {
                valid = false;
            }
            i += 1;
        }
        if valid {
            Ok(CurrencyCode(owned(value)))
        } else {
            Err(MoneyError::InvalidCurrency(owned(value)))
        }
    }

    pub fn as_str(&self) -> (r: &str)
        ensures
            r@ == self@,
    {
        self.0.as_str()
    }

    /// Whether two codes name the same currency.
    pub fn same_as(&self, other: &Self) -> (r: bool)
        ensures
            r == (self@ == other@),
    {
        self.0 == other.0
    }
}

/// The abstract value of an amount of money.
pub struct MoneyView {
    pub amount: int,
    pub currency: Seq<char>,
}

/// An amount in minor units (cents for USD) of one currency.
#[derive(Debug, Eq, PartialEq)]
pub struct Money {
    amount_minor: i64,
    currency: CurrencyCode,
}

impl View for Money {
    type V = MoneyView;

    closed spec fn view(&self) -> MoneyView {
        MoneyView { amount: self.amount_minor as int, currency: self.currency@ }
    }
}

impl DeepView for Money {
    type V = MoneyView;

    open spec fn deep_view(&self) -> MoneyView {
        self@
    }
}

impl Clone for Money {
    fn clone(&self) -> (r: Self)
        ensures
            r@ == self@,
    {
        Money { amount_minor: self.amount_minor, currency: self.currency.clone() }
    }
}

/// The abstract value of a money error.
pub enum MoneyErrorView {
    InvalidCurrency(Seq<char>),
    InvalidRateDenominator,
    InvalidRoundingIncrement(u32),
    InvalidRoundingEnding(u32),
    CurrencyMismatch { left: Seq<char>, right: Seq<char> },
    NegativeRationalAmount,
    Overflow,
}

#[derive(Debug, Eq, PartialEq)]
pub enum MoneyError {
    InvalidCurrency(String),
    InvalidRateDenominator,
    InvalidRoundingIncrement(u32),
    InvalidRoundingEnding(u32),
    CurrencyMismatch { left: CurrencyCode, right: CurrencyCode },
    NegativeRationalAmount,
    Overflow,
}

impl View for MoneyError {
    type V = MoneyErrorView;

    open spec fn view(&self) -> MoneyErrorView {
        match self {
            MoneyError::InvalidCurrency(s) => MoneyErrorView::InvalidCurrency(s@),
            MoneyError::InvalidRateDenominator => MoneyErrorView::InvalidRateDenominator,
            MoneyError::InvalidRoundingIncrement(i) => MoneyErrorView::InvalidRoundingIncrement(*i),
            MoneyError::InvalidRoundingEnding(e) => MoneyErrorView::InvalidRoundingEnding(*e),
            MoneyError::CurrencyMismatch { left, right } => MoneyErrorView::CurrencyMismatch {
                left: left@,
                right: right@,
            },
            MoneyError::NegativeRationalAmount => MoneyErrorView::NegativeRationalAmount,
            MoneyError::Overflow => MoneyErrorView::Overflow,
        }
    }
}

impl Clone for MoneyError {
    fn clone(&self) -> (r: Self)
        ensures
            r@ == self@,
    {
        match self {
            MoneyError::InvalidCurrency(s) => MoneyError::InvalidCurrency(s.clone()),
            MoneyError::InvalidRateDenominator => MoneyError::InvalidRateDenominator,
            MoneyError::InvalidRoundingIncrement(i) => MoneyError::InvalidRoundingIncrement(*i),
            MoneyError::InvalidRoundingEnding(e) => MoneyError::InvalidRoundingEnding(*e),
            MoneyError::CurrencyMismatch { left, right } => MoneyError::CurrencyMismatch {
                left: left.clone(),
                right: right.clone(),
            },
            MoneyError::NegativeRationalAmount => MoneyError::NegativeRationalAmount,
            MoneyError::Overflow => MoneyError::Overflow,
        }
    }
}

/// The text a money error reads as.
pub open spec fn money_error_message(e: MoneyErrorView) -> Seq<char> {
    match e {
        MoneyErrorView::InvalidCurrency(value) => "invalid currency `"@ + value
            + "`; expected three uppercase ASCII letters"@,
        MoneyErrorView::InvalidRateDenominator => "rate denominator must be greater than zero"@,
        MoneyErrorView::InvalidRoundingIncrement(increment) => "rounding increment `"@ + decimal(increment as nat)
            + "` is invalid; expected a positive minor-unit increment"@,
        MoneyErrorView::InvalidRoundingEnding(ending) => "rounding ending `"@ + decimal(ending as nat)
            + "` is invalid; expected a value from 0 to 99"@,
        MoneyErrorView::CurrencyMismatch { left, right } => "currency mismatch `"@ + left + "` != `"@ + right + "`"@,
        MoneyErrorView::NegativeRationalAmount => "cannot round a negative rational money amount"@,
        MoneyErrorView::Overflow => "money arithmetic overflow"@,
    }
}

impl MoneyError {
    /// The error as text.
    pub fn message(&self) -> (r: String)
        ensures
            r@ == money_error_message(self@),
    {
        match self {
            MoneyError::InvalidCurrency(value) => {
                let mut s = owned("invalid currency `");
                push_text(&mut s, value.as_str());
                push_text(&mut s, "`; expected three uppercase ASCII letters");
                s
            },
            MoneyError::InvalidRateDenominator => owned("rate denominator must be greater than zero"),
            MoneyError::InvalidRoundingIncrement(increment) => {
                let mut s = owned("rounding increment `");
                push_decimal(&mut s, *increment as u64);
                push_text(&mut s, "` is invalid; expected a positive minor-unit increment");
                s
            },
            MoneyError::InvalidRoundingEnding(ending) => {
                let mut s = owned("rounding ending `");
                push_decimal(&mut s, *ending as u64);
                push_text(&mut s, "` is invalid; expected a value from 0 to 99");
                s
            },
            MoneyError::CurrencyMismatch { left, right } => {
                let mut s = owned("currency mismatch `");
                push_text(&mut s, left.as_str());
                push_text(&mut s, "` != `");
                push_text(&mut s, right.as_str());
                push_text(&mut s, "`");
                s
            },
            MoneyError::NegativeRationalAmount => owned("cannot round a negative rational money amount"),
            MoneyError::Overflow => owned("money arithmetic overflow"),
        }
    }
}

/// The abstract value of a money result.
pub open spec fn money_result(r: Result<Money, MoneyError>) -> Result<MoneyView, MoneyErrorView> {
    match r {
        Ok(m) => Ok(m@),
        Err(e) => Err(e@),
    }
}

/// Sum of two amounts of one currency.
pub open spec fn spec_money_add(a: MoneyView, b: MoneyView) -> Result<MoneyView, MoneyErrorView> {
    if a.currency != b.currency {
        Err(MoneyErrorView::CurrencyMismatch { left: a.currency, right: b.currency })
    } else if !fits_i64(a.amount + b.amount) {
        Err(MoneyErrorView::Overflow)
    } else {
        Ok(MoneyView { amount: a.amount + b.amount, currency: a.currency })
    }
}

/// Difference of two amounts of one currency.
pub open spec fn spec_money_sub(a: MoneyView, b: MoneyView) -> Result<MoneyView, MoneyErrorView> {
    if a.currency != b.currency {
        Err(MoneyErrorView::CurrencyMismatch { left: a.currency, right: b.currency })
    } else if !fits_i64(a.amount - b.amount) {
        Err(MoneyErrorView::Overflow)
    } else {
        Ok(MoneyView { amount: a.amount - b.amount, currency: a.currency })
    }
}

/// An amount multiplied by a quantity.
pub open spec fn spec_money_mul_quantity(a: MoneyView, quantity: int) -> Result<
    MoneyView,
    MoneyErrorView,
> {
    if !fits_i64(a.amount * quantity) {
        Err(MoneyErrorView::Overflow)
    } else {
        Ok(MoneyView { amount: a.amount * quantity, currency: a.currency })
    }
}

impl Money {
    pub fn new(amount_minor: i64, currency: CurrencyCode) -> (r: Self)
        ensures
            r@ == (MoneyView { amount: amount_minor as int, currency: currency@ }),
    {
        Money { amount_minor, currency }
    }

    pub fn zero(currency: CurrencyCode) -> (r: Self)
        ensures
            r@ == (MoneyView { amount: 0, currency: currency@ }),
    {
        Self::new(0, currency)
    }

    pub fn amount_minor(&self) -> (r: i64)
        ensures
            r == self@.amount,
    {
        self.amount_minor
    }

    pub fn currency(&self) -> (r: &CurrencyCode)
        ensures
            r@ == self@.currency,
    {
        &self.currency
    }

    pub fn checked_add(&self, other: &Self) -> (r: Result<Self, MoneyError>)
        ensures
            money_result(r) == spec_money_add(self@, other@),
    {
        self.ensure_same_currency(other)?;
        match self.amount_minor.checked_add(other.amount_minor) {
            Some(amount_minor) => Ok(Self::new(amount_minor, self.currency.clone())),
            None => Err(MoneyError::Overflow),
        }
    }

    pub fn checked_sub(&self, other: &Self) -> (r: Result<Self, MoneyError>)
        ensures
            money_result(r) == spec_money_sub(self@, other@),
    {
        self.ensure_same_currency(other)?;
        match self.amount_minor.checked_sub(other.amount_minor) {
            Some(amount_minor) => Ok(Self::new(amount_minor, self.currency.clone())),
            None => Err(MoneyError::Overflow),
        }
    }

    pub fn checked_mul_quantity(&self, quantity: u32) -> (r: Result<Self, MoneyError>)
        ensures
            money_result(r) == spec_money_mul_quantity(self@, quantity as int),
    {
        match self.amount_minor.checked_mul(quantity as i64) {
            Some(amount_minor) => Ok(Self::new(amount_minor, self.currency.clone())),
            None => Err(MoneyError::Overflow),
        }
    }

    /// `self` times `rate`, rounded by the named strategy.
    pub fn checked_mul_rate(&self, rate: Rate, rounding: RoundingStrategy) -> (r: Result<
        Self,
        MoneyError,
    >)
        ensures
            money_result(r) == spec_money_mul_rate(self@, rate@, rounding),
    {
        let exact = RationalMoney::from_money(self.clone())?;
        let scaled = exact.checked_mul_rate(rate)?;
        scaled.round(rounding)
    }

    fn ensure_same_currency(&self, other: &Self) -> (r: Result<(), MoneyError>)
        ensures
            r is Ok <==> self@.currency == other@.currency,
            r matches Err(e) ==> e@ == (MoneyErrorView::CurrencyMismatch {
                left: self@.currency,
                right: other@.currency,
            }),
    {
        if self.currency.same_as(&other.currency) {
            Ok(())
        } else {
            Err(MoneyError::CurrencyMismatch { left: self.currency.clone(), right: other.currency.clone() })
        }
    }

    /// Whether two amounts are equal in value and currency.
    pub fn same_as(&self, other: &Self) -> (r: bool)
        ensures
            r == (self@ == other@),
    {
        self.amount_minor == other.amount_minor && self.currency.same_as(&other.currency)
    }
}

/// A non-negative rate `numerator / denominator` with a positive denominator.
#[derive(Debug, Copy, Clone, Eq, PartialEq, Hash)]
pub struct Rate {
    numerator: u32,
    denominator: u32,
}

/// The abstract value of a rate.
pub struct RateView {
    pub numerator: int,
    pub denominator: int,
}

impl Rate {
    #[verifier::type_invariant]
    spec fn well_formed(self) -> bool {
        self.denominator > 0
    }
}

impl View for Rate {
    type V = RateView;

    closed spec fn view(&self) -> RateView {
        RateView { numerator: self.numerator as int, denominator: self.denominator as int }
    }
}

impl DeepView for Rate {
    type V = RateView;

    open spec fn deep_view(&self) -> RateView {
        self@
    }
}

impl Rate {
    pub fn new(numerator: u32, denominator: u32) -> (r: Result<Self, MoneyError>)
        ensures
            r is Ok <==> denominator > 0,
            r matches Ok(rate) ==> rate@ == (RateView {
                numerator: numerator as int,
                denominator: denominator as int,
            }),
            r matches Err(e) ==> e@ == MoneyErrorView::InvalidRateDenominator,
    {
        if denominator == 0 {
            return Err(MoneyError::InvalidRateDenominator);
        }
        Ok(Rate { numerator, denominator })
    }

    pub fn zero() -> (r: Self)
        ensures
            r@ == (RateView { numerator: 0, denominator: 1 }),
    {
        Rate { numerator: 0, denominator: 1 }
    }

    pub fn one() -> (r: Self)
        ensures
            r@ == (RateView { numerator: 1, denominator: 1 }),
    {
        Rate { numerator: 1, denominator: 1 }
    }

    pub fn percent(percent: u32) -> (r: Self)
        ensures
            r@ == (RateView { numerator: percent as int, denominator: 100 }),
    {
        Rate { numerator: percent, denominator: 100 }
    }

    pub fn basis_points(basis_points: u32) -> (r: Self)
        ensures
            r@ == (RateView { numerator: basis_points as int, denominator: 10_000 }),
    {
        Rate { numerator: basis_points, denominator: 10_000 }
    }

    pub fn numerator(self) -> (r: u32)
        ensures
            r == self@.numerator,
    {
        self.numerator
    }

    pub fn denominator(self) -> (r: u32)
        ensures
            r == self@.denominator,
            r > 0,
    {
        proof {
            use_type_invariant(&self);
        }
        self.denominator
    }

    pub fn is_zero(self) -> (r: bool)
        ensures
            r == (self@.numerator == 0),
    {
        self.numerator == 0
    }

    /// Whether two rates have the same numerator and denominator.
    pub fn same_as(self, other: Self) -> (r: bool)
        ensures
            r == (self@ == other@),
    {
        self.numerator == other.numerator && self.denominator == other.denominator
    }
}

/// A named way to turn an exact amount into whole minor units.
#[derive(Debug, Copy, Clone, Eq, PartialEq, Hash)]
pub enum RoundingStrategy {
    CentRoundUp,
    CentRoundDown,
    NearestUpIncrement(u32),
    NearestUpEnding(u32),
}

/// The abstract value of an exact rational amount.
pub struct RationalView {
    pub numerator: int,
    pub denominator: int,
    pub currency: Seq<char>,
}

/// An exact amount `numerator / denominator` minor units, kept as a fraction
/// so that rates compose without rounding until the end.
#[derive(Debug, Eq, PartialEq)]
pub struct RationalMoney {
    numerator_minor: i128,
    denominator: i128,
    currency: CurrencyCode,
}

impl RationalMoney {
    #[verifier::type_invariant]
    spec fn well_formed(self) -> bool {
        self.denominator > 0
    }
}

impl View for RationalMoney {
    type V = RationalView;

    closed spec fn view(&self) -> RationalView {
        RationalView {
            numerator: self.numerator_minor as int,
            denominator: self.denominator as int,
            currency: self.currency@,
        }
    }
}

impl DeepView for RationalMoney {
    type V = RationalView;

    open spec fn deep_view(&self) -> RationalView {
        self@
    }
}

impl Clone for RationalMoney {
    fn clone(&self) -> (r: Self)
        ensures
            r@ == self@,
    {
        proof {
            use_type_invariant(self);
        }
        RationalMoney {
            numerator_minor: self.numerator_minor,
            denominator: self.denominator,
            currency: self.currency.clone(),
        }
    }
}

pub open spec fn rational_result(r: Result<RationalMoney, MoneyError>) -> Result<
    RationalView,
    MoneyErrorView,
> {
    match r {
        Ok(m) => Ok(m@),
        Err(e) => Err(e@),
    }
}

/// Exact sum `a.n / a.d + b.n / b.d` over the product of the denominators.
pub open spec fn spec_rational_add(a: RationalView, b: RationalView) -> Result<
    RationalView,
    MoneyErrorView,
> {
    if a.currency != b.currency {
        Err(MoneyErrorView::CurrencyMismatch { left: a.currency, right: b.currency })
    } else if !fits_i128(a.numerator * b.denominator) || !fits_i128(b.numerator * a.denominator)
        || !fits_i128(a.numerator * b.denominator + b.numerator * a.denominator) || !fits_i128(
        a.denominator * b.denominator,
    ) {
        Err(MoneyErrorView::Overflow)
    } else {
        Ok(
            RationalView {
                numerator: a.numerator * b.denominator + b.numerator * a.denominator,
                denominator: a.denominator * b.denominator,
                currency: a.currency,
            },
        )
    }
}

/// Exact product with a rate.
pub open spec fn spec_rational_mul_rate(a: RationalView, rate: RateView) -> Result<
    RationalView,
    MoneyErrorView,
> {
    if !fits_i128(a.numerator * rate.numerator) || !fits_i128(a.denominator * rate.denominator) {
        Err(MoneyErrorView::Overflow)
    } else {
        Ok(
            RationalView {
                numerator: a.numerator * rate.numerator,
                denominator: a.denominator * rate.denominator,
                currency: a.currency,
            },
        )
    }
}

/// Exact product with a quantity.
pub open spec fn spec_rational_mul_quantity(a: RationalView, quantity: int) -> Result<
    RationalView,
    MoneyErrorView,
> {
    if !fits_i128(a.numerator * quantity) {
        Err(MoneyErrorView::Overflow)
    } else {
        Ok(RationalView { numerator: a.numerator * quantity, denominator: a.denominator, currency: a.currency })
    }
}

/// `ceil(n / d)` for `n >= 0` and `d > 0`, computed as `(n + d - 1) / d`.
pub open spec fn ceil_div(n: int, d: int) -> int {
    (n + d - 1) / d
}

/// The whole minor units chosen by a rounding strategy, before the range
/// check of the final `i64`; `None` stands for an overflow of the `i128`
/// intermediates.
pub open spec fn spec_round_units(n: int, d: int, strategy: RoundingStrategy) -> Result<
    int,
    MoneyErrorView,
> {
    match strategy {
        RoundingStrategy::CentRoundDown => Ok(n / d),
        RoundingStrategy::CentRoundUp => if fits_i128(n + d - 1) {
            Ok(ceil_div(n, d))
        } else {
            Err(MoneyErrorView::Overflow)
        },
        RoundingStrategy::NearestUpIncrement(increment) => if increment == 0 {
            Err(MoneyErrorView::InvalidRoundingIncrement(increment))
        } else if !fits_i128(d * increment) || !fits_i128(n + d * increment - 1) || !fits_i128(
            ceil_div(n, d * increment) * increment,
        ) {
            Err(MoneyErrorView::Overflow)
        } else {
            Ok(ceil_div(n, d * increment) * increment)
        },
        RoundingStrategy::NearestUpEnding(ending) => if ending > 99 {
            Err(MoneyErrorView::InvalidRoundingEnding(ending))
        } else if !fits_i128(n + d - 1) {
            Err(MoneyErrorView::Overflow)
        } else {
            let whole = ceil_div(n, d);
            let candidate = whole - whole % 100 + ending;
            if !fits_i128(candidate) {
                Err(MoneyErrorView::Overflow)
            } else if candidate >= whole {
                Ok(candidate)
            } else if !fits_i128(candidate + 100) {
                Err(MoneyErrorView::Overflow)
            } else {
                Ok(candidate + 100)
            }
        },
    }
}

/// Rounding an exact amount into money.
pub open spec fn spec_round(a: RationalView, strategy: RoundingStrategy) -> Result<
    MoneyView,
    MoneyErrorView,
> {
    if a.denominator <= 0 {
        Err(MoneyErrorView::InvalidRateDenominator)
    } else if a.numerator < 0 {
        Err(MoneyErrorView::NegativeRationalAmount)
    } else {
        match spec_round_units(a.numerator, a.denominator, strategy) {
            Err(e) => Err(e),
            Ok(units) => if fits_i64(units) {
                Ok(MoneyView { amount: units, currency: a.currency })
            } else {
                Err(MoneyErrorView::Overflow)
            },
        }
    }
}

/// `amount * rate`, rounded.
pub open spec fn spec_money_mul_rate(a: MoneyView, rate: RateView, strategy: RoundingStrategy) -> Result<
    MoneyView,
    MoneyErrorView,
> {
    match spec_rational_mul_rate(
        RationalView { numerator: a.amount, denominator: 1, currency: a.currency },
        rate,
    ) {
        Err(e) => Err(e),
        Ok(exact) => spec_round(exact, strategy),
    }
}

/// `ceil(n / d)` with the checks of the implementation: a non-positive
/// denominator and an overflowing intermediate are errors.
pub open spec fn spec_ceil_div_checked(n: int, d: int) -> Result<int, MoneyErrorView> {
    if d <= 0 {
        Err(MoneyErrorView::InvalidRateDenominator)
    } else if !fits_i128(n + d - 1) {
        Err(MoneyErrorView::Overflow)
    } else {
        Ok(ceil_div(n, d))
    }
}

pub open spec fn units_result(r: Result<i128, MoneyError>) -> Result<int, MoneyErrorView> {
    match r {
        Ok(u) => Ok(u as int),
        Err(e) => Err(e@),
    }
}

fn ceil_div_exec(numerator: i128, denominator: i128) -> (r: Result<i128, MoneyError>)
    requires
        numerator >= 0,
    ensures
        units_result(r) == spec_ceil_div_checked(numerator as int, denominator as int),
{
    if denominator <= 0 {
        return Err(MoneyError::InvalidRateDenominator);
    }
    match numerator.checked_add(denominator - 1) {
        Some(adjusted) => {
            assert(adjusted >= 0);
            match adjusted.checked_div_euclid(denominator) {
                Some(q) => Ok(q),
                None => Err(MoneyError::Overflow),
            }
        },
        None => Err(MoneyError::Overflow),
    }
}

impl RationalMoney {
    pub fn zero(currency: CurrencyCode) -> (r: Self)
        ensures
            r@ == (RationalView { numerator: 0, denominator: 1, currency: currency@ }),
    {
        RationalMoney { numerator_minor: 0, denominator: 1, currency }
    }

    pub fn from_money(money: Money) -> (r: Result<Self, MoneyError>)
        ensures
            r matches Ok(x) && x@ == (RationalView {
                numerator: money@.amount,
                denominator: 1,
                currency: money@.currency,
            }),
    {
        Ok(RationalMoney { numerator_minor: money.amount_minor as i128, denominator: 1, currency: money.currency })
    }

    pub fn from_money_rate(money: &Money, rate: Rate) -> (r: Result<Self, MoneyError>)
        ensures
            rational_result(r) == spec_rational_mul_rate(
                RationalView { numerator: money@.amount, denominator: 1, currency: money@.currency },
                rate@,
            ),
    {
        let exact = Self::from_money(money.clone())?;
        exact.checked_mul_rate(rate)
    }

    pub fn currency(&self) -> (r: &CurrencyCode)
        ensures
            r@ == self@.currency,
    {
        &self.currency
    }

    pub(crate) fn denominator_is_positive(&self)
        ensures
            self@.denominator > 0,
    {
        proof {
            use_type_invariant(self);
        }
    }

    pub fn checked_add(&self, other: &Self) -> (r: Result<Self, MoneyError>)
        ensures
            rational_result(r) == spec_rational_add(self@, other@),
    {
        proof {
            use_type_invariant(self);
            use_type_invariant(other);
        }
        if !self.currency.same_as(&other.currency) {
            return Err(MoneyError::CurrencyMismatch { left: self.currency.clone(), right: other.currency.clone() });
        }
        let left = match self.numerator_minor.checked_mul(other.denominator) {
            Some(v) => v,
            None => return Err(MoneyError::Overflow),
        };
        let right = match other.numerator_minor.checked_mul(self.denominator) {
            Some(v) => v,
            None => return Err(MoneyError::Overflow),
        };
        let numerator_minor = match left.checked_add(right) {
            Some(v) => v,
            None => return Err(MoneyError::Overflow),
        };
        let denominator = match self.denominator.checked_mul(other.denominator) {
            Some(v) => v,
            None => return Err(MoneyError::Overflow),
        };
        assert(denominator > 0) by (nonlinear_arith)
            requires
                denominator == self.denominator * other.denominator,
                self.denominator > 0,
                other.denominator > 0,
        ;
        Self::new_checked(numerator_minor, denominator, self.currency.clone())
    }

    pub fn checked_mul_rate(&self, rate: Rate) -> (r: Result<Self, MoneyError>)
        ensures
            rational_result(r) == spec_rational_mul_rate(self@, rate@),
    {
        proof {
            use_type_invariant(self);
        }
        let numerator_minor = match self.numerator_minor.checked_mul(rate.numerator() as i128) {
            Some(v) => v,
            None => return Err(MoneyError::Overflow),
        };
        let rate_denominator = rate.denominator();
        let denominator = match self.denominator.checked_mul(rate_denominator as i128) {
            Some(v) => v,
            None => return Err(MoneyError::Overflow),
        };
        assert(denominator > 0) by (nonlinear_arith)
            requires
                denominator == self.denominator * rate_denominator,
                self.denominator > 0,
                rate_denominator > 0,
        ;
        Self::new_checked(numerator_minor, denominator, self.currency.clone())
    }

    pub fn checked_mul_quantity(&self, quantity: u32) -> (r: Result<Self, MoneyError>)
        ensures
            rational_result(r) == spec_rational_mul_quantity(self@, quantity as int),
    {
        proof {
            use_type_invariant(self);
        }
        let numerator_minor = match self.numerator_minor.checked_mul(quantity as i128) {
            Some(v) => v,
            None => return Err(MoneyError::Overflow),
        };
        Self::new_checked(numerator_minor, self.denominator, self.currency.clone())
    }

    /// Rounds the exact amount to whole minor units.
    pub fn round(&self, strategy: RoundingStrategy) -> (r: Result<Money, MoneyError>)
        ensures
            money_result(r) == spec_round(self@, strategy),
    {
        proof {
            use_type_invariant(self);
        }
        if self.denominator <= 0 {
            return Err(MoneyError::InvalidRateDenominator);
        }
        if self.numerator_minor < 0 {
            return Err(MoneyError::NegativeRationalAmount);
        }
        let n = self.numerator_minor;
        let d = self.denominator;
        let amount_minor: i128 = match strategy {
            RoundingStrategy::CentRoundDown => match n.checked_div_euclid(d) {
                Some(q) => q,
                None => return Err(MoneyError::Overflow),
            },
            RoundingStrategy::CentRoundUp => ceil_div_exec(n, d)?,
            RoundingStrategy::NearestUpIncrement(increment) => {
                if increment == 0 {
                    return Err(MoneyError::InvalidRoundingIncrement(increment));
                }
                let increment = increment as i128;
                let denominator = match d.checked_mul(increment) {
                    Some(v) => v,
                    None => return Err(MoneyError::Overflow),
                };
                assert(denominator > 0) by (nonlinear_arith)
                    requires
                        denominator == d * increment,
                        d > 0,
                        increment > 0,
                ;
                let units = ceil_div_exec(n, denominator)?;
                match units.checked_mul(increment) {
                    Some(v) => v,
                    None => return Err(MoneyError::Overflow),
                }
            },
            RoundingStrategy::NearestUpEnding(ending) => {
                if ending > 99 {
                    return Err(MoneyError::InvalidRoundingEnding(ending));
                }
                let whole_minor = ceil_div_exec(n, d)?;
                assert(whole_minor >= 0) by (nonlinear_arith)
                    requires
                        whole_minor == (n + d - 1) / (d as int),
                        n >= 0,
                        d > 0,
                ;
                let rem = match whole_minor.checked_rem_euclid(100) {
                    Some(v) => v,
                    None => return Err(MoneyError::Overflow),
                };
                let dollar_floor = whole_minor - rem;
                let candidate = match dollar_floor.checked_add(ending as i128) {
                    Some(v) => v,
                    None => return Err(MoneyError::Overflow),
                };
                if candidate >= whole_minor {
                    candidate
                } else {
                    match candidate.checked_add(100) {
                        Some(v) => v,
                        None => return Err(MoneyError::Overflow),
                    }
                }
            },
        };
        if amount_minor < i64::MIN as i128 || amount_minor > i64::MAX as i128 {
            return Err(MoneyError::Overflow);
        }
        Ok(Money::new(amount_minor as i64, self.currency.clone()))
    }

    fn new_checked(numerator_minor: i128, denominator: i128, currency: CurrencyCode) -> (r: Result<
        Self,
        MoneyError,
    >)
        requires
            denominator > 0,
        ensures
            r matches Ok(x) && x@ == (RationalView {
                numerator: numerator_minor as int,
                denominator: denominator as int,
                currency: currency@,
            }),
    {
        if denominator == 0 {
            return Err(MoneyError::InvalidRateDenominator);
        }
        Ok(RationalMoney { numerator_minor, denominator, currency })
    }
}

/// Rounding brackets the exact amount: rounding down gives the largest whole
/// number of minor units not above it, every upward strategy gives a value not
/// below it, a positive increment divides the rounded value and overshoots by
/// less than one increment, and an ending is the last two digits of the rounded
/// value, which lies less than one hundred minor units above the exact amount
/// rounded up.
pub proof fn lemma_round_brackets_exact_amount(a: RationalView, strategy: RoundingStrategy)
    requires
        spec_round(a, strategy) is Ok,
    ensures
        ({
            let u = spec_round(a, strategy)->Ok_0.amount;
            let n = a.numerator;
            let d = a.denominator;
            &&& u >= 0
            &&& strategy == RoundingStrategy::CentRoundDown ==> u * d <= n < (u + 1) * d
            &&& strategy == RoundingStrategy::CentRoundUp ==> (u - 1) * d < n <= u * d
            &&& strategy matches RoundingStrategy::NearestUpIncrement(inc) ==> {
                &&& u % (inc as int) == 0
                &&& n <= u * d
                &&& (u - inc) * d < n
            }
            &&& strategy matches RoundingStrategy::NearestUpEnding(e) ==> {
                &&& u % 100 == e
                &&& n <= u * d
                &&& ceil_div(n, d) <= u < ceil_div(n, d) + 100
            }
        }),
{
    let n = a.numerator;
    let d = a.denominator;
    let u = spec_round(a, strategy)->Ok_0.amount;
    assert(n >= 0 && d > 0);
    match strategy {
        RoundingStrategy::CentRoundDown => {
            assert(u == n / d);
            assert(u * d <= n < (u + 1) * d && u >= 0) by (nonlinear_arith)
                requires
                    u == n / d,
                    n >= 0,
                    d > 0,
            ;
        },
        RoundingStrategy::CentRoundUp => {
            assert(u == (n + d - 1) / d);
            assert((u - 1) * d < n <= u * d && u >= 0) by (nonlinear_arith)
                requires
                    u == (n + d - 1) / d,
                    n >= 0,
                    d > 0,
            ;
        },
        RoundingStrategy::NearestUpIncrement(inc) => {
            let i = inc as int;
            let q = (n + d * i - 1) / (d * i);
            assert(u == q * i);
            assert(d * i > 0) by (nonlinear_arith)
                requires
                    d > 0,
                    i > 0,
            ;
            assert((q - 1) * (d * i) < n <= q * (d * i) && q >= 0) by (nonlinear_arith)
                requires
                    q == (n + d * i - 1) / (d * i),
                    n >= 0,
                    d * i > 0,
            ;
            assert(u % i == 0) by (nonlinear_arith)
                requires
                    u == q * i,
                    i > 0,
            ;
            assert(n <= u * d && (u - i) * d < n && u >= 0) by (nonlinear_arith)
                requires
                    (q - 1) * (d * i) < n <= q * (d * i),
                    u == q * i,
                    q >= 0,
                    i > 0,
            ;
        },
        RoundingStrategy::NearestUpEnding(e) => {
            let w = ceil_div(n, d);
            assert((w - 1) * d < n <= w * d && w >= 0) by (nonlinear_arith)
                requires
                    w == (n + d - 1) / d,
                    n >= 0,
                    d > 0,
            ;
            let c = w - w % 100 + e;
            assert(u == c || u == c + 100);
            assert(u >= w);
            assert(u % 100 == e) by (nonlinear_arith)
                requires
                    u == w - w % 100 + e || u == w - w % 100 + e + 100,
                    0 <= e <= 99,
                    w >= 0,
            ;
            assert(n <= u * d) by (nonlinear_arith)
                requires
                    n <= w * d,
                    w <= u,
                    d > 0,
            ;
        },
    }
}

/// Subtracting what was added gives back the original amount.
pub proof fn lemma_add_then_sub_restores(a: MoneyView, b: MoneyView)
    requires
        fits_i64(a.amount),
        spec_money_add(a, b) is Ok,
    ensures
        spec_money_sub(spec_money_add(a, b)->Ok_0, b) == Ok::<MoneyView, MoneyErrorView>(a),
{
    let c = spec_money_add(a, b)->Ok_0;
    assert(c.amount - b.amount == a.amount);
}

/// Addition of money is commutative in amount; the result carries the shared
/// currency.
pub proof fn lemma_add_commutes(a: MoneyView, b: MoneyView)
    requires
        a.currency == b.currency,
    ensures
        spec_money_add(a, b) == spec_money_add(b, a),
{
}

} // verus!
