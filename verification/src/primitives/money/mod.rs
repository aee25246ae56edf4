mod mny_money;

pub use mny_money::{
    ceil_div, fits_i128, lemma_add_commutes, lemma_add_then_sub_restores,
    lemma_round_brackets_exact_amount, spec_ceil_div_checked, units_result, fits_i64, money_result, rational_result, spec_money_add,
    spec_money_mul_quantity, spec_money_mul_rate, spec_money_sub, spec_rational_add,
    spec_rational_mul_quantity, spec_rational_mul_rate, spec_round, spec_round_units,
    money_error_message, valid_currency, CurrencyCode, Money, MoneyError, MoneyErrorView, MoneyView, Rate, RateView,
    RationalMoney, RationalView, RoundingStrategy,
};
