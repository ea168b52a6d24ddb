use bitcoin_broker::decimal::{Btc, BtcExchangeRate, Cash, Decimal, Percentage, MAX_MANTISSA};
use bitcoin_broker::error::Error;
use bitcoin_broker::ledger::PurchaseAccount;
use bitcoin_broker::models::{net_margin, try_net_margin, Fee, Offer, Purchase};

fn purchase(btc: i64, rate: i64) -> Purchase {
    Purchase::new(Btc::new(btc, 0), BtcExchangeRate::new(rate, 0))
}

#[test]
fn should_return_margin() {
    let purchase = {
        let rate = BtcExchangeRate::new(8_000, 0);
        let btc = Btc::new(175, 2);
        Purchase::new(btc, rate)
    };
    let current_trend = BtcExchangeRate::new(10_000, 0);
    assert_eq!(Cash::new(3500, 0), purchase.margin(current_trend));

    let purchase = {
        let rate = BtcExchangeRate::new(100, 0);
        let btc = Btc::new(5, 0);
        Purchase::new(btc, rate)
    };
    let current_trend = BtcExchangeRate::new(50, 0);
    assert_eq!(Cash::new(-250, 0), purchase.margin(current_trend));
}

#[test]
fn should_return_margin_minus_fee() {
    let purchase = {
        let rate = BtcExchangeRate::new(100, 0);
        let btc = Btc::new(2, 0);
        Purchase::new(btc, rate)
    };
    let current_trend = BtcExchangeRate::new(1000, 0);
    let fee = Fee::Percentage(Decimal::new(10, 0));
    assert_eq!(
        Decimal::new(1_620, 0),
        purchase.margin_after_fee(current_trend, fee)
    );
}

// Lower rate is better as it was cheaper to buy the bitcoins.
#[test]
fn should_compare_two_purchases_on_basis_of_their_exchange_rate() {
    let purchase_lower_rate = {
        let rate = BtcExchangeRate::new(100, 0);
        let btc = Btc::new(2, 0);
        Purchase::new(btc, rate)
    };

    let purchase_higher_rate = {
        let rate = BtcExchangeRate::new(200, 0);
        let btc = Btc::new(1, 0);
        Purchase::new(btc, rate)
    };

    assert!(purchase_lower_rate > purchase_higher_rate);

    let mut account = PurchaseAccount::default();
    account.insert(purchase_lower_rate.clone());
    account.insert(purchase_higher_rate);

    assert_eq!(Some(&purchase_lower_rate), account.peek_best());
}

#[test]
fn decimals_are_equal_where_they_are_the_same_number() {
    assert_eq!(Decimal::new(10, 1), Decimal::new(100, 2));
    assert_eq!(Decimal::new(0, 0), Decimal::new(0, 5));
    assert_ne!(Decimal::new(10, 1), Decimal::new(10, 2));
    assert_ne!(Decimal::new(1, 0), Decimal::new(-1, 0));
}

#[test]
fn decimals_are_ordered_by_the_numbers_they_stand_for() {
    assert!(Decimal::new(5, 1) > Decimal::new(1, 2));
    assert!(Decimal::new(-5, 1) < Decimal::new(-1, 2));
    assert!(Decimal::new(27225, 1) > Decimal::new(450, 0));
    assert!(Decimal::new(99, 0) < Decimal::new(180, 0));
    assert!(!(Decimal::new(10, 1) > Decimal::new(1, 0)));
    assert!(Decimal::new(10, 1) >= Decimal::new(1, 0));
    assert!(Decimal::new(0, 3) <= Decimal::new(0, 0));
}

#[test]
fn decimal_keeps_its_mantissa_and_scale() {
    let d = Decimal::new(-3141, 3);
    assert_eq!(-3141, d.mantissa());
    assert_eq!(3, d.scale());
    let h = Decimal::hundred();
    assert_eq!(100, h.mantissa());
    assert_eq!(0, h.scale());
}

#[test]
fn decimal_from_parts_is_turned_down_out_of_range() {
    let d = Decimal::try_from_i128_with_scale(MAX_MANTISSA, 28).unwrap();
    assert_eq!(MAX_MANTISSA, d.mantissa());
    assert_eq!(28, d.scale());
    let d = Decimal::try_from_i128_with_scale(-MAX_MANTISSA, 0).unwrap();
    assert_eq!(-MAX_MANTISSA, d.mantissa());
    assert!(Decimal::try_from_i128_with_scale(MAX_MANTISSA + 1, 0).is_none());
    assert!(Decimal::try_from_i128_with_scale(-MAX_MANTISSA - 1, 0).is_none());
    assert!(Decimal::try_from_i128_with_scale(1, 29).is_none());
}

#[test]
fn buying_price_is_quantity_times_rate() {
    assert_eq!(Cash::new(2250, 0), purchase(5, 450).buying_price());
    let p = Purchase::new(Btc::new(175, 2), BtcExchangeRate::new(8_000, 0));
    assert_eq!(Cash::new(14_000, 0), p.buying_price());
    assert_ne!(p.btc, p.buying_price());
    assert_ne!(p.rate, p.buying_price());
}

#[test]
fn margin_is_negative_below_the_buy_rate() {
    let p = purchase(5, 450);
    assert_eq!(Cash::new(-250, 0), p.margin(BtcExchangeRate::new(400, 0)));
    assert_eq!(Cash::new(0, 0), p.margin(BtcExchangeRate::new(450, 0)));
    assert_eq!(Cash::new(2750, 0), p.margin(BtcExchangeRate::new(1000, 0)));
}

#[test]
fn net_margin_takes_the_percentage_off() {
    let one_percent = Fee::Percentage(Percentage::new(1, 0));
    assert_eq!(Cash::new(27225, 1), net_margin(Cash::new(2750, 0), one_percent));
    assert_eq!(Cash::new(99, 0), net_margin(Cash::new(100, 0), one_percent));
    let quarter_percent = Fee::Percentage(Percentage::new(25, 2));
    assert_eq!(Cash::new(39_900, 2), net_margin(Cash::new(400, 0), quarter_percent));
}

#[test]
fn net_margin_without_fee_is_the_gross_margin() {
    assert_eq!(Cash::new(2750, 0), net_margin(Cash::new(2750, 0), Fee::NoFee));
    assert_eq!(Cash::new(-250, 0), net_margin(Cash::new(-250, 0), Fee::NoFee));
}

#[test]
fn margin_after_fee_of_the_three_purchases() {
    let fee = Fee::Percentage(Percentage::new(1, 0));
    let trend = BtcExchangeRate::new(1000, 0);
    assert_eq!(Cash::new(27225, 1), purchase(5, 450).margin_after_fee(trend, fee));
    assert_eq!(Cash::new(99, 0), purchase(1, 900).margin_after_fee(trend, fee));
    assert_eq!(Cash::new(0, 0), purchase(5, 1000).margin_after_fee(trend, fee));
    assert_eq!(Cash::new(2750, 0), purchase(5, 450).margin_after_fee(trend, Fee::NoFee));
}

#[test]
fn is_profitable_compares_net_margin_with_the_required_margin() {
    let fee = Fee::Percentage(Percentage::new(1, 0));
    let trend = BtcExchangeRate::new(1000, 0);
    let twenty = Percentage::new(20, 0);
    let five = Percentage::new(5, 0);
    // net 2722.5 against 450 required
    assert!(purchase(5, 450).is_profitable(trend, fee, twenty));
    // net 99 against 180 required
    assert!(!purchase(1, 900).is_profitable(trend, fee, twenty));
    // net 99 against 45 required
    assert!(purchase(1, 900).is_profitable(trend, fee, five));
    // net 0 against 250 required
    assert!(!purchase(5, 1000).is_profitable(trend, fee, five));
}

#[test]
fn is_profitable_asks_for_strictly_more_than_the_required_margin() {
    // bought 1 at 100, sold at 110: margin 10, required 10 % of 100 = 10
    let p = purchase(1, 100);
    let ten = Percentage::new(10, 0);
    assert!(!p.is_profitable(BtcExchangeRate::new(110, 0), Fee::NoFee, ten));
    assert!(p.is_profitable(BtcExchangeRate::new(111, 0), Fee::NoFee, ten));
    assert!(!p.is_profitable(BtcExchangeRate::new(109, 0), Fee::NoFee, ten));
}

#[test]
fn evaluable_says_whether_the_arithmetic_stays_in_range() {
    let fee = Fee::Percentage(Percentage::new(1, 0));
    let five = Percentage::new(5, 0);
    assert!(purchase(5, 450).evaluable(BtcExchangeRate::new(1000, 0), fee, five));
    let huge = Decimal::try_from_i128_with_scale(MAX_MANTISSA, 0).unwrap();
    let p = Purchase::new(huge, huge);
    assert!(!p.evaluable(BtcExchangeRate::new(1000, 0), fee, five));
    let p = Purchase::new(Btc::new(2, 0), BtcExchangeRate::new(1, 0));
    assert!(!p.evaluable(huge, Fee::NoFee, five));
    let p = Purchase::new(Btc::new(1, 0), huge);
    assert!(!p.evaluable(BtcExchangeRate::new(1, 0), Fee::NoFee, five));
    assert!(p.evaluable(BtcExchangeRate::new(1, 0), Fee::NoFee, Percentage::new(1, 0)));
}

#[test]
fn new_purchases_get_random_identifiers() {
    let a = purchase(1, 100);
    let b = purchase(1, 100);
    assert_ne!(a.id, b.id);
    assert_ne!(a, b);
    assert_eq!(a, a.clone());
    for p in [a, b] {
        assert_eq!(4, (p.id >> 76) & 0xf);
        assert_eq!(2, (p.id >> 62) & 0x3);
    }
    assert_eq!(Btc::new(1, 0), a.btc);
    assert_eq!(BtcExchangeRate::new(100, 0), a.rate);
}

#[test]
fn purchases_are_equal_by_identifier_alone() {
    let a = purchase(1, 100);
    let same_id = Purchase { id: a.id, btc: Btc::new(7, 0), rate: BtcExchangeRate::new(9, 0) };
    assert_eq!(a, same_id);
    let other_id = Purchase { id: a.id ^ 1, btc: a.btc, rate: a.rate };
    assert_ne!(a, other_id);
}

#[test]
fn offer_keeps_rate_and_purchases() {
    let a = purchase(1, 100);
    let b = purchase(2, 200);
    let offer = Offer::new(BtcExchangeRate::new(500, 0), vec![a, b]);
    assert_eq!(BtcExchangeRate::new(500, 0), offer.rate);
    assert_eq!(&[a, b], offer.purchases.as_slice());
    let other = Offer::new(BtcExchangeRate::new(500, 0), vec![]);
    assert_ne!(offer.id, other.id);
    assert_eq!(4, (offer.id >> 76) & 0xf);
    assert_eq!(2, (offer.id >> 62) & 0x3);
}

#[test]
fn outdated_message_has_its_text() {
    assert_eq!(
        "Error(\"Received an outdated message\")",
        Error::outdated_message().to_string()
    );
    assert_eq!(
        format!("{:?}", Error::outdated_message()),
        Error::outdated_message().to_string()
    );
}

#[test]
fn try_net_margin_is_the_net_margin_where_it_is_in_range() {
    let one_percent = Fee::Percentage(Percentage::new(1, 0));
    assert_eq!(Some(Cash::new(27225, 1)), try_net_margin(Cash::new(2750, 0), one_percent));
    assert_eq!(Some(Cash::new(-250, 0)), try_net_margin(Cash::new(-250, 0), Fee::NoFee));
    let huge = Decimal::try_from_i128_with_scale(MAX_MANTISSA, 0).unwrap();
    assert_eq!(Some(huge), try_net_margin(huge, Fee::NoFee));
    // A hundredth of the margin times the fee is past the largest decimal.
    assert_eq!(None, try_net_margin(huge, Fee::Percentage(huge)));
    // A fee of minus a hundred percent doubles the margin, past the largest.
    assert_eq!(None, try_net_margin(huge, Fee::Percentage(Percentage::new(-100, 0))));
}
