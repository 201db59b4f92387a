use lufa::{
    date, deserialize_bool, deserialize_money, deserialize_money_optional, deserialize_timestamp,
    deserialize_usize, naive_date_from_str, BoolWire, CivilDate, MonetaryAmount, MoneyWire,
};

fn money(s: &str) -> MonetaryAmount {
    deserialize_money(MoneyWire::Text(s.to_string())).unwrap()
}

fn money_opt(s: &str) -> Option<MonetaryAmount> {
    deserialize_money_optional(Some(MoneyWire::Text(s.to_string()))).unwrap()
}

#[test]
fn card_test_deserialize() {
    assert_eq!(naive_date_from_str("01/24"), Ok(CivilDate { year: 2024, month: 1, day: 1 }));
    assert_eq!(deserialize_bool(BoolWire::Boolean(false)), Ok(Some(false)));
    assert_eq!(deserialize_usize("1"), Ok(1));
}

#[test]
fn transaction_test_deserialize() {
    assert_eq!(money("-136.73"), MonetaryAmount::from_parts(-13673, 2));
    assert!(deserialize_timestamp("2024-05-07 00:32:54").is_ok());
    assert_eq!(money_opt("$ 140.91"), Some(MonetaryAmount::from_parts(14091, 2)));
    assert_eq!(money_opt("$ 140.66"), Some(MonetaryAmount::from_parts(14066, 2)));
    assert_eq!(money_opt(""), None);
    assert_eq!(money_opt("$ 0.25"), Some(MonetaryAmount::from_parts(25, 2)));
}

#[test]
fn amounts_test_deserialize() {
    assert_eq!(money("137.95"), MonetaryAmount::from_parts(13795, 2));
    assert_eq!(money("130.00"), MonetaryAmount::from_major(130));
    assert_eq!(money("6,00"), MonetaryAmount::from_major(6));
    assert_eq!(money("1.05"), MonetaryAmount::from_parts(105, 2));
    assert_eq!(money("0.30"), MonetaryAmount::from_parts(3, 1));
    assert_eq!(deserialize_money(MoneyWire::Int(6)).unwrap(), money("6.00"));
    assert_eq!(
        deserialize_money(MoneyWire::Decimal { mantissa: 875, scale: 2 }).unwrap(),
        money("8.75")
    );
    assert_eq!(deserialize_usize("1"), Ok(1));
}

#[test]
fn item_test_deserialize() {
    assert_eq!(deserialize_bool(BoolWire::Null), Ok(None));
    assert_eq!(money("0.00"), MonetaryAmount::from_major(0));
    assert_eq!(money("5.00"), MonetaryAmount::from_major(5));
    assert_eq!(deserialize_money_optional(None), Ok(None));
    assert_eq!(deserialize_usize("1"), Ok(1));
}

#[test]
fn tracking_test_deserialize() {
    assert_eq!(money("$130.31"), MonetaryAmount::from_parts(13031, 2));
    assert_eq!(deserialize_usize("1"), Ok(1));
}

#[test]
fn incentive_test_deserialize() {
    assert_eq!(deserialize_usize("19"), Ok(19));
    assert_eq!(deserialize_usize("17"), Ok(17));
    assert_eq!(money("2040.07"), MonetaryAmount::from_parts(204007, 2));
    assert_eq!(money("40.80"), MonetaryAmount::from_parts(408, 1));
    assert_eq!(money("111.66"), MonetaryAmount::from_parts(11166, 2));
    assert!(deserialize_timestamp("2024-05-06 09:00:14").is_ok());
}

#[test]
fn mod_test_deserialize() {
    assert_eq!(money("-1.00"), MonetaryAmount::from_major(-1));
    assert_eq!(money("35"), MonetaryAmount::from_major(35));
    assert_eq!(deserialize_usize("1"), Ok(1));
}

#[test]
fn profile_test_deserialize() {
    assert_eq!(
        date(Some("January 01, 2021".to_string())),
        Ok(CivilDate { year: 2021, month: 1, day: 1 })
    );
    assert_eq!(date(Some("2022-01-01".to_string())), Ok(CivilDate { year: 2022, month: 1, day: 1 }));
    assert_eq!(money("-1.00"), MonetaryAmount::from_major(-1));
    assert_eq!(money("111.66"), MonetaryAmount::from_parts(11166, 2));
}
