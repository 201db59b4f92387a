use lufa::money::{convention, Convention};
use lufa::{deserialize_money, deserialize_money_optional, DecodeError, MonetaryAmount, MoneyWire};
use rust_decimal::Decimal;

fn text(s: &str) -> Result<MonetaryAmount, DecodeError> {
    deserialize_money(MoneyWire::Text(s.to_string()))
}

fn float(f: f64) -> Result<MonetaryAmount, DecodeError> {
    let d = Decimal::try_from(f).unwrap();
    deserialize_money(MoneyWire::Decimal { mantissa: d.mantissa(), scale: d.scale() })
}

fn major(n: i64) -> MonetaryAmount {
    MonetaryAmount::from_major(n)
}

#[test]
fn test_deserialize_money() {
    // integers
    assert!(deserialize_money(MoneyWire::Int(-1)).is_ok());
    assert!(deserialize_money(MoneyWire::Int(0)).is_ok());
    assert!(deserialize_money(MoneyWire::Int(1)).is_ok());

    // floats
    assert!(float(1.0).is_ok());
    assert!(float(0.0).is_ok());
    assert!(float(-1.0).is_ok());

    // strings - int
    assert!(text("1").is_ok());
    assert!(text("0").is_ok());
    assert!(text("-1").is_ok());

    // strings - float, NA
    assert!(text("1.0").is_ok());
    assert!(text("0.0").is_ok());
    assert!(text("-1.0").is_ok());

    // strings - float, EU
    assert!(text("1,0").is_ok());
    assert!(text("0,0").is_ok());
    assert!(text("-1,0").is_ok());

    // strings - currency, US
    assert!(text("$ 1.00").is_ok());
    assert!(text("$ 0.00").is_ok());
    assert!(text("$ -1.00").is_ok());

    // strings - currency, EU
    assert!(text("$ 1,00").is_ok());
    assert!(text("$ 0,00").is_ok());
    assert!(text("$ -1,00").is_ok());

    // NA format
    let p = text("$1.0");
    assert!(p.is_ok());
    assert_eq!(p.unwrap(), major(1));

    let p = text("$1.00");
    assert!(p.is_ok());
    assert_eq!(p.unwrap(), major(1));

    let p = text("$1000.00");
    assert!(p.is_ok());
    assert_eq!(p.unwrap(), major(1_000));

    let p = text("$1,000.00");
    assert!(p.is_ok());
    assert_eq!(p.unwrap(), major(1_000));

    let p = text("$1,000,000.00");
    assert!(p.is_ok());
    assert_eq!(p.unwrap(), major(1_000_000));

    // EU format
    let p = text("$1,0");
    assert!(p.is_ok());
    assert_eq!(p.unwrap(), major(1));

    let p = text("$1,00");
    assert!(p.is_ok());
    assert_eq!(p.unwrap(), major(1));

    let p = text("$1000,00");
    assert!(p.is_ok());
    assert_eq!(p.unwrap(), major(1_000));

    let p = text("$1.000,00");
    assert!(p.is_ok());
    assert_eq!(p.unwrap(), major(1_000));

    let p = text("$1.000.000,00");
    assert!(p.is_ok());
    assert_eq!(p.unwrap(), major(1_000_000));
}

#[test]
fn north_american_strings_match_plain_ones() {
    assert_eq!(text("$1.00").unwrap(), text("1.0").unwrap());
    assert_eq!(text("$1,000.00").unwrap(), text("1000.00").unwrap());
    assert_eq!(text("$1,000,000.00").unwrap(), text("1000000.00").unwrap());
}

#[test]
fn european_strings_match_plain_ones() {
    assert_eq!(text("$1,00").unwrap(), text("1.0").unwrap());
    assert_eq!(text("$1.000,00").unwrap(), text("1000.00").unwrap());
    assert_eq!(text("$1.000.000,00").unwrap(), text("1000000.00").unwrap());
}

#[test]
fn integers_match_their_text() {
    for n in [0i64, 1, -1, 7, 42, -1000, 123456789, i64::MAX, i64::MIN] {
        assert_eq!(deserialize_money(MoneyWire::Int(n)).unwrap(), text(&n.to_string()).unwrap());
    }
}

#[test]
fn amounts_keep_their_cents() {
    let a = text("$ 140.91").unwrap();
    assert_eq!(a.mantissa(), 14091);
    assert_eq!(a.scale(), 2);
    let a = text("-136.73").unwrap();
    assert_eq!(a.mantissa(), -13673);
    assert_eq!(a.scale(), 2);
    let a = text("6,00").unwrap();
    assert_eq!(a, major(6));
    let a = text("1.50").unwrap();
    assert_eq!(a.mantissa(), 15);
    assert_eq!(a.scale(), 1);
    assert_eq!(text("+2.5").unwrap(), MonetaryAmount::from_parts(25, 1));
    assert_eq!(text("-0.00").unwrap(), major(0));
}

#[test]
fn three_digits_after_one_separator_mean_thousands() {
    assert_eq!(text("1.234").unwrap(), major(1234));
    assert_eq!(text("1,234").unwrap(), major(1234));
}

#[test]
fn repeated_separators_are_thousands() {
    assert_eq!(text("1.000.000").unwrap(), major(1_000_000));
    assert_eq!(text("1,000,000").unwrap(), major(1_000_000));
    assert_eq!(text("1,2,3.45").unwrap(), MonetaryAmount::from_parts(12345, 2));
    assert_eq!(text("1.2.3,45").unwrap(), MonetaryAmount::from_parts(12345, 2));
}

#[test]
fn later_separator_is_the_decimal_point() {
    assert_eq!(text("1,0.5").unwrap(), MonetaryAmount::from_parts(105, 1));
    assert_eq!(text("1.0,5").unwrap(), MonetaryAmount::from_parts(105, 1));
}

#[test]
fn money_errors() {
    assert_eq!(text(""), Err(DecodeError::EmptyAmount));
    assert_eq!(text("$ abc"), Err(DecodeError::EmptyAmount));
    assert_eq!(text("1.2345"), Err(DecodeError::MalformedAmount));
    assert_eq!(text("1,2345"), Err(DecodeError::MalformedAmount));
    assert_eq!(text("1.2.3,4,5"), Err(DecodeError::TooManySeparators));
    assert_eq!(text("1-2"), Err(DecodeError::MalformedAmount));
    assert_eq!(text("-"), Err(DecodeError::MalformedAmount));
    assert_eq!(text("1,"), Err(DecodeError::MalformedAmount));
    assert_eq!(text("12345678901234567890123456789"), Err(DecodeError::AmountOutOfRange));
}

#[test]
fn long_fractions_follow_the_currency_parser() {
    assert_eq!(text("1,0.0000000001").unwrap(), MonetaryAmount::from_parts(100000000001, 10));
    assert_eq!(text("1,0.9999999999"), Err(DecodeError::MalformedAmount));
}

#[test]
fn optional_amounts() {
    assert_eq!(deserialize_money_optional(None), Ok(None));
    assert_eq!(deserialize_money_optional(Some(MoneyWire::Text(String::new()))), Ok(None));
    assert_eq!(deserialize_money_optional(Some(MoneyWire::Text("$".to_string()))), Ok(None));
    assert_eq!(
        deserialize_money_optional(Some(MoneyWire::Text("$ 0.25".to_string()))),
        Ok(Some(MonetaryAmount::from_parts(25, 2)))
    );
    assert_eq!(
        deserialize_money_optional(Some(MoneyWire::Text("1.2345".to_string()))),
        Err(DecodeError::MalformedAmount)
    );
}

#[test]
fn decimals_are_canonical() {
    let a = MonetaryAmount::from_parts(1500, 3);
    assert_eq!(a.mantissa(), 15);
    assert_eq!(a.scale(), 1);
    assert_eq!(float(1.5).unwrap(), MonetaryAmount::from_parts(15, 1));
    assert_eq!(MonetaryAmount::from_parts(-1200, 2), major(-12));
}

#[test]
fn conventions_of_cleaned_strings() {
    let v = |s: &str| s.chars().collect::<Vec<char>>();
    assert_eq!(convention(&v("100")), Ok(None));
    assert_eq!(convention(&v("1.00")), Ok(Some(Convention::NorthAmerican)));
    assert_eq!(convention(&v("1.000")), Ok(Some(Convention::European)));
    assert_eq!(convention(&v("1,00")), Ok(Some(Convention::European)));
    assert_eq!(convention(&v("1,000")), Ok(Some(Convention::NorthAmerican)));
    assert_eq!(convention(&v("1,0000")), Err(DecodeError::MalformedAmount));
}
