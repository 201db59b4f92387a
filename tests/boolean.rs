use lufa::{bool_from_folded, deserialize_bool, BoolWire, DecodeError, FloatReading};

fn text(s: &str) -> Result<Option<bool>, DecodeError> {
    deserialize_bool(BoolWire::Text { text: s.to_string(), as_float: None })
}

#[test]
fn true_tokens() {
    for s in ["true", "t", "yes", "y", "1", "TRUE", " True ", "\tYES\n", "Y"] {
        assert_eq!(text(s), Ok(Some(true)), "{}", s);
    }
}

#[test]
fn false_tokens() {
    for s in ["false", "f", "no", "n", "0", "FALSE", "  No  ", "\nF"] {
        assert_eq!(text(s), Ok(Some(false)), "{}", s);
    }
}

#[test]
fn null_is_absent() {
    assert_eq!(deserialize_bool(BoolWire::Null), Ok(None));
}

#[test]
fn maybe_fails_naming_the_string() {
    assert_eq!(text("maybe"), Err(DecodeError::NotABoolean { input: "maybe".to_string() }));
}

#[test]
fn literals_and_integers() {
    assert_eq!(deserialize_bool(BoolWire::Boolean(true)), Ok(Some(true)));
    assert_eq!(deserialize_bool(BoolWire::Boolean(false)), Ok(Some(false)));
    assert_eq!(deserialize_bool(BoolWire::Int(1)), Ok(Some(true)));
    assert_eq!(deserialize_bool(BoolWire::Int(0)), Ok(Some(false)));
    assert_eq!(deserialize_bool(BoolWire::Int(2)), Err(DecodeError::NumberNotBinary));
    assert_eq!(deserialize_bool(BoolWire::Int(-1)), Err(DecodeError::NumberNotBinary));
}

#[test]
fn floats_read_by_the_caller() {
    assert_eq!(deserialize_bool(BoolWire::Float(FloatReading::NearOne)), Ok(Some(true)));
    assert_eq!(deserialize_bool(BoolWire::Float(FloatReading::Zero)), Ok(Some(false)));
    assert_eq!(deserialize_bool(BoolWire::Float(FloatReading::Other)), Err(DecodeError::FloatNotBinary));
}

#[test]
fn integer_strings() {
    assert_eq!(text("+1"), Ok(Some(true)));
    assert_eq!(text("01"), Ok(Some(true)));
    assert_eq!(text("-0"), Ok(Some(false)));
    assert_eq!(text("2"), Err(DecodeError::NumberNotBinary));
    assert_eq!(text("-9223372036854775808"), Err(DecodeError::NumberNotBinary));
    assert_eq!(
        text("9223372036854775808"),
        Err(DecodeError::NotABoolean { input: "9223372036854775808".to_string() })
    );
}

#[test]
fn float_strings() {
    let with = |s: &str, f: FloatReading| {
        deserialize_bool(BoolWire::Text { text: s.to_string(), as_float: Some(f) })
    };
    assert_eq!(with("1.0", FloatReading::NearOne), Ok(Some(true)));
    assert_eq!(with("0.0", FloatReading::Zero), Ok(Some(false)));
    assert_eq!(with("2.5", FloatReading::Other), Err(DecodeError::FloatNotBinary));
}

#[test]
fn rules_on_a_folded_string() {
    assert_eq!(bool_from_folded("yes", " YES ".to_string(), None), Ok(Some(true)));
    assert_eq!(bool_from_folded("nope", "nope".to_string(), None), Err(DecodeError::NotABoolean {
        input: "nope".to_string()
    }));
    assert_eq!(bool_from_folded("", "1".to_string(), None), Ok(Some(true)));
}
