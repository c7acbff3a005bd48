use tailr::parse_take_value;
use tailr::TakeValue::{PlusZero, TakeNum};

#[test]
fn test_parse_take_value() {
    let res = parse_take_value("3", "bytes");
    assert!(res.is_ok());
    assert_eq!(res.unwrap(), TakeNum(-3));

    let res = parse_take_value("+3", "bytes");
    assert!(res.is_ok());
    assert_eq!(res.unwrap(), TakeNum(3));

    let res = parse_take_value("-3", "bytes");
    assert!(res.is_ok());
    assert_eq!(res.unwrap(), TakeNum(-3));

    let res = parse_take_value("0", "bytes");
    assert!(res.is_ok());
    assert_eq!(res.unwrap(), TakeNum(0));

    let res = parse_take_value("+0", "bytes");
    assert!(res.is_ok());
    assert_eq!(res.unwrap(), PlusZero);

    let res = parse_take_value(&i64::MAX.to_string(), "bytes");
    assert!(res.is_ok());
    assert_eq!(res.unwrap(), TakeNum(i64::MIN + 1));

    let res = parse_take_value(&(i64::MIN + 1).to_string(), "bytes");
    assert!(res.is_ok());
    assert_eq!(res.unwrap(), TakeNum(i64::MIN + 1));

    let res = parse_take_value(&format!("+{}", i64::MAX), "bytes");
    assert!(res.is_ok());
    assert_eq!(res.unwrap(), TakeNum(i64::MAX));

    let res = parse_take_value(&i64::MIN.to_string(), "bytes");
    assert!(res.is_ok());
    assert_eq!(res.unwrap(), TakeNum(i64::MIN));

    let res = parse_take_value("3.14", "bytes");
    assert!(res.is_err());
    assert_eq!(res.unwrap_err(), "illegal bytes count -- 3.14");

    let res = parse_take_value("foo", "lines");
    assert!(res.is_err());
    assert_eq!(res.unwrap_err(), "illegal lines count -- foo");
}

#[test]
fn test_parse_empty_and_signs() {
    // An empty argument, a bare sign, and doubled signs are all rejected:
    // after the one optional sign, at least one digit must follow.
    assert_eq!(
        parse_take_value("", "line").unwrap_err(),
        "illegal line count -- "
    );
    assert_eq!(
        parse_take_value("+", "line").unwrap_err(),
        "illegal line count -- +"
    );
    assert_eq!(
        parse_take_value("-", "line").unwrap_err(),
        "illegal line count -- -"
    );
    assert_eq!(
        parse_take_value("++3", "line").unwrap_err(),
        "illegal line count -- ++3"
    );
    assert_eq!(
        parse_take_value("+-3", "line").unwrap_err(),
        "illegal line count -- +-3"
    );
    assert_eq!(
        parse_take_value("3-", "line").unwrap_err(),
        "illegal line count -- 3-"
    );
}

#[test]
fn test_parse_extremes() {
    // The magnitude must be representable: one past each extreme fails.
    let res = parse_take_value("9223372036854775807", "bytes");
    assert_eq!(res.unwrap(), TakeNum(i64::MIN + 1));

    let res = parse_take_value("9223372036854775808", "bytes");
    assert_eq!(
        res.unwrap_err(),
        "illegal bytes count -- 9223372036854775808"
    );

    let res = parse_take_value("+9223372036854775808", "bytes");
    assert_eq!(
        res.unwrap_err(),
        "illegal bytes count -- +9223372036854775808"
    );

    let res = parse_take_value("-9223372036854775808", "bytes");
    assert_eq!(res.unwrap(), TakeNum(i64::MIN));

    let res = parse_take_value("-9223372036854775809", "bytes");
    assert_eq!(
        res.unwrap_err(),
        "illegal bytes count -- -9223372036854775809"
    );

    // A very long digit string overflows rather than wrapping around.
    let res = parse_take_value("99999999999999999999999999", "bytes");
    assert!(res.is_err());
}

#[test]
fn test_parse_leading_zeros() {
    assert_eq!(parse_take_value("007", "line").unwrap(), TakeNum(-7));
    assert_eq!(parse_take_value("+007", "line").unwrap(), TakeNum(7));
    assert_eq!(parse_take_value("-0", "line").unwrap(), TakeNum(0));
    assert_eq!(parse_take_value("+00", "line").unwrap(), PlusZero);
}
