use molt_value::flavor::Flavor;
use molt_value::judgment::Judgment;
use molt_value::rgb::RGB;
use molt_value::value::{Datum, MoltValue};
use std::rc::Rc;

// A float is held by its decimal text, as the program around the library does.
fn from_float(flt: f64) -> MoltValue {
    MoltValue::from_string(flt.to_string())
}

fn as_float(value: &mut MoltValue) -> Result<f64, String> {
    value
        .as_string()
        .parse::<f64>()
        .map_err(|_| "Not a float".to_string())
}

#[test]
fn to_string() {
    let val = MoltValue::from_string("abc".to_string());
    assert_eq!(*val.to_string(), "abc".to_string());

    let val2 = val.clone();
    assert_eq!(*val.to_string(), *val2.to_string());
}

#[test]
fn from_as_int() {
    let mut val = MoltValue::from_int(5);
    assert_eq!(*val.to_string(), "5".to_string());
    assert_eq!(val.as_int(), Ok(5));
    assert_eq!(as_float(&mut val), Ok(5.0));

    let mut val = MoltValue::from_string("7".to_string());
    assert_eq!(*val.to_string(), "7".to_string());
    assert_eq!(val.as_int(), Ok(7));
    assert_eq!(as_float(&mut val), Ok(7.0));

    let mut val = from_float(7.0);
    assert_eq!(*val.to_string(), "7".to_string());
    assert_eq!(val.as_int(), Ok(7));
    assert_eq!(as_float(&mut val), Ok(7.0));

    let mut val = MoltValue::from_string("abc".to_string());
    assert_eq!(val.as_int(), Err("Not an integer".to_string()));
}

#[test]
fn from_as_float() {
    let mut val = from_float(12.5);
    assert_eq!(*val.to_string(), "12.5".to_string());
    assert_eq!(val.as_int(), Err("Not an integer".to_string()));
    assert_eq!(as_float(&mut val), Ok(12.5));

    let mut val = MoltValue::from_string("7.8".to_string());
    assert_eq!(*val.to_string(), "7.8".to_string());
    assert_eq!(val.as_int(), Err("Not an integer".to_string()));
    assert_eq!(as_float(&mut val), Ok(7.8));

    let mut val = MoltValue::from_int(5);
    assert_eq!(as_float(&mut val), Ok(5.0));

    let mut val = MoltValue::from_string("abc".to_string());
    assert_eq!(as_float(&mut val), Err("Not a float".to_string()));
}

#[test]
fn from_as_list() {
    let a = MoltValue::from_string("abc".to_string());
    let b = from_float(12.5);
    let listval = MoltValue::from_list(vec![a.clone(), b.clone()]);

    // Get it back as Rc<MoltList>
    let result = listval.as_list();

    assert!(result.is_ok());

    if let Ok(rclist) = result {
        assert_eq!(rclist.len(), 2);
        assert_eq!(rclist[0].to_string(), a.to_string());
        assert_eq!(rclist[1].to_string(), b.to_string());
        assert_eq!(rclist[0].to_string(), "abc");
        assert_eq!(rclist[1].to_string(), "12.5");
    }
}

#[test]
fn value_from_to_rgb() {
    let rgb = RGB::new(1, 2, 3);
    let mut myval = MoltValue::from_other(rgb);

    // Get it back as Rc<RGB>
    let result = myval.as_other::<RGB>();
    assert!(result.is_some());

    let rgb2 = result.unwrap();
    assert_eq!(rgb, *rgb2);

    let mut myval = MoltValue::from_string("#010203".to_string());
    let result = myval.as_other::<RGB>();
    assert!(result.is_some());

    let rgb2 = result.unwrap();
    assert_eq!(rgb, *rgb2);
}

#[test]
fn string_is_kept_and_shared() {
    let mut val = MoltValue::from_int(42);
    let first = val.as_string();
    let second = val.as_string();
    assert_eq!(*first, "42");
    assert!(Rc::ptr_eq(&first, &second));
    assert_eq!(val.as_int(), Ok(42));
    assert!(Rc::ptr_eq(&first, &val.as_string()));
}

#[test]
fn int_text_round_trips() {
    for n in [0i64, 1, -1, 9, 10, 99, -100, 1234567890, i64::MAX, i64::MIN] {
        let mut val = MoltValue::from_int(n);
        assert_eq!(*val.as_string(), n.to_string());
        assert_eq!(val.as_int(), Ok(n));
        let mut again = MoltValue::from_string(n.to_string());
        assert_eq!(again.as_int(), Ok(n));
    }
}

#[test]
fn int_parsing_follows_the_decimal_grammar() {
    let read = |s: &str| MoltValue::from_string(s.to_string()).as_int();
    assert_eq!(read("+5"), Ok(5));
    assert_eq!(read("-0"), Ok(0));
    assert_eq!(read("-9223372036854775808"), Ok(i64::MIN));
    assert_eq!(read("9223372036854775807"), Ok(i64::MAX));
    assert_eq!(read("9223372036854775808"), Err("Not an integer".to_string()));
    assert_eq!(read("-9223372036854775809"), Err("Not an integer".to_string()));
    assert_eq!(read(""), Err("Not an integer".to_string()));
    assert_eq!(read("-"), Err("Not an integer".to_string()));
    assert_eq!(read("+"), Err("Not an integer".to_string()));
    assert_eq!(read(" 5"), Err("Not an integer".to_string()));
    assert_eq!(read("5x"), Err("Not an integer".to_string()));
    assert_eq!(read("1e3"), Err("Not an integer".to_string()));
}

#[test]
fn string_survives_int_conversion() {
    let mut val = MoltValue::from_string("007".to_string());
    assert_eq!(val.as_int(), Ok(7));
    assert_eq!(*val.as_string(), "007");
    assert_eq!(val.to_string(), "007");
    assert!(matches!(val.as_list(), Err(_)));
}

#[test]
fn failed_conversions_report_their_kind() {
    let mut val = MoltValue::from_string("abc".to_string());
    assert_eq!(val.as_int(), Err("Not an integer".to_string()));
    assert_eq!(as_float(&mut val), Err("Not a float".to_string()));
    assert_eq!(val.as_list().err(), Some("Not a list".to_string()));
    assert_eq!(MoltValue::from_int(3).as_list().err(), Some("Not a list".to_string()));
    assert_eq!(*val.as_string(), "abc");
}

#[test]
fn other_type_mismatch_gives_nothing() {
    let mut val = MoltValue::from_other(RGB::new(1, 2, 3));
    assert!(val.as_other::<Judgment>().is_none());
    assert!(val.as_other::<Flavor>().is_none());
    assert_eq!(val.as_copy::<RGB>(), Some(RGB::new(1, 2, 3)));
    assert_eq!(*val.as_string(), "#010203");
    assert_eq!(val.as_int(), Err("Not an integer".to_string()));
}

#[test]
fn other_round_trips_through_its_text() {
    let c = RGB::new(10, 20, 30);
    let mut val = MoltValue::from_other(c);
    assert_eq!(val.as_other::<RGB>().map(|p| *p), Some(c));
    let mut text_val = MoltValue::from_string(c.to_string());
    assert_eq!(text_val.as_other::<RGB>().map(|p| *p), Some(c));
    assert_eq!(text_val.as_copy::<RGB>(), Some(c));
}

#[test]
fn string_value_caches_the_parsed_type() {
    let mut val = MoltValue::from_string("Good".to_string());
    assert_eq!(val.as_copy::<Judgment>(), Some(Judgment::GOOD));
    assert_eq!(*val.as_string(), "Good");
    assert_eq!(val.as_copy::<Flavor>(), None);
    assert_eq!(val.as_copy::<Judgment>(), Some(Judgment::GOOD));
}

#[test]
fn int_value_shimmers_to_other_types() {
    let mut val = MoltValue::from_int(12);
    assert!(val.as_other::<RGB>().is_none());
    assert_eq!(val.as_int(), Ok(12));
    let mut listed = MoltValue::from_list(vec![MoltValue::from_int(5)]);
    assert_eq!(*listed.as_string(), "5");
    assert_eq!(listed.as_int(), Ok(5));
    assert!(listed.as_list().is_err());
}

#[test]
fn list_text_quotes_its_elements() {
    let list = MoltValue::from_list(vec![
        MoltValue::from_string("a b".to_string()),
        MoltValue::from_string(String::new()),
        MoltValue::from_int(-5),
        MoltValue::from_string("x{y".to_string()),
        MoltValue::from_string("tab\there".to_string()),
        MoltValue::from_string("p\\q r".to_string()),
        MoltValue::from_other(Flavor::SWEET),
    ]);
    assert_eq!(
        list.to_string(),
        "{a b} {} -5 x\\{y {tab\there} p\\\\q\\ r sweet"
    );
    let nested = MoltValue::from_list(vec![
        MoltValue::from_string("a".to_string()),
        MoltValue::from_list(vec![
            MoltValue::from_int(1),
            MoltValue::from_int(2),
        ]),
    ]);
    assert_eq!(nested.to_string(), "a {1 2}");
    assert_eq!(MoltValue::from_list(Vec::new()).to_string(), "");
    assert_eq!(
        MoltValue::from_string("line\nbreak{".to_string()),
        MoltValue::from_string("line\nbreak{".to_string())
    );
    let escaped = MoltValue::from_list(vec![MoltValue::from_string("a\nb}".to_string())]);
    assert_eq!(escaped.to_string(), "a\\nb\\}");
}

#[test]
fn list_is_returned_as_given() {
    let a = MoltValue::from_string("abc".to_string());
    let listval = MoltValue::from_list(vec![a.clone(), MoltValue::from_int(3)]);
    let first = listval.as_list().unwrap();
    let second = listval.as_list().unwrap();
    assert!(Rc::ptr_eq(&first, &second));
    assert_eq!(first[0], a);
    assert_eq!(first[1], MoltValue::from_string("3".to_string()));
}

#[test]
fn values_compare_by_text() {
    assert_eq!(MoltValue::from_int(7), MoltValue::from_string("7".to_string()));
    assert_ne!(MoltValue::from_int(7), MoltValue::from_string("007".to_string()));
    assert_eq!(
        MoltValue::from_other(Judgment::BAD),
        MoltValue::from_string("bad".to_string())
    );
}

#[test]
fn empty_and_absent_values() {
    let mut val = MoltValue::from_string(String::new());
    assert_eq!(*val.as_string(), "");
    assert_eq!(val.as_int(), Err("Not an integer".to_string()));
    assert!(val.as_other::<RGB>().is_none());
    let _ = Datum::Absent;
}
