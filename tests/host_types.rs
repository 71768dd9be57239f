use molt_value::external::{MoltAny, MyAny};
use molt_value::flavor::Flavor;
use molt_value::judgment::Judgment;
use molt_value::pair::MoltPair;
use molt_value::rgb::RGB;
use molt_value::value::MoltValue;
use std::str::FromStr;

#[test]
fn rgb_from_to() {
    let rgb = RGB::new(255, 255, 255);
    assert_eq!(RGB::from_str("#FFFFFF"), Ok(rgb));
    assert_eq!(str::parse::<RGB>("#FFFFFF"), Ok(rgb));

    let str = rgb.to_string();
    assert_eq!(RGB::from_str(&str), Ok(rgb));

    let rgb = RGB::new(1, 2, 3);
    assert_eq!(RGB::from_str("#010203"), Ok(rgb));
    assert_eq!(str::parse::<RGB>("#010203"), Ok(rgb));
    assert_eq!(rgb.to_string(), "#010203".to_string());

    assert_eq!(
        RGB::from_str("010203"),
        Err("Not a hex RGB string".to_string())
    );
}

#[test]
fn rgb_from_molt() {
    let rgb = RGB::new(255, 255, 255);
    let mut value = MoltValue::from_other(rgb);

    let rgb2 = RGB::from_molt(&mut value);

    assert_eq!(*(rgb2.unwrap()), RGB::new(255, 255, 255));
}

#[test]
fn rgb_text_is_lower_case_hex() {
    assert_eq!(RGB::new(171, 205, 239).to_string(), "#abcdef");
    assert_eq!(RGB::new(0, 16, 255).to_string(), "#0010ff");
    assert_eq!(RGB::from_str("#aBcDeF"), Ok(RGB::new(171, 205, 239)));
}

#[test]
fn rgb_rejects_malformed_text() {
    assert_eq!(RGB::parse("#01020"), None);
    assert_eq!(RGB::parse("#0102030"), None);
    assert_eq!(RGB::parse("#01020g"), None);
    assert_eq!(RGB::parse("#g10203"), None);
    assert_eq!(RGB::parse(""), None);
    let mut value = MoltValue::from_string("red".to_string());
    assert_eq!(
        RGB::from_molt(&mut value),
        Err("Not a hex RGB string".to_string())
    );
}

#[test]
fn judgment_from_to() {
    assert_eq!(Judgment::from_str("Good"), Ok(Judgment::GOOD));
    assert_eq!(str::parse::<Judgment>("bad"), Ok(Judgment::BAD));
    assert_eq!(Judgment::GOOD.to_string(), "good".to_string());
}

#[test]
fn judgment_from_molt() {
    let mut value = MoltValue::from_other(Judgment::GOOD);

    let out = Judgment::from_molt(&mut value);

    assert_eq!(*(out.unwrap()), Judgment::GOOD);
}

#[test]
fn judgment_reads_any_case() {
    assert_eq!(Judgment::parse("GOOD"), Some(Judgment::GOOD));
    assert_eq!(Judgment::parse("bAd"), Some(Judgment::BAD));
    assert_eq!(Judgment::parse("goods"), None);
    assert_eq!(Judgment::parse(""), None);
    assert_eq!(Judgment::BAD.to_string(), "bad");
    assert_eq!(
        Judgment::from_str("fine"),
        Err("Not a Judgment string".to_string())
    );
    let mut value = MoltValue::from_string("so-so".to_string());
    assert_eq!(
        Judgment::from_molt(&mut value),
        Err("Not a Judgment string".to_string())
    );
}

#[test]
fn flavor_from_to() {
    assert_eq!(Flavor::from_str("Salty"), Ok(Flavor::SALTY));
    assert_eq!(str::parse::<Flavor>("sweet"), Ok(Flavor::SWEET));
    assert_eq!(Flavor::SALTY.to_string(), "salty".to_string());
}

#[test]
fn flavor_from_molt() {
    let mut value = MoltValue::from_other(Flavor::SALTY);

    let out = Flavor::from_molt(&mut value);

    assert_eq!(*(out.unwrap()), Flavor::SALTY);
}

#[test]
fn flavor_rejects_other_words() {
    assert_eq!(Flavor::from_str("sour"), Err("Not a flavor string".to_string()));
    assert_eq!(Flavor::from_str("SWEET"), Ok(Flavor::SWEET));
    assert_eq!(Flavor::SWEET.to_string(), "sweet");
}

#[test]
fn pair_text_and_parse() {
    let p = MoltPair::new(3, 4);
    assert_eq!(p.to_string(), "(3,4)");
    assert_eq!(MoltPair::new(-7, 2147483647).to_string(), "(-7,2147483647)");
    assert_eq!(MoltPair::parse("(3,4)"), Some(p.clone()));
    assert_eq!(MoltPair::parse("(-3,+4)"), Some(MoltPair::new(-3, 4)));
    assert_eq!(MoltPair::parse("(3,4,5)"), None);
    assert_eq!(MoltPair::parse("(3 ,4)"), None);
    assert_eq!(MoltPair::parse("(2147483648,0)"), None);
    assert_eq!(MoltPair::parse("(3)"), None);
    assert_eq!(MoltPair::parse("()"), None);
}

#[test]
fn pair_through_erased_handle() {
    let handle = MoltAny::new(&MoltPair::new(3, 4));
    assert!(handle.is::<MoltPair>());
    assert_eq!(MoltPair::any_to_string(&handle), "(3,4)");
    let copy = MoltPair::any_clone(&handle);
    assert_eq!(copy.downcast::<MoltPair>().map(|p| (*p).clone()), Some(MoltPair::new(3, 4)));
    assert_eq!(*copy.to_text(), "(3,4)");
}

#[test]
fn erased_handle_checks_the_type() {
    let handle = MoltAny::new(&RGB::new(1, 2, 3));
    assert!(handle.is::<RGB>());
    assert!(!handle.is::<Judgment>());
    assert_eq!(handle.downcast::<RGB>().map(|c| *c), Some(RGB::new(1, 2, 3)));
    assert!(handle.downcast::<Judgment>().is_none());
    assert!(handle.downcast::<MoltPair>().is_none());
    assert_eq!(*handle.to_text(), "#010203");

    let handle = MoltAny::with_text::<Flavor>(std::rc::Rc::new("Sweet".to_string()));
    assert_eq!(handle.downcast::<Flavor>().map(|f| *f), Some(Flavor::SWEET));
}

#[test]
fn host_types_name_themselves() {
    assert_eq!(RGB::tag(), "RGB");
    assert_eq!(Judgment::tag(), "Judgment");
    assert_eq!(Flavor::tag(), "Flavor");
    assert_eq!(MoltPair::tag(), "MoltPair");
    assert_eq!(RGB::new(9, 8, 7).to_text(), "#090807");
    assert_eq!(Judgment::parse_text("Bad"), Some(Judgment::BAD));
}

#[test]
fn value6_from_to_rgb() {
    let rgb = RGB::new(1, 2, 3);

    let mut myval = MoltValue::from_other(rgb);

    // Get it back as Rc<RGB>
    let result = myval.as_other::<RGB>();
    assert!(result.is_some());

    let rgb2 = result.unwrap();
    assert_eq!(rgb, *rgb2);
}
