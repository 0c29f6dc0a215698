use codetrial::json::{parse, Fields, Items, Json, Number};

fn json(text: &str) -> Json {
    parse(text.as_bytes()).expect("JSON text")
}

#[test]
fn parsing_reads_every_kind_of_value() {
    assert!(matches!(json("null"), Json::Null));
    assert!(matches!(json(" true "), Json::Bool(true)));
    assert_eq!(json("0"), Json::Number(Number::Unsigned(0)));
    assert_eq!(json("18446744073709551615"), Json::Number(Number::Unsigned(u64::MAX)));
    assert_eq!(json("-9223372036854775808"), Json::Number(Number::Negative(i64::MIN)));
    assert_eq!(json("-7"), Json::Number(Number::Negative(-7)));
    assert_eq!(json("1.5"), Json::Number(Number::Double(1.5f64.to_bits())));
    assert_eq!(json("-0.25e2"), Json::Number(Number::Double((-25.0f64).to_bits())));
    assert_eq!(json(r#""é\n""#), Json::text("\u{e9}\n"));
    assert_eq!(
        json(r#"[1, [], {"a": null}]"#),
        Items::new()
            .with(Json::whole(1))
            .with(Items::new().array())
            .with(Fields::new().with("a", Json::Null).object())
            .array()
    );
}

#[test]
fn parsing_refuses_what_is_not_one_json_text() {
    for text in ["", "{", "[1,]", "nul", "1 2", "{\"a\":1} x", "'a'", "1e400"] {
        assert_eq!(parse(text.as_bytes()), None, "{text}");
    }
    assert_eq!(parse(b"\"\xff\""), None);
}

#[test]
fn of_two_fields_with_one_name_the_later_counts() {
    let parsed = json(r#"{ "id": 1, "id": 2 }"#);
    assert_eq!(parsed.get("id"), Some(&Json::whole(2)));
    let built = Fields::new().with("id", Json::whole(1)).with("id", Json::whole(2)).object();
    assert_eq!(built.get("id"), Some(&Json::whole(2)));
    assert_eq!(built, parsed);
    assert_ne!(built, json(r#"{ "id": 1 }"#));
}

#[test]
fn the_order_of_fields_is_no_part_of_an_object() {
    assert_eq!(json(r#"{ "a": 1, "b": [2] }"#), {
        Fields::new()
            .with("b", Items::new().with(Json::whole(2)).array())
            .with("a", Json::whole(1))
            .object()
    });
    assert_ne!(json("[1, 2]"), json("[2, 1]"));
    assert_ne!(json("[1]"), json("[1, 1]"));
    assert_ne!(json(r#"{ "a": 1 }"#), json(r#"{ "a": 1, "b": 1 }"#));
    assert_ne!(json(r#"{ "a": 1, "b": 1 }"#), json(r#"{ "a": 1 }"#));
    assert_ne!(json(r#"{ "a": 1 }"#), json(r#"{ "b": 1 }"#));
    assert_ne!(json("1"), json(r#""1""#));
}

#[test]
fn only_objects_have_fields_and_only_strings_are_text() {
    assert_eq!(json("[1]").get("0"), None);
    assert_eq!(json("null").get("a"), None);
    assert_eq!(json(r#"{ "a": "b" }"#).get("b"), None);
    assert_eq!(json(r#"{ "a": "b" }"#).get("a").and_then(Json::as_str), Some("b"));
    assert_eq!(json("7").as_str(), None);
}

#[test]
fn a_copy_is_the_same_value() {
    let value = json(r#"{ "a": [1, -2, 3.5, "x", null, true, { "b": {} }] }"#);
    assert_eq!(value.clone(), value);
}

#[test]
fn whole_numbers_keep_their_sign() {
    assert!(matches!(Json::whole(-32601), Json::Number(Number::Negative(-32601))));
    assert!(matches!(Json::whole(7), Json::Number(Number::Unsigned(7))));
}

#[test]
fn the_two_zeros_of_doubles_are_one_number() {
    assert_eq!(json("0.0"), json("-0.0"));
    assert_eq!(json("-0"), json("0.0"));
    assert_eq!(json(r#"{ "a": [0.0, { "b": -0.0 }] }"#), json(r#"{ "a": [-0.0, { "b": 0.0 }] }"#));
    assert_eq!(Number::Double(0.0f64.to_bits()), Number::Double((-0.0f64).to_bits()));

    assert_ne!(json("0"), json("0.0"));
    assert_ne!(json("1"), json("1.0"));
    assert_ne!(json("0.5"), json("-0.5"));
    assert_ne!(json("-0.0"), json("5e-324"));
    assert_ne!(json("[0.0]"), json("[-0.0, 0.0]"));
}

#[test]
fn a_copy_keeps_the_sign_of_a_zero() {
    match json("-0.0").clone() {
        Json::Number(Number::Double(bits)) => assert_eq!(bits, (-0.0f64).to_bits()),
        other => panic!("{other:?}"),
    }
}

#[test]
fn only_integers_that_fit_64_bits_are_kept_as_integers() {
    assert!(matches!(json("1.0"), Json::Number(Number::Double(_))));
    assert!(matches!(json("-0"), Json::Number(Number::Double(_))));
    assert!(matches!(json("18446744073709551616"), Json::Number(Number::Double(_))));
    assert!(matches!(json("-9223372036854775809"), Json::Number(Number::Double(_))));
}

/// Equality holds of a value and itself, both ways, and through a third.
#[test]
fn equality_is_an_equivalence() {
    let values = [json(r#"[0.0, "x"]"#), json(r#"[-0.0, "x"]"#), json(r#"[-0, "x"]"#)];
    for a in &values {
        for b in &values {
            assert_eq!(a, b);
        }
    }
}
