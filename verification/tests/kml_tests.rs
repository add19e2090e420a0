use minigis::jsonval::JsonValue;
use minigis::kml::parse_kml_description;

#[test]
fn mixed_pair_kinds() {
    let props = parse_kml_description("\"OBJECTID\":1 \"NAME\":\"岷江\" \"LEN\":12.5");
    assert_eq!(props.len(), 3);
    assert_eq!(props.get("OBJECTID"), Some(&JsonValue::Int(1)));
    assert_eq!(props.get("NAME"), Some(&JsonValue::Str("岷江".to_string())));
    assert_eq!(props.get("LEN"), Some(&JsonValue::Num("12.5".to_string())));
}

#[test]
fn quoted_value_keeps_spaces_out() {
    let props = parse_kml_description("\"RIVER\":\"Min Jiang\" \"K\":v");
    assert_eq!(props.get("RIVER"), Some(&JsonValue::Str("Min Jiang".to_string())));
    assert_eq!(props.get("K"), Some(&JsonValue::Str("v".to_string())));
}

#[test]
fn later_key_overwrites_earlier() {
    let props = parse_kml_description("\"A\":1 \"A\":2");
    assert_eq!(props.len(), 1);
    assert_eq!(props.get("A"), Some(&JsonValue::Int(2)));
}

#[test]
fn number_is_canonicalized() {
    // the value is re-rendered, not handed back as the raw token
    let props = parse_kml_description("\"LEN\":12.50");
    assert_eq!(props.get("LEN"), Some(&JsonValue::Num("12.5".to_string())));
}

#[test]
fn leading_dot_and_plus_are_numbers() {
    let props = parse_kml_description("\"A\":.5 \"B\":+3.5 \"C\":+7");
    assert_eq!(props.get("A"), Some(&JsonValue::Num("0.5".to_string())));
    assert_eq!(props.get("B"), Some(&JsonValue::Num("3.5".to_string())));
    assert_eq!(props.get("C"), Some(&JsonValue::Int(7)));
}

#[test]
fn exponent_form_is_a_number() {
    let props = parse_kml_description("\"A\":-2.5e3");
    assert_eq!(props.get("A"), Some(&JsonValue::Num("-2500.0".to_string())));
}

#[test]
fn out_of_range_number_stays_text() {
    let props = parse_kml_description("\"A\":1e999");
    assert_eq!(props.get("A"), Some(&JsonValue::Str("1e999".to_string())));
}

#[test]
fn non_numeric_token_stays_text() {
    let props = parse_kml_description("\"A\":abc \"B\":--5 \"C\":nan");
    assert_eq!(props.get("A"), Some(&JsonValue::Str("abc".to_string())));
    assert_eq!(props.get("B"), Some(&JsonValue::Str("--5".to_string())));
    assert_eq!(props.get("C"), Some(&JsonValue::Str("nan".to_string())));
}

#[test]
fn leading_zero_integer() {
    let props = parse_kml_description("\"A\":007");
    assert_eq!(props.get("A"), Some(&JsonValue::Int(7)));
}

#[test]
fn empty_description_has_no_pairs() {
    let props = parse_kml_description("");
    assert_eq!(props.len(), 0);
}

#[test]
fn unclosed_quote_yields_nothing() {
    let props = parse_kml_description("\"A\":\"unclosed");
    assert_eq!(props.len(), 0);
}

#[test]
fn text_between_pairs_is_skipped() {
    let props = parse_kml_description("<b>info</b> \"A\":1 and \"B\":two");
    assert_eq!(props.len(), 2);
    assert_eq!(props.get("A"), Some(&JsonValue::Int(1)));
    assert_eq!(props.get("B"), Some(&JsonValue::Str("two".to_string())));
}

#[test]
fn empty_key_does_not_match() {
    let props = parse_kml_description("\"\":1 \"B\":2");
    assert_eq!(props.get(""), None);
    assert_eq!(props.get("B"), Some(&JsonValue::Int(2)));
}

#[test]
fn huge_integer_becomes_number() {
    // too large for a 64-bit integer, still a finite double
    let props = parse_kml_description("\"A\":123456789012345678901");
    match props.get("A") {
        Some(JsonValue::Num(_)) => {},
        other => panic!("expected a number, got {:?}", other),
    }
}
