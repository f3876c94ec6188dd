use termcap::errors::ResolveError;
use termcap::parser::parse;

#[test]
fn names_are_the_first_field_in_order() {
    let caps = parse("a|b|c:am").unwrap();
    let names: Vec<&str> = caps.names.iter().map(|s| s.as_str()).collect();
    assert_eq!(names, vec!["a", "b", "c"]);
}

#[test]
fn single_name_record() {
    let caps = parse("myterm").unwrap();
    let names: Vec<&str> = caps.names.iter().map(|s| s.as_str()).collect();
    assert_eq!(names, vec!["myterm"]);
}

#[test]
fn empty_record_has_one_empty_name() {
    let caps = parse("").unwrap();
    let names: Vec<&str> = caps.names.iter().map(|s| s.as_str()).collect();
    assert_eq!(names, vec![""]);
    assert_eq!(caps.num_cap("co"), None);
}

#[test]
fn numeric_capability_is_decoded() {
    let caps = parse("t:co#80").unwrap();
    assert_eq!(caps.num_cap("co"), Some(80));
    assert_eq!(caps.num_cap("li"), None);
}

#[test]
fn malformed_numeric_value_is_fatal() {
    let r = parse("t:co#abc");
    assert!(matches!(r, Err(ResolveError::UnparsableNumeric)));
}

#[test]
fn malformed_numeric_value_with_unknown_code_is_fatal() {
    let r = parse("t:zz#12x");
    assert!(matches!(r, Err(ResolveError::UnparsableNumeric)));
}

#[test]
fn numeric_value_too_large_is_fatal() {
    let r = parse("t:co#99999999999");
    assert!(matches!(r, Err(ResolveError::UnparsableNumeric)));
}

#[test]
fn bare_field_is_a_boolean_capability() {
    let caps = parse("t:bc").unwrap();
    assert!(caps.bool_cap("bc"));
    assert!(!caps.bool_cap("am"));
}

#[test]
fn escape_sequence_is_replaced_in_string_values() {
    let caps = parse("t:ve=\\Ex").unwrap();
    assert_eq!(caps.str_cap("ve").unwrap().as_slice(), &[0x1b, b'x']);
}

#[test]
fn only_the_escape_pair_is_special() {
    let caps = parse("t:ve=\\nx").unwrap();
    assert_eq!(caps.str_cap("ve").unwrap().as_slice(), &[b'\\', b'n', b'x']);
}

#[test]
fn escape_after_backslash_is_still_replaced() {
    let caps = parse("t:ve=\\\\Ex").unwrap();
    assert_eq!(caps.str_cap("ve").unwrap().as_slice(), &[b'\\', 0x1b, b'x']);
}

#[test]
fn string_value_keeps_later_equals_signs() {
    let caps = parse("t:is=a=b").unwrap();
    assert_eq!(caps.str_cap("is").unwrap().as_slice(), b"a=b");
}

#[test]
fn unknown_string_code_is_dropped_and_parsing_goes_on() {
    let caps = parse("t:xyz123=foo:co#80").unwrap();
    assert!(caps.str_cap("xyz123").is_none());
    assert_eq!(caps.num_cap("co"), Some(80));
}

#[test]
fn unknown_boolean_code_is_dropped() {
    let caps = parse("t:zz:am").unwrap();
    assert!(!caps.bool_cap("zz"));
    assert!(caps.bool_cap("am"));
}

#[test]
fn unknown_numeric_code_with_good_value_is_dropped() {
    let caps = parse("t:zz#12:li#24").unwrap();
    assert_eq!(caps.num_cap("zz"), None);
    assert_eq!(caps.num_cap("li"), Some(24));
}

#[test]
fn padding_fields_are_skipped() {
    let caps = parse("t:\t:\0:co#80").unwrap();
    assert!(!caps.bool_cap("\t"));
    assert_eq!(caps.num_cap("co"), Some(80));
}

#[test]
fn empty_fields_are_harmless() {
    let caps = parse("t::am:").unwrap();
    assert!(caps.bool_cap("am"));
}

#[test]
fn leading_hash_field_is_not_numeric_or_string() {
    let caps = parse("t:#co=1").unwrap();
    assert!(caps.str_cap("#co").is_none());
    assert_eq!(caps.num_cap("#co"), None);
}

#[test]
fn later_field_overrides_an_earlier_one() {
    let caps = parse("t:co#80:co#132").unwrap();
    assert_eq!(caps.num_cap("co"), Some(132));
}

#[test]
fn full_record_decodes_every_category() {
    let caps = parse("vt|fancy terminal:am:xn:co#80:li#24:ce=\\EK:ho=\\EH").unwrap();
    let names: Vec<&str> = caps.names.iter().map(|s| s.as_str()).collect();
    assert_eq!(names, vec!["vt", "fancy terminal"]);
    assert!(caps.bool_cap("am"));
    assert!(caps.bool_cap("xn"));
    assert!(!caps.bool_cap("bc"));
    assert!(caps.booleans.contains("am"));
    assert!(!caps.strings.contains("cm"));
    assert_eq!(caps.num_cap("co"), Some(80));
    assert_eq!(caps.num_cap("li"), Some(24));
    assert_eq!(caps.str_cap("ce").unwrap().as_slice(), &[0x1b, b'K']);
    assert_eq!(caps.str_cap("ho").unwrap().as_slice(), &[0x1b, b'H']);
}

#[test]
fn leading_zeroes_in_numbers_are_accepted() {
    let caps = parse("t:co#007").unwrap();
    assert_eq!(caps.num_cap("co"), Some(7));
}

#[test]
fn largest_numeric_value_fits() {
    let caps = parse("t:co#4294967295").unwrap();
    assert_eq!(caps.num_cap("co"), Some(4294967295));
}

#[test]
fn one_past_largest_numeric_value_is_fatal() {
    let r = parse("t:co#4294967296");
    assert!(matches!(r, Err(ResolveError::UnparsableNumeric)));
}
