use termcap::names::NameTable;

#[test]
fn categories_know_their_codes() {
    let t = NameTable::new();
    assert!(t.is_bool("am"));
    assert!(t.is_bool("bc"));
    assert!(!t.is_bool("co"));
    assert!(t.is_numeric("co"));
    assert!(t.is_numeric("li"));
    assert!(!t.is_numeric("ve"));
    assert!(t.is_string("ve"));
    assert!(t.is_string("cm"));
    assert!(!t.is_string("xyz123"));
}

#[test]
fn table_lists_are_populated_in_declared_order() {
    let t = NameTable::new();
    assert_eq!(t.booleans[0].code.as_str(), "am");
    assert_eq!(t.booleans[0].long_name.as_str(), "has automatic margins");
    assert_eq!(t.numerics[0].code.as_str(), "co");
    assert_eq!(t.strings[0].code.as_str(), "al");
    assert!(t.booleans.len() > 0 && t.numerics.len() > 0 && t.strings.len() > 0);
}

#[test]
fn unknown_codes_are_in_no_category() {
    let t = NameTable::new();
    assert!(!t.is_bool(""));
    assert!(!t.is_numeric(""));
    assert!(!t.is_string(""));
    assert!(!t.is_bool("ampersand"));
}
