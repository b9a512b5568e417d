use aks_tui::filter::{contains, Query};
use aks_tui::search;

const PODS: &[&str] = &["status", "owner", "app", "node"];

#[test]
fn a_token_is_a_field_only_when_the_list_knows_the_key() {
    let query = Query::parse("orders status:crash owner:orders-api", PODS);
    assert_eq!(query.words, ["orders"]);
    assert_eq!(
        query.fields,
        [
            ("status".to_owned(), "crash".to_owned()),
            ("owner".to_owned(), "orders-api".to_owned())
        ]
    );
}

#[test]
fn a_colon_in_something_that_is_not_a_filter_stays_a_word() {
    let query = Query::parse("orders-api:1.2.3 foo:bar", PODS);
    assert_eq!(
        query.words,
        ["orders-api:1.2.3", "foo:bar"],
        "an unknown key is not a mistake, it is what was typed"
    );
    assert!(query.fields.is_empty());

    let query = Query::parse("status:", PODS);
    assert!(
        query.words.is_empty() && query.fields.is_empty(),
        "a key with nothing after it is nothing yet, not a word that empties the table"
    );
}

#[test]
fn a_plain_field_is_a_case_insensitive_substring() {
    assert!(contains("CrashLoopBackOff", "crash"));
    assert!(!contains("Running", "crash"));
}

#[test]
fn a_key_is_known_in_any_case_and_a_value_keeps_its_colons() {
    let query = Query::parse("  Status:A:b\u{2003}WORD ", PODS);
    assert_eq!(query.fields, [("status".to_owned(), "A:b".to_owned())]);
    assert_eq!(query.words, ["WORD"]);
    assert_eq!(Query::parse("", PODS), Query::default());
    assert!(contains("anything", ""));
    assert!(!contains("É", "é"), "only ASCII has a case here");
}

#[test]
fn a_word_lights_up_every_character_it_stands_over() {
    let query = search::Query::new(&vec!["aba".to_owned(), "X".to_owned()]);
    assert_eq!(query.indices("ababAx"), [0, 1, 2, 3, 4, 5]);
    assert_eq!(query.indices("..aba"), [2, 3, 4]);
    assert!(query.indices("").is_empty());
    assert!(search::Query::new(&Vec::new()).indices("aba").is_empty());
}
