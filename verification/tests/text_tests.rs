use coap_pubsub::text::{same_text, split_path};

#[test]
fn split_path_discards_empty_components() {
    assert_eq!(split_path("/ps//data/abc123/"), vec!["ps".to_string(), "data".to_string(), "abc123".to_string()]);
    assert_eq!(split_path(""), Vec::<String>::new());
    assert_eq!(split_path("///"), Vec::<String>::new());
    assert_eq!(split_path("discovery"), vec!["discovery".to_string()]);
}

#[test]
fn same_text_compares_characters() {
    assert!(same_text("ps", "ps"));
    assert!(!same_text("ps", "pS"));
    assert!(!same_text("ps", "ps "));
    assert!(same_text("", ""));
}
