use coap_pubsub::uri::{generate_uri, identifier_at, uri_from_choices, IDENTIFIER_COUNT, URI_LENGTH};

#[test]
fn choices_spell_digits_then_letters() {
    assert_eq!(uri_from_choices(&vec![0, 9, 10, 35, 1, 11]), "09az1b");
    assert_eq!(uri_from_choices(&vec![]), "");
    assert_eq!(uri_from_choices(&vec![36, 37, 255]), "013");
}

#[test]
fn generated_identifier_has_six_symbols() {
    for _ in 0..200 {
        let uri = generate_uri();
        assert_eq!(uri.chars().count(), URI_LENGTH);
        assert!(uri.chars().all(|c| c.is_ascii_digit() || c.is_ascii_lowercase()));
    }
}

#[test]
fn generated_identifiers_vary() {
    let first = generate_uri();
    let mut differs = false;
    let mut symbols = std::collections::BTreeSet::new();
    for _ in 0..200 {
        let uri = generate_uri();
        differs = differs || uri != first;
        symbols.extend(uri.chars());
    }
    assert!(differs);
    assert!(symbols.len() > 20);
}

#[test]
fn identifiers_stand_in_order() {
    assert_eq!(identifier_at(0), "000000");
    assert_eq!(identifier_at(1), "000001");
    assert_eq!(identifier_at(35), "00000z");
    assert_eq!(identifier_at(36), "000010");
    assert_eq!(identifier_at(36 * 36 * 10 + 36 * 11 + 12), "000abc");
    assert_eq!(identifier_at(IDENTIFIER_COUNT - 1), "zzzzzz");
    assert_eq!(IDENTIFIER_COUNT as u64, 36u64.pow(6));
}
