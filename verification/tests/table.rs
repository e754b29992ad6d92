use url_shortener::table::{
    index_item, index_key, record_item, record_key, record_of, save_failure, save_puts,
    short_url_of, text_attribute, text_of, Attribute, AttributeValue, Put, CONDITION_FAILED,
    CREATED_AT, DIGEST, IF_ABSENT, INDEX_NAME, LONG_URL, SHORT_URL, TABLE_NAME,
};
use url_shortener::url_store::StoreError;

fn text(name: &str, value: &str) -> Attribute {
    Attribute { name: name.to_string(), value: AttributeValue::S(value.to_string()) }
}

#[test]
fn names_of_the_layout() {
    assert_eq!(TABLE_NAME, "shorten.url");
    assert_eq!(INDEX_NAME, "shorten.url.digest-index");
    assert_eq!(SHORT_URL, "short_url");
    assert_eq!(DIGEST, "digest");
    assert_eq!(LONG_URL, "long_url");
    assert_eq!(CREATED_AT, "created_at");
    assert_eq!(IF_ABSENT, "attribute_not_exists(short_url)");
    assert_eq!(CONDITION_FAILED, "ConditionalCheckFailed");
}

#[test]
fn keys() {
    assert_eq!(record_key("CGF0"), text("short_url", "CGF0"));
    assert_eq!(index_key(&vec![0xAB, 0x01]), text("digest", "ab01"));
    assert_eq!(text_attribute("k", "v".to_string()), text("k", "v"));
}

#[test]
fn record_item_has_the_four_attributes() {
    let item = record_item("CGF0", &vec![0x00, 0xff, 0x10], "https://long-url", 1_700_000_000_123);
    assert_eq!(
        item,
        vec![
            text("short_url", "CGF0"),
            text("digest", "00ff10"),
            text("long_url", "https://long-url"),
            Attribute { name: "created_at".to_string(), value: AttributeValue::N(1_700_000_000_123) },
        ]
    );
}

#[test]
fn index_item_has_the_two_attributes() {
    let item = index_item("CGF0", &vec![0x00, 0xff, 0x10]);
    assert_eq!(item, vec![text("digest", "00ff10"), text("short_url", "CGF0")]);
}

#[test]
fn items_read_back() {
    let item = record_item("CGF0", &vec![0xde, 0xad], "https://long-url", 0);
    assert_eq!(record_of(&item), Some(("dead".to_string(), "https://long-url".to_string())));
    assert_eq!(short_url_of(&item), Some("CGF0".to_string()));
    let index = index_item("CGF0", &vec![0xde, 0xad]);
    assert_eq!(short_url_of(&index), Some("CGF0".to_string()));
    assert_eq!(record_of(&index), None);
}

#[test]
fn record_of_needs_both_texts() {
    assert_eq!(record_of(&vec![]), None);
    assert_eq!(record_of(&vec![text("digest", "dead")]), None);
    assert_eq!(record_of(&vec![text("long_url", "https://x.example")]), None);
    assert_eq!(
        record_of(&vec![text("long_url", "https://x.example"), text("digest", "dead")]),
        Some(("dead".to_string(), "https://x.example".to_string()))
    );
    assert_eq!(
        record_of(&vec![
            Attribute { name: "digest".to_string(), value: AttributeValue::N(7) },
            text("long_url", "https://x.example"),
        ]),
        None
    );
    assert_eq!(
        record_of(&vec![
            text("digest", "dead"),
            Attribute { name: "long_url".to_string(), value: AttributeValue::Other },
        ]),
        None
    );
}

#[test]
fn text_of_reads_the_first_attribute_of_the_name() {
    let item = vec![
        Attribute { name: "n".to_string(), value: AttributeValue::N(1) },
        text("a", "one"),
        text("a", "two"),
        text("n", "late"),
    ];
    assert_eq!(text_of(&item, "a"), Some("one".to_string()));
    assert_eq!(text_of(&item, "n"), None);
    assert_eq!(text_of(&item, "b"), None);
    assert_eq!(text_of(&item, "A"), None);
}

#[test]
fn short_url_of_wants_a_text() {
    assert_eq!(short_url_of(&vec![]), None);
    assert_eq!(
        short_url_of(&vec![Attribute { name: "short_url".to_string(), value: AttributeValue::N(3) }]),
        None
    );
    assert_eq!(short_url_of(&vec![text("short_URL", "CGF0")]), None);
}

#[test]
fn save_writes_the_record_and_its_index_entry() {
    let digest = vec![0x0a, 0xbc];
    let (record, index) = save_puts("CGF0", &digest, "https://long-url", 42);
    assert_eq!(
        record,
        Put {
            table_name: "shorten.url".to_string(),
            item: record_item("CGF0", &digest, "https://long-url", 42),
            condition: Some("attribute_not_exists(short_url)".to_string()),
        }
    );
    assert_eq!(
        index,
        Put {
            table_name: "shorten.url.digest-index".to_string(),
            item: vec![text("digest", "0abc"), text("short_url", "CGF0")],
            condition: None,
        }
    );
    assert_eq!(record_of(&record.item), Some(("0abc".to_string(), "https://long-url".to_string())));
    assert_eq!(short_url_of(&index.item), Some("CGF0".to_string()));
}

#[test]
fn a_failed_condition_of_the_record_is_a_conflict() {
    let failed = Some("ConditionalCheckFailed".to_string());
    let passed = Some("None".to_string());
    assert_eq!(save_failure(&vec![failed.clone(), passed.clone()]), StoreError::StoreConflict);
    assert_eq!(save_failure(&vec![failed.clone()]), StoreError::StoreConflict);
}

#[test]
fn any_other_failure_is_unavailability() {
    let failed = Some("ConditionalCheckFailed".to_string());
    let passed = Some("None".to_string());
    assert_eq!(save_failure(&vec![]), StoreError::StoreUnavailable);
    assert_eq!(save_failure(&vec![None, None]), StoreError::StoreUnavailable);
    assert_eq!(save_failure(&vec![passed.clone(), failed.clone()]), StoreError::StoreUnavailable);
    assert_eq!(save_failure(&vec![None, failed]), StoreError::StoreUnavailable);
    assert_eq!(
        save_failure(&vec![Some("ThrottlingError".to_string()), passed]),
        StoreError::StoreUnavailable
    );
    assert_eq!(
        save_failure(&vec![Some("conditionalcheckfailed".to_string())]),
        StoreError::StoreUnavailable
    );
}
