use copilot_money_cli::cli::TransactionField;
use copilot_money_cli::client::{AmountValue, ClientMode, PageInfo, Transaction};
use copilot_money_cli::reports::{
    client_for, find_transaction, needs_category_names, page_info_rows, session_dir_choice,
    transaction_detail_rows,
};

fn txn(id: &str) -> Transaction {
    Transaction {
        id: id.to_string(),
        date: Some("2025-12-15".to_string()),
        name: Some("Amazon".to_string()),
        amount: Some(AmountValue::Text("-1".to_string())),
        item_id: None,
        txn_type: None,
        is_reviewed: None,
        category_id: Some("cat_other".to_string()),
        account_id: None,
        recurring_id: None,
        user_notes: None,
        tags: None,
    }
}

#[test]
fn page_info_report() {
    let rows = page_info_rows(&PageInfo { end_cursor: Some("c".to_string()), has_next_page: Some(true), has_previous_page: None, start_cursor: None });
    assert_eq!((rows[0].key.as_str(), rows[0].value.as_str()), ("endCursor", "c"));
    assert_eq!((rows[1].key.as_str(), rows[1].value.as_str()), ("hasNextPage", "true"));
    let rows = page_info_rows(&PageInfo { end_cursor: None, has_next_page: None, has_previous_page: None, start_cursor: None });
    assert_eq!(rows[0].value, "");
    assert_eq!(rows[1].value, "");
}

#[test]
fn show_finds_the_first_match() {
    let found = find_transaction(vec![txn("a"), txn("b"), txn("b")], "b").unwrap();
    assert_eq!(found.id, "b");
    assert!(find_transaction(vec![txn("a")], "z").is_none());
    let rows = transaction_detail_rows(&txn("a"), "-$1.00");
    let pairs: Vec<(&str, &str)> = rows.iter().map(|r| (r.key.as_str(), r.value.as_str())).collect();
    assert_eq!(
        pairs,
        vec![
            ("id", "a"),
            ("date", "2025-12-15"),
            ("name", "Amazon"),
            ("amount", "-$1.00"),
            ("category_id", "cat_other"),
            ("reviewed", "false"),
        ]
    );
}

#[test]
fn category_column_needs_names() {
    assert!(needs_category_names(&[TransactionField::Date, TransactionField::Category]));
    assert!(!needs_category_names(&[TransactionField::Date]));
}

#[test]
fn client_setup() {
    assert_eq!(session_dir_choice(Some("/x"), "/d", false), Some("/x".to_string()));
    assert_eq!(session_dir_choice(None, "/d", true), Some("/d".to_string()));
    assert_eq!(session_dir_choice(None, "/d", false), None);
    let c = client_for(Some("fx"), "https://b", Some("t"), None, "/tok", None);
    assert!(matches!(c.client_mode(), ClientMode::Fixtures(d) if d == "fx"));
    let c = client_for(None, "https://b", None, Some("saved".to_string()), "/tok", None);
    match c.client_mode() {
        ClientMode::Http { base_url, token, token_file, session_dir } => {
            assert_eq!(base_url, "https://b");
            assert_eq!(token.as_deref(), Some("saved"));
            assert_eq!(token_file, "/tok");
            assert!(session_dir.is_none());
        }
        _ => panic!("expected the live service"),
    }
}
