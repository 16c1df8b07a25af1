use copilot_money_cli::cli::TransactionField;
use copilot_money_cli::client::{AmountValue, Tag, Transaction};
use copilot_money_cli::render::KeyValueRow;
use copilot_money_cli::table::{
    default_fields, key_value_csv, transaction_cell, transactions_csv, transactions_table,
    CellColor,
};

fn txn(id: &str, reviewed: Option<bool>, category: Option<&str>, tags: Option<Vec<Tag>>) -> Transaction {
    Transaction {
        id: id.to_string(),
        date: Some("2025-12-15".to_string()),
        name: Some("Coffee, large".to_string()),
        amount: Some(AmountValue::Text("-4.5".to_string())),
        item_id: None,
        txn_type: Some("REGULAR".to_string()),
        is_reviewed: reviewed,
        category_id: category.map(String::from),
        account_id: None,
        recurring_id: None,
        user_notes: None,
        tags,
    }
}

fn tag(name: Option<&str>) -> Tag {
    Tag { id: "t".to_string(), name: name.map(String::from), color_name: None }
}

#[test]
fn cells_of_each_column() {
    let names = vec![("cat_food".to_string(), "Food".to_string())];
    let t = txn("txn_1", Some(true), Some("cat_food"), Some(vec![tag(Some("A")), tag(None), tag(Some("B"))]));
    assert_eq!(transaction_cell(&t, TransactionField::Date, None, "-$4.50"), "2025-12-15");
    assert_eq!(transaction_cell(&t, TransactionField::Amount, None, "-$4.50"), "-$4.50");
    assert_eq!(transaction_cell(&t, TransactionField::Reviewed, None, ""), "✓");
    assert_eq!(transaction_cell(&t, TransactionField::Category, Some(&names), ""), "Food");
    assert_eq!(transaction_cell(&t, TransactionField::Category, None, ""), "cat_food");
    assert_eq!(transaction_cell(&t, TransactionField::Tags, None, ""), "A,B");
    assert_eq!(transaction_cell(&t, TransactionField::Type, None, ""), "REGULAR");
    let u = txn("txn_2", None, None, None);
    assert_eq!(transaction_cell(&u, TransactionField::Reviewed, None, ""), "");
    assert_eq!(transaction_cell(&u, TransactionField::Category, Some(&names), ""), "");
    assert_eq!(transaction_cell(&u, TransactionField::Tags, None, ""), "");
}

#[test]
fn csv_of_transactions() {
    let items = vec![txn("txn_1", Some(false), Some("cat_x"), None)];
    let fields = vec![TransactionField::Name, TransactionField::Amount, TransactionField::Id];
    let lines = transactions_csv(&items, &fields, None, &["-$4.50".to_string()]);
    assert_eq!(lines, vec!["name,amount,id".to_string(), "\"Coffee, large\",-$4.50,txn_1".to_string()]);
    assert_eq!(default_fields().len(), 7);
}

#[test]
fn key_value_csv_lines() {
    let rows = vec![KeyValueRow { key: "token_valid".to_string(), value: "un,known".to_string() }];
    assert_eq!(key_value_csv(&rows), vec!["key,value".to_string(), "token_valid,\"un,known\"".to_string()]);
}

#[test]
fn table_cells_are_styled() {
    let items = vec![txn("abcdefghijklmnopqrstuvwxyz", Some(true), None, None)];
    let fields = vec![TransactionField::Amount, TransactionField::Reviewed, TransactionField::Id];
    let rows = transactions_table(&items, &fields, None, &["-$4.50".to_string()], true).unwrap();
    assert_eq!(rows[0][0].text, "-$4.50");
    assert!(rows[0][0].right_aligned);
    assert_eq!(rows[0][0].color, Some(CellColor::Red));
    assert_eq!(rows[0][1].color, Some(CellColor::Green));
    assert_eq!(rows[0][2].text, "abcdefgh…uvwxyz");
    let plain = transactions_table(&items, &fields, None, &["$4.50".to_string()], false).unwrap();
    assert_eq!(plain[0][0].color, None);
    let green = transactions_table(&items, &fields, None, &["$4.50".to_string()], true).unwrap();
    assert_eq!(green[0][0].color, Some(CellColor::Green));
    let bad = vec![txn("abcdefgéhijklmnopqrstuvwxyz", None, None, None)];
    assert!(transactions_table(&bad, &fields, None, &["".to_string()], true).is_none());
}
