use copilot_money_cli::cli::TransactionsSort;
use copilot_money_cli::client::{AmountValue, Tag, Transaction};
use copilot_money_cli::transactions::{
    build_transactions_filter, date_bounds, filter_transactions, sort_to_graphql, DateRange, GraphqlSort,
    SortDirection, SortField, TransactionsFilter,
};

fn txn(id: &str, date: &str, name: &str, reviewed: Option<bool>, category: Option<&str>, tags: &[&str]) -> Transaction {
    Transaction {
        id: id.to_string(),
        date: Some(date.to_string()),
        name: Some(name.to_string()),
        amount: Some(AmountValue::Text("-1.00".to_string())),
        item_id: Some("item_1".to_string()),
        txn_type: Some("REGULAR".to_string()),
        is_reviewed: reviewed,
        category_id: category.map(|c| c.to_string()),
        account_id: Some("acct_1".to_string()),
        recurring_id: None,
        user_notes: None,
        tags: if tags.is_empty() {
            None
        } else {
            Some(
                tags.iter()
                    .enumerate()
                    .map(|(i, t)| Tag { id: format!("tag_{i}"), name: Some(t.to_string()), color_name: None })
                    .collect(),
            )
        },
    }
}

fn sample() -> Vec<Transaction> {
    vec![
        txn("txn_1", "2025-12-15", "Amazon Marketplace", Some(true), Some("cat_other"), &["Shopping"]),
        txn("txn_2", "2025-12-10", "Rent", Some(false), Some("cat_housing"), &[]),
        txn("txn_3", "2025-11-30", "AMAZON Prime", None, Some("cat_other"), &["shopping", "Subscriptions"]),
    ]
}

fn ids(v: &[Transaction]) -> Vec<&str> {
    v.iter().map(|t| t.id.as_str()).collect()
}

#[test]
fn sort_to_graphql_maps_values() {
    assert_eq!(
        sort_to_graphql(Some(TransactionsSort::DateDesc)).unwrap(),
        vec![GraphqlSort { field: SortField::Date, direction: SortDirection::Desc }]
    );
    assert_eq!(
        sort_to_graphql(Some(TransactionsSort::AmountAsc)).unwrap(),
        vec![GraphqlSort { field: SortField::Amount, direction: SortDirection::Asc }]
    );
    assert!(sort_to_graphql(None).is_none());
    assert_eq!(SortField::Date.as_str(), "DATE");
    assert_eq!(SortField::Amount.as_str(), "AMOUNT");
    assert_eq!(SortDirection::Desc.as_str(), "DESC");
    assert_eq!(SortDirection::Asc.as_str(), "ASC");
}

#[test]
fn build_transactions_filter_works() {
    assert_eq!(
        build_transactions_filter(true, false, None, None),
        Some(TransactionsFilter { is_reviewed: Some(true), dates: None })
    );
    assert_eq!(
        build_transactions_filter(false, true, None, None),
        Some(TransactionsFilter { is_reviewed: Some(false), dates: None })
    );
    assert_eq!(build_transactions_filter(false, false, None, None), None);

    // Date range
    assert_eq!(
        build_transactions_filter(false, false, Some("2025-01-01"), Some("2025-01-31")),
        Some(TransactionsFilter {
            is_reviewed: None,
            dates: Some(vec![DateRange { start: Some(1735689600), end: Some(1738367999) }]),
        })
    );
}

#[test]
fn build_transactions_filter_reviewed_wins_and_bad_dates_stay_open() {
    assert_eq!(
        build_transactions_filter(true, true, None, None),
        Some(TransactionsFilter { is_reviewed: Some(true), dates: None })
    );
    assert_eq!(
        build_transactions_filter(false, false, Some("garbage"), None),
        Some(TransactionsFilter { is_reviewed: None, dates: Some(vec![DateRange { start: None, end: None }]) })
    );
}

#[test]
fn filter_by_review_state() {
    let out = filter_transactions(sample(), true, false, None, &[], None, None, None, None);
    assert_eq!(ids(&out), vec!["txn_1"]);
    let out = filter_transactions(sample(), false, true, None, &[], None, None, None, None);
    assert_eq!(ids(&out), vec!["txn_2", "txn_3"]);
}

#[test]
fn filter_by_category_query_and_tags() {
    let out = filter_transactions(sample(), false, false, Some("cat_other"), &[], None, None, None, None);
    assert_eq!(ids(&out), vec!["txn_1", "txn_3"]);
    let out = filter_transactions(sample(), false, false, None, &[], Some("amazon"), None, None, None);
    assert_eq!(ids(&out), vec!["txn_1", "txn_3"]);
    let out = filter_transactions(sample(), false, false, None, &["SHOPPING".to_string()], None, None, None, None);
    assert_eq!(ids(&out), vec!["txn_1", "txn_3"]);
    let out = filter_transactions(sample(), false, false, None, &["subscriptions".to_string(), "none".to_string()], None, None, None, None);
    assert_eq!(ids(&out), vec!["txn_3"]);
}

#[test]
fn filter_by_dates() {
    let out = filter_transactions(sample(), false, false, None, &[], None, Some("12-15-2025"), None, None);
    assert_eq!(ids(&out), vec!["txn_1"]);
    let out = filter_transactions(sample(), false, false, None, &[], None, None, Some("2025-12-01"), Some("12-10-2025"));
    assert_eq!(ids(&out), vec!["txn_2"]);
    // an unparsable date imposes nothing
    let out = filter_transactions(sample(), false, false, None, &[], None, Some("yesterday"), None, None);
    assert_eq!(ids(&out), vec!["txn_1", "txn_2", "txn_3"]);
}

#[test]
fn filter_twice_is_filter_once() {
    let tags = vec!["shopping".to_string()];
    let once = filter_transactions(sample(), false, false, None, &tags, Some("a"), None, None, None);
    let once_ids: Vec<String> = once.iter().map(|t| t.id.clone()).collect();
    let twice = filter_transactions(once, false, false, None, &tags, Some("a"), None, None, None);
    assert_eq!(twice.iter().map(|t| t.id.clone()).collect::<Vec<_>>(), once_ids);
}

#[test]
fn both_date_spellings_give_the_same_filter() {
    assert_eq!(
        build_transactions_filter(false, true, Some("01-01-2025"), Some("01-31-2025")),
        build_transactions_filter(false, true, Some("2025-01-01"), Some("2025-01-31"))
    );
}

#[test]
fn date_overrides_the_bounds() {
    assert_eq!(date_bounds(Some("2025-01-02"), Some("a"), Some("b")), (Some("2025-01-02"), Some("2025-01-02")));
    assert_eq!(date_bounds(None, Some("a"), None), (Some("a"), None));
}
