use copilot_money_cli::client::{
    budget_month, format_graphql_error, graphql_step, graphql_url, is_unauthenticated,
    page_transactions, timeout_setting, transactions_query, unexpected_shape_message,
    ClientMode, CopilotClient, FeedNode, GraphqlErrorInfo, GraphqlFailure, GraphqlStep, Transaction,
};
use copilot_money_cli::transactions::{DateRange, TransactionsFilter};

fn err(message: Option<&str>, code: Option<&str>) -> Option<GraphqlErrorInfo> {
    Some(GraphqlErrorInfo { message: message.map(String::from), code: code.map(String::from) })
}

fn txn(id: &str) -> Transaction {
    Transaction {
        id: id.to_string(),
        date: None,
        name: None,
        amount: None,
        item_id: None,
        txn_type: None,
        is_reviewed: None,
        category_id: None,
        account_id: None,
        recurring_id: None,
        user_notes: None,
        tags: None,
    }
}

#[test]
fn client_keeps_its_mode() {
    let c = CopilotClient::new(ClientMode::Fixtures("dir".to_string()));
    assert!(matches!(c.client_mode(), ClientMode::Fixtures(d) if d == "dir"));
}

#[test]
fn graphql_url_strips_trailing_slashes() {
    assert_eq!(graphql_url("https://app.copilot.money"), "https://app.copilot.money/api/graphql");
    assert_eq!(graphql_url("https://x//"), "https://x/api/graphql");
    assert_eq!(graphql_url(""), "/api/graphql");
}

#[test]
fn graphql_errors_are_formatted() {
    assert_eq!(format_graphql_error(&None), None);
    assert_eq!(format_graphql_error(&err(None, None)), None);
    assert_eq!(format_graphql_error(&err(Some(""), None)), None);
    assert_eq!(format_graphql_error(&err(Some("boom"), None)), Some("graphql error: boom".to_string()));
    assert_eq!(format_graphql_error(&err(None, Some("BAD"))), Some("graphql error (BAD)".to_string()));
    assert_eq!(
        format_graphql_error(&err(Some("boom"), Some("BAD"))),
        Some("graphql error (BAD): boom".to_string())
    );
}

#[test]
fn unauthenticated_is_recognized() {
    assert!(is_unauthenticated(&err(Some("x"), Some("UNAUTHENTICATED"))));
    assert!(!is_unauthenticated(&err(Some("x"), Some("OTHER"))));
    assert!(!is_unauthenticated(&None));
}

#[test]
fn graphql_step_retries_once_after_refresh() {
    let unauth = err(None, Some("UNAUTHENTICATED"));
    assert_eq!(graphql_step(1, 200, &unauth, true), GraphqlStep::RefreshAndRetry);
    assert_eq!(graphql_step(2, 200, &unauth, true), GraphqlStep::Fail(GraphqlFailure::Unauthenticated));
    assert_eq!(graphql_step(1, 200, &unauth, false), GraphqlStep::Fail(GraphqlFailure::Unauthenticated));
    assert_eq!(
        graphql_step(1, 200, &err(Some("boom"), None), true),
        GraphqlStep::Fail(GraphqlFailure::Error("graphql error: boom".to_string()))
    );
    assert_eq!(graphql_step(1, 500, &None, true), GraphqlStep::Fail(GraphqlFailure::HttpStatus(500)));
    assert_eq!(graphql_step(1, 204, &None, true), GraphqlStep::Done);
}

#[test]
fn transactions_query_uses_feed_for_dates() {
    let q = transactions_query(&None);
    assert_eq!((q.operation_name.as_str(), q.result_path.as_str(), q.month), ("Transactions", "/data/transactions", false));
    let dated = Some(TransactionsFilter { is_reviewed: None, dates: Some(vec![DateRange { start: None, end: None }]) });
    let q = transactions_query(&dated);
    assert_eq!((q.operation_name.as_str(), q.result_path.as_str(), q.month), ("TransactionsFeed", "/data/feed", true));
    let empty_dates = Some(TransactionsFilter { is_reviewed: Some(true), dates: Some(vec![]) });
    assert_eq!(transactions_query(&empty_dates).operation_name, "Transactions");
    assert_eq!(unexpected_shape_message("Tags"), "unexpected Tags response shape");
}

#[test]
fn pages_skip_months_and_missing_nodes() {
    let nodes = vec![FeedNode::Month, FeedNode::Item(txn("a")), FeedNode::Missing, FeedNode::Item(txn("b"))];
    let out = page_transactions(nodes);
    assert_eq!(out.iter().map(|t| t.id.as_str()).collect::<Vec<_>>(), vec!["a", "b"]);
}

#[test]
fn budget_months_and_timeouts() {
    let b = budget_month(None, None);
    assert_eq!((b.month.as_str(), b.amount.as_str()), ("", "null"));
    let b = budget_month(Some("2025-01".to_string()), Some("12.5".to_string()));
    assert_eq!((b.month.as_str(), b.amount.as_str()), ("2025-01", "12.5"));
    assert_eq!(timeout_setting(None, 60), 60);
    assert_eq!(timeout_setting(Some("15"), 60), 15);
    assert_eq!(timeout_setting(Some("+15"), 60), 15);
    assert_eq!(timeout_setting(Some("-1"), 60), 60);
    assert_eq!(timeout_setting(Some("18446744073709551616"), 10), 10);
    assert_eq!(timeout_setting(Some("18446744073709551615"), 10), u64::MAX);
}
