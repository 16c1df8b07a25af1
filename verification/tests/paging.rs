use copilot_money_cli::client::{PageInfo, Transaction, TransactionsPage};
use copilot_money_cli::cli::TransactionsSort;
use copilot_money_cli::paging::{IdResolver, PageCollector, PageRequest};
use copilot_money_cli::transactions::{build_transactions_filter, sort_to_graphql};

fn txn(id: &str, name: &str) -> Transaction {
    Transaction {
        id: id.to_string(),
        date: None,
        name: Some(name.to_string()),
        amount: None,
        item_id: None,
        txn_type: None,
        is_reviewed: None,
        category_id: None,
        account_id: None,
        recurring_id: None,
        user_notes: None,
        tags: None,
    }
}

fn page(items: Vec<Transaction>, next: Option<bool>, cursor: Option<&str>) -> TransactionsPage {
    TransactionsPage {
        transactions: items,
        page_info: PageInfo {
            end_cursor: cursor.map(String::from),
            has_next_page: next,
            has_previous_page: None,
            start_cursor: None,
        },
    }
}

fn cursor(r: Option<PageRequest>) -> Option<Option<String>> {
    r.map(|q| q.after)
}

#[test]
fn listing_fetches_the_requested_pages() {
    let filter = build_transactions_filter(true, false, None, None);
    let sort = sort_to_graphql(Some(TransactionsSort::AmountAsc));
    let mut c = PageCollector::new(25, Some("start".to_string()), 2, false, filter.clone(), sort.clone());
    assert_eq!(
        c.next_request(),
        Some(PageRequest { first: 25, after: Some("start".to_string()), filter: filter.clone(), sort: sort.clone() })
    );
    c.add_page(page(vec![txn("a", "")], Some(true), Some("c1")));
    assert_eq!(
        c.next_request(),
        Some(PageRequest { first: 25, after: Some("c1".to_string()), filter, sort })
    );
    c.add_page(page(vec![txn("b", "")], Some(true), Some("c2")));
    assert_eq!(c.next_request(), None);
    let (items, info) = c.finish();
    assert_eq!(items.iter().map(|t| t.id.as_str()).collect::<Vec<_>>(), vec!["a", "b"]);
    assert_eq!(info.end_cursor, Some("c2".to_string()));
}

#[test]
fn listing_stops_at_the_last_page() {
    let mut c = PageCollector::new(10, None, 0, true, None, None);
    assert_eq!(cursor(c.next_request()), Some(None));
    c.add_page(page(vec![], Some(true), None));
    assert_eq!(c.next_request(), None);
    let mut d = PageCollector::new(10, None, 5, false, None, None);
    d.add_page(page(vec![], Some(false), Some("x")));
    assert_eq!(d.next_request(), None);
    let (_, info) = PageCollector::new(10, None, 1, false, None, None).finish();
    assert_eq!(info, PageInfo { end_cursor: None, has_next_page: None, has_previous_page: None, start_cursor: None });
}

#[test]
fn ids_are_resolved_in_the_order_given() {
    let ids = vec!["b".to_string(), "a".to_string()];
    let mut r = IdResolver::new(&ids);
    assert_eq!(r.next_request(), Some(PageRequest { first: 200, after: None, filter: None, sort: None }));
    r.add_page(page(vec![txn("a", "old"), txn("x", "")], Some(true), Some("c1")));
    assert_eq!(
        r.next_request(),
        Some(PageRequest { first: 200, after: Some("c1".to_string()), filter: None, sort: None })
    );
    r.add_page(page(vec![txn("a", "new"), txn("b", "")], Some(true), Some("c2")));
    assert_eq!(r.next_request(), None);
    assert_eq!(r.scanned_count(), 4);
    let out = r.finish(&ids).unwrap();
    assert_eq!(out.iter().map(|t| t.id.as_str()).collect::<Vec<_>>(), vec!["b", "a"]);
    assert_eq!(out[1].name.as_deref(), Some("new"));
}

#[test]
fn unresolved_ids_are_reported() {
    let ids = vec!["a".to_string(), "z".to_string(), "a".to_string()];
    let mut r = IdResolver::new(&ids);
    r.add_page(page(vec![txn("a", "")], Some(false), None));
    assert_eq!(r.next_request(), None);
    let e = r.finish(&ids).unwrap_err();
    // the second `a` finds its transaction already taken
    assert_eq!(e.missing, vec!["z".to_string(), "a".to_string()]);
    assert_eq!(e.scanned, 1);
}
