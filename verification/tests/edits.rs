use copilot_money_cli::cli::{OutputFormat, TagUpdateMode};
use copilot_money_cli::client::{Tag, Transaction};
use copilot_money_cli::edits::{
    build_transaction_id_refs, bulk_edit_report, tag_ids_missing, confirm_write, confirmation_accepted,
    next_tag_ids, notes_value, require_item_and_account, write_step, BulkEditReport, MissingId, NotesError,
    WriteStep,
    WriteGate,
};
use std::collections::HashSet;

fn txn(id: &str, item: Option<&str>, account: Option<&str>) -> Transaction {
    Transaction {
        id: id.to_string(),
        date: None,
        name: None,
        amount: None,
        item_id: item.map(String::from),
        txn_type: None,
        is_reviewed: None,
        category_id: None,
        account_id: account.map(String::from),
        recurring_id: None,
        user_notes: None,
        tags: None,
    }
}

fn tags(ids: &[&str]) -> Option<Vec<Tag>> {
    Some(ids.iter().map(|i| Tag { id: i.to_string(), name: None, color_name: None }).collect())
}

fn set(v: &[String]) -> HashSet<String> {
    v.iter().cloned().collect()
}

#[test]
fn writes_need_yes_or_dry_run_unless_confirmed() {
    assert_eq!(confirm_write(true, false, false), WriteGate::Proceed);
    assert_eq!(confirm_write(false, true, false), WriteGate::Proceed);
    assert_eq!(confirm_write(false, false, false), WriteGate::RefuseNonInteractive);
    assert_eq!(confirm_write(false, false, true), WriteGate::Ask);
    assert!(confirmation_accepted(" yes\n"));
    assert!(!confirmation_accepted("y"));
    assert!(!confirmation_accepted("YES"));
}

#[test]
fn ids_of_transactions() {
    assert_eq!(require_item_and_account(&txn("t", Some("i"), Some("a"))), Ok(("i".to_string(), "a".to_string())));
    assert_eq!(require_item_and_account(&txn("t", None, None)), Err(MissingId::ItemId));
    assert_eq!(require_item_and_account(&txn("t", Some("i"), None)), Err(MissingId::AccountId));
    let refs = build_transaction_id_refs(&[txn("t1", Some("i"), Some("a"))]).unwrap();
    assert_eq!((refs[0].id.as_str(), refs[0].item_id.as_str(), refs[0].account_id.as_str()), ("t1", "i", "a"));
    assert_eq!(
        build_transaction_id_refs(&[txn("t1", Some("i"), Some("a")), txn("t2", Some("i"), None), txn("t3", None, None)]),
        Err(("t2".to_string(), MissingId::AccountId))
    );
}

#[test]
fn tag_updates() {
    let given = vec!["b".to_string(), "c".to_string(), "c".to_string()];
    assert_eq!(next_tag_ids(TagUpdateMode::SetAll, &tags(&["a"]), &given), given);
    let added = next_tag_ids(TagUpdateMode::Add, &tags(&["a", "b", "a"]), &given);
    assert_eq!(added.len(), 3);
    assert_eq!(set(&added), set(&["a".to_string(), "b".to_string(), "c".to_string()]));
    let removed = next_tag_ids(TagUpdateMode::Remove, &tags(&["a", "b", "a"]), &given);
    assert_eq!(removed, vec!["a".to_string()]);
    assert_eq!(next_tag_ids(TagUpdateMode::Remove, &None, &given), Vec::<String>::new());
    // adding then removing the same tags leaves the others
    let again = next_tag_ids(TagUpdateMode::Remove, &Some(added.iter().map(|i| Tag { id: i.clone(), name: None, color_name: None }).collect()), &given);
    assert_eq!(again, vec!["a".to_string()]);
}

#[test]
fn notes_and_bulk_reports() {
    assert_eq!(notes_value(true, Some("x")), Ok(String::new()));
    assert_eq!(notes_value(false, Some("hello world")), Ok("hello world".to_string()));
    assert_eq!(notes_value(false, None), Err(NotesError::NothingToSet));
    assert_eq!(bulk_edit_report(OutputFormat::Json, 0), BulkEditReport::Updated);
    assert_eq!(bulk_edit_report(OutputFormat::Json, 2), BulkEditReport::FailuresAsJson);
    assert_eq!(bulk_edit_report(OutputFormat::Table, 2), BulkEditReport::Fail(2));
}

#[test]
fn add_and_remove_need_tag_ids() {
    assert!(tag_ids_missing(TagUpdateMode::Add, &[]));
    assert!(tag_ids_missing(TagUpdateMode::Remove, &[]));
    assert!(!tag_ids_missing(TagUpdateMode::SetAll, &[]));
    assert!(!tag_ids_missing(TagUpdateMode::Add, &["x".to_string()]));
}

#[test]
fn a_dry_run_stops_before_the_write_gate() {
    assert_eq!(write_step(true, false, false), WriteStep::DryRun);
    assert_eq!(write_step(true, true, true), WriteStep::DryRun);
    assert_eq!(write_step(false, true, false), WriteStep::Gate(WriteGate::Proceed));
    assert_eq!(write_step(false, false, false), WriteStep::Gate(WriteGate::RefuseNonInteractive));
    assert_eq!(write_step(false, false, true), WriteStep::Gate(WriteGate::Ask));
}
