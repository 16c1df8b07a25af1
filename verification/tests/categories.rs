use copilot_money_cli::categories::{
    category_name_map, find_name, flatten_categories_for_lookup, needs_category_list,
    resolve_category_id, CategoryError,
};
use copilot_money_cli::client::Category;

fn cat(id: &str, name: Option<&str>, children: Option<Vec<Category>>) -> Category {
    Category {
        id: id.to_string(),
        name: name.map(String::from),
        is_rollover_disabled: None,
        can_be_deleted: None,
        is_excluded: None,
        template_id: None,
        color_name: None,
        icon: None,
        child_categories: children,
    }
}

fn forest() -> Vec<Category> {
    vec![
        cat("cat_food", Some("Food"), Some(vec![cat("cat_groceries", Some("Groceries"), None), cat("cat_dining", None, None)])),
        cat("cat_other", Some("Other"), None),
        cat("cat_other2", Some(" other"), None),
        cat("cat_misc", Some("OTHER"), None),
    ]
}

#[test]
fn categories_flatten_depth_first() {
    let flat = flatten_categories_for_lookup(&forest());
    let ids: Vec<&str> = flat.iter().map(|(i, _)| i.as_str()).collect();
    assert_eq!(ids, vec!["cat_food", "cat_groceries", "cat_dining", "cat_other", "cat_other2", "cat_misc"]);
    assert_eq!(flat[2].1, "");
}

#[test]
fn category_names_by_id() {
    let names = category_name_map(&forest());
    assert_eq!(find_name(&names, "cat_groceries"), Some("Groceries".to_string()));
    assert_eq!(find_name(&names, "nope"), None);
    let dup = vec![("a".to_string(), "first".to_string()), ("a".to_string(), "second".to_string())];
    assert_eq!(find_name(&dup, "a"), Some("second".to_string()));
}

#[test]
fn resolve_category_by_id_or_name() {
    let f = forest();
    assert_eq!(resolve_category_id(Some("x"), Some("Food"), &f), Ok(Some("x".to_string())));
    assert_eq!(resolve_category_id(None, None, &f), Ok(None));
    assert_eq!(resolve_category_id(None, Some("  "), &f), Err(CategoryError::EmptyName));
    assert_eq!(resolve_category_id(None, Some(" groceries "), &f), Ok(Some("cat_groceries".to_string())));
    assert_eq!(resolve_category_id(None, Some("Pets"), &f), Err(CategoryError::NotFound));
    // names are compared untrimmed on the category side: " other" does not match
    assert_eq!(resolve_category_id(None, Some("other"), &f), Err(CategoryError::Ambiguous(2)));
}

#[test]
fn category_list_is_needed_only_for_names() {
    assert!(!needs_category_list(Some("id"), Some("x")));
    assert!(!needs_category_list(None, None));
    assert!(!needs_category_list(None, Some("   ")));
    assert!(needs_category_list(None, Some("Food")));
}
