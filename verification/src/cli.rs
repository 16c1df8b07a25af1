//! The command line's model: global options, commands and their arguments.
//! Parsing the words of the command line into these values is done by the
//! program around the library.

use vstd::prelude::*;
use crate::client::{CategoryId, RecurringFrequency, RecurringId, TagId, TransactionId, TransactionType};

verus! {

/// How results are printed.
#[derive(Debug, Clone, Copy, PartialEq, Eq, Structural)]
pub enum OutputFormat {
    Json,
    Table,
    Csv,
}

/// When colors are used in table output.
#[derive(Debug, Clone, Copy, PartialEq, Eq, Structural)]
pub enum ColorMode {
    Auto,
    Always,
    Never,
}

/// Global options and the command to run.
#[derive(Debug, Clone)]
pub struct Cli {
    pub command: Command,
    pub output: OutputFormat,
    pub color: ColorMode,
    pub dry_run: bool,
    /// Skip confirmation prompts for write actions (required in non-interactive runs).
    pub yes: bool,
    pub base_url: String,
    pub token: Option<String>,
    pub token_file: Option<String>,
    pub session_dir: Option<String>,
    pub fixtures_dir: Option<String>,
}

/// The top-level commands.
#[derive(Debug, Clone)]
pub enum Command {
    Auth { cmd: AuthCmd },
    Transactions { cmd: TransactionsCmd },
    Categories { cmd: CategoriesCmd },
    Recurrings { cmd: RecurringsCmd },
    Tags { cmd: TagsCmd },
    Budgets { cmd: BudgetsCmd },
    Version,
}

/// Commands that manage the access token.
#[derive(Debug, Clone)]
pub enum AuthCmd {
    Status,
    Login(AuthLoginArgs),
    Refresh(AuthRefreshArgs),
    SetToken(AuthSetTokenArgs),
    Logout,
}

/// How the browser helper obtains a token.
#[derive(Debug, Clone, Copy, PartialEq, Eq, Structural)]
pub enum AuthLoginMode {
    /// Opens a browser and waits for you to log in.
    Interactive,
    /// Sends a magic link email; paste the link back (SSH-friendly).
    EmailLink,
    /// Uses `--secrets-file` with email+password.
    Credentials,
}

/// Arguments of `auth login`.
#[derive(Debug, Clone)]
pub struct AuthLoginArgs {
    pub secrets_file: Option<String>,
    pub mode: AuthLoginMode,
    /// Required for `--mode email-link` unless it can be inferred from `--secrets-file`.
    pub email: Option<String>,
    pub timeout_seconds: u64,
    /// Store a persistent browser session so tokens can be refreshed automatically.
    pub persist_session: bool,
    /// Do not store a persistent browser session.
    pub no_persist_session: bool,
}

/// Arguments of `auth refresh`.
#[derive(Debug, Clone)]
pub struct AuthRefreshArgs {
    pub timeout_seconds: u64,
}

/// Arguments of `auth set-token`.
#[derive(Debug, Clone)]
pub struct AuthSetTokenArgs {
    /// Where to store the token (defaults to `~/.config/copilot-money-cli/token`).
    pub token_file: Option<String>,
}

/// Commands on transactions.
#[derive(Debug, Clone)]
pub enum TransactionsCmd {
    List(TransactionsListArgs),
    Search(TransactionsSearchArgs),
    Show(TransactionsShowArgs),
    Review(TransactionsReviewArgs),
    Unreview(TransactionsReviewArgs),
    SetCategory(TransactionsSetCategoryArgs),
    AssignRecurring(TransactionsAssignRecurringArgs),
    SetNotes(TransactionsSetNotesArgs),
    SetTags(TransactionsSetTagsArgs),
    Edit(TransactionsEditArgs),
}

/// Server-side sort orders of transactions.
#[derive(Debug, Clone, Copy, PartialEq, Eq, Structural)]
pub enum TransactionsSort {
    DateDesc,
    DateAsc,
    AmountDesc,
    AmountAsc,
}

/// Columns of transaction tables.
#[derive(Debug, Clone, Copy, PartialEq, Eq, Structural)]
pub enum TransactionField {
    Date,
    Name,
    Amount,
    Reviewed,
    Category,
    Tags,
    Type,
    Id,
}

/// Arguments of `transactions list`.
#[derive(Debug, Clone)]
pub struct TransactionsListArgs {
    pub limit: usize,
    /// Cursor to continue pagination from a previous call (`pageInfo.endCursor`).
    pub after: Option<String>,
    /// Number of pages to fetch (each page is `--limit`).
    pub pages: usize,
    /// Fetch all pages until exhausted.
    pub all: bool,
    /// Filter to reviewed transactions only.
    pub reviewed: bool,
    /// Filter to unreviewed transactions only.
    pub unreviewed: bool,
    /// Filter to a specific category id.
    pub category_id: Option<CategoryId>,
    /// Filter to a specific category by name (case-insensitive exact match).
    pub category: Option<String>,
    /// Filter to transactions that include any of these tags.
    pub tag: Vec<String>,
    /// Filter to a specific date (supports YYYY-MM-DD and MM-DD-YYYY).
    pub date: Option<String>,
    /// Filter to transactions from this date (inclusive).
    pub date_from: Option<String>,
    /// Filter to transactions until this date (inclusive).
    pub date_to: Option<String>,
    /// Filter by merchant/name substring (case-insensitive).
    pub name_contains: Option<String>,
    /// Sort transactions server-side (best-effort).
    pub sort: Option<TransactionsSort>,
    /// Columns to show in table output.
    pub fields: Vec<TransactionField>,
    /// Include pagination info (`pageInfo`) in the output.
    pub page_info: bool,
}

/// Arguments of `transactions search`.
#[derive(Debug, Clone)]
pub struct TransactionsSearchArgs {
    pub query: String,
    pub limit: usize,
    pub after: Option<String>,
    pub pages: usize,
    pub all: bool,
    pub reviewed: bool,
    pub unreviewed: bool,
    pub category_id: Option<CategoryId>,
    pub category: Option<String>,
    pub tag: Vec<String>,
    pub date: Option<String>,
    pub date_from: Option<String>,
    pub date_to: Option<String>,
    pub sort: Option<TransactionsSort>,
    pub fields: Vec<TransactionField>,
    pub page_info: bool,
}

/// Arguments of `transactions show`.
#[derive(Debug, Clone)]
pub struct TransactionsShowArgs {
    pub id: TransactionId,
    pub limit: usize,
}

/// Arguments of `transactions review` and `transactions unreview`.
#[derive(Debug, Clone)]
pub struct TransactionsReviewArgs {
    pub ids: Vec<TransactionId>,
}

/// Arguments of `transactions set-category`.
#[derive(Debug, Clone)]
pub struct TransactionsSetCategoryArgs {
    pub ids: Vec<TransactionId>,
    pub category_id: Option<CategoryId>,
    pub category: Option<String>,
}

/// Arguments of `transactions assign-recurring`.
#[derive(Debug, Clone)]
pub struct TransactionsAssignRecurringArgs {
    pub ids: Vec<TransactionId>,
    pub recurring_id: RecurringId,
}

/// Arguments of `transactions set-notes`.
#[derive(Debug, Clone)]
pub struct TransactionsSetNotesArgs {
    pub ids: Vec<TransactionId>,
    pub notes: Option<String>,
    pub clear: bool,
}

/// How `transactions set-tags` combines the given tags with the existing ones.
#[derive(Debug, Clone, Copy, PartialEq, Eq, Structural)]
pub enum TagUpdateMode {
    /// Replace the transaction's tags by the given ones (`--mode set`).
    SetAll,
    Add,
    Remove,
}

/// Arguments of `transactions set-tags`.
#[derive(Debug, Clone)]
pub struct TransactionsSetTagsArgs {
    pub ids: Vec<TransactionId>,
    pub mode: TagUpdateMode,
    /// One or more tag IDs.
    pub tag_ids: Vec<TagId>,
}

/// Arguments of `transactions edit`.
#[derive(Debug, Clone)]
pub struct TransactionsEditArgs {
    pub ids: Vec<TransactionId>,
    /// Set transaction type (best-effort; server enum values vary).
    pub type_: Option<TransactionType>,
    /// Raw JSON to pass as EditTransactionInput (advanced).
    pub input_json: Option<String>,
}

/// Commands on categories.
#[derive(Debug, Clone)]
pub enum CategoriesCmd {
    List(CategoriesListArgs),
    Show { id: CategoryId },
    Create(CategoriesCreateArgs),
    Edit(CategoriesEditArgs),
}

/// Arguments of `categories list`.
#[derive(Debug, Clone)]
pub struct CategoriesListArgs {
    /// Include spend data (current + history).
    pub spend: bool,
    /// Include budget data (current + history).
    pub budget: bool,
    /// When used with `--budget`, request rollover-enabled budgets.
    pub rollovers: bool,
    /// Include child categories (nested categories).
    pub children: bool,
    /// Filter by name substring (case-insensitive).
    pub name_contains: Option<String>,
}

/// Arguments of `categories create`.
#[derive(Debug, Clone)]
pub struct CategoriesCreateArgs {
    pub name: String,
    pub emoji: Option<String>,
    pub color_name: Option<String>,
    pub excluded: bool,
    pub template_id: Option<String>,
    /// When set, include an initial budget in the category input.
    pub budget_unassigned_amount: Option<i64>,
}

/// Arguments of `categories edit`.
#[derive(Debug, Clone)]
pub struct CategoriesEditArgs {
    pub id: String,
    pub name: Option<String>,
    pub emoji: Option<String>,
    pub color_name: Option<String>,
    pub excluded: Option<bool>,
}

/// Commands on recurring rules.
#[derive(Debug, Clone)]
pub enum RecurringsCmd {
    List(RecurringsListArgs),
    Show { id: RecurringId },
    Create(RecurringsCreateArgs),
    Edit(RecurringsEditArgs),
}

/// Commands on tags.
#[derive(Debug, Clone)]
pub enum TagsCmd {
    List,
    Create(TagsCreateArgs),
    Delete(TagsDeleteArgs),
}

/// Arguments of `tags create`.
#[derive(Debug, Clone)]
pub struct TagsCreateArgs {
    pub name: String,
    pub color_name: Option<String>,
}

/// Arguments of `tags delete`.
#[derive(Debug, Clone)]
pub struct TagsDeleteArgs {
    pub id: TagId,
}

/// Arguments of `recurrings list`.
#[derive(Debug, Clone)]
pub struct RecurringsListArgs {
    /// Filter to a specific category id.
    pub category_id: Option<CategoryId>,
    /// Filter by name substring (case-insensitive).
    pub name_contains: Option<String>,
}

/// Arguments of `recurrings create`.
#[derive(Debug, Clone)]
pub struct RecurringsCreateArgs {
    /// A transaction ID to derive the recurring rule from.
    pub transaction_id: TransactionId,
    /// Recurring frequency (values like ANNUALLY, MONTHLY).
    pub frequency: RecurringFrequency,
}

/// Arguments of `recurrings edit`.
#[derive(Debug, Clone)]
pub struct RecurringsEditArgs {
    pub id: RecurringId,
    pub name_contains: Option<String>,
    pub min_amount: Option<i64>,
    pub max_amount: Option<i64>,
    pub recalculate_only_for_future: bool,
}

/// Commands on budgets.
#[derive(Debug, Clone, Copy, PartialEq, Eq, Structural)]
pub enum BudgetsCmd {
    Month,
    /// `budgets set`.
    SetBudget,
}

} // verus!
