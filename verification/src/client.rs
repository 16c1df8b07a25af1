//! The service client's data model and the decisions it makes around each
//! GraphQL request: which operation to send, how to report errors, and when
//! to refresh an expired token and retry.

use vstd::prelude::*;
use crate::text::{chars_of, parse_unsigned, parse_unsigned_chars, string_of};
use crate::transactions::{filter_has_dates, has_date_filter, TransactionsFilter};

verus! {

/// Identifier of a transaction.
pub type TransactionId = String;

/// Identifier of a category.
pub type CategoryId = String;

/// Identifier of a linked institution item.
pub type ItemId = String;

/// Identifier of an account.
pub type AccountId = String;

/// Identifier of a recurring rule.
pub type RecurringId = String;

/// Identifier of a tag.
pub type TagId = String;

/// Transaction type, as the service spells it.
pub type TransactionType = String;

/// Frequency of a recurring rule, as the service spells it.
pub type RecurringFrequency = String;

/// Where the client gets its responses from.
#[derive(Debug, Clone)]
pub enum ClientMode {
    /// The live GraphQL endpoint.
    Http {
        base_url: String,
        token: Option<String>,
        token_file: String,
        session_dir: Option<String>,
    },
    /// Canned responses, one `<operation>.json` file per operation in a directory.
    Fixtures(String),
}

/// A client of the Copilot Money GraphQL service.
#[derive(Debug, Clone)]
pub struct CopilotClient {
    mode: ClientMode,
}

impl CopilotClient {
    /// A client that answers requests according to `mode`.
    pub fn new(mode: ClientMode) -> (r: Self)
        ensures
            r.mode() == mode,
    {
        CopilotClient { mode }
    }

    /// The mode the client was made with.
    pub closed spec fn mode(&self) -> ClientMode {
        self.mode
    }

    /// The mode the client was made with.
    pub fn client_mode(&self) -> (r: &ClientMode)
        ensures
            *r == self.mode(),
    {
        &self.mode
    }
}

/// A JSON value that stands in an amount field: scalars are kept, numbers and
/// composite values by their JSON text.
#[derive(Debug, Clone, PartialEq)]
pub enum AmountValue {
    Null,
    Bool(bool),
    Number(String),
    Text(String),
    /// An array or object, by its compact JSON text.
    Composite(String),
}

/// Pagination information of a page of results.
#[derive(Debug, Clone, PartialEq)]
pub struct PageInfo {
    pub end_cursor: Option<String>,
    pub has_next_page: Option<bool>,
    pub has_previous_page: Option<bool>,
    pub start_cursor: Option<String>,
}

/// A tag.
#[derive(Debug, Clone, PartialEq)]
pub struct Tag {
    pub id: TagId,
    pub name: Option<String>,
    pub color_name: Option<String>,
}

/// A transaction.
#[derive(Debug, PartialEq)]
pub struct Transaction {
    pub id: TransactionId,
    pub date: Option<String>,
    pub name: Option<String>,
    pub amount: Option<AmountValue>,
    pub item_id: Option<ItemId>,
    pub txn_type: Option<TransactionType>,
    pub is_reviewed: Option<bool>,
    pub category_id: Option<CategoryId>,
    pub account_id: Option<AccountId>,
    pub recurring_id: Option<RecurringId>,
    pub user_notes: Option<String>,
    pub tags: Option<Vec<Tag>>,
}

/// One page of transactions.
#[derive(Debug)]
pub struct TransactionsPage {
    pub transactions: Vec<Transaction>,
    pub page_info: PageInfo,
}

/// The three identifiers that name a transaction in a mutation.
#[derive(Debug, Clone, PartialEq)]
pub struct TransactionIdRef {
    pub account_id: AccountId,
    pub id: TransactionId,
    pub item_id: ItemId,
}

/// A transaction that a bulk edit could not update.
#[derive(Debug, Clone, PartialEq)]
pub struct BulkEditFailed {
    pub error: Option<String>,
    pub error_code: Option<String>,
}

/// The outcome of a bulk edit.
#[derive(Debug)]
pub struct BulkEditTransactionsResult {
    pub updated: Vec<Transaction>,
    pub failed: Vec<BulkEditFailed>,
}

/// The icon of a category.
#[derive(Debug, Clone, PartialEq)]
pub enum Icon {
    EmojiUnicode { unicode: Option<String> },
    Genmoji { id: Option<String>, src: Option<String> },
    Other,
}

/// A category, with its child categories when they were requested.
#[derive(Debug, PartialEq)]
pub struct Category {
    pub id: CategoryId,
    pub name: Option<String>,
    pub is_rollover_disabled: Option<bool>,
    pub can_be_deleted: Option<bool>,
    pub is_excluded: Option<bool>,
    pub template_id: Option<String>,
    pub color_name: Option<String>,
    pub icon: Option<Icon>,
    pub child_categories: Option<Vec<Category>>,
}

/// A recurring rule.
#[derive(Debug, Clone, PartialEq)]
pub struct Recurring {
    pub id: RecurringId,
    pub name: Option<String>,
    pub frequency: Option<RecurringFrequency>,
    pub category_id: Option<CategoryId>,
}

/// The budget of one month: the month and the amount as JSON text.
#[derive(Debug, Clone, PartialEq)]
pub struct BudgetMonth {
    pub month: String,
    pub amount: String,
}

// ---------------------------------------------------------------------------
// Requests
// ---------------------------------------------------------------------------

/// `s` without its trailing `/` characters (`str::trim_end_matches('/')`).
pub open spec fn trim_trailing_slashes(s: Seq<char>) -> Seq<char>
    decreases s.len(),
{
    if s.len() > 0 && s.last() == '/' {
        trim_trailing_slashes(s.drop_last())
    } else {
        s
    }
}

/// The GraphQL endpoint of the service at `base_url`.
pub open spec fn spec_graphql_url(base_url: Seq<char>) -> Seq<char> {
    trim_trailing_slashes(base_url) + "/api/graphql"@
}

/// The GraphQL endpoint of the service at `base_url`: the base without
/// trailing slashes, then `/api/graphql`.
pub fn graphql_url(base_url: &str) -> (r: String)
    ensures
        r@ == spec_graphql_url(base_url@),
{
    let cs = chars_of(base_url);
    let mut e = cs.len();
    assert(cs@.take(cs@.len() as int) =~= cs@);
    while e > 0 && cs[e - 1] == '/'
        invariant
            e <= cs@.len(),
            trim_trailing_slashes(cs@) == trim_trailing_slashes(cs@.take(e as int)),
        decreases e,
    {
        assert(cs@.take(e as int).drop_last() =~= cs@.take(e - 1));
        e = e - 1;
    }
    let mut prefix: Vec<char> = Vec::new();
    let mut i: usize = 0;
    while i < e
        invariant
            e <= cs@.len(),
            i <= e,
            prefix@ == cs@.take(i as int),
        decreases e - i,
    {
        prefix.push(cs[i]);
        assert(cs@.take(i + 1) =~= cs@.take(i as int).push(cs@[i as int]));
        i = i + 1;
    }
    let mut out = string_of(prefix.as_slice());
    out.append("/api/graphql");
    out
}

/// The first GraphQL error of a response: its message and its
/// `extensions.code`, each only when it is a string.
#[derive(Debug, Clone, PartialEq)]
pub struct GraphqlErrorInfo {
    pub message: Option<String>,
    pub code: Option<String>,
}

/// The message text of an error, empty when absent.
pub open spec fn message_text(e: GraphqlErrorInfo) -> Seq<char> {
    match e.message {
        Some(m) => m@,
        None => Seq::empty(),
    }
}

/// The response says the request was not authenticated: the first error's
/// code is `UNAUTHENTICATED`.
pub open spec fn spec_is_unauthenticated(first: Option<GraphqlErrorInfo>) -> bool {
    first matches Some(e) && e.code matches Some(c) && c@ == "UNAUTHENTICATED"@
}

/// Whether the response says the request was not authenticated.
pub fn is_unauthenticated(first: &Option<GraphqlErrorInfo>) -> (r: bool)
    ensures
        r == spec_is_unauthenticated(*first),
{
    match first {
        Some(e) => match &e.code {
            Some(c) => crate::text::str_eq(c.as_str(), "UNAUTHENTICATED"),
            None => false,
        },
        None => false,
    }
}

/// The error message for the first GraphQL error: `graphql error`, then
/// ` (<code>)` when there is a code, then `: <message>` when the message is not
/// empty; none when there is neither a code nor a message.
pub open spec fn spec_format_graphql_error(first: Option<GraphqlErrorInfo>) -> Option<Seq<char>> {
    match first {
        None => None,
        Some(e) => {
            let m = message_text(e);
            if m.len() == 0 && e.code is None {
                None
            } else {
                let with_code = match e.code {
                    Some(c) => "graphql error"@ + " ("@ + c@ + ")"@,
                    None => "graphql error"@,
                };
                Some(if m.len() > 0 { with_code + ": "@ + m } else { with_code })
            }
        },
    }
}

/// The error message for the first GraphQL error of a response, if any.
pub fn format_graphql_error(first: &Option<GraphqlErrorInfo>) -> (r: Option<String>)
    ensures
        r matches Some(s) ==> spec_format_graphql_error(*first) == Some(s@),
        r is None ==> spec_format_graphql_error(*first) is None,
{
    let e = match first {
        None => return None,
        Some(e) => e,
    };
    let has_message = match &e.message {
        Some(m) => !m.as_str().is_empty(),
        None => false,
    };
    if !has_message && e.code.is_none() {
        return None;
    }
    let mut out = "graphql error".to_owned();
    if let Some(c) = &e.code {
        out.append(" (");
        out.append(c.as_str());
        out.append(")");
    }
    if has_message {
        if let Some(m) = &e.message {
            out.append(": ");
            out.append(m.as_str());
        }
    }
    Some(out)
}

/// What went wrong with a GraphQL request.
#[derive(Debug, Clone, PartialEq)]
pub enum GraphqlFailure {
    /// The token is missing or expired and could not be refreshed.
    Unauthenticated,
    /// The response carries an error, with its formatted message.
    Error(String),
    /// The HTTP status is not a success (200..=299).
    HttpStatus(u16),
}

/// What to do after a response to a GraphQL request.
#[derive(Debug, Clone, PartialEq)]
pub enum GraphqlStep {
    /// The response body is the result.
    Done,
    /// Refresh the token through the saved browser session, save it, and send
    /// the request again.
    RefreshAndRetry,
    /// Give up with this failure.
    Fail(GraphqlFailure),
}

/// The step after the response to attempt number `attempt` (the request is
/// sent at most twice): an unauthenticated response is retried once, after a
/// refresh, when it answers the first attempt and a session directory exists,
/// and fails otherwise; then a GraphQL error fails with its message; then a
/// status outside 200..=299 fails; else the response is the result.
pub fn graphql_step(
    attempt: u32,
    status: u16,
    first: &Option<GraphqlErrorInfo>,
    session_dir_exists: bool,
) -> (r: GraphqlStep)
    ensures
        spec_is_unauthenticated(*first) ==> r == (if attempt == 1 && session_dir_exists {
            GraphqlStep::RefreshAndRetry
        } else {
            GraphqlStep::Fail(GraphqlFailure::Unauthenticated)
        }),
        !spec_is_unauthenticated(*first) ==> match spec_format_graphql_error(*first) {
            Some(m) => r matches GraphqlStep::Fail(GraphqlFailure::Error(s)) && s@ == m,
            None => r == (if 200 <= status <= 299 {
                GraphqlStep::Done
            } else {
                GraphqlStep::Fail(GraphqlFailure::HttpStatus(status))
            }),
        },
{
    if is_unauthenticated(first) {
        if attempt == 1 && session_dir_exists {
            return GraphqlStep::RefreshAndRetry;
        }
        return GraphqlStep::Fail(GraphqlFailure::Unauthenticated);
    }
    if let Some(msg) = format_graphql_error(first) {
        return GraphqlStep::Fail(GraphqlFailure::Error(msg));
    }
    if !(200 <= status && status <= 299) {
        return GraphqlStep::Fail(GraphqlFailure::HttpStatus(status));
    }
    GraphqlStep::Done
}

/// The GraphQL operation that lists transactions: the month-grouped feed when
/// the filter restricts dates, else the plain list.
#[derive(Debug, Clone, PartialEq)]
pub struct TransactionsQuery {
    /// The operation's name.
    pub operation_name: String,
    /// Where the result sits in the response (a JSON pointer).
    pub result_path: String,
    /// Whether the request asks for month grouping.
    pub month: bool,
}

/// Which operation lists transactions under `filter`.
pub fn transactions_query(filter: &Option<TransactionsFilter>) -> (r: TransactionsQuery)
    ensures
        has_date_filter(*filter) ==> r.operation_name@ == "TransactionsFeed"@
            && r.result_path@ == "/data/feed"@ && r.month,
        !has_date_filter(*filter) ==> r.operation_name@ == "Transactions"@
            && r.result_path@ == "/data/transactions"@ && !r.month,
{
    if filter_has_dates(filter) {
        TransactionsQuery {
            operation_name: "TransactionsFeed".to_owned(),
            result_path: "/data/feed".to_owned(),
            month: true,
        }
    } else {
        TransactionsQuery {
            operation_name: "Transactions".to_owned(),
            result_path: "/data/transactions".to_owned(),
            month: false,
        }
    }
}

/// The message for a response that does not have the expected shape.
pub fn unexpected_shape_message(operation_name: &str) -> (r: String)
    ensures
        r@ == "unexpected "@ + operation_name@ + " response shape"@,
{
    let mut out = "unexpected ".to_owned();
    out.append(operation_name);
    out.append(" response shape");
    out
}

/// A node of a transactions page.
#[derive(Debug)]
pub enum FeedNode {
    /// An edge without a node.
    Missing,
    /// A month heading of the month-grouped feed.
    Month,
    /// A transaction.
    Item(Transaction),
}

/// The transactions among the nodes of a page, in order.
pub open spec fn feed_transactions(nodes: Seq<FeedNode>) -> Seq<Transaction>
    decreases nodes.len(),
{
    if nodes.len() == 0 {
        Seq::empty()
    } else {
        let rest = feed_transactions(nodes.drop_last());
        match nodes.last() {
            FeedNode::Item(t) => rest.push(t),
            _ => rest,
        }
    }
}

/// The transactions of a page: month headings and edges without a node are
/// skipped.
pub fn page_transactions(nodes: Vec<FeedNode>) -> (r: Vec<Transaction>)
    ensures
        r@ == feed_transactions(nodes@),
{
    let ghost all = nodes@;
    let mut out: Vec<Transaction> = Vec::new();
    for node in it: nodes
        invariant
            it.seq() == all,
            out@ == feed_transactions(all.take(it.index())),
    {
        proof {
            let next = all.take(it.index() + 1);
            assert(next.drop_last() =~= all.take(it.index()));
            assert(next.last() == node);
        }
        match node {
            FeedNode::Item(t) => out.push(t),
            _ => {},
        }
    }
    assert(all.take(all.len() as int) =~= all);
    out
}

/// The budget of a month from the response fields: a missing month is empty,
/// a missing amount is `null`.
pub fn budget_month(month: Option<String>, amount_json: Option<String>) -> (r: BudgetMonth)
    ensures
        r.month@ == (match month {
            Some(m) => m@,
            None => Seq::empty(),
        }),
        r.amount@ == (match amount_json {
            Some(a) => a@,
            None => "null"@,
        }),
{
    BudgetMonth {
        month: match month {
            Some(m) => m,
            None => String::new(),
        },
        amount: match amount_json {
            Some(a) => a,
            None => "null".to_owned(),
        },
    }
}

/// A timeout setting: the environment value when it is a `u64`, else the
/// default.
pub open spec fn spec_timeout_setting(value: Option<Seq<char>>, default: u64) -> u64 {
    match value {
        Some(v) => match parse_unsigned(v, 0xFFFF_FFFF_FFFF_FFFF) {
            Some(n) => n as u64,
            None => default,
        },
        None => default,
    }
}

/// A timeout setting from an environment value, with a default.
pub fn timeout_setting(value: Option<&str>, default: u64) -> (r: u64)
    ensures
        r == spec_timeout_setting(
            match value {
                Some(v) => Some(v@),
                None => None,
            },
            default,
        ),
{
    match value {
        None => default,
        Some(v) => {
            let cs = chars_of(v);
            match parse_unsigned_chars(cs.as_slice(), 0xFFFF_FFFF_FFFF_FFFF) {
                Some(n) => n,
                None => default,
            }
        },
    }
}

} // verus!
