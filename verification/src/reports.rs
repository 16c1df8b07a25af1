//! Key/value reports of transaction listings and the client the command line
//! sets up.

use vstd::prelude::*;
use crate::auth::{bool_text, bool_to_string, row, row_views};
use crate::cli::TransactionField;
use crate::client::{ClientMode, CopilotClient, PageInfo, Transaction};
use crate::render::KeyValueRow;
use crate::text::str_eq;
use crate::transactions::{is_reviewed, text_or_empty};

verus! {

/// The pagination report: the end cursor and whether there is a next page
/// (each empty when unknown).
pub fn page_info_rows(p: &PageInfo) -> (r: Vec<KeyValueRow>)
    ensures
        row_views(r@) == seq![
            ("endCursor"@, text_or_empty(p.end_cursor)),
            ("hasNextPage"@, match p.has_next_page {
                Some(b) => bool_text(b),
                None => Seq::<char>::empty(),
            }),
        ],
{
    let mut rows: Vec<KeyValueRow> = Vec::new();
    let cursor = match &p.end_cursor {
        Some(c) => c.clone(),
        None => String::new(),
    };
    rows.push(row("endCursor", cursor));
    let next = match p.has_next_page {
        Some(b) => bool_to_string(b),
        None => String::new(),
    };
    rows.push(row("hasNextPage", next));
    assert(row_views(rows@) =~= seq![
        ("endCursor"@, text_or_empty(p.end_cursor)),
        ("hasNextPage"@, match p.has_next_page {
            Some(b) => bool_text(b),
            None => Seq::<char>::empty(),
        }),
    ]);
    rows
}

/// Whether the table shows categories, which needs their names.
pub fn needs_category_names(fields: &[TransactionField]) -> (r: bool)
    ensures
        r == fields@.contains(TransactionField::Category),
{
    let n = fields.len();
    for i in 0..n
        invariant
            n == fields@.len(),
            forall|k: int| 0 <= k < i ==> fields@[k] != TransactionField::Category,
    {
        if fields[i] == TransactionField::Category {
            assert(fields@[i as int] == TransactionField::Category);
            return true;
        }
    }
    false
}

/// The first transaction with the id `id`.
pub open spec fn first_with_id(items: Seq<Transaction>, id: Seq<char>) -> Option<Transaction>
    decreases items.len(),
{
    if items.len() == 0 {
        None
    } else if items[0].id@ == id {
        Some(items[0])
    } else {
        first_with_id(items.drop_first(), id)
    }
}

/// Skipping transactions with other ids does not change the first match.
proof fn lemma_first_with_id_skip(items: Seq<Transaction>, id: Seq<char>, k: int)
    requires
        0 <= k <= items.len(),
        forall|j: int| 0 <= j < k ==> (#[trigger] items[j]).id@ != id,
    ensures
        first_with_id(items, id) == first_with_id(items.skip(k), id),
    decreases k,
{
    if k == 0 {
        assert(items.skip(0) =~= items);
    } else {
        let t = items.drop_first();
        assert forall|j: int| 0 <= j < k - 1 implies (#[trigger] t[j]).id@ != id by {
            assert(t[j] == items[j + 1]);
        }
        lemma_first_with_id_skip(t, id, k - 1);
        assert(t.skip(k - 1) =~= items.skip(k));
    }
}

/// The first transaction with the id `id`, if any.
pub fn find_transaction(items: Vec<Transaction>, id: &str) -> (r: Option<Transaction>)
    ensures
        r == first_with_id(items@, id@),
{
    let ghost all = items@;
    for t in it: items
        invariant
            it.seq() == all,
            forall|j: int| 0 <= j < it.index() ==> (#[trigger] all[j]).id@ != id@,
    {
        let ghost i = it.index();
        proof {
            assert(all[i] == t);
            lemma_first_with_id_skip(all, id@, i);
            assert(all.skip(i)[0] == t);
        }
        if str_eq(t.id.as_str(), id) {
            return Some(t);
        }
    }
    proof {
        lemma_first_with_id_skip(all, id@, all.len() as int);
    }
    None
}

/// The view of an optional string field, empty when absent, as a row value.
fn text_value(s: &Option<String>) -> (r: String)
    ensures
        r@ == text_or_empty(*s),
{
    match s {
        Some(v) => v.clone(),
        None => String::new(),
    }
}

/// The `transactions show` report of a transaction whose amount reads
/// `amount`: id, date, name, amount, category id and whether it is reviewed.
pub fn transaction_detail_rows(t: &Transaction, amount: &str) -> (r: Vec<KeyValueRow>)
    ensures
        row_views(r@) == seq![
            ("id"@, t.id@),
            ("date"@, text_or_empty(t.date)),
            ("name"@, text_or_empty(t.name)),
            ("amount"@, amount@),
            ("category_id"@, text_or_empty(t.category_id)),
            ("reviewed"@, bool_text(is_reviewed(*t))),
        ],
{
    let mut rows: Vec<KeyValueRow> = Vec::new();
    rows.push(row("id", t.id.clone()));
    rows.push(row("date", text_value(&t.date)));
    rows.push(row("name", text_value(&t.name)));
    rows.push(row("amount", amount.to_owned()));
    rows.push(row("category_id", text_value(&t.category_id)));
    let reviewed = match t.is_reviewed {
        Some(b) => b,
        None => false,
    };
    rows.push(row("reviewed", bool_to_string(reviewed)));
    assert(row_views(rows@) =~= seq![
        ("id"@, t.id@),
        ("date"@, text_or_empty(t.date)),
        ("name"@, text_or_empty(t.name)),
        ("amount"@, amount@),
        ("category_id"@, text_or_empty(t.category_id)),
        ("reviewed"@, bool_text(is_reviewed(*t))),
    ]);
    rows
}

/// The session directory the client may refresh tokens with: the one given,
/// else the default one when it exists.
pub fn session_dir_choice(given: Option<&str>, default: &str, default_exists: bool) -> (r: Option<String>)
    ensures
        given matches Some(g) ==> (r matches Some(v) && v@ == g@),
        given is None && default_exists ==> (r matches Some(v) && v@ == default@),
        given is None && !default_exists ==> r is None,
{
    match given {
        Some(g) => Some(g.to_owned()),
        None => if default_exists {
            Some(default.to_owned())
        } else {
            None
        },
    }
}

/// `mode` is the live service at `base_url` with the token given on the
/// command line, else the saved one.
pub open spec fn live_mode(
    mode: ClientMode,
    base_url: Seq<char>,
    cli_token: Option<&str>,
    saved_token: Option<String>,
    token_file: Seq<char>,
    session_dir: Option<String>,
) -> bool {
    match mode {
        ClientMode::Http { base_url: b, token, token_file: f, session_dir: s } => {
            &&& b@ == base_url
            &&& f@ == token_file
            &&& s == session_dir
            &&& match cli_token {
                Some(t) => token matches Some(v) && v@ == t@,
                None => token == saved_token,
            }
        },
        ClientMode::Fixtures(_) => false,
    }
}

/// The client the command line uses: canned responses from the fixtures
/// directory when one is given, else the live service with the token given
/// on the command line or else the one saved in the token file.
pub fn client_for(
    fixtures_dir: Option<&str>,
    base_url: &str,
    cli_token: Option<&str>,
    saved_token: Option<String>,
    token_file: &str,
    session_dir: Option<String>,
) -> (r: CopilotClient)
    ensures
        fixtures_dir matches Some(d) ==> (r.mode() matches ClientMode::Fixtures(v) && v@ == d@),
        fixtures_dir is None ==> live_mode(r.mode(), base_url@, cli_token, saved_token, token_file@, session_dir),
{
    let mode = match fixtures_dir {
        Some(d) => ClientMode::Fixtures(d.to_owned()),
        None => ClientMode::Http {
            base_url: base_url.to_owned(),
            token: match cli_token {
                Some(t) => Some(t.to_owned()),
                None => saved_token,
            },
            token_file: token_file.to_owned(),
            session_dir,
        },
    };
    CopilotClient::new(mode)
}

} // verus!
