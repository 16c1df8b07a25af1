//! Listing transactions: the server-side filter and sort, and the filter that
//! the command line applies to the transactions it received.

use vstd::prelude::*;
use crate::cli::TransactionsSort;
use crate::client::{Tag, Transaction};
use crate::dates::{date_to_epoch, normalize_date, spec_date_to_epoch, spec_normalize_date};
use crate::text::{
    chars_of, contains, contains_chars, chars_eq, lex_less, lex_lt, lowercase, to_lowercase,
};

verus! {

// ---------------------------------------------------------------------------
// Server-side sort
// ---------------------------------------------------------------------------

/// The field a server-side sort orders by.
#[derive(Debug, Clone, Copy, PartialEq, Eq, Structural)]
pub enum SortField {
    Date,
    Amount,
}

/// The direction of a server-side sort.
#[derive(Debug, Clone, Copy, PartialEq, Eq, Structural)]
pub enum SortDirection {
    Desc,
    Asc,
}

/// One entry of the GraphQL `sort` argument.
#[derive(Debug, Clone, Copy, PartialEq, Eq, Structural)]
pub struct GraphqlSort {
    pub field: SortField,
    pub direction: SortDirection,
}

impl SortField {
    /// The GraphQL spelling of the field.
    pub open spec fn spec_name(self) -> Seq<char> {
        match self {
            SortField::Date => "DATE"@,
            SortField::Amount => "AMOUNT"@,
        }
    }

    /// The GraphQL spelling of the field.
    pub fn as_str(&self) -> (r: &'static str)
        ensures
            r@ == self.spec_name(),
    {
        match self {
            SortField::Date => "DATE",
            SortField::Amount => "AMOUNT",
        }
    }
}

impl SortDirection {
    /// The GraphQL spelling of the direction.
    pub open spec fn spec_name(self) -> Seq<char> {
        match self {
            SortDirection::Desc => "DESC"@,
            SortDirection::Asc => "ASC"@,
        }
    }

    /// The GraphQL spelling of the direction.
    pub fn as_str(&self) -> (r: &'static str)
        ensures
            r@ == self.spec_name(),
    {
        match self {
            SortDirection::Desc => "DESC",
            SortDirection::Asc => "ASC",
        }
    }
}

/// The sort entry for a sort order chosen on the command line.
pub open spec fn sort_entry(s: TransactionsSort) -> GraphqlSort {
    match s {
        TransactionsSort::DateDesc => GraphqlSort { field: SortField::Date, direction: SortDirection::Desc },
        TransactionsSort::DateAsc => GraphqlSort { field: SortField::Date, direction: SortDirection::Asc },
        TransactionsSort::AmountDesc => GraphqlSort { field: SortField::Amount, direction: SortDirection::Desc },
        TransactionsSort::AmountAsc => GraphqlSort { field: SortField::Amount, direction: SortDirection::Asc },
    }
}

/// The GraphQL `sort` argument: one entry for the chosen order, or none.
pub fn sort_to_graphql(sort: Option<TransactionsSort>) -> (r: Option<Vec<GraphqlSort>>)
    ensures
        sort is None ==> r is None,
        sort matches Some(s) ==> (r matches Some(v) && v@ == seq![sort_entry(s)]),
{
    let s = match sort {
        None => return None,
        Some(s) => s,
    };
    let (field, direction) = match s {
        TransactionsSort::DateDesc => (SortField::Date, SortDirection::Desc),
        TransactionsSort::DateAsc => (SortField::Date, SortDirection::Asc),
        TransactionsSort::AmountDesc => (SortField::Amount, SortDirection::Desc),
        TransactionsSort::AmountAsc => (SortField::Amount, SortDirection::Asc),
    };
    let mut v: Vec<GraphqlSort> = Vec::new();
    v.push(GraphqlSort { field, direction });
    assert(v@ =~= seq![sort_entry(s)]);
    Some(v)
}

// ---------------------------------------------------------------------------
// Server-side filter
// ---------------------------------------------------------------------------

/// A range of epoch seconds; either end may be open.
#[derive(Debug, Clone, Copy, PartialEq, Eq, Structural)]
pub struct DateRange {
    pub start: Option<i64>,
    pub end: Option<i64>,
}

/// The GraphQL `filter` argument of a transactions query.
#[derive(Debug, Clone, PartialEq)]
pub struct TransactionsFilter {
    pub is_reviewed: Option<bool>,
    pub dates: Option<Vec<DateRange>>,
}

/// The review state a filter asks for: reviewed wins over unreviewed.
pub open spec fn review_wanted(reviewed: bool, unreviewed: bool) -> Option<bool> {
    if reviewed {
        Some(true)
    } else if unreviewed {
        Some(false)
    } else {
        None
    }
}

/// Epoch seconds of an optional date bound; an unparsable date leaves the
/// bound open.
pub open spec fn bound_epoch(d: Option<Seq<char>>, end_of_day: bool) -> Option<i64> {
    match d {
        None => None,
        Some(s) => spec_date_to_epoch(s, end_of_day),
    }
}

/// The date range a filter holds when a lower or upper date is given.
pub open spec fn range_wanted(df: Option<Seq<char>>, dt: Option<Seq<char>>) -> DateRange {
    DateRange { start: bound_epoch(df, false), end: bound_epoch(dt, true) }
}

/// The view of an optional string.
pub open spec fn opt_view(s: Option<&str>) -> Option<Seq<char>> {
    match s {
        None => None,
        Some(v) => Some(v@),
    }
}

/// Epoch seconds of an optional date argument.
fn bound_to_epoch(d: Option<&str>, end_of_day: bool) -> (r: Option<i64>)
    ensures
        r == bound_epoch(opt_view(d), end_of_day),
{
    match d {
        None => None,
        Some(s) => date_to_epoch(s, end_of_day),
    }
}

/// The date bounds of a listing: `--date` is both the lower and the upper
/// bound; without it, `--date-from` and `--date-to`.
pub fn date_bounds<'a>(
    date: Option<&'a str>,
    date_from: Option<&'a str>,
    date_to: Option<&'a str>,
) -> (r: (Option<&'a str>, Option<&'a str>))
    ensures
        date is Some ==> r == (date, date),
        date is None ==> r == (date_from, date_to),
{
    match date {
        Some(d) => (Some(d), Some(d)),
        None => (date_from, date_to),
    }
}

/// The server-side filter for the review flags and the date bounds: `None`
/// when nothing is asked for. A review state is asked for when either flag is
/// set (reviewed first); a date range when either bound is given, with each
/// given bound converted to epoch seconds (start of its day, end of its day)
/// and an unparsable bound left open.
pub fn build_transactions_filter(
    reviewed: bool,
    unreviewed: bool,
    date_from: Option<&str>,
    date_to: Option<&str>,
) -> (r: Option<TransactionsFilter>)
    ensures
        r is None <==> (review_wanted(reviewed, unreviewed) is None && date_from is None
            && date_to is None),
        r matches Some(f) ==> {
            &&& f.is_reviewed == review_wanted(reviewed, unreviewed)
            &&& (f.dates is Some <==> (date_from is Some || date_to is Some))
            &&& (f.dates matches Some(v) ==> v@ == seq![
                range_wanted(opt_view(date_from), opt_view(date_to)),
            ])
        },
{
    let is_reviewed = if reviewed {
        Some(true)
    } else if unreviewed {
        Some(false)
    } else {
        None
    };
    let dates = if date_from.is_some() || date_to.is_some() {
        let range = DateRange {
            start: bound_to_epoch(date_from, false),
            end: bound_to_epoch(date_to, true),
        };
        let mut v: Vec<DateRange> = Vec::new();
        v.push(range);
        assert(v@ =~= seq![range_wanted(opt_view(date_from), opt_view(date_to))]);
        Some(v)
    } else {
        None
    };
    if is_reviewed.is_none() && dates.is_none() {
        None
    } else {
        Some(TransactionsFilter { is_reviewed, dates })
    }
}

/// A filter by its values: the review state and the date ranges.
pub open spec fn filter_view(f: Option<TransactionsFilter>) -> Option<(Option<bool>, Option<Seq<DateRange>>)> {
    match f {
        None => None,
        Some(f) => Some((
            f.is_reviewed,
            match f.dates {
                Some(v) => Some(v@),
                None => None,
            },
        )),
    }
}

/// A sort argument by its entries.
pub open spec fn sort_view(s: Option<Vec<GraphqlSort>>) -> Option<Seq<GraphqlSort>> {
    match s {
        None => None,
        Some(v) => Some(v@),
    }
}

/// A copy of a vector of plain values.
fn copy_vec<T: Copy>(v: &Vec<T>) -> (r: Vec<T>)
    ensures
        r@ == v@,
{
    let mut out: Vec<T> = Vec::new();
    let n = v.len();
    for i in 0..n
        invariant
            n == v@.len(),
            out@ == v@.take(i as int),
    {
        out.push(v[i]);
        assert(v@.take(i + 1) =~= v@.take(i as int).push(v@[i as int]));
    }
    assert(v@.take(n as int) =~= v@);
    out
}

/// A copy of a filter.
pub fn copy_filter(f: &Option<TransactionsFilter>) -> (r: Option<TransactionsFilter>)
    ensures
        filter_view(r) == filter_view(*f),
{
    match f {
        None => None,
        Some(f) => Some(TransactionsFilter {
            is_reviewed: f.is_reviewed,
            dates: match &f.dates {
                None => None,
                Some(v) => Some(copy_vec(v)),
            },
        }),
    }
}

/// A copy of a sort argument.
pub fn copy_sort(s: &Option<Vec<GraphqlSort>>) -> (r: Option<Vec<GraphqlSort>>)
    ensures
        sort_view(r) == sort_view(*s),
{
    match s {
        None => None,
        Some(v) => Some(copy_vec(v)),
    }
}

/// The filter restricts dates: it holds a non-empty list of date ranges.
pub open spec fn has_date_filter(filter: Option<TransactionsFilter>) -> bool {
    filter matches Some(f) && f.dates matches Some(v) && v@.len() > 0
}

/// Whether a filter restricts dates.
pub fn filter_has_dates(filter: &Option<TransactionsFilter>) -> (r: bool)
    ensures
        r == has_date_filter(*filter),
{
    match filter {
        Some(f) => match &f.dates {
            Some(v) => v.len() > 0,
            None => false,
        },
        None => false,
    }
}

// ---------------------------------------------------------------------------
// Client-side filter
// ---------------------------------------------------------------------------

/// What the client-side filter of transactions asks for, by the views of the
/// command-line arguments.
pub struct TransactionCriteria {
    pub reviewed: bool,
    pub unreviewed: bool,
    pub category_id: Option<Seq<char>>,
    pub tags: Seq<Seq<char>>,
    pub query: Option<Seq<char>>,
    pub date: Option<Seq<char>>,
    pub date_from: Option<Seq<char>>,
    pub date_to: Option<Seq<char>>,
}

/// The text of an optional string field, empty when absent.
pub open spec fn text_or_empty(s: Option<String>) -> Seq<char> {
    match s {
        Some(v) => v@,
        None => Seq::empty(),
    }
}

/// A missing review flag counts as not reviewed.
pub open spec fn is_reviewed(t: Transaction) -> bool {
    t.is_reviewed == Some(true)
}

/// Some named tag among `tags`, lower-cased, equals some of the wanted tags
/// (already lower-cased).
pub open spec fn some_tag_wanted(tags: Seq<Tag>, wanted: Seq<Seq<char>>) -> bool {
    exists|i: int, j: int|
        #![trigger tags[i], wanted[j]]
        0 <= i < tags.len() && 0 <= j < wanted.len() && (tags[i].name matches Some(n) && lowercase(n@)
            == wanted[j])
}

/// Some named tag of `t`, lower-cased, equals some of the wanted tags
/// (already lower-cased).
pub open spec fn has_wanted_tag(t: Transaction, wanted: Seq<Seq<char>>) -> bool {
    match t.tags {
        None => false,
        Some(tags) => some_tag_wanted(tags@, wanted),
    }
}

/// Whether transaction `t` passes every criterion: the review flags; the
/// category (exact id); the query (case-insensitive substring of the name);
/// the exact date and the inclusive date bounds (compared as text with the
/// normalized dates; a date that does not normalize imposes nothing); and
/// the tags (any named tag equal, case-insensitively, to any wanted tag).
pub open spec fn passes(t: Transaction, c: TransactionCriteria) -> bool {
    let date = text_or_empty(t.date);
    &&& !(c.reviewed && !is_reviewed(t))
    &&& !(c.unreviewed && is_reviewed(t))
    &&& (c.category_id matches Some(cat) ==> (t.category_id matches Some(tc) && tc@ == cat))
    &&& (c.query matches Some(q) ==> contains(lowercase(text_or_empty(t.name)), lowercase(q)))
    &&& (spec_normalize_date_opt(c.date) matches Some(w) ==> date == w)
    &&& (spec_normalize_date_opt(c.date_from) matches Some(f) ==> !lex_lt(date, f))
    &&& (spec_normalize_date_opt(c.date_to) matches Some(e) ==> !lex_lt(e, date))
    &&& (c.tags.len() == 0 || has_wanted_tag(t, c.tags.map_values(|s: Seq<char>| lowercase(s))))
}

/// The normalized form of an optional date.
pub open spec fn spec_normalize_date_opt(d: Option<Seq<char>>) -> Option<Seq<char>> {
    match d {
        None => None,
        Some(s) => spec_normalize_date(s),
    }
}

/// The transactions of `items` that pass `c`, in their order.
pub open spec fn select(items: Seq<Transaction>, c: TransactionCriteria) -> Seq<Transaction>
    decreases items.len(),
{
    if items.len() == 0 {
        Seq::empty()
    } else {
        let rest = select(items.drop_last(), c);
        if passes(items.last(), c) {
            rest.push(items.last())
        } else {
            rest
        }
    }
}

/// The criteria given by the command-line arguments.
pub open spec fn criteria(
    reviewed: bool,
    unreviewed: bool,
    category_id: Option<&str>,
    tags: Seq<String>,
    query: Option<&str>,
    date: Option<&str>,
    date_from: Option<&str>,
    date_to: Option<&str>,
) -> TransactionCriteria {
    TransactionCriteria {
        reviewed,
        unreviewed,
        category_id: opt_view(category_id),
        tags: tags.map_values(|s: String| s@),
        query: opt_view(query),
        date: opt_view(date),
        date_from: opt_view(date_from),
        date_to: opt_view(date_to),
    }
}

/// The lower-cased characters of a string.
fn lower_chars(s: &str) -> (r: Vec<char>)
    ensures
        r@ == lowercase(s@),
{
    let l = to_lowercase(s);
    chars_of(l.as_str())
}

/// The normalized characters of an optional date.
fn normalized_chars(d: Option<&str>) -> (r: Option<Vec<char>>)
    ensures
        r is None <==> spec_normalize_date_opt(opt_view(d)) is None,
        r matches Some(v) ==> spec_normalize_date_opt(opt_view(d)) == Some(v@),
{
    match d {
        None => None,
        Some(s) => match normalize_date(s) {
            None => None,
            Some(n) => Some(chars_of(n.as_str())),
        },
    }
}

/// The characters of an optional string, empty when absent.
fn text_chars(s: &Option<String>) -> (r: Vec<char>)
    ensures
        r@ == text_or_empty(*s),
{
    match s {
        Some(v) => chars_of(v.as_str()),
        None => Vec::new(),
    }
}

/// Whether some named tag, lower-cased, equals some wanted tag.
fn any_tag_wanted(tags: &Vec<Tag>, wanted: &Vec<Vec<char>>, ghost_wanted: Ghost<Seq<Seq<char>>>) -> (r: bool)
    requires
        wanted@.len() == ghost_wanted@.len(),
        forall|j: int| 0 <= j < wanted@.len() ==> #[trigger] wanted@[j]@ == ghost_wanted@[j],
    ensures
        r == some_tag_wanted(tags@, ghost_wanted@),
{
    let n = tags.len();
    let m = wanted.len();
    for i in 0..n
        invariant
            n == tags@.len(),
            m == wanted@.len(),
            wanted@.len() == ghost_wanted@.len(),
            forall|j: int| 0 <= j < wanted@.len() ==> #[trigger] wanted@[j]@ == ghost_wanted@[j],
            forall|a: int, j: int|
                #![trigger tags@[a], ghost_wanted@[j]]
                0 <= a < i && 0 <= j < ghost_wanted@.len() ==> !(tags@[a].name matches Some(nm)
                    && lowercase(nm@) == ghost_wanted@[j]),
    {
        match &tags[i].name {
            None => {},
            Some(name) => {
                let l = lower_chars(name.as_str());
                for j in 0..m
                    invariant
                        n == tags@.len(),
                        m == wanted@.len(),
                        i < n,
                        wanted@.len() == ghost_wanted@.len(),
                        forall|k: int| 0 <= k < wanted@.len() ==> #[trigger] wanted@[k]@ == ghost_wanted@[k],
                        tags@[i as int].name matches Some(nm) && l@ == lowercase(nm@),
                        forall|k: int| 0 <= k < j ==> l@ != #[trigger] ghost_wanted@[k],
                {
                    if chars_eq(l.as_slice(), wanted[j].as_slice()) {
                        assert(wanted@[j as int]@ == ghost_wanted@[j as int]);
                        assert(tags@[i as int].name matches Some(nm) && lowercase(nm@) == ghost_wanted@[j as int]);
                        return true;
                    }
                }
            },
        }
    }
    false
}

/// The command-line criteria, prepared for checking: lower-cased query and
/// tags, normalized dates, and character vectors.
struct PreparedCriteria {
    reviewed: bool,
    unreviewed: bool,
    category: Option<Vec<char>>,
    query: Option<Vec<char>>,
    wanted: Vec<Vec<char>>,
    date: Option<Vec<char>>,
    date_from: Option<Vec<char>>,
    date_to: Option<Vec<char>>,
}

/// `p` is `c` prepared for checking.
spec fn prepared_for(p: PreparedCriteria, c: TransactionCriteria) -> bool {
    let wanted_spec = c.tags.map_values(|s: Seq<char>| lowercase(s));
    &&& p.reviewed == c.reviewed
    &&& p.unreviewed == c.unreviewed
    &&& p.wanted@.len() == wanted_spec.len()
    &&& forall|j: int| 0 <= j < p.wanted@.len() ==> #[trigger] p.wanted@[j]@ == wanted_spec[j]
    &&& (p.query is None <==> c.query is None)
    &&& (p.query matches Some(qv) ==> (c.query matches Some(cq) && qv@ == lowercase(cq)))
    &&& (p.category is None <==> c.category_id is None)
    &&& (p.category matches Some(cv) ==> c.category_id == Some(cv@))
    &&& (p.date is None <==> spec_normalize_date_opt(c.date) is None)
    &&& (p.date matches Some(v) ==> spec_normalize_date_opt(c.date) == Some(v@))
    &&& (p.date_from is None <==> spec_normalize_date_opt(c.date_from) is None)
    &&& (p.date_from matches Some(v) ==> spec_normalize_date_opt(c.date_from) == Some(v@))
    &&& (p.date_to is None <==> spec_normalize_date_opt(c.date_to) is None)
    &&& (p.date_to matches Some(v) ==> spec_normalize_date_opt(c.date_to) == Some(v@))
}

/// Prepares the command-line criteria for checking.
fn prepare_criteria(
    reviewed: bool,
    unreviewed: bool,
    category_id: Option<&str>,
    tags: &[String],
    query: Option<&str>,
    date: Option<&str>,
    date_from: Option<&str>,
    date_to: Option<&str>,
) -> (p: PreparedCriteria)
    ensures
        prepared_for(
            p,
            criteria(reviewed, unreviewed, category_id, tags@, query, date, date_from, date_to),
        ),
{
    let ghost c = criteria(reviewed, unreviewed, category_id, tags@, query, date, date_from, date_to);
    let ghost wanted_spec = c.tags.map_values(|s: Seq<char>| lowercase(s));
    let mut wanted: Vec<Vec<char>> = Vec::new();
    let nt = tags.len();
    for k in 0..nt
        invariant
            nt == tags@.len(),
            c.tags == tags@.map_values(|s: String| s@),
            wanted_spec == c.tags.map_values(|s: Seq<char>| lowercase(s)),
            wanted@.len() == k,
            forall|j: int| 0 <= j < k ==> #[trigger] wanted@[j]@ == wanted_spec[j],
    {
        wanted.push(lower_chars(tags[k].as_str()));
    }
    PreparedCriteria {
        reviewed,
        unreviewed,
        category: match category_id {
            None => None,
            Some(s) => Some(chars_of(s)),
        },
        query: match query {
            None => None,
            Some(s) => Some(lower_chars(s)),
        },
        wanted,
        date: normalized_chars(date),
        date_from: normalized_chars(date_from),
        date_to: normalized_chars(date_to),
    }
}

/// The review-flag criteria.
fn passes_review(p: &PreparedCriteria, t: &Transaction) -> (r: bool)
    ensures
        r == (!(p.reviewed && !is_reviewed(*t)) && !(p.unreviewed && is_reviewed(*t))),
{
    let rev = match t.is_reviewed {
        Some(b) => b,
        None => false,
    };
    !(p.reviewed && !rev) && !(p.unreviewed && rev)
}

/// The category criterion.
fn passes_category(cat: &Option<Vec<char>>, t: &Transaction) -> (r: bool)
    ensures
        r == (cat matches Some(cv) ==> (t.category_id matches Some(tc) && tc@ == cv@)),
{
    match cat {
        None => true,
        Some(cv) => match &t.category_id {
            None => false,
            Some(tc) => {
                let tcv = chars_of(tc.as_str());
                chars_eq(tcv.as_slice(), cv.as_slice())
            },
        },
    }
}

/// The query criterion.
fn passes_query(q: &Option<Vec<char>>, t: &Transaction) -> (r: bool)
    ensures
        r == (q matches Some(qv) ==> contains(lowercase(text_or_empty(t.name)), qv@)),
{
    match q {
        None => true,
        Some(qv) => {
            let name_lower = match &t.name {
                Some(n) => lower_chars(n.as_str()),
                None => lower_chars(""),
            };
            proof {
                if t.name is None {
                    reveal_strlit("");
                    assert(""@ =~= text_or_empty(t.name));
                }
            }
            contains_chars(name_lower.as_slice(), qv.as_slice())
        },
    }
}

/// The date criteria.
fn passes_dates(p: &PreparedCriteria, t: &Transaction) -> (r: bool)
    ensures
        r == {
            let date = text_or_empty(t.date);
            &&& (p.date matches Some(w) ==> date == w@)
            &&& (p.date_from matches Some(f) ==> !lex_lt(date, f@))
            &&& (p.date_to matches Some(e) ==> !lex_lt(e@, date))
        },
{
    let date_text = text_chars(&t.date);
    if let Some(w) = &p.date {
        if !chars_eq(date_text.as_slice(), w.as_slice()) {
            return false;
        }
    }
    if let Some(f) = &p.date_from {
        if lex_less(date_text.as_slice(), f.as_slice()) {
            return false;
        }
    }
    if let Some(e) = &p.date_to {
        if lex_less(e.as_slice(), date_text.as_slice()) {
            return false;
        }
    }
    true
}

/// Whether `t` passes the criteria `c`, which `p` prepares.
fn check_transaction(p: &PreparedCriteria, t: &Transaction, Ghost(c): Ghost<TransactionCriteria>) -> (r: bool)
    requires
        prepared_for(*p, c),
    ensures
        r == passes(*t, c),
{
    let ghost wanted_spec = c.tags.map_values(|s: Seq<char>| lowercase(s));
    if !passes_review(p, t) || !passes_category(&p.category, t) || !passes_query(&p.query, t)
        || !passes_dates(p, t) {
        return false;
    }
    if p.wanted.len() == 0 {
        return true;
    }
    match &t.tags {
        None => false,
        Some(ts) => any_tag_wanted(ts, &p.wanted, Ghost(wanted_spec)),
    }
}

/// Keeps the transactions that pass the command-line criteria, in their
/// order: review flags, category id, case-insensitive name substring, exact
/// date, inclusive date bounds (dates in either accepted spelling; one that
/// does not parse is ignored) and any of the tags (case-insensitive).
pub fn filter_transactions(
    items: Vec<Transaction>,
    reviewed: bool,
    unreviewed: bool,
    category_id: Option<&str>,
    tags: &[String],
    query: Option<&str>,
    date: Option<&str>,
    date_from: Option<&str>,
    date_to: Option<&str>,
) -> (r: Vec<Transaction>)
    ensures
        r@ == select(
            items@,
            criteria(reviewed, unreviewed, category_id, tags@, query, date, date_from, date_to),
        ),
{
    let ghost c = criteria(reviewed, unreviewed, category_id, tags@, query, date, date_from, date_to);
    let p = prepare_criteria(reviewed, unreviewed, category_id, tags, query, date, date_from, date_to);
    let mut out: Vec<Transaction> = Vec::new();
    let ghost all = items@;
    for t in it: items
        invariant
            prepared_for(p, c),
            it.seq() == all,
            out@ == select(all.take(it.index()), c),
    {
        let ghost prefix = all.take(it.index());
        let ghost next = all.take(it.index() + 1);
        proof {
            assert(next.drop_last() =~= prefix);
            assert(next.last() == t);
        }
        if check_transaction(&p, &t, Ghost(c)) {
            out.push(t);
        }
    }
    assert(all.take(all.len() as int) =~= all);
    out
}

} // verus!
