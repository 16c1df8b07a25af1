//! Fetching transactions page by page: the pages a listing collects, and
//! finding transactions by id by scanning pages. The program around the
//! library fetches each page; these state machines decide what to fetch next
//! and what the result is.

use vstd::prelude::*;
use crate::client::{PageInfo, Transaction, TransactionId, TransactionsPage};
use crate::config::views;
use crate::transactions::{copy_filter, copy_sort, filter_view, sort_view, GraphqlSort, TransactionsFilter};
use crate::text::str_eq;

verus! {

/// Page information with every field absent.
pub open spec fn empty_page_info() -> PageInfo {
    PageInfo { end_cursor: None, has_next_page: None, has_previous_page: None, start_cursor: None }
}

// ---------------------------------------------------------------------------
// Listing
// ---------------------------------------------------------------------------

/// A request for one page of transactions: how many to return, the cursor
/// to continue after, and the server-side filter and sort.
#[derive(Debug, PartialEq)]
pub struct PageRequest {
    pub first: usize,
    pub after: Option<String>,
    pub filter: Option<TransactionsFilter>,
    pub sort: Option<Vec<GraphqlSort>>,
}

/// Collects the pages of a transaction listing: at most `max_pages` pages are
/// fetched, each of the same size, filter and sort, each from the cursor the
/// previous one ended at, and fetching stops after a page that has no next
/// page or no end cursor.
pub struct PageCollector {
    page_size: usize,
    filter: Option<TransactionsFilter>,
    sort: Option<Vec<GraphqlSort>>,
    items: Vec<Transaction>,
    cursor: Option<String>,
    last: Option<PageInfo>,
    fetched: usize,
    max_pages: usize,
    done: bool,
}

impl PageCollector {
    /// The transactions collected so far, in order.
    pub closed spec fn collected(&self) -> Seq<Transaction> {
        self.items@
    }

    /// The cursor the next page starts from.
    pub closed spec fn cursor(&self) -> Option<String> {
        self.cursor
    }

    /// The page information of the last page fetched.
    pub closed spec fn last_page_info(&self) -> Option<PageInfo> {
        self.last
    }

    /// How many pages were fetched.
    pub closed spec fn fetched(&self) -> nat {
        self.fetched as nat
    }

    /// The most pages that will be fetched.
    pub closed spec fn max_pages(&self) -> nat {
        self.max_pages as nat
    }

    /// Whether a page said there is nothing more.
    pub closed spec fn exhausted(&self) -> bool {
        self.done
    }

    /// The size of each page.
    pub closed spec fn page_size(&self) -> usize {
        self.page_size
    }

    /// The server-side filter of each page.
    pub closed spec fn filter(&self) -> Option<(Option<bool>, Option<Seq<crate::transactions::DateRange>>)> {
        filter_view(self.filter)
    }

    /// The server-side sort of each page.
    pub closed spec fn sort(&self) -> Option<Seq<GraphqlSort>> {
        sort_view(self.sort)
    }

    /// A listing of pages of `page_size` transactions with `filter` and
    /// `sort`, that starts at `after` and fetches `pages` pages (at least
    /// one), or with `all` as many as there are.
    pub fn new(
        page_size: usize,
        after: Option<String>,
        pages: usize,
        all: bool,
        filter: Option<TransactionsFilter>,
        sort: Option<Vec<GraphqlSort>>,
    ) -> (r: Self)
        ensures
            r.page_size() == page_size,
            r.filter() == filter_view(filter),
            r.sort() == sort_view(sort),
            r.collected() == Seq::<Transaction>::empty(),
            r.cursor() == after,
            r.last_page_info() is None,
            r.fetched() == 0,
            r.max_pages() == (if all { usize::MAX as nat } else if pages >= 1 { pages as nat } else { 1 }),
            !r.exhausted(),
    {
        let max_pages = if all {
            usize::MAX
        } else if pages >= 1 {
            pages
        } else {
            1
        };
        PageCollector {
            page_size,
            filter,
            sort,
            items: Vec::new(),
            cursor: after,
            last: None,
            fetched: 0,
            max_pages,
            done: false,
        }
    }

    /// The request for the next page, or none when the listing is complete:
    /// the listing's page size, filter and sort, after the current cursor.
    pub fn next_request(&self) -> (r: Option<PageRequest>)
        ensures
            r is Some <==> (!self.exhausted() && self.fetched() < self.max_pages()),
            r matches Some(q) ==> {
                &&& q.first == self.page_size()
                &&& q.after == self.cursor()
                &&& filter_view(q.filter) == self.filter()
                &&& sort_view(q.sort) == self.sort()
            },
    {
        if self.done || self.fetched >= self.max_pages {
            None
        } else {
            Some(PageRequest {
                first: self.page_size,
                after: self.cursor.clone(),
                filter: copy_filter(&self.filter),
                sort: copy_sort(&self.sort),
            })
        }
    }

    /// Adds a fetched page: its transactions are appended, its end cursor is
    /// where the next page starts, and the listing is complete when the page
    /// has no next page or no end cursor.
    pub fn add_page(&mut self, page: TransactionsPage)
        requires
            !old(self).exhausted(),
            old(self).fetched() < old(self).max_pages(),
        ensures
            final(self).collected() == old(self).collected() + page.transactions@,
            final(self).cursor() == page.page_info.end_cursor,
            final(self).last_page_info() == Some(page.page_info),
            final(self).fetched() == old(self).fetched() + 1,
            final(self).max_pages() == old(self).max_pages(),
            final(self).page_size() == old(self).page_size(),
            final(self).filter() == old(self).filter(),
            final(self).sort() == old(self).sort(),
            final(self).exhausted() == (page.page_info.has_next_page != Some(true)
                || page.page_info.end_cursor is None),
    {
        let TransactionsPage { transactions, page_info } = page;
        let mut transactions = transactions;
        self.items.append(&mut transactions);
        self.cursor = page_info.end_cursor.clone();
        let has_next = match page_info.has_next_page {
            Some(b) => b,
            None => false,
        };
        self.done = !has_next || self.cursor.is_none();
        self.last = Some(page_info);
        self.fetched = self.fetched + 1;
    }

    /// The collected transactions and the last page's information (all
    /// absent when no page was fetched).
    pub fn finish(self) -> (r: (Vec<Transaction>, PageInfo))
        ensures
            r.0@ == self.collected(),
            r.1 == (match self.last_page_info() {
                Some(p) => p,
                None => empty_page_info(),
            }),
    {
        let info = match self.last {
            Some(p) => p,
            None => PageInfo { end_cursor: None, has_next_page: None, has_previous_page: None, start_cursor: None },
        };
        (self.items, info)
    }
}

// ---------------------------------------------------------------------------
// Finding transactions by id
// ---------------------------------------------------------------------------

/// The position of `id` in `want`, if it is there.
pub open spec fn position_of(want: Seq<Seq<char>>, id: Seq<char>) -> Option<int>
    decreases want.len(),
{
    if want.len() == 0 {
        None
    } else if want.last() == id {
        Some(want.len() - 1)
    } else {
        position_of(want.drop_last(), id)
    }
}

/// `ids` once each, in the order of first occurrence.
pub open spec fn distinct(ids: Seq<Seq<char>>) -> Seq<Seq<char>>
    decreases ids.len(),
{
    if ids.len() == 0 {
        Seq::empty()
    } else {
        let rest = distinct(ids.drop_last());
        if rest.contains(ids.last()) {
            rest
        } else {
            rest.push(ids.last())
        }
    }
}

/// The transactions put in `slots` (one slot per wanted id) by a page: each
/// transaction whose id is wanted replaces the content of its slot.
pub open spec fn absorb_page(slots: Seq<Option<Transaction>>, want: Seq<Seq<char>>, page: Seq<Transaction>) -> Seq<Option<Transaction>>
    decreases page.len(),
{
    if page.len() == 0 {
        slots
    } else {
        let before = absorb_page(slots, want, page.drop_last());
        let t = page.last();
        match position_of(want, t.id@) {
            Some(j) => before.update(j, Some(t)),
            None => before,
        }
    }
}

/// Each filled slot holds a transaction with the slot's wanted id.
pub open spec fn slots_consistent(slots: Seq<Option<Transaction>>, want: Seq<Seq<char>>) -> bool {
    forall|j: int| 0 <= j < slots.len() && j < want.len() ==> (#[trigger] slots[j] matches Some(t) ==> t.id@ == want[j])
}

/// The number of filled slots.
pub open spec fn filled(slots: Seq<Option<Transaction>>) -> nat
    decreases slots.len(),
{
    if slots.len() == 0 {
        0
    } else {
        filled(slots.drop_last()) + if slots.last() is Some { 1nat } else { 0nat }
    }
}

/// The transactions for `ids` in their order, taking each found transaction
/// out of its slot when it is used, and the ids that were left without one.
pub open spec fn resolve_ids(ids: Seq<Seq<char>>, want: Seq<Seq<char>>, slots: Seq<Option<Transaction>>) -> (Seq<Transaction>, Seq<Seq<char>>)
    decreases ids.len(),
{
    if ids.len() == 0 {
        (Seq::empty(), Seq::empty())
    } else {
        let id = ids[0];
        match position_of(want, id) {
            Some(j) => match slots[j] {
                Some(t) => {
                    let rest = resolve_ids(ids.drop_first(), want, slots.update(j, None));
                    (seq![t] + rest.0, rest.1)
                },
                None => {
                    let rest = resolve_ids(ids.drop_first(), want, slots);
                    (rest.0, seq![id] + rest.1)
                },
            },
            None => {
                let rest = resolve_ids(ids.drop_first(), want, slots);
                (rest.0, seq![id] + rest.1)
            },
        }
    }
}

/// Why some transactions could not be found.
#[derive(Debug, Clone, PartialEq)]
pub struct UnresolvedIds {
    /// The ids without a transaction, in the order given.
    pub missing: Vec<TransactionId>,
    /// How many transactions were scanned.
    pub scanned: usize,
}

/// Finds transactions by id by scanning pages of 200 transactions from the
/// newest, at most 200 pages, stopping early when every id was seen or the
/// pages run out.
pub struct IdResolver {
    want: Vec<TransactionId>,
    slots: Vec<Option<Transaction>>,
    found: usize,
    cursor: Option<String>,
    scanned: usize,
    pages: usize,
    done: bool,
}

/// The size of the pages that are scanned.
pub open spec fn scan_page_size() -> usize {
    200
}

/// The most pages that are scanned.
pub open spec fn max_scan_pages() -> usize {
    200
}

impl IdResolver {
    /// The wanted ids, once each.
    pub closed spec fn wanted(&self) -> Seq<Seq<char>> {
        views(self.want@)
    }

    /// The latest transaction seen for each wanted id.
    pub closed spec fn slots(&self) -> Seq<Option<Transaction>> {
        self.slots@
    }

    /// How many transactions were scanned.
    pub closed spec fn scanned(&self) -> nat {
        self.scanned as nat
    }

    /// How many pages were scanned.
    pub closed spec fn pages(&self) -> nat {
        self.pages as nat
    }

    /// The cursor of the next page.
    pub closed spec fn cursor(&self) -> Option<String> {
        self.cursor
    }

    /// Whether scanning is over: every id was seen or the pages ran out.
    pub closed spec fn complete(&self) -> bool {
        self.done
    }

    /// The resolver's invariant.
    pub closed spec fn wf(&self) -> bool {
        &&& self.slots@.len() == self.want@.len()
        &&& slots_consistent(self.slots@, views(self.want@))
        &&& self.found as nat == filled(self.slots@)
        &&& self.found <= self.want@.len()
    }

    /// The number of transactions scanned so far.
    pub fn scanned_count(&self) -> (r: usize)
        ensures
            r == self.scanned(),
    {
        self.scanned
    }

    /// A resolver for `ids`.
    pub fn new(ids: &[TransactionId]) -> (r: Self)
        ensures
            r.wf(),
            r.wanted() == distinct(views(ids@)),
            r.slots() == Seq::new(distinct(views(ids@)).len(), |i: int| None::<Transaction>),
            r.scanned() == 0,
            r.pages() == 0,
            r.cursor() is None,
            !r.complete(),
    {
        let mut want: Vec<TransactionId> = Vec::new();
        let n = ids.len();
        for i in 0..n
            invariant
                n == ids@.len(),
                views(want@) == distinct(views(ids@).take(i as int)),
        {
            let ghost pre = views(ids@).take(i as int);
            let ghost next = views(ids@).take(i + 1);
            assert(next.drop_last() =~= pre);
            assert(next.last() == ids@[i as int]@);
            if !contains_id(&want, ids[i].as_str()) {
                want.push(ids[i].clone());
                assert(views(want@) =~= distinct(next));
            }
        }
        assert(views(ids@).take(n as int) =~= views(ids@));
        let mut slots: Vec<Option<Transaction>> = Vec::new();
        let m = want.len();
        for i in 0..m
            invariant
                m == want@.len(),
                slots@ == Seq::new(i as nat, |k: int| None::<Transaction>),
        {
            slots.push(None);
            assert(slots@ =~= Seq::new((i + 1) as nat, |k: int| None::<Transaction>));
        }
        proof {
            lemma_filled_none(m as nat);
        }
        IdResolver { want, slots, found: 0, cursor: None, scanned: 0, pages: 0, done: false }
    }

    /// The request for the next page to scan, or none when scanning is over:
    /// 200 transactions after the current cursor, without filter or sort.
    pub fn next_request(&self) -> (r: Option<PageRequest>)
        ensures
            r is Some <==> (!self.complete() && self.pages() < max_scan_pages()),
            r matches Some(q) ==> {
                &&& q.first == scan_page_size()
                &&& q.after == self.cursor()
                &&& q.filter is None
                &&& q.sort is None
            },
    {
        if self.done || self.pages >= 200 {
            None
        } else {
            Some(PageRequest { first: 200, after: self.cursor.clone(), filter: None, sort: None })
        }
    }

    /// Scans a page: each transaction with a wanted id replaces the one seen
    /// before for that id; scanning is over when every id was seen or the
    /// page has no next page.
    pub fn add_page(&mut self, page: TransactionsPage)
        requires
            old(self).wf(),
            !old(self).complete(),
            old(self).pages() < max_scan_pages(),
            old(self).scanned() + page.transactions@.len() <= usize::MAX,
        ensures
            final(self).wf(),
            final(self).wanted() == old(self).wanted(),
            final(self).slots() == absorb_page(old(self).slots(), old(self).wanted(), page.transactions@),
            final(self).scanned() == old(self).scanned() + page.transactions@.len(),
            final(self).pages() == old(self).pages() + 1,
            final(self).cursor() == page.page_info.end_cursor,
            final(self).complete() == (filled(final(self).slots()) == final(self).wanted().len()
                || page.page_info.has_next_page != Some(true)),
    {
        let TransactionsPage { transactions, page_info } = page;
        let has_next = match page_info.has_next_page {
            Some(b) => b,
            None => false,
        };
        self.cursor = page_info.end_cursor;
        self.scanned = self.scanned + transactions.len();
        let ghost all = transactions@;
        let ghost start = self.slots@;
        let ghost wantv = views(self.want@);
        let ghost scanned0 = self.scanned;
        let ghost pages0 = self.pages;
        let ghost cursor0 = self.cursor;
        for t in it: transactions
            invariant
                it.seq() == all,
                self.scanned == scanned0,
                self.pages == pages0,
                self.cursor == cursor0,
                self.slots@.len() == self.want@.len(),
                self.found as nat == filled(self.slots@),
                self.found <= self.want@.len(),
                wantv == views(self.want@),
                slots_consistent(self.slots@, wantv),
                self.slots@ == absorb_page(start, wantv, all.take(it.index())),
        {
            proof {
                let next = all.take(it.index() + 1);
                assert(next.drop_last() =~= all.take(it.index()));
                assert(next.last() == t);
            }
            match find_position(&self.want, t.id.as_str()) {
                Some(j) => {
                    let was_empty = self.slots[j].is_none();
                    let wanted = self.want.len();
                    proof {
                        lemma_position_of_absent(wantv, t.id@);
                        lemma_filled_update(self.slots@, j as int, Some(t));
                        lemma_filled_bound(self.slots@.update(j as int, Some(t)));
                        if was_empty {
                            assert(self.slots@[j as int] is None);
                            assert(filled(self.slots@.update(j as int, Some(t))) == filled(self.slots@) + 1);
                            assert(self.found < wanted);
                        }
                    }
                    let new_found = if was_empty {
                        self.found + 1
                    } else {
                        self.found
                    };
                    self.slots.set(j, Some(t));
                    self.found = new_found;
                },
                None => {},
            }
        }
        assert(all.take(all.len() as int) =~= all);
        self.pages = self.pages + 1;
        self.done = self.found == self.want.len() || !has_next;
    }

    /// The transactions for `ids`, in their order; each transaction that was
    /// seen serves the first occurrence of its id; when some occurrence has
    /// no transaction, the error lists those ids and how many transactions
    /// were scanned.
    pub fn finish(self, ids: &[TransactionId]) -> (r: Result<Vec<Transaction>, UnresolvedIds>)
        requires
            self.wf(),
        ensures
            ({
                let (found, missing) = resolve_ids(views(ids@), self.wanted(), self.slots());
                &&& missing.len() == 0 ==> (r matches Ok(v) && v@ == found)
                &&& missing.len() > 0 ==> (r matches Err(e) && views(e.missing@) == missing
                    && e.scanned == self.scanned())
            }),
    {
        let IdResolver { want, slots, found: _, cursor: _, scanned, pages: _, done: _ } = self;
        let mut slots = slots;
        let ghost wantv = views(want@);
        let ghost idsv = views(ids@);
        let ghost whole = resolve_ids(idsv, wantv, slots@);
        let mut ordered: Vec<Transaction> = Vec::new();
        let mut missing: Vec<TransactionId> = Vec::new();
        proof {
            assert(idsv.skip(0) =~= idsv);
            assert(ordered@ + whole.0 =~= whole.0);
            assert(views(missing@) + whole.1 =~= whole.1);
        }
        let n = ids.len();
        for i in 0..n
            invariant
                n == ids@.len(),
                idsv == views(ids@),
                wantv == views(want@),
                slots@.len() == want@.len(),
                whole == ({
                    let rest = resolve_ids(idsv.skip(i as int), wantv, slots@);
                    (ordered@ + rest.0, views(missing@) + rest.1)
                }),
        {
            let ghost tail = idsv.skip(i as int);
            proof {
                assert(tail[0] == ids@[i as int]@);
                assert(tail.drop_first() =~= idsv.skip(i + 1));
            }
            let ghost before_slots = slots@;
            match find_position(&want, ids[i].as_str()) {
                Some(j) => {
                    let slot = slots.remove(j);
                    slots.insert(j, None);
                    assert(slots@ =~= before_slots.update(j as int, None));
                    match slot {
                        Some(t) => {
                            ordered.push(t);
                            proof {
                                let rest = resolve_ids(idsv.skip(i + 1), wantv, slots@);
                                assert(ordered@ + rest.0 =~= ordered@.drop_last() + (seq![ordered@.last()] + rest.0));
                            }
                        },
                        None => {
                            missing.push(ids[i].clone());
                            proof {
                                assert(slots@ =~= before_slots);
                                let rest = resolve_ids(idsv.skip(i + 1), wantv, slots@);
                                assert(views(missing@) =~= views(missing@.drop_last()).push(ids@[i as int]@));
                                assert(views(missing@) + rest.1 =~= views(missing@.drop_last()) + (seq![ids@[i as int]@] + rest.1));
                            }
                        },
                    }
                },
                None => {
                    missing.push(ids[i].clone());
                    proof {
                        let rest = resolve_ids(idsv.skip(i + 1), wantv, slots@);
                        assert(views(missing@) =~= views(missing@.drop_last()).push(ids@[i as int]@));
                        assert(views(missing@) + rest.1 =~= views(missing@.drop_last()) + (seq![ids@[i as int]@] + rest.1));
                    }
                },
            }
        }
        proof {
            assert(idsv.skip(n as int) =~= Seq::<Seq<char>>::empty());
            assert(ordered@ + Seq::<Transaction>::empty() =~= ordered@);
            assert(views(missing@) + Seq::<Seq<char>>::empty() =~= views(missing@));
        }
        if missing.len() == 0 {
            Ok(ordered)
        } else {
            Err(UnresolvedIds { missing, scanned })
        }
    }
}

/// Whether `id` is among `v`.
fn contains_id(v: &Vec<TransactionId>, id: &str) -> (r: bool)
    ensures
        r == views(v@).contains(id@),
{
    match find_position(v, id) {
        Some(j) => {
            proof {
                lemma_position_of_absent(views(v@), id@);
            }
            true
        },
        None => {
            proof {
                lemma_position_of_absent(views(v@), id@);
            }
            false
        },
    }
}

/// When `position_of` finds nothing, the sequence does not contain the id.
proof fn lemma_position_of_absent(want: Seq<Seq<char>>, id: Seq<char>)
    ensures
        position_of(want, id) is None <==> !want.contains(id),
        position_of(want, id) matches Some(j) ==> 0 <= j < want.len() && want[j] == id,
    decreases want.len(),
{
    if want.len() > 0 {
        lemma_position_of_absent(want.drop_last(), id);
        if want.last() != id {
            if want.contains(id) {
                let k = choose|k: int| 0 <= k < want.len() && want[k] == id;
                assert(want.drop_last()[k] == id);
            }
            if want.drop_last().contains(id) {
                let k = choose|k: int| 0 <= k < want.drop_last().len() && want.drop_last()[k] == id;
                assert(want[k] == id);
            }
        } else {
            assert(want[want.len() - 1] == id);
        }
    }
}

/// The position of `id` among `v`, searching from the end.
fn find_position(v: &Vec<TransactionId>, id: &str) -> (r: Option<usize>)
    ensures
        r matches Some(j) ==> position_of(views(v@), id@) == Some(j as int) && j < v@.len(),
        r is None ==> position_of(views(v@), id@) is None,
{
    let ghost all = views(v@);
    let mut i = v.len();
    assert(all.take(all.len() as int) =~= all);
    while i > 0
        invariant
            i <= v@.len(),
            all == views(v@),
            position_of(all, id@) == position_of(all.take(i as int), id@),
        decreases i,
    {
        let ghost pre = all.take(i as int);
        assert(pre.drop_last() =~= all.take(i - 1));
        assert(pre.last() == v@[i - 1]@);
        if str_eq(v[i - 1].as_str(), id) {
            return Some(i - 1);
        }
        i = i - 1;
    }
    None
}

/// No slot of a fresh resolver is filled.
proof fn lemma_filled_none(n: nat)
    ensures
        filled(Seq::new(n, |i: int| None::<Transaction>)) == 0,
    decreases n,
{
    if n > 0 {
        assert(Seq::new(n, |i: int| None::<Transaction>).drop_last() =~= Seq::new((n - 1) as nat, |i: int| None::<Transaction>));
        lemma_filled_none((n - 1) as nat);
    }
}

/// Filling a slot adds one when it was empty and nothing otherwise.
proof fn lemma_filled_update(slots: Seq<Option<Transaction>>, j: int, t: Option<Transaction>)
    requires
        0 <= j < slots.len(),
        t is Some,
    ensures
        filled(slots.update(j, t)) == filled(slots) + if slots[j] is None { 1nat } else { 0nat },
    decreases slots.len(),
{
    let u = slots.update(j, t);
    if j == slots.len() - 1 {
        assert(u.drop_last() =~= slots.drop_last());
    } else {
        assert(u.drop_last() =~= slots.drop_last().update(j, t));
        lemma_filled_update(slots.drop_last(), j, t);
    }
}

/// At most every slot is filled.
proof fn lemma_filled_bound(slots: Seq<Option<Transaction>>)
    ensures
        filled(slots) <= slots.len(),
    decreases slots.len(),
{
    if slots.len() > 0 {
        lemma_filled_bound(slots.drop_last());
    }
}

/// In a list of distinct ids, an id is found at its own position.
proof fn lemma_position_of_distinct(want: Seq<Seq<char>>, j: int)
    requires
        want.no_duplicates(),
        0 <= j < want.len(),
    ensures
        position_of(want, want[j]) == Some(j),
{
    lemma_position_of_absent(want, want[j]);
    assert(want.contains(want[j]));
}

/// Absorbing a page keeps one slot per wanted id.
proof fn lemma_absorb_page_len(slots: Seq<Option<Transaction>>, want: Seq<Seq<char>>, page: Seq<Transaction>)
    requires
        slots.len() == want.len(),
    ensures
        absorb_page(slots, want, page).len() == slots.len(),
    decreases page.len(),
{
    if page.len() > 0 {
        lemma_absorb_page_len(slots, want, page.drop_last());
        lemma_position_of_absent(want, page.last().id@);
    }
}

/// Scanning a page leaves, in the slot of a wanted id, the last transaction
/// of the page with that id: a later transaction with the same id replaces
/// an earlier one.
pub proof fn law_scan_keeps_latest(
    slots: Seq<Option<Transaction>>,
    want: Seq<Seq<char>>,
    page: Seq<Transaction>,
    j: int,
    k: int,
)
    requires
        want.no_duplicates(),
        slots.len() == want.len(),
        0 <= j < want.len(),
        0 <= k < page.len(),
        page[k].id@ == want[j],
        forall|m: int| k < m < page.len() ==> (#[trigger] page[m]).id@ != want[j],
    ensures
        absorb_page(slots, want, page)[j] == Some(page[k]),
    decreases page.len(),
{
    lemma_absorb_page_len(slots, want, page.drop_last());
    let last = page.last();
    lemma_position_of_absent(want, last.id@);
    if k == page.len() - 1 {
        lemma_position_of_distinct(want, j);
    } else {
        assert(page[page.len() - 1].id@ != want[j]);
        assert forall|m: int| k < m < page.drop_last().len() implies (#[trigger] page.drop_last()[m]).id@ != want[j] by {
            assert(page.drop_last()[m] == page[m]);
        }
        law_scan_keeps_latest(slots, want, page.drop_last(), j, k);
    }
}

/// Scanning a page without a transaction of a wanted id leaves that id's
/// slot as it was.
pub proof fn law_scan_keeps_unseen(
    slots: Seq<Option<Transaction>>,
    want: Seq<Seq<char>>,
    page: Seq<Transaction>,
    j: int,
)
    requires
        want.no_duplicates(),
        slots.len() == want.len(),
        0 <= j < want.len(),
        forall|m: int| 0 <= m < page.len() ==> (#[trigger] page[m]).id@ != want[j],
    ensures
        absorb_page(slots, want, page)[j] == slots[j],
    decreases page.len(),
{
    if page.len() > 0 {
        lemma_absorb_page_len(slots, want, page.drop_last());
        lemma_position_of_absent(want, page.last().id@);
        assert(page[page.len() - 1].id@ != want[j]);
        assert forall|m: int| 0 <= m < page.drop_last().len() implies (#[trigger] page.drop_last()[m]).id@ != want[j] by {
            assert(page.drop_last()[m] == page[m]);
        }
        law_scan_keeps_unseen(slots, want, page.drop_last(), j);
    }
}

/// The wanted ids of a resolver are the given ids once each, in order of
/// first occurrence: none is repeated and each given id is among them.
pub proof fn law_wanted_ids_distinct(ids: Seq<Seq<char>>)
    ensures
        distinct(ids).no_duplicates(),
        forall|i: int| 0 <= i < ids.len() ==> distinct(ids).contains(#[trigger] ids[i]),
        forall|i: int| 0 <= i < distinct(ids).len() ==> ids.contains(#[trigger] distinct(ids)[i]),
    decreases ids.len(),
{
    if ids.len() > 0 {
        let init = ids.drop_last();
        law_wanted_ids_distinct(init);
        let rest = distinct(init);
        assert forall|i: int| 0 <= i < ids.len() implies distinct(ids).contains(#[trigger] ids[i]) by {
            if i < ids.len() - 1 {
                assert(init[i] == ids[i]);
                let p = choose|p: int| 0 <= p < rest.len() && rest[p] == ids[i];
                if !rest.contains(ids.last()) {
                    assert(rest.push(ids.last())[p] == ids[i]);
                }
            } else {
                if !rest.contains(ids.last()) {
                    assert(rest.push(ids.last())[rest.len() as int] == ids.last());
                }
            }
        }
        assert forall|i: int| 0 <= i < distinct(ids).len() implies ids.contains(#[trigger] distinct(ids)[i]) by {
            if i < rest.len() {
                let x = rest[i];
                assert(init.contains(x));
                let p = choose|p: int| 0 <= p < init.len() && init[p] == x;
                assert(ids[p] == x);
                if !rest.contains(ids.last()) {
                    assert(rest.push(ids.last())[i] == x);
                }
            } else {
                assert(ids[ids.len() - 1] == ids.last());
            }
        }
    }
}

/// When every occurrence of the ids found a transaction, the transactions
/// returned are those named by the ids, in the order of the ids.
pub proof fn law_resolved_in_order(ids: Seq<Seq<char>>, want: Seq<Seq<char>>, slots: Seq<Option<Transaction>>)
    requires
        slots.len() == want.len(),
        slots_consistent(slots, want),
        resolve_ids(ids, want, slots).1.len() == 0,
    ensures
        resolve_ids(ids, want, slots).0.len() == ids.len(),
        forall|i: int| 0 <= i < ids.len() ==> (#[trigger] resolve_ids(ids, want, slots).0[i]).id@ == ids[i],
    decreases ids.len(),
{
    if ids.len() > 0 {
        let id = ids[0];
        lemma_position_of_absent(want, id);
        match position_of(want, id) {
            Some(j) => match slots[j] {
                Some(t) => {
                    let s2 = slots.update(j, None);
                    assert(slots_consistent(s2, want));
                    law_resolved_in_order(ids.drop_first(), want, s2);
                    let rest = resolve_ids(ids.drop_first(), want, s2);
                    assert forall|i: int| 0 <= i < ids.len() implies (#[trigger] resolve_ids(ids, want, slots).0[i]).id@ == ids[i] by {
                        if i > 0 {
                            assert(resolve_ids(ids, want, slots).0[i] == rest.0[i - 1]);
                            assert(ids.drop_first()[i - 1] == ids[i]);
                        }
                    }
                },
                None => {},
            },
            None => {},
        }
    }
}

/// The scanning keeps each filled slot holding a transaction with its id.
pub proof fn law_resolver_slots_hold_their_ids(r: IdResolver)
    requires
        r.wf(),
    ensures
        slots_consistent(r.slots(), r.wanted()),
        r.slots().len() == r.wanted().len(),
{
}

} // verus!
