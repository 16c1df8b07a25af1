//! Write commands on transactions: confirmation, the identifiers that name a
//! transaction in a mutation, tag updates, notes, and reporting bulk edits.

use vstd::prelude::*;
use crate::cli::{OutputFormat, TagUpdateMode};
use crate::client::{AccountId, ItemId, Tag, TagId, Transaction, TransactionId, TransactionIdRef};
use crate::config::views;
use crate::text::{str_eq, trim, trim_str};

verus! {

// ---------------------------------------------------------------------------
// Confirmation
// ---------------------------------------------------------------------------

/// What to do before a write.
#[derive(Debug, Clone, Copy, PartialEq, Eq, Structural)]
pub enum WriteGate {
    /// Go ahead without asking.
    Proceed,
    /// Refuse: the session is not interactive and `--yes` was not given.
    RefuseNonInteractive,
    /// Ask on the terminal and go ahead only when the answer is `yes`.
    Ask,
}

/// Whether a write may go ahead: a dry run or `--yes` needs no confirmation;
/// otherwise a non-interactive session is refused and an interactive one is
/// asked.
pub fn confirm_write(dry_run: bool, yes: bool, stdin_is_terminal: bool) -> (r: WriteGate)
    ensures
        r == (if dry_run || yes {
            WriteGate::Proceed
        } else if !stdin_is_terminal {
            WriteGate::RefuseNonInteractive
        } else {
            WriteGate::Ask
        }),
{
    if dry_run {
        return WriteGate::Proceed;
    }
    if yes {
        return WriteGate::Proceed;
    }
    if !stdin_is_terminal {
        return WriteGate::RefuseNonInteractive;
    }
    WriteGate::Ask
}

/// The first step of a write command.
#[derive(Debug, Clone, Copy, PartialEq, Eq, Structural)]
pub enum WriteStep {
    /// A dry run: say what would be done, and stop before any request is
    /// made or anything is written.
    DryRun,
    /// Go on as the write gate says.
    Gate(WriteGate),
}

/// The first step of a write command: a dry run stops at once; otherwise
/// the write gate of `confirm_write` applies.
pub fn write_step(dry_run: bool, yes: bool, stdin_is_terminal: bool) -> (r: WriteStep)
    ensures
        dry_run ==> r == WriteStep::DryRun,
        !dry_run ==> r == WriteStep::Gate(if yes {
            WriteGate::Proceed
        } else if !stdin_is_terminal {
            WriteGate::RefuseNonInteractive
        } else {
            WriteGate::Ask
        }),
{
    if dry_run {
        WriteStep::DryRun
    } else {
        WriteStep::Gate(confirm_write(dry_run, yes, stdin_is_terminal))
    }
}

/// Whether the answer to the confirmation prompt accepts: `yes`, ignoring
/// surrounding white space.
pub fn confirmation_accepted(answer: &str) -> (r: bool)
    ensures
        r == (trim(answer@) == "yes"@),
{
    let t = trim_str(answer);
    str_eq(t.as_str(), "yes")
}

// ---------------------------------------------------------------------------
// Identifiers of a transaction
// ---------------------------------------------------------------------------

/// An identifier that a mutation needs and a transaction lacks.
#[derive(Debug, Clone, Copy, PartialEq, Eq, Structural)]
pub enum MissingId {
    ItemId,
    AccountId,
}

/// The item and account of a transaction; the item is checked first.
pub fn require_item_and_account(txn: &Transaction) -> (r: Result<(ItemId, AccountId), MissingId>)
    ensures
        txn.item_id is None ==> r == Err::<(ItemId, AccountId), MissingId>(MissingId::ItemId),
        txn.item_id is Some && txn.account_id is None ==> r == Err::<(ItemId, AccountId), MissingId>(
            MissingId::AccountId,
        ),
        r matches Ok(p) ==> txn.item_id == Some(p.0) && txn.account_id == Some(p.1),
        (txn.item_id is Some && txn.account_id is Some) ==> r is Ok,
{
    let item_id = match &txn.item_id {
        Some(i) => i.clone(),
        None => return Err(MissingId::ItemId),
    };
    let account_id = match &txn.account_id {
        Some(a) => a.clone(),
        None => return Err(MissingId::AccountId),
    };
    Ok((item_id, account_id))
}

/// The transaction has both an item and an account.
pub open spec fn has_ids(t: Transaction) -> bool {
    t.item_id is Some && t.account_id is Some
}

/// The identifiers of a transaction that has them.
pub open spec fn id_ref(t: Transaction) -> TransactionIdRef {
    TransactionIdRef { account_id: t.account_id->0, id: t.id, item_id: t.item_id->0 }
}

/// The identifiers of each transaction, in order; when some transaction
/// lacks one, the error names the first such transaction and what it lacks.
pub fn build_transaction_id_refs(txns: &[Transaction]) -> (r: Result<Vec<TransactionIdRef>, (TransactionId, MissingId)>)
    ensures
        r matches Ok(v) ==> v@.len() == txns@.len() && forall|i: int|
            0 <= i < txns@.len() ==> has_ids(#[trigger] txns@[i]) && v@[i] == id_ref(txns@[i]),
        r matches Err(e) ==> exists|i: int|
            0 <= i < txns@.len() && !has_ids(#[trigger] txns@[i]) && (forall|k: int|
                0 <= k < i ==> has_ids(#[trigger] txns@[k])) && e.0 == txns@[i].id && e.1 == (
            if txns@[i].item_id is None {
                MissingId::ItemId
            } else {
                MissingId::AccountId
            }),
        r is Ok <==> forall|i: int| 0 <= i < txns@.len() ==> has_ids(#[trigger] txns@[i]),
{
    let mut out: Vec<TransactionIdRef> = Vec::new();
    let n = txns.len();
    for i in 0..n
        invariant
            n == txns@.len(),
            out@.len() == i,
            forall|k: int| 0 <= k < i ==> has_ids(#[trigger] txns@[k]) && out@[k] == id_ref(txns@[k]),
    {
        let t = &txns[i];
        match require_item_and_account(t) {
            Ok((item_id, account_id)) => {
                out.push(TransactionIdRef { account_id, id: t.id.clone(), item_id });
            },
            Err(e) => {
                assert(!has_ids(txns@[i as int]));
                return Err((t.id.clone(), e));
            },
        }
    }
    Ok(out)
}

// ---------------------------------------------------------------------------
// Tags and notes
// ---------------------------------------------------------------------------

/// The tag ids a transaction has.
pub open spec fn tag_id_set(tags: Option<Vec<Tag>>) -> Set<Seq<char>> {
    match tags {
        None => Set::empty(),
        Some(v) => Set::new(|s: Seq<char>| exists|i: int| 0 <= i < v@.len() && (#[trigger] v@[i]).id@ == s),
    }
}

/// `--mode add` and `--mode remove` need at least one `--tag-id`.
pub fn tag_ids_missing(mode: TagUpdateMode, tag_ids: &[TagId]) -> (r: bool)
    ensures
        r == ((mode == TagUpdateMode::Add || mode == TagUpdateMode::Remove) && tag_ids@.len() == 0),
{
    (mode == TagUpdateMode::Add || mode == TagUpdateMode::Remove) && tag_ids.len() == 0
}

/// Whether `s` is among `v`.
fn contains_string(v: &Vec<String>, s: &str) -> (r: bool)
    ensures
        r == views(v@).contains(s@),
{
    let n = v.len();
    for i in 0..n
        invariant
            n == v@.len(),
            forall|k: int| 0 <= k < i ==> v@[k]@ != s@,
    {
        if str_eq(v[i].as_str(), s) {
            assert(views(v@)[i as int] == s@);
            return true;
        }
    }
    proof {
        if views(v@).contains(s@) {
            let k = choose|k: int| 0 <= k < views(v@).len() && views(v@)[k] == s@;
            assert(v@[k]@ == s@);
        }
    }
    false
}

/// The tag ids a transaction gets: with `set`, the given ids as they are;
/// with `add`, each id it has or is given, once; with `remove`, each id it has
/// and is not given, once.
pub fn next_tag_ids(mode: TagUpdateMode, existing: &Option<Vec<Tag>>, tag_ids: &Vec<TagId>) -> (r: Vec<TagId>)
    ensures
        mode == TagUpdateMode::SetAll ==> views(r@) == views(tag_ids@),
        mode == TagUpdateMode::Add ==> views(r@).no_duplicates() && views(r@).to_set() == tag_id_set(
            *existing,
        ).union(views(tag_ids@).to_set()),
        mode == TagUpdateMode::Remove ==> views(r@).no_duplicates() && views(r@).to_set()
            == tag_id_set(*existing).difference(views(tag_ids@).to_set()),
{
    let mut out: Vec<TagId> = Vec::new();
    if mode == TagUpdateMode::SetAll {
        let n = tag_ids.len();
        for i in 0..n
            invariant
                n == tag_ids@.len(),
                out@.len() == i,
                forall|k: int| 0 <= k < i ==> #[trigger] out@[k]@ == tag_ids@[k]@,
        {
            out.push(tag_ids[i].clone());
        }
        assert(views(out@) =~= views(tag_ids@));
        return out;
    }
    let ghost ex = tag_id_set(*existing);
    let ghost given = views(tag_ids@).to_set();
    let is_add = mode == TagUpdateMode::Add;
    match existing {
        None => {},
        Some(v) => {
            let n = v.len();
            for i in 0..n
                invariant
                    n == v@.len(),
                    *existing == Some(*v),
                    is_add == (mode == TagUpdateMode::Add),
                    given == views(tag_ids@).to_set(),
                    views(out@).no_duplicates(),
                    forall|s: Seq<char>| #[trigger] views(out@).contains(s) <==> (exists|k: int|
                        0 <= k < i && (#[trigger] v@[k]).id@ == s) && (is_add || !given.contains(s)),
            {
                let id = &v[i].id;
                let skip = contains_string(&out, id.as_str()) || (!is_add && contains_string(tag_ids, id.as_str()));
                proof {
                    if !is_add {
                        assert(given.contains(id@) == views(tag_ids@).contains(id@));
                    }
                }
                let ghost before = views(out@);
                if !skip {
                    out.push(id.clone());
                    assert(views(out@) =~= before.push(id@));
                }
                assert forall|s: Seq<char>| #[trigger] views(out@).contains(s) <==> (exists|k: int|
                    0 <= k < i + 1 && (#[trigger] v@[k]).id@ == s) && (is_add || !given.contains(s)) by {
                    if views(out@).contains(s) {
                        if !skip && s == id@ {
                            assert(v@[i as int].id@ == s);
                        } else {
                            let j = choose|j: int| 0 <= j < views(out@).len() && views(out@)[j] == s;
                            if !skip {
                                assert(j < before.len());
                                assert(before[j] == s);
                            }
                            assert(before.contains(s));
                        }
                    }
                    if (exists|k: int| 0 <= k < i + 1 && (#[trigger] v@[k]).id@ == s) && (is_add || !given.contains(s)) {
                        let k = choose|k: int| 0 <= k < i + 1 && (#[trigger] v@[k]).id@ == s;
                        if k == i {
                            if !skip {
                                assert(views(out@)[before.len() as int] == s);
                            }
                        } else {
                            assert(before.contains(s));
                            let j = choose|j: int| 0 <= j < before.len() && before[j] == s;
                            if !skip {
                                assert(views(out@)[j] == s);
                            }
                        }
                    }
                }
            }
        },
    }
    if is_add {
        let m = tag_ids.len();
        let ghost mid = views(out@);
        for i in 0..m
            invariant
                m == tag_ids@.len(),
                views(out@).no_duplicates(),
                forall|s: Seq<char>| #[trigger] views(out@).contains(s) <==> mid.contains(s) || (exists|k: int|
                    0 <= k < i && (#[trigger] tag_ids@[k])@ == s),
        {
            let id = &tag_ids[i];
            let ghost before = views(out@);
            if !contains_string(&out, id.as_str()) {
                out.push(id.clone());
                assert(views(out@) =~= before.push(id@));
            }
            assert forall|s: Seq<char>| #[trigger] views(out@).contains(s) <==> mid.contains(s) || (exists|k: int|
                0 <= k < i + 1 && (#[trigger] tag_ids@[k])@ == s) by {
                if views(out@).contains(s) && !before.contains(s) {
                    let j = choose|j: int| 0 <= j < views(out@).len() && views(out@)[j] == s;
                    assert(j == before.len());
                    assert(tag_ids@[i as int]@ == s);
                }
                if (exists|k: int| 0 <= k < i + 1 && (#[trigger] tag_ids@[k])@ == s) {
                    let k = choose|k: int| 0 <= k < i + 1 && (#[trigger] tag_ids@[k])@ == s;
                    if k == i && !before.contains(s) {
                        assert(views(out@)[before.len() as int] == s);
                    }
                }
                if before.contains(s) {
                    let j = choose|j: int| 0 <= j < before.len() && before[j] == s;
                    assert(views(out@)[j] == s);
                }
            }
        }
    }
    proof {
        assert forall|s: Seq<char>| #[trigger] views(out@).to_set().contains(s) == (if is_add {
            ex.union(given).contains(s)
        } else {
            ex.difference(given).contains(s)
        }) by {
            if given.contains(s) {
                let j = choose|j: int| 0 <= j < views(tag_ids@).len() && views(tag_ids@)[j] == s;
                assert(tag_ids@[j]@ == s);
            }
            if (exists|k: int| 0 <= k < tag_ids@.len() && (#[trigger] tag_ids@[k])@ == s) {
                let k = choose|k: int| 0 <= k < tag_ids@.len() && (#[trigger] tag_ids@[k])@ == s;
                assert(views(tag_ids@)[k] == s);
            }
        }
        if is_add {
            assert(views(out@).to_set() =~= ex.union(given));
        } else {
            assert(views(out@).to_set() =~= ex.difference(given));
        }
    }
    out
}

/// Why the notes of a transaction cannot be set.
#[derive(Debug, Clone, Copy, PartialEq, Eq, Structural)]
pub enum NotesError {
    /// Neither `--notes` nor `--clear` was given.
    NothingToSet,
}

/// The notes a transaction gets: empty with `--clear`, else the given text.
pub fn notes_value(clear: bool, notes: Option<&str>) -> (r: Result<String, NotesError>)
    ensures
        clear ==> (r matches Ok(v) && v@ == Seq::<char>::empty()),
        !clear && notes is None ==> r == Err::<String, NotesError>(NotesError::NothingToSet),
        !clear ==> (notes matches Some(n) ==> (r matches Ok(v) && v@ == n@)),
{
    if clear {
        return Ok(String::new());
    }
    match notes {
        None => Err(NotesError::NothingToSet),
        Some(n) => Ok(n.to_owned()),
    }
}

// ---------------------------------------------------------------------------
// Bulk edits
// ---------------------------------------------------------------------------

/// How the outcome of a bulk edit is reported.
#[derive(Debug, Clone, Copy, PartialEq, Eq, Structural)]
pub enum BulkEditReport {
    /// Print updated and failed transactions as JSON.
    FailuresAsJson,
    /// Fail, saying how many transactions could not be updated.
    Fail(usize),
    /// Show the updated transactions.
    Updated,
}

/// How a bulk edit with `failed` failures is reported: failures are printed
/// as JSON in JSON output and are an error otherwise.
pub fn bulk_edit_report(output: OutputFormat, failed: usize) -> (r: BulkEditReport)
    ensures
        failed == 0 ==> r == BulkEditReport::Updated,
        failed > 0 && output == OutputFormat::Json ==> r == BulkEditReport::FailuresAsJson,
        failed > 0 && output != OutputFormat::Json ==> r == BulkEditReport::Fail(failed),
{
    if failed > 0 {
        if output == OutputFormat::Json {
            return BulkEditReport::FailuresAsJson;
        }
        return BulkEditReport::Fail(failed);
    }
    BulkEditReport::Updated
}

} // verus!
