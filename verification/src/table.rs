//! The cells of transaction tables and the lines of CSV output.

use vstd::prelude::*;
use crate::categories::{find_name, lookup_name, pair_views};
use crate::cli::TransactionField;
use crate::client::{CategoryId, Tag, Transaction};
use crate::render::{csv_join, csv_line, shorten_id, spec_shorten_id, KeyValueRow};
use crate::text::{chars_of, push_char};
use crate::transactions::{is_reviewed, text_or_empty};

verus! {

/// The header of a transaction column.
pub open spec fn field_header(f: TransactionField) -> Seq<char> {
    match f {
        TransactionField::Date => "date"@,
        TransactionField::Name => "name"@,
        TransactionField::Amount => "amount"@,
        TransactionField::Reviewed => "reviewed"@,
        TransactionField::Category => "category"@,
        TransactionField::Tags => "tags"@,
        TransactionField::Type => "type"@,
        TransactionField::Id => "id"@,
    }
}

/// The header of a transaction column.
pub fn field_name(f: TransactionField) -> (r: &'static str)
    ensures
        r@ == field_header(f),
{
    match f {
        TransactionField::Date => "date",
        TransactionField::Name => "name",
        TransactionField::Amount => "amount",
        TransactionField::Reviewed => "reviewed",
        TransactionField::Category => "category",
        TransactionField::Tags => "tags",
        TransactionField::Type => "type",
        TransactionField::Id => "id",
    }
}

/// The columns shown for updated transactions.
pub open spec fn spec_default_fields() -> Seq<TransactionField> {
    seq![
        TransactionField::Date,
        TransactionField::Name,
        TransactionField::Amount,
        TransactionField::Reviewed,
        TransactionField::Category,
        TransactionField::Tags,
        TransactionField::Type,
    ]
}

/// The columns shown for updated transactions: date, name, amount,
/// reviewed, category, tags, type.
pub fn default_fields() -> (r: Vec<TransactionField>)
    ensures
        r@ == spec_default_fields(),
{
    let mut v: Vec<TransactionField> = Vec::new();
    v.push(TransactionField::Date);
    v.push(TransactionField::Name);
    v.push(TransactionField::Amount);
    v.push(TransactionField::Reviewed);
    v.push(TransactionField::Category);
    v.push(TransactionField::Tags);
    v.push(TransactionField::Type);
    assert(v@ =~= spec_default_fields());
    v
}

/// The names of the tags that have one, in order.
pub open spec fn tag_names(tags: Seq<Tag>) -> Seq<Seq<char>>
    decreases tags.len(),
{
    if tags.len() == 0 {
        Seq::empty()
    } else {
        let rest = tag_names(tags.drop_last());
        match tags.last().name {
            Some(n) => rest.push(n@),
            None => rest,
        }
    }
}

/// The parts separated by commas.
pub open spec fn join_comma(parts: Seq<Seq<char>>) -> Seq<char>
    decreases parts.len(),
{
    if parts.len() == 0 {
        Seq::empty()
    } else if parts.len() == 1 {
        parts[0]
    } else {
        join_comma(parts.drop_last()) + seq![','] + parts.last()
    }
}

/// The tags cell: the names of the named tags, separated by commas.
pub open spec fn tags_text(t: Transaction) -> Seq<char> {
    match t.tags {
        None => Seq::empty(),
        Some(v) => join_comma(tag_names(v@)),
    }
}

/// The category cell: the category's name when the names are known and hold
/// its id, else its id, else nothing.
pub open spec fn category_text(t: Transaction, names: Option<Seq<(Seq<char>, Seq<char>)>>) -> Seq<char> {
    match t.category_id {
        None => Seq::empty(),
        Some(id) => match names {
            Some(ns) => match lookup_name(ns, id@) {
                Some(n) => n,
                None => id@,
            },
            None => id@,
        },
    }
}

/// The text of column `f` for transaction `t`, whose amount reads `amount`.
pub open spec fn cell_text(
    t: Transaction,
    f: TransactionField,
    names: Option<Seq<(Seq<char>, Seq<char>)>>,
    amount: Seq<char>,
) -> Seq<char> {
    match f {
        TransactionField::Date => text_or_empty(t.date),
        TransactionField::Name => text_or_empty(t.name),
        TransactionField::Amount => amount,
        TransactionField::Reviewed => if is_reviewed(t) { "✓"@ } else { Seq::empty() },
        TransactionField::Category => category_text(t, names),
        TransactionField::Tags => tags_text(t),
        TransactionField::Type => text_or_empty(t.txn_type),
        TransactionField::Id => t.id@,
    }
}

/// The view of optional category names.
pub open spec fn names_view(names: Option<&[(CategoryId, String)]>) -> Option<Seq<(Seq<char>, Seq<char>)>> {
    match names {
        None => None,
        Some(ns) => Some(pair_views(ns@)),
    }
}

/// The tags cell of a transaction.
fn tags_cell(t: &Transaction) -> (r: String)
    ensures
        r@ == tags_text(*t),
{
    match &t.tags {
        None => String::new(),
        Some(v) => {
            let mut out = String::new();
            let mut named: usize = 0;
            let n = v.len();
            for i in 0..n
                invariant
                    n == v@.len(),
                    named == tag_names(v@.take(i as int)).len(),
                    named <= i,
                    out@ == join_comma(tag_names(v@.take(i as int))),
            {
                let ghost pre = v@.take(i as int);
                let ghost next = v@.take(i + 1);
                assert(next.drop_last() =~= pre);
                assert(next.last() == v@[i as int]);
                match &v[i].name {
                    Some(nm) => {
                        let ghost names_pre = tag_names(pre);
                        assert(tag_names(next) == names_pre.push(nm@));
                        assert(names_pre.push(nm@).drop_last() =~= names_pre);
                        if named > 0 {
                            push_char(&mut out, ',');
                        } else {
                            assert(names_pre.push(nm@)[0] == nm@);
                        }
                        out.append(nm.as_str());
                        named = named + 1;
                        assert(out@ =~= join_comma(tag_names(next)));
                    },
                    None => {},
                }
            }
            assert(v@.take(n as int) =~= v@);
            out
        },
    }
}

/// The category cell of a transaction.
fn category_cell(t: &Transaction, names: Option<&[(CategoryId, String)]>) -> (r: String)
    ensures
        r@ == category_text(*t, names_view(names)),
{
    match &t.category_id {
        None => String::new(),
        Some(id) => match names {
            Some(ns) => match find_name(ns, id.as_str()) {
                Some(n) => n,
                None => id.clone(),
            },
            None => id.clone(),
        },
    }
}

/// The text of column `f` for a transaction.
pub fn transaction_cell(
    t: &Transaction,
    f: TransactionField,
    names: Option<&[(CategoryId, String)]>,
    amount: &str,
) -> (r: String)
    ensures
        r@ == cell_text(*t, f, names_view(names), amount@),
{
    match f {
        TransactionField::Date => match &t.date {
            Some(d) => d.clone(),
            None => String::new(),
        },
        TransactionField::Name => match &t.name {
            Some(n) => n.clone(),
            None => String::new(),
        },
        TransactionField::Amount => amount.to_owned(),
        TransactionField::Reviewed => {
            let reviewed = match t.is_reviewed {
                Some(b) => b,
                None => false,
            };
            if reviewed {
                "✓".to_owned()
            } else {
                String::new()
            }
        },
        TransactionField::Category => category_cell(t, names),
        TransactionField::Tags => tags_cell(t),
        TransactionField::Type => match &t.txn_type {
            Some(ty) => ty.clone(),
            None => String::new(),
        },
        TransactionField::Id => t.id.clone(),
    }
}

/// The CSV header line for the columns `fields`.
pub open spec fn csv_header_line(fields: Seq<TransactionField>) -> Seq<char> {
    csv_join(fields.map_values(|f: TransactionField| field_header(f)))
}

/// The CSV line of one transaction.
pub open spec fn csv_row_line(
    t: Transaction,
    fields: Seq<TransactionField>,
    names: Option<Seq<(Seq<char>, Seq<char>)>>,
    amount: Seq<char>,
) -> Seq<char> {
    csv_join(fields.map_values(|f: TransactionField| cell_text(t, f, names, amount)))
}

/// The CSV lines of the transactions: the header, then one line per
/// transaction, whose amount text is `amounts[i]`.
pub fn transactions_csv(
    items: &[Transaction],
    fields: &[TransactionField],
    names: Option<&[(CategoryId, String)]>,
    amounts: &[String],
) -> (r: Vec<String>)
    requires
        amounts@.len() == items@.len(),
    ensures
        r@.len() == items@.len() + 1,
        r@[0]@ == csv_header_line(fields@),
        forall|i: int|
            0 <= i < items@.len() ==> #[trigger] r@[i + 1]@ == csv_row_line(
                items@[i],
                fields@,
                names_view(names),
                amounts@[i]@,
            ),
{
    let nf = fields.len();
    let mut headers: Vec<String> = Vec::new();
    for j in 0..nf
        invariant
            nf == fields@.len(),
            headers@.len() == j,
            forall|k: int| 0 <= k < j ==> #[trigger] headers@[k]@ == field_header(fields@[k]),
    {
        headers.push(field_name(fields[j]).to_owned());
    }
    let mut out: Vec<String> = Vec::new();
    let h = csv_line(headers.as_slice());
    assert(headers@.map_values(|s: String| s@) =~= fields@.map_values(|f: TransactionField| field_header(f)));
    out.push(h);
    let n = items.len();
    for i in 0..n
        invariant
            n == items@.len(),
            nf == fields@.len(),
            amounts@.len() == n,
            out@.len() == i + 1,
            out@[0]@ == csv_header_line(fields@),
            forall|k: int|
                0 <= k < i ==> #[trigger] out@[k + 1]@ == csv_row_line(
                    items@[k],
                    fields@,
                    names_view(names),
                    amounts@[k]@,
                ),
    {
        let t = &items[i];
        let mut cells: Vec<String> = Vec::new();
        for j in 0..nf
            invariant
                nf == fields@.len(),
                i < items@.len(),
                i < amounts@.len(),
                t == items@[i as int],
                cells@.len() == j,
                forall|k: int|
                    0 <= k < j ==> #[trigger] cells@[k]@ == cell_text(
                        *t,
                        fields@[k],
                        names_view(names),
                        amounts@[i as int]@,
                    ),
        {
            cells.push(transaction_cell(t, fields[j], names, amounts[i].as_str()));
        }
        let line = csv_line(cells.as_slice());
        assert(cells@.map_values(|s: String| s@) =~= fields@.map_values(
            |f: TransactionField| cell_text(*t, f, names_view(names), amounts@[i as int]@),
        ));
        out.push(line);
    }
    out
}

/// The CSV lines of key/value rows: the header `key,value`, then one line per
/// row.
pub fn key_value_csv(rows: &[KeyValueRow]) -> (r: Vec<String>)
    ensures
        r@.len() == rows@.len() + 1,
        r@[0]@ == csv_join(seq!["key"@, "value"@]),
        forall|i: int|
            0 <= i < rows@.len() ==> #[trigger] r@[i + 1]@ == csv_join(
                seq![rows@[i].key@, rows@[i].value@],
            ),
{
    let mut out: Vec<String> = Vec::new();
    let mut h: Vec<String> = Vec::new();
    h.push("key".to_owned());
    h.push("value".to_owned());
    assert(h@.map_values(|s: String| s@) =~= seq!["key"@, "value"@]);
    out.push(csv_line(h.as_slice()));
    let n = rows.len();
    for i in 0..n
        invariant
            n == rows@.len(),
            out@.len() == i + 1,
            out@[0]@ == csv_join(seq!["key"@, "value"@]),
            forall|k: int|
                0 <= k < i ==> #[trigger] out@[k + 1]@ == csv_join(
                    seq![rows@[k].key@, rows@[k].value@],
                ),
    {
        let mut cells: Vec<String> = Vec::new();
        cells.push(rows[i].key.clone());
        cells.push(rows[i].value.clone());
        assert(cells@.map_values(|s: String| s@) =~= seq![rows@[i as int].key@, rows@[i as int].value@]);
        out.push(csv_line(cells.as_slice()));
    }
    out
}

/// Colors used in tables.
#[derive(Debug, Clone, Copy, PartialEq, Eq, Structural)]
pub enum CellColor {
    Red,
    Green,
}

/// A table cell: its text, whether it is right-aligned, and its color.
#[derive(Debug, Clone, PartialEq)]
pub struct StyledCell {
    pub text: String,
    pub right_aligned: bool,
    pub color: Option<CellColor>,
}

/// The color of an amount cell: red for negative amounts (`-$`), green for
/// others, none for an empty cell or without colors.
pub open spec fn amount_color(amount: Seq<char>, use_color: bool) -> Option<CellColor> {
    if use_color && amount.len() > 0 {
        if amount.len() >= 2 && amount[0] == '-' && amount[1] == '$' {
            Some(CellColor::Red)
        } else {
            Some(CellColor::Green)
        }
    } else {
        None
    }
}

/// The table cell of column `f`: identifiers are shortened (none when an
/// identifier cannot be sliced), amounts are right-aligned and colored by
/// sign, reviewed marks are green.
pub open spec fn table_cell(
    t: Transaction,
    f: TransactionField,
    names: Option<Seq<(Seq<char>, Seq<char>)>>,
    amount: Seq<char>,
    use_color: bool,
) -> Option<(Seq<char>, bool, Option<CellColor>)> {
    match f {
        TransactionField::Id => match spec_shorten_id(t.id@) {
            Some(s) => Some((s, false, None)),
            None => None,
        },
        TransactionField::Amount => Some((amount, true, amount_color(amount, use_color))),
        TransactionField::Reviewed => Some((
            cell_text(t, f, names, amount),
            false,
            if use_color && is_reviewed(t) { Some(CellColor::Green) } else { None },
        )),
        _ => Some((cell_text(t, f, names, amount), false, None)),
    }
}

/// The styled cell of column `f`, or none where an identifier cannot be
/// sliced.
pub fn transaction_table_cell(
    t: &Transaction,
    f: TransactionField,
    names: Option<&[(CategoryId, String)]>,
    amount: &str,
    use_color: bool,
) -> (r: Option<StyledCell>)
    ensures
        r is None <==> table_cell(*t, f, names_view(names), amount@, use_color) is None,
        r matches Some(c) ==> table_cell(*t, f, names_view(names), amount@, use_color) == Some(
            (c.text@, c.right_aligned, c.color),
        ),
{
    match f {
        TransactionField::Id => match shorten_id(t.id.as_str()) {
            Some(s) => Some(StyledCell { text: s, right_aligned: false, color: None }),
            None => None,
        },
        TransactionField::Amount => {
            let a = chars_of(amount);
            let color = if use_color && a.len() > 0 {
                if a.len() >= 2 && a[0] == '-' && a[1] == '$' {
                    Some(CellColor::Red)
                } else {
                    Some(CellColor::Green)
                }
            } else {
                None
            };
            Some(StyledCell { text: amount.to_owned(), right_aligned: true, color })
        },
        TransactionField::Reviewed => {
            let reviewed = match t.is_reviewed {
                Some(b) => b,
                None => false,
            };
            let text = transaction_cell(t, f, names, amount);
            Some(StyledCell {
                text,
                right_aligned: false,
                color: if use_color && reviewed { Some(CellColor::Green) } else { None },
            })
        },
        _ => Some(StyledCell { text: transaction_cell(t, f, names, amount), right_aligned: false, color: None }),
    }
}

/// Every column of transaction `t` has a table cell.
pub open spec fn all_cells_exist(
    t: Transaction,
    fields: Seq<TransactionField>,
    names: Option<Seq<(Seq<char>, Seq<char>)>>,
    amount: Seq<char>,
    use_color: bool,
) -> bool {
    forall|j: int| 0 <= j < fields.len() ==> table_cell(t, #[trigger] fields[j], names, amount, use_color) is Some
}

/// `row` holds the table cells of transaction `t`.
pub open spec fn row_of(
    row: Seq<StyledCell>,
    t: Transaction,
    fields: Seq<TransactionField>,
    names: Option<Seq<(Seq<char>, Seq<char>)>>,
    amount: Seq<char>,
    use_color: bool,
) -> bool {
    &&& row.len() == fields.len()
    &&& forall|j: int|
        0 <= j < fields.len() ==> table_cell(t, fields[j], names, amount, use_color) == Some(
            ((#[trigger] row[j]).text@, row[j].right_aligned, row[j].color),
        )
}

/// The styled rows of a transaction table, one per transaction and one cell
/// per column; none when some identifier cannot be sliced.
pub fn transactions_table(
    items: &[Transaction],
    fields: &[TransactionField],
    names: Option<&[(CategoryId, String)]>,
    amounts: &[String],
    use_color: bool,
) -> (r: Option<Vec<Vec<StyledCell>>>)
    requires
        amounts@.len() == items@.len(),
    ensures
        r is None <==> exists|i: int|
            0 <= i < items@.len() && !#[trigger] all_cells_exist(
                items@[i],
                fields@,
                names_view(names),
                amounts@[i]@,
                use_color,
            ),
        r matches Some(rows) ==> rows@.len() == items@.len() && forall|i: int|
            0 <= i < items@.len() ==> #[trigger] row_of(
                rows@[i]@,
                items@[i],
                fields@,
                names_view(names),
                amounts@[i]@,
                use_color,
            ),
{
    let n = items.len();
    let nf = fields.len();
    let mut rows: Vec<Vec<StyledCell>> = Vec::new();
    for i in 0..n
        invariant
            n == items@.len(),
            nf == fields@.len(),
            amounts@.len() == n,
            rows@.len() == i,
            forall|a: int|
                0 <= a < i ==> #[trigger] all_cells_exist(
                    items@[a],
                    fields@,
                    names_view(names),
                    amounts@[a]@,
                    use_color,
                ),
            forall|a: int|
                0 <= a < i ==> #[trigger] row_of(
                    rows@[a]@,
                    items@[a],
                    fields@,
                    names_view(names),
                    amounts@[a]@,
                    use_color,
                ),
    {
        let t = &items[i];
        let mut row: Vec<StyledCell> = Vec::new();
        for j in 0..nf
            invariant
                nf == fields@.len(),
                i < items@.len(),
                i < amounts@.len(),
                t == items@[i as int],
                row@.len() == j,
                forall|k: int|
                    0 <= k < j ==> table_cell(
                        *t,
                        fields@[k],
                        names_view(names),
                        amounts@[i as int]@,
                        use_color,
                    ) == Some(((#[trigger] row@[k]).text@, row@[k].right_aligned, row@[k].color)),
        {
            match transaction_table_cell(t, fields[j], names, amounts[i].as_str(), use_color) {
                Some(c) => row.push(c),
                None => {
                    assert(!all_cells_exist(
                        items@[i as int],
                        fields@,
                        names_view(names),
                        amounts@[i as int]@,
                        use_color,
                    ));
                    return None;
                },
            }
        }
        assert(all_cells_exist(items@[i as int], fields@, names_view(names), amounts@[i as int]@, use_color)) by {
            assert forall|j: int| 0 <= j < fields@.len() implies table_cell(
                items@[i as int],
                #[trigger] fields@[j],
                names_view(names),
                amounts@[i as int]@,
                use_color,
            ) is Some by {
                assert(table_cell(*t, fields@[j], names_view(names), amounts@[i as int]@, use_color) == Some(
                    (row@[j].text@, row@[j].right_aligned, row@[j].color),
                ));
            }
        }
        assert(row_of(row@, items@[i as int], fields@, names_view(names), amounts@[i as int]@, use_color));
        rows.push(row);
    }
    Some(rows)
}

} // verus!
