//! Properties that relate several operations of the library.

use vstd::prelude::*;
use crate::config::{spec_load_token, spec_token_file_contents};
use crate::dates::{
    date_fields, date_text, days_in_month, is_leap_year, lemma_utc_seconds_bounds,
    normalized_ymd, spec_date_to_epoch, spec_normalize_date, u32_max, utc_seconds,
};
use crate::text::{
    all_digits, char_utf8_len, digit_char, digit_value, digits_value, four_digits, has_char,
    contains, is_digit, is_white_space, lex_lt, lowercase, parse_unsigned, split, trim, trim_end, trim_start,
    two_digits, utf8_len,
};
use crate::transactions::{
    passes, range_wanted, select, sort_entry, spec_normalize_date_opt, text_or_empty,
    SortDirection, SortField, TransactionCriteria,
};
use crate::cli::{AuthLoginMode, TransactionField, TransactionsSort};
use crate::auth::spec_login_args;
use crate::categories::{entry, flatten, ids_named, lookup_name, wanted_name};
use crate::edits::tag_id_set;
use crate::table::{cell_text, csv_row_line};
use crate::client::{feed_transactions, FeedNode, Transaction};
use crate::render::{
    csv_join, double_quotes, needs_quoting, read_field, read_quoted, read_record, read_unquoted,
    spec_escape_csv_field,
};

verus! {

/// Trimming the start of a sequence with a character that is not white space
/// keeps that character and what follows.
proof fn lemma_trim_start_push(s: Seq<char>, c: char)
    ensures
        trim_start(s.push(c)) == if trim_start(s).len() == 0 {
            trim_start(seq![c])
        } else {
            trim_start(s).push(c)
        },
    decreases s.len(),
{
    if s.len() == 0 {
        assert(s.push(c) =~= seq![c]);
    } else if is_white_space(s[0]) {
        assert(s.push(c).drop_first() =~= s.drop_first().push(c));
        lemma_trim_start_push(s.drop_first(), c);
    } else {
        assert(s.push(c)[0] == s[0]);
    }
}

/// Trimming ignores a trailing line break.
proof fn lemma_trim_line_break(t: Seq<char>)
    ensures
        trim(t.push('\n')) == trim(t),
{
    lemma_trim_start_push(t, '\n');
    let ts = trim_start(t);
    if ts.len() == 0 {
        assert(is_white_space('\n'));
        assert(seq!['\n'].drop_first() =~= Seq::<char>::empty());
        assert(trim_start(seq!['\n']) == trim_start(Seq::<char>::empty()));
        assert(trim_end(Seq::<char>::empty()) == Seq::<char>::empty());
        assert(trim_end(ts) == ts);
    } else {
        assert(ts.push('\n').drop_last() =~= ts);
        assert(ts.push('\n').last() == '\n');
    }
}

/// A token saved to the token file is read back as the token without its
/// surrounding white space; a token that is only white space is read back as
/// no token at all.
pub proof fn law_token_file_round_trip(token: Seq<char>)
    ensures
        spec_load_token(spec_token_file_contents(token)) == spec_load_token(token),
        trim(token).len() > 0 ==> spec_load_token(spec_token_file_contents(token)) == Some(trim(token)),
{
    lemma_trim_line_break(token);
}

/// Every transaction the filter keeps passes the criteria, and each of them
/// comes from the input.
pub proof fn law_filter_keeps_only_passing(items: Seq<Transaction>, c: TransactionCriteria)
    ensures
        forall|i: int| 0 <= i < select(items, c).len() ==> passes(#[trigger] select(items, c)[i], c) && items.contains(select(items, c)[i]),
        select(items, c).len() <= items.len(),
    decreases items.len(),
{
    if items.len() > 0 {
        law_filter_keeps_only_passing(items.drop_last(), c);
        let rest = select(items.drop_last(), c);
        assert forall|i: int| 0 <= i < select(items, c).len() implies passes(#[trigger] select(items, c)[i], c) && items.contains(select(items, c)[i]) by {
            if i < rest.len() {
                assert(select(items, c)[i] == rest[i]);
                let k = choose|k: int| 0 <= k < items.drop_last().len() && items.drop_last()[k] == rest[i];
                assert(items[k] == rest[i]);
            } else {
                assert(select(items, c)[i] == items.last());
                assert(items[items.len() - 1] == items.last());
            }
        }
    }
}

/// Filtering what the filter kept changes nothing.
pub proof fn law_filter_idempotent(items: Seq<Transaction>, c: TransactionCriteria)
    ensures
        select(select(items, c), c) == select(items, c),
    decreases items.len(),
{
    if items.len() > 0 {
        law_filter_idempotent(items.drop_last(), c);
        let rest = select(items.drop_last(), c);
        if passes(items.last(), c) {
            let s = rest.push(items.last());
            assert(s.drop_last() =~= rest);
            assert(s.last() == items.last());
        }
    }
}

/// A sequence without `sep` is a single piece.
proof fn lemma_split_single(x: Seq<char>, sep: char)
    requires
        !has_char(x, sep),
    ensures
        split(x, sep) == seq![x],
    decreases x.len(),
{
    if x.len() > 0 {
        let p = x.drop_last();
        assert(!has_char(p, sep)) by {
            if has_char(p, sep) {
                let k = choose|k: int| 0 <= k < p.len() && p[k] == sep;
                assert(x[k] == sep);
            }
        }
        lemma_split_single(p, sep);
        assert(x[x.len() - 1] != sep);
        assert(p.push(x.last()) =~= x);
        assert(seq![p].update(0, x) =~= seq![x]);
    } else {
        assert(x =~= Seq::<char>::empty());
    }
}

/// Appending a separator and a piece without separators adds that piece.
proof fn lemma_split_append(p: Seq<char>, x: Seq<char>, sep: char)
    requires
        !has_char(x, sep),
    ensures
        split(p + seq![sep] + x, sep) == split(p, sep).push(x),
    decreases x.len(),
{
    let s = p + seq![sep] + x;
    if x.len() == 0 {
        assert(s =~= p.push(sep));
        assert(s.drop_last() =~= p);
        assert(s.last() == sep);
        assert(x =~= Seq::<char>::empty());
    } else {
        let xd = x.drop_last();
        assert(!has_char(xd, sep)) by {
            if has_char(xd, sep) {
                let k = choose|k: int| 0 <= k < xd.len() && xd[k] == sep;
                assert(x[k] == sep);
            }
        }
        lemma_split_append(p, xd, sep);
        assert(s.drop_last() =~= p + seq![sep] + xd);
        assert(s.last() == x.last());
        assert(x[x.len() - 1] != sep);
        let r = split(p, sep).push(xd);
        assert(split(s.drop_last(), sep) == r);
        assert(s.len() > 0);
        assert(split(s, sep) == r.update(r.len() - 1, r.last().push(s.last())));
        assert(r.last() == xd);
        assert(xd.push(x.last()) =~= x);
        assert(r.update(r.len() - 1, x) =~= split(p, sep).push(x));
    }
}

/// Digits are neither white space, separators nor multi-byte.
proof fn lemma_digit_char(d: nat)
    requires
        d < 10,
    ensures
        is_digit(digit_char(d)),
        digit_value(digit_char(d)) == d,
        !is_white_space(digit_char(d)),
        digit_char(d) != '-',
        digit_char(d) != '+',
        char_utf8_len(digit_char(d)) == 1,
{
}

/// The four-digit spelling reads back as the number.
proof fn lemma_four_digits(y: nat)
    requires
        y < 10000,
    ensures
        parse_unsigned(four_digits(y), u32_max()) == Some(y),
        utf8_len(four_digits(y)) == 4,
        !has_char(four_digits(y), '-'),
{
    reveal_with_fuel(digits_value, 5);
    reveal_with_fuel(utf8_len, 5);
    let s = four_digits(y);
    let (a, b, c, d) = ((y / 1000) % 10, (y / 100) % 10, (y / 10) % 10, y % 10);
    lemma_digit_char(a);
    lemma_digit_char(b);
    lemma_digit_char(c);
    lemma_digit_char(d);
    assert(s.drop_last() =~= seq![digit_char(a), digit_char(b), digit_char(c)]);
    assert(s.drop_last().drop_last() =~= seq![digit_char(a), digit_char(b)]);
    assert(s.drop_last().drop_last().drop_last() =~= seq![digit_char(a)]);
    assert(seq![digit_char(a)].drop_last() =~= Seq::<char>::empty());
    assert(digits_value(s) == ((a * 10 + b) * 10 + c) * 10 + d);
    assert(((a * 10 + b) * 10 + c) * 10 + d == y) by (nonlinear_arith)
        requires
            y < 10000,
            a == (y / 1000) % 10,
            b == (y / 100) % 10,
            c == (y / 10) % 10,
            d == y % 10,
    ;
    assert(all_digits(s));
    assert(s.drop_first() =~= seq![digit_char(b), digit_char(c), digit_char(d)]);
    assert(s.drop_first().drop_first() =~= seq![digit_char(c), digit_char(d)]);
    assert(s.drop_first().drop_first().drop_first() =~= seq![digit_char(d)]);
    assert(seq![digit_char(d)].drop_first() =~= Seq::<char>::empty());
    assert(!has_char(s, '-'));
}

/// The two-digit spelling reads back as the number.
proof fn lemma_two_digits(m: nat)
    requires
        m < 100,
    ensures
        parse_unsigned(two_digits(m), u32_max()) == Some(m),
        utf8_len(two_digits(m)) == 2,
        !has_char(two_digits(m), '-'),
{
    reveal_with_fuel(digits_value, 3);
    reveal_with_fuel(utf8_len, 3);
    let s = two_digits(m);
    let (a, b) = ((m / 10) % 10, m % 10);
    lemma_digit_char(a);
    lemma_digit_char(b);
    assert(s.drop_last() =~= seq![digit_char(a)]);
    assert(seq![digit_char(a)].drop_last() =~= Seq::<char>::empty());
    assert(digits_value(s) == a * 10 + b);
    assert(all_digits(s));
    assert(s.drop_first() =~= seq![digit_char(b)]);
    assert(seq![digit_char(b)].drop_first() =~= Seq::<char>::empty());
    assert(!has_char(s, '-'));
}

/// The `YYYY-MM-DD` text of a date has no surrounding white space, is ten
/// bytes long, and its fields are the year, month and day texts.
proof fn lemma_iso_fields(y: nat, m: nat, d: nat)
    requires
        y < 10000,
        m < 100,
        d < 100,
    ensures
        trim(date_text(y, m, d)) == date_text(y, m, d),
        utf8_len(date_text(y, m, d)) == 10,
        date_fields(date_text(y, m, d)) == Some((four_digits(y), two_digits(m), two_digits(d))),
{
    let n = date_text(y, m, d);
    lemma_four_digits(y);
    lemma_two_digits(m);
    lemma_two_digits(d);
    let fy = four_digits(y);
    let tm = two_digits(m);
    let td = two_digits(d);
    // the text is its own trim: it starts and ends with a digit
    lemma_digit_char((y / 1000) % 10);
    lemma_digit_char(d % 10);
    assert(n[0] == fy[0]);
    assert(n.last() == td[1]);
    assert(trim_start(n) == n);
    assert(trim_end(n) == n);
    // ten bytes
    lemma_dash_len();
    crate::text::lemma_utf8_len_concat(fy, seq!['-']);
    crate::text::lemma_utf8_len_concat(fy + seq!['-'], tm);
    crate::text::lemma_utf8_len_concat(fy + seq!['-'] + tm, seq!['-']);
    crate::text::lemma_utf8_len_concat(fy + seq!['-'] + tm + seq!['-'], td);
    // three pieces
    lemma_split_single(fy, '-');
    lemma_split_append(fy, tm, '-');
    lemma_split_append(fy + seq!['-'] + tm, td, '-');
    assert(split(n, '-') == seq![fy, tm, td]);
}

/// The `MM-DD-YYYY` text of a date.
pub open spec fn us_date_text(y: nat, m: nat, d: nat) -> Seq<char> {
    two_digits(m) + seq!['-'] + two_digits(d) + seq!['-'] + four_digits(y)
}

/// A dash is one byte.
proof fn lemma_dash_len()
    ensures
        utf8_len(seq!['-']) == 1,
{
    assert(seq!['-'].drop_first() =~= Seq::<char>::empty());
    reveal_with_fuel(utf8_len, 2);
}

/// The `MM-DD-YYYY` text of a date has no surrounding white space, is ten
/// bytes long, and its fields are the year, month and day texts.
proof fn lemma_us_fields(y: nat, m: nat, d: nat)
    requires
        y < 10000,
        m < 100,
        d < 100,
    ensures
        trim(us_date_text(y, m, d)) == us_date_text(y, m, d),
        utf8_len(us_date_text(y, m, d)) == 10,
        date_fields(us_date_text(y, m, d)) == Some((four_digits(y), two_digits(m), two_digits(d))),
{
    let n = us_date_text(y, m, d);
    lemma_four_digits(y);
    lemma_two_digits(m);
    lemma_two_digits(d);
    let fy = four_digits(y);
    let tm = two_digits(m);
    let td = two_digits(d);
    lemma_digit_char((m / 10) % 10);
    lemma_digit_char(y % 10);
    assert(n[0] == tm[0]);
    assert(n.last() == fy[3]);
    assert(trim_start(n) == n);
    assert(trim_end(n) == n);
    lemma_dash_len();
    crate::text::lemma_utf8_len_concat(tm, seq!['-']);
    crate::text::lemma_utf8_len_concat(tm + seq!['-'], td);
    crate::text::lemma_utf8_len_concat(tm + seq!['-'] + td, seq!['-']);
    crate::text::lemma_utf8_len_concat(tm + seq!['-'] + td + seq!['-'], fy);
    lemma_split_single(tm, '-');
    lemma_split_append(tm, td, '-');
    lemma_split_append(tm + seq!['-'] + td, fy, '-');
    assert(split(n, '-') == seq![tm, td, fy]);
}

/// A normalized date is already normalized: normalizing it again gives it
/// back.
pub proof fn law_normalize_date_idempotent(s: Seq<char>)
    ensures
        spec_normalize_date(s) matches Some(n) ==> spec_normalize_date(n) == Some(n),
{
    if let Some(n) = spec_normalize_date(s) {
        let (y, m, d) = normalized_ymd(s)->0;
        assert(n == date_text(y, m, d));
        lemma_iso_fields(y, m, d);
        lemma_four_digits(y);
        lemma_two_digits(m);
        lemma_two_digits(d);
    }
}

/// Both accepted spellings of a date, `YYYY-MM-DD` and `MM-DD-YYYY`, name
/// the same date, or are both rejected.
pub proof fn law_both_spellings_same_date(y: nat, m: nat, d: nat)
    requires
        y < 10000,
        m < 100,
        d < 100,
    ensures
        normalized_ymd(us_date_text(y, m, d)) == normalized_ymd(date_text(y, m, d)),
        spec_normalize_date(us_date_text(y, m, d)) == spec_normalize_date(date_text(y, m, d)),
        spec_date_to_epoch(us_date_text(y, m, d), false) == spec_date_to_epoch(date_text(y, m, d), false),
        spec_date_to_epoch(us_date_text(y, m, d), true) == spec_date_to_epoch(date_text(y, m, d), true),
{
    lemma_iso_fields(y, m, d);
    lemma_us_fields(y, m, d);
}

/// Both accepted spellings of the bounds of a date range give the same
/// server-side date range (and so the same filter from
/// `build_transactions_filter`).
pub proof fn law_both_spellings_same_range(y1: nat, m1: nat, d1: nat, y2: nat, m2: nat, d2: nat)
    requires
        y1 < 10000,
        m1 < 100,
        d1 < 100,
        y2 < 10000,
        m2 < 100,
        d2 < 100,
    ensures
        range_wanted(Some(us_date_text(y1, m1, d1)), Some(us_date_text(y2, m2, d2))) == range_wanted(
            Some(date_text(y1, m1, d1)),
            Some(date_text(y2, m2, d2)),
        ),
{
    law_both_spellings_same_date(y1, m1, d1);
    law_both_spellings_same_date(y2, m2, d2);
}

/// The last second of a date is its start plus 86399 seconds; a date has
/// both or neither.
pub proof fn law_end_of_day(s: Seq<char>)
    ensures
        spec_date_to_epoch(s, true) == match spec_date_to_epoch(s, false) {
            Some(t) => Some((t + 86399) as i64),
            None => None,
        },
{
    if let Some((y, m, d)) = normalized_ymd(s) {
        lemma_utc_seconds_bounds(y as int, m as int, d as int, 0, 0, 0);
        lemma_utc_seconds_bounds(y as int, m as int, d as int, 23, 59, 59);
    }
}

/// Doubling the quotes of two texts one after the other is doubling them in
/// each.
proof fn lemma_double_quotes_concat(a: Seq<char>, b: Seq<char>)
    ensures
        double_quotes(a + b) == double_quotes(a) + double_quotes(b),
    decreases b.len(),
{
    if b.len() == 0 {
        assert(a + b =~= a);
        assert(double_quotes(a) + double_quotes(b) =~= double_quotes(a));
    } else {
        lemma_double_quotes_concat(a, b.drop_last());
        assert((a + b).drop_last() =~= a + b.drop_last());
        assert((a + b).last() == b.last());
        if b.last() == '"' {
            assert(double_quotes(a + b) =~= double_quotes(a) + double_quotes(b));
        } else {
            assert(double_quotes(a + b) =~= double_quotes(a) + double_quotes(b));
        }
    }
}

/// The doubled quotes of a text, a closing quote and a tail that does not
/// start with a quote are read back as the text, the tail following.
proof fn lemma_read_quoted_doubled(s: Seq<char>, tail: Seq<char>)
    requires
        !(tail.len() > 0 && tail[0] == '"'),
    ensures
        read_quoted(double_quotes(s) + seq!['"'] + tail) == Some((s, tail)),
    decreases s.len(),
{
    let t = double_quotes(s) + seq!['"'] + tail;
    if s.len() == 0 {
        assert(double_quotes(s) =~= Seq::<char>::empty());
        assert(t =~= seq!['"'] + tail);
        assert(t.drop_first() =~= tail);
    } else {
        let c = s[0];
        let rest = s.drop_first();
        assert(s =~= seq![c] + rest);
        lemma_double_quotes_concat(seq![c], rest);
        assert(seq![c].drop_last() =~= Seq::<char>::empty());
        assert(seq![c].last() == c);
        assert(double_quotes(Seq::<char>::empty()) == Seq::<char>::empty());
        lemma_read_quoted_doubled(rest, tail);
        let u = double_quotes(rest) + seq!['"'] + tail;
        if c == '"' {
            assert(double_quotes(seq![c]) == double_quotes(seq![c].drop_last()) + seq!['"', '"']);
            assert(double_quotes(seq![c]) =~= seq!['"', '"']);
            assert(t =~= seq!['"', '"'] + u);
            assert(t.skip(2) =~= u);
            assert(seq!['"'] + rest =~= s);
        } else {
            assert(double_quotes(seq![c]) == double_quotes(seq![c].drop_last()).push(c));
            assert(double_quotes(seq![c]) =~= seq![c]);
            assert(t =~= seq![c] + u);
            assert(t.drop_first() =~= u);
            assert(seq![t[0]] + rest =~= s);
        }
    }
}

/// A text without commas, then a tail that is empty or starts with a
/// comma, is read back as the text, the tail following.
proof fn lemma_read_unquoted_plain(s: Seq<char>, tail: Seq<char>)
    requires
        !has_char(s, ','),
        tail.len() == 0 || tail[0] == ',',
    ensures
        read_unquoted(s + tail) == (s, tail),
    decreases s.len(),
{
    let t = s + tail;
    if s.len() == 0 {
        assert(t =~= tail);
    } else {
        let rest = s.drop_first();
        assert(!has_char(rest, ',')) by {
            if has_char(rest, ',') {
                let k = choose|k: int| 0 <= k < rest.len() && rest[k] == ',';
                assert(s[k + 1] == ',');
            }
        }
        assert(s[0] != ',');
        lemma_read_unquoted_plain(rest, tail);
        assert(t.drop_first() =~= rest + tail);
        assert(seq![t[0]] + rest =~= s);
    }
}

/// An escaped field followed by a tail that is empty or starts with a comma
/// is read back as the field, the tail following.
proof fn lemma_read_field_escaped(s: Seq<char>, tail: Seq<char>)
    requires
        tail.len() == 0 || tail[0] == ',',
    ensures
        read_field(spec_escape_csv_field(s) + tail) == Some((s, tail)),
{
    let t = spec_escape_csv_field(s) + tail;
    if needs_quoting(s) {
        assert(t =~= seq!['"'] + (double_quotes(s) + seq!['"'] + tail));
        assert(t.drop_first() =~= double_quotes(s) + seq!['"'] + tail);
        lemma_read_quoted_doubled(s, tail);
    } else {
        if s.len() > 0 {
            assert(s[0] != '"');
        }
        lemma_read_unquoted_plain(s, tail);
    }
}

/// A CSV line of two or more fields is the first escaped field, a comma and
/// the line of the others.
proof fn lemma_csv_join_front(cells: Seq<Seq<char>>)
    requires
        cells.len() >= 2,
    ensures
        csv_join(cells) == spec_escape_csv_field(cells[0]) + seq![','] + csv_join(cells.drop_first()),
    decreases cells.len(),
{
    if cells.len() == 2 {
        assert(cells.drop_last() =~= seq![cells[0]]);
        assert(cells.drop_first() =~= seq![cells[1]]);
        assert(csv_join(seq![cells[0]]) == spec_escape_csv_field(cells[0]));
        assert(csv_join(seq![cells[1]]) == spec_escape_csv_field(cells[1]));
        assert(cells.last() == cells[1]);
        assert(csv_join(cells) =~= spec_escape_csv_field(cells[0]) + seq![','] + csv_join(cells.drop_first()));
    } else {
        lemma_csv_join_front(cells.drop_last());
        assert(cells.drop_last().drop_first() =~= cells.drop_first().drop_last());
        assert(cells.drop_last()[0] == cells[0]);
        assert(cells.drop_first().last() == cells.last());
        assert(csv_join(cells) =~= spec_escape_csv_field(cells[0]) + seq![','] + csv_join(cells.drop_first()));
    }
}

/// Reading an escaped field as a CSV line gives back the field.
pub proof fn law_csv_field_read_back(s: Seq<char>)
    ensures
        read_record(spec_escape_csv_field(s)) == Some(seq![s]),
{
    lemma_read_field_escaped(s, Seq::empty());
    assert(spec_escape_csv_field(s) + Seq::<char>::empty() =~= spec_escape_csv_field(s));
}

/// Reading a CSV line of escaped fields gives back the fields, for any
/// number of fields but none (an empty line reads as one empty field).
pub proof fn law_csv_line_read_back(cells: Seq<Seq<char>>)
    requires
        cells.len() >= 1,
    ensures
        read_record(csv_join(cells)) == Some(cells),
    decreases cells.len(),
{
    if cells.len() == 1 {
        law_csv_field_read_back(cells[0]);
        assert(seq![cells[0]] =~= cells);
    } else {
        lemma_csv_join_front(cells);
        let rest = csv_join(cells.drop_first());
        let tail = seq![','] + rest;
        assert(csv_join(cells) =~= spec_escape_csv_field(cells[0]) + tail);
        lemma_read_field_escaped(cells[0], tail);
        assert(tail.drop_first() =~= rest);
        law_csv_line_read_back(cells.drop_first());
        assert(seq![cells[0]] + cells.drop_first() =~= cells);
    }
}

// ---------------------------------------------------------------------------
// Case-insensitive matching
// ---------------------------------------------------------------------------

/// The name query ignores case: a query passes the same transactions as any
/// other spelling of it with the same lower-case form.
pub proof fn law_query_ignores_case(t: Transaction, c: TransactionCriteria, q2: Seq<char>)
    requires
        c.query matches Some(q) && lowercase(q) == lowercase(q2),
    ensures
        passes(t, c) == passes(t, (TransactionCriteria { query: Some(q2), ..c })),
{
}

/// The name query ignores case: the filter keeps the same transactions for
/// any spelling of the query with the same lower-case form.
pub proof fn law_filter_query_ignores_case(items: Seq<Transaction>, c: TransactionCriteria, q2: Seq<char>)
    requires
        c.query matches Some(q) && lowercase(q) == lowercase(q2),
    ensures
        select(items, c) == select(items, (TransactionCriteria { query: Some(q2), ..c })),
    decreases items.len(),
{
    if items.len() > 0 {
        law_query_ignores_case(items.last(), c, q2);
        law_filter_query_ignores_case(items.drop_last(), c, q2);
    }
}

/// The name query ignores the case of the transaction's name: two
/// transactions that differ only in names with the same lower-case form pass
/// alike.
pub proof fn law_query_ignores_name_case(t: Transaction, name2: Option<String>, c: TransactionCriteria)
    requires
        lowercase(text_or_empty(t.name)) == lowercase(text_or_empty(name2)),
    ensures
        passes(t, c) == passes((Transaction { name: name2, ..t }), c),
{
}

/// Wanted tags ignore case: replacing each wanted tag by a spelling with the
/// same lower-case form keeps the same transactions.
pub proof fn law_tags_ignore_case(t: Transaction, c: TransactionCriteria, tags2: Seq<Seq<char>>)
    requires
        tags2.len() == c.tags.len(),
        forall|i: int| 0 <= i < tags2.len() ==> lowercase(#[trigger] tags2[i]) == lowercase(c.tags[i]),
    ensures
        passes(t, c) == passes(t, (TransactionCriteria { tags: tags2, ..c })),
{
    assert(c.tags.map_values(|s: Seq<char>| lowercase(s)) =~= tags2.map_values(|s: Seq<char>| lowercase(s)));
}

/// The ids whose name matches a category name argument are exactly those of
/// the categories whose name, lower-cased, equals the argument trimmed and
/// lower-cased.
pub proof fn law_category_name_matches(pairs: Seq<(Seq<char>, Seq<char>)>, n: Seq<char>, id: Seq<char>)
    ensures
        ids_named(pairs, wanted_name(n)).contains(id) <==> exists|k: int|
            0 <= k < pairs.len() && #[trigger] pairs[k].0 == id && lowercase(pairs[k].1) == lowercase(trim(n)),
    decreases pairs.len(),
{
    if pairs.len() > 0 {
        let init = pairs.drop_last();
        law_category_name_matches(init, n, id);
        let rest = ids_named(init, wanted_name(n));
        if ids_named(pairs, wanted_name(n)).contains(id) {
            if !rest.contains(id) {
                let i = choose|i: int| 0 <= i < ids_named(pairs, wanted_name(n)).len() && ids_named(pairs, wanted_name(n))[i] == id;
                assert(i == rest.len());
                assert(pairs[pairs.len() - 1] == pairs.last());
            } else {
                let k = choose|k: int| 0 <= k < init.len() && #[trigger] init[k].0 == id && lowercase(init[k].1) == lowercase(trim(n));
                assert(pairs[k] == init[k]);
            }
        } else {
            if exists|k: int| 0 <= k < pairs.len() && #[trigger] pairs[k].0 == id && lowercase(pairs[k].1) == lowercase(trim(n)) {
                let k = choose|k: int| 0 <= k < pairs.len() && #[trigger] pairs[k].0 == id && lowercase(pairs[k].1) == lowercase(trim(n));
                if k == pairs.len() - 1 {
                    assert(ids_named(pairs, wanted_name(n)) == rest.push(id));
                    assert(rest.push(id)[rest.len() as int] == id);
                } else {
                    assert(init[k] == pairs[k]);
                    let i = choose|i: int| 0 <= i < rest.len() && rest[i] == id;
                    if lowercase(pairs.last().1) == wanted_name(n) {
                        assert(rest.push(pairs.last().0)[i] == id);
                    }
                }
            }
        }
    }
}

/// Category-name resolution ignores the case and the surrounding white space
/// of the argument: two arguments with the same trimmed lower-case form find
/// the same categories.
pub proof fn law_category_name_ignores_case(pairs: Seq<(Seq<char>, Seq<char>)>, n: Seq<char>, m: Seq<char>)
    requires
        lowercase(trim(n)) == lowercase(trim(m)),
    ensures
        ids_named(pairs, wanted_name(n)) == ids_named(pairs, wanted_name(m)),
    decreases pairs.len(),
{
    if pairs.len() > 0 {
        law_category_name_ignores_case(pairs.drop_last(), n, m);
    }
}

// ---------------------------------------------------------------------------
// Server-side sort
// ---------------------------------------------------------------------------

/// The sort entry follows the chosen order: descending exactly for the
/// `-desc` orders, and by date exactly for the `date-` orders.
pub proof fn law_sort_follows_order(s: TransactionsSort)
    ensures
        (sort_entry(s).direction == SortDirection::Desc) <==> (s == TransactionsSort::DateDesc || s
            == TransactionsSort::AmountDesc),
        (sort_entry(s).field == SortField::Date) <==> (s == TransactionsSort::DateDesc || s
            == TransactionsSort::DateAsc),
        sort_entry(s).direction.spec_name() == (if s == TransactionsSort::DateDesc || s
            == TransactionsSort::AmountDesc {
            "DESC"@
        } else {
            "ASC"@
        }),
        sort_entry(s).field.spec_name() == (if s == TransactionsSort::DateDesc || s
            == TransactionsSort::DateAsc {
            "DATE"@
        } else {
            "AMOUNT"@
        }),
{
}

// ---------------------------------------------------------------------------
// The login helper
// ---------------------------------------------------------------------------

/// Credential logins pass the secrets file the user gave, and the default
/// one only when none was given, as the last argument after
/// `--secrets-file`; the helper comes first.
pub proof fn law_credentials_secrets_file(
    helper: Seq<char>,
    timeout_seconds: u64,
    session_dir: Option<Seq<char>>,
    email: Option<Seq<char>>,
    secrets_file: Option<Seq<char>>,
    default_secrets: Seq<char>,
)
    ensures
        ({
            let a = spec_login_args(helper, timeout_seconds, session_dir, AuthLoginMode::Credentials, email, secrets_file, default_secrets);
            &&& a.len() >= 2
            &&& a[0] == helper
            &&& a[a.len() - 2] == "--secrets-file"@
            &&& a.last() == match secrets_file {
                Some(p) => p,
                None => default_secrets,
            }
        }),
{
}

/// Email-link logins pass the secrets file the user gave as the last
/// argument after `--secrets-file`.
pub proof fn law_email_link_secrets_file(
    helper: Seq<char>,
    timeout_seconds: u64,
    session_dir: Option<Seq<char>>,
    email: Option<Seq<char>>,
    p: Seq<char>,
    default_secrets: Seq<char>,
)
    ensures
        ({
            let a = spec_login_args(helper, timeout_seconds, session_dir, AuthLoginMode::EmailLink, email, Some(p), default_secrets);
            &&& a.len() >= 2
            &&& a[a.len() - 2] == "--secrets-file"@
            &&& a.last() == p
        }),
{
}

// ---------------------------------------------------------------------------
// CSV output of transactions
// ---------------------------------------------------------------------------

/// Reading back a transaction's CSV line gives one cell per column, and the
/// id column holds the transaction's full id, unshortened.
pub proof fn law_csv_id_is_full_id(
    t: Transaction,
    fields: Seq<TransactionField>,
    names: Option<Seq<(Seq<char>, Seq<char>)>>,
    amount: Seq<char>,
    j: int,
)
    requires
        0 <= j < fields.len(),
        fields[j] == TransactionField::Id,
    ensures
        read_record(csv_row_line(t, fields, names, amount)) matches Some(cells) && cells.len()
            == fields.len() && cells[j] == t.id@,
{
    let cells = fields.map_values(|f: TransactionField| cell_text(t, f, names, amount));
    law_csv_line_read_back(cells);
    assert(cells[j] == cell_text(t, fields[j], names, amount));
}

/// Every transaction the filter keeps meets each criterion it was given:
/// reviewed, or not reviewed, as asked; the category asked for; a name that
/// holds the query, both lower-cased; the exact date and the inclusive date
/// bounds (normalized); and a named tag equal to a wanted tag, both
/// lower-cased.
pub proof fn law_filter_results_meet_criteria(items: Seq<Transaction>, c: TransactionCriteria)
    ensures
        forall|i: int|
            0 <= i < select(items, c).len() ==> {
                let t = #[trigger] select(items, c)[i];
                let date = text_or_empty(t.date);
                &&& (c.reviewed ==> t.is_reviewed == Some(true))
                &&& (c.unreviewed ==> t.is_reviewed != Some(true))
                &&& (c.category_id matches Some(cat) ==> (t.category_id matches Some(x) && x@ == cat))
                &&& (c.query matches Some(q) ==> contains(lowercase(text_or_empty(t.name)), lowercase(q)))
                &&& (spec_normalize_date_opt(c.date) matches Some(w) ==> date == w)
                &&& (spec_normalize_date_opt(c.date_from) matches Some(f) ==> !lex_lt(date, f))
                &&& (spec_normalize_date_opt(c.date_to) matches Some(e) ==> !lex_lt(e, date))
                &&& (c.tags.len() > 0 ==> (t.tags matches Some(ts) && exists|k: int, j: int|
                    #![trigger ts@[k], c.tags[j]]
                    0 <= k < ts@.len() && 0 <= j < c.tags.len() && (ts@[k].name matches Some(n)
                        && lowercase(n@) == lowercase(c.tags[j]))))
            },
{
    law_filter_keeps_only_passing(items, c);
    assert forall|i: int| 0 <= i < select(items, c).len() implies {
        let t = #[trigger] select(items, c)[i];
        c.tags.len() > 0 ==> (t.tags matches Some(ts) && exists|k: int, j: int|
            #![trigger ts@[k], c.tags[j]]
            0 <= k < ts@.len() && 0 <= j < c.tags.len() && (ts@[k].name matches Some(n)
                && lowercase(n@) == lowercase(c.tags[j])))
    } by {
        let t = select(items, c)[i];
        assert(passes(t, c));
        if c.tags.len() > 0 {
            let wanted = c.tags.map_values(|s: Seq<char>| lowercase(s));
            let ts = t.tags->0;
            let (k, j) = choose|k: int, j: int|
                #![trigger ts@[k], wanted[j]]
                0 <= k < ts@.len() && 0 <= j < wanted.len() && (ts@[k].name matches Some(n)
                    && lowercase(n@) == wanted[j]);
            assert(wanted[j] == lowercase(c.tags[j]));
            assert(ts@[k].name matches Some(n) && lowercase(n@) == lowercase(c.tags[j]));
        }
    }
}

/// A transaction with a named tag equal, both lower-cased, to a wanted tag
/// meets the tag criterion: it passes exactly when it passes the other
/// criteria.
pub proof fn law_tag_match_passes(t: Transaction, c: TransactionCriteria, k: int, j: int)
    requires
        t.tags matches Some(ts) && 0 <= k < ts@.len() && (ts@[k].name matches Some(n) && 0 <= j
            < c.tags.len() && lowercase(n@) == lowercase(c.tags[j])),
    ensures
        passes(t, c) == passes(t, (TransactionCriteria { tags: Seq::empty(), ..c })),
{
    let wanted = c.tags.map_values(|s: Seq<char>| lowercase(s));
    let ts = t.tags->0;
    assert(wanted[j] == lowercase(c.tags[j]));
    assert(ts@[k].name matches Some(n) && lowercase(n@) == wanted[j]);
}

/// Each tag of a transaction counts once: the tags in the tag set are
/// exactly the ids of the transaction's tags.
pub proof fn law_tag_id_set_members(v: Vec<crate::client::Tag>, id: Seq<char>)
    ensures
        tag_id_set(Some(v)).contains(id) <==> exists|i: int| 0 <= i < v@.len() && (#[trigger] v@[i]).id@ == id,
        !tag_id_set(None).contains(id),
{
}

/// Flattening keeps every category of the forest, children included: each
/// category's entry and the entries of its children appear.
pub proof fn law_flatten_keeps_children(cats: Seq<crate::client::Category>, i: int)
    requires
        0 <= i < cats.len(),
    ensures
        flatten(cats).contains(entry(cats[i])),
        cats[i].child_categories matches Some(v) ==> (forall|k: int|
            0 <= k < flatten(v@).len() ==> flatten(cats).contains(#[trigger] flatten(v@)[k])),
    decreases cats.len(),
{
    let c = cats[0];
    let children = match c.child_categories {
        Some(v) => flatten(v@),
        None => Seq::<(Seq<char>, Seq<char>)>::empty(),
    };
    let rest = flatten(cats.drop_first());
    assert(flatten(cats) == seq![entry(c)] + children + rest);
    if i == 0 {
        assert(flatten(cats)[0] == entry(c));
        if let Some(v) = c.child_categories {
            assert forall|k: int| 0 <= k < flatten(v@).len() implies flatten(cats).contains(#[trigger] flatten(v@)[k]) by {
                assert(flatten(cats)[1 + k] == flatten(v@)[k]);
            }
        }
    } else {
        law_flatten_keeps_children(cats.drop_first(), i - 1);
        assert(cats.drop_first()[i - 1] == cats[i]);
        let off = 1 + children.len();
        let x = entry(cats[i]);
        let p = choose|p: int| 0 <= p < rest.len() && rest[p] == x;
        assert(flatten(cats)[off + p] == x);
        if let Some(v) = cats[i].child_categories {
            assert forall|k: int| 0 <= k < flatten(v@).len() implies flatten(cats).contains(#[trigger] flatten(v@)[k]) by {
                let y = flatten(v@)[k];
                assert(rest.contains(y));
                let q = choose|q: int| 0 <= q < rest.len() && rest[q] == y;
                assert(flatten(cats)[off + q] == y);
            }
        }
    }
}

/// The name found for an id is the name of the last pair with that id, and
/// no name is found for an id that no pair has.
pub proof fn law_lookup_name_last_wins(names: Seq<(Seq<char>, Seq<char>)>, id: Seq<char>, k: int)
    requires
        0 <= k < names.len(),
        names[k].0 == id,
        forall|j: int| k < j < names.len() ==> (#[trigger] names[j]).0 != id,
    ensures
        lookup_name(names, id) == Some(names[k].1),
    decreases names.len(),
{
    if k < names.len() - 1 {
        assert(names[names.len() - 1].0 != id);
        law_lookup_name_last_wins(names.drop_last(), id, k);
    }
}

/// No name is found for an id that no pair has.
pub proof fn law_lookup_name_absent(names: Seq<(Seq<char>, Seq<char>)>, id: Seq<char>)
    requires
        forall|j: int| 0 <= j < names.len() ==> (#[trigger] names[j]).0 != id,
    ensures
        lookup_name(names, id) is None,
    decreases names.len(),
{
    if names.len() > 0 {
        assert(names[names.len() - 1].0 != id);
        law_lookup_name_absent(names.drop_last(), id);
    }
}

/// A page's transactions are exactly the transaction nodes of the feed:
/// each one comes from a transaction node, and every transaction node gives
/// its transaction (month nodes and missing nodes give none).
pub proof fn law_feed_keeps_items(nodes: Seq<FeedNode>)
    ensures
        forall|i: int|
            0 <= i < feed_transactions(nodes).len() ==> exists|k: int|
                0 <= k < nodes.len() && #[trigger] nodes[k] == FeedNode::Item(#[trigger] feed_transactions(nodes)[i]),
        forall|k: int|
            0 <= k < nodes.len() ==> (#[trigger] nodes[k] matches FeedNode::Item(t) ==> feed_transactions(
                nodes,
            ).contains(t)),
    decreases nodes.len(),
{
    if nodes.len() > 0 {
        let init = nodes.drop_last();
        law_feed_keeps_items(init);
        let rest = feed_transactions(init);
        assert forall|i: int| 0 <= i < feed_transactions(nodes).len() implies exists|k: int|
            0 <= k < nodes.len() && #[trigger] nodes[k] == FeedNode::Item(#[trigger] feed_transactions(nodes)[i]) by {
            if i < rest.len() {
                assert(feed_transactions(nodes)[i] == rest[i]);
                let k = choose|k: int| 0 <= k < init.len() && #[trigger] init[k] == FeedNode::Item(rest[i]);
                assert(nodes[k] == init[k]);
            } else {
                assert(nodes[nodes.len() - 1] == nodes.last());
            }
        }
        assert forall|k: int| 0 <= k < nodes.len() implies (#[trigger] nodes[k] matches FeedNode::Item(t)
            ==> feed_transactions(nodes).contains(t)) by {
            if let FeedNode::Item(t) = nodes[k] {
                if k < nodes.len() - 1 {
                    assert(init[k] == nodes[k]);
                    let p = choose|p: int| 0 <= p < rest.len() && rest[p] == t;
                    if let FeedNode::Item(u) = nodes.last() {
                        assert(rest.push(u)[p] == t);
                    }
                } else {
                    assert(nodes.last() == nodes[k]);
                    assert(rest.push(t)[rest.len() as int] == t);
                }
            }
        }
    }
}

/// The login helper gets the session directory right after the timeout
/// when the session is kept, and the mode right after the timeout when it
/// is not; an interactive login shows the browser.
pub proof fn law_login_session_and_mode(
    helper: Seq<char>,
    timeout_seconds: u64,
    session_dir: Option<Seq<char>>,
    mode: AuthLoginMode,
    email: Option<Seq<char>>,
    secrets_file: Option<Seq<char>>,
    default_secrets: Seq<char>,
)
    ensures
        ({
            let a = spec_login_args(helper, timeout_seconds, session_dir, mode, email, secrets_file, default_secrets);
            let m = if session_dir is Some { 5int } else { 3int };
            &&& a.len() >= m + 2
            &&& a[0] == helper
            &&& a[1] == "--timeout-seconds"@
            &&& (session_dir matches Some(d) ==> a[3] == "--user-data-dir"@ && a[4] == d)
            &&& a[m] == "--mode"@
            &&& a[m + 1] == match mode {
                AuthLoginMode::Interactive => "interactive"@,
                AuthLoginMode::EmailLink => "email-link"@,
                AuthLoginMode::Credentials => "credentials"@,
            }
            &&& (mode == AuthLoginMode::Interactive ==> a.last() == "--headful"@)
        }),
{
}

/// Normalization accepts exactly the dates with a year in 1900..=2100, a
/// month in 1..=12 and a day in 1..=31, in either spelling, and reads back
/// their year, month and day.
pub proof fn law_normalize_accepts_in_range(y: nat, m: nat, d: nat)
    requires
        y < 10000,
        m < 100,
        d < 100,
    ensures
        normalized_ymd(date_text(y, m, d)) == (if 1900 <= y <= 2100 && 1 <= m <= 12 && 1 <= d <= 31 {
            Some((y, m, d))
        } else {
            None
        }),
        normalized_ymd(us_date_text(y, m, d)) == normalized_ymd(date_text(y, m, d)),
{
    lemma_iso_fields(y, m, d);
    lemma_four_digits(y);
    lemma_two_digits(m);
    lemma_two_digits(d);
    law_both_spellings_same_date(y, m, d);
}

/// The epoch starts at 1970-01-01T00:00:00Z, a time of day adds its
/// seconds to the start of its day, and each day starts 86400 seconds after
/// the previous one, across the end of a month and of a year.
pub proof fn law_calendar_days_follow(y: int, m: int, d: int)
    requires
        1 <= y,
        1 <= m <= 12,
        1 <= d <= days_in_month(y, m),
    ensures
        utc_seconds(1970, 1, 1, 0, 0, 0) == 0,
        forall|h: int, mi: int, s: int| #[trigger] utc_seconds(y, m, d, h, mi, s) == utc_seconds(y, m, d, 0, 0, 0) + h * 3600 + mi * 60 + s,
        d < days_in_month(y, m) ==> utc_seconds(y, m, d + 1, 0, 0, 0) == utc_seconds(y, m, d, 0, 0, 0) + 86400,
        d == days_in_month(y, m) && m < 12 ==> utc_seconds(y, m + 1, 1, 0, 0, 0) == utc_seconds(y, m, d, 0, 0, 0) + 86400,
        d == days_in_month(y, m) && m == 12 ==> utc_seconds(y + 1, 1, 1, 0, 0, 0) == utc_seconds(y, m, d, 0, 0, 0) + 86400,
{
    let n = y - 1;
    assert(y / 4 - n / 4 == (if y % 4 == 0 { 1int } else { 0int })) by (nonlinear_arith)
        requires n == y - 1, n >= 0;
    assert(y / 100 - n / 100 == (if y % 100 == 0 { 1int } else { 0int })) by (nonlinear_arith)
        requires n == y - 1, n >= 0;
    assert(y / 400 - n / 400 == (if y % 400 == 0 { 1int } else { 0int })) by (nonlinear_arith)
        requires n == y - 1, n >= 0;
    assert(is_leap_year(y) ==> y % 4 == 0);
}

} // verus!
