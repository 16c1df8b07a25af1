//! Text of table and CSV output: escaping, shortened identifiers, amounts,
//! and the rules for colors and terminal width.

use vstd::prelude::*;
use crate::cli::ColorMode;
use crate::client::AmountValue;
use crate::text::{
    chars_of, has_char, has_char_in, lemma_utf8_len_take_step, push_char,
    string_of, trim, trim_chars, utf8_len, parse_unsigned, parse_unsigned_chars,
    lemma_utf8_len_prefix, lemma_utf8_len_concat,
};

verus! {

/// A row of a two-column key/value table.
#[derive(Debug, Clone, PartialEq)]
pub struct KeyValueRow {
    pub key: String,
    pub value: String,
}

// ---------------------------------------------------------------------------
// CSV
// ---------------------------------------------------------------------------

/// A CSV field must be quoted when it holds a comma, a quote or a line break.
pub open spec fn needs_quoting(s: Seq<char>) -> bool {
    has_char(s, ',') || has_char(s, '"') || has_char(s, '\n') || has_char(s, '\r')
}

/// `s` with every `"` doubled.
pub open spec fn double_quotes(s: Seq<char>) -> Seq<char>
    decreases s.len(),
{
    if s.len() == 0 {
        Seq::empty()
    } else if s.last() == '"' {
        double_quotes(s.drop_last()) + seq!['"', '"']
    } else {
        double_quotes(s.drop_last()).push(s.last())
    }
}

/// The CSV spelling of a field: quoted, with quotes doubled, when it needs
/// quoting; else unchanged.
pub open spec fn spec_escape_csv_field(s: Seq<char>) -> Seq<char> {
    if needs_quoting(s) {
        seq!['"'] + double_quotes(s) + seq!['"']
    } else {
        s
    }
}

/// The CSV spelling of a field.
pub fn escape_csv_field(s: &str) -> (r: String)
    ensures
        r@ == spec_escape_csv_field(s@),
{
    let cs = chars_of(s);
    let quote = has_char_in(cs.as_slice(), ',') || has_char_in(cs.as_slice(), '"')
        || has_char_in(cs.as_slice(), '\n') || has_char_in(cs.as_slice(), '\r');
    if !quote {
        return s.to_owned();
    }
    let mut out = String::new();
    push_char(&mut out, '"');
    let n = cs.len();
    for i in 0..n
        invariant
            n == cs@.len(),
            out@ == seq!['"'] + double_quotes(cs@.take(i as int)),
    {
        let ghost next = cs@.take(i + 1);
        assert(next.drop_last() =~= cs@.take(i as int));
        if cs[i] == '"' {
            push_char(&mut out, '"');
            push_char(&mut out, '"');
            assert(out@ =~= seq!['"'] + double_quotes(next));
        } else {
            push_char(&mut out, cs[i]);
            assert(out@ =~= seq!['"'] + double_quotes(next));
        }
    }
    push_char(&mut out, '"');
    assert(cs@.take(n as int) =~= cs@);
    out
}

/// The escaped fields of a CSV line, separated by commas.
pub open spec fn csv_join(fields: Seq<Seq<char>>) -> Seq<char>
    decreases fields.len(),
{
    if fields.len() == 0 {
        Seq::empty()
    } else if fields.len() == 1 {
        spec_escape_csv_field(fields[0])
    } else {
        csv_join(fields.drop_last()) + seq![','] + spec_escape_csv_field(fields.last())
    }
}

/// One CSV line (without line break) of the given fields.
pub fn csv_line(fields: &[String]) -> (r: String)
    ensures
        r@ == csv_join(fields@.map_values(|s: String| s@)),
{
    let ghost fv = fields@.map_values(|s: String| s@);
    let mut out = String::new();
    let n = fields.len();
    for i in 0..n
        invariant
            n == fields@.len(),
            fv == fields@.map_values(|s: String| s@),
            out@ == csv_join(fv.take(i as int)),
    {
        let e = escape_csv_field(fields[i].as_str());
        let ghost next = fv.take(i + 1);
        assert(next.drop_last() =~= fv.take(i as int));
        assert(next.last() == fields@[i as int]@);
        if i > 0 {
            push_char(&mut out, ',');
        } else {
            assert(fv.take(0) =~= Seq::<Seq<char>>::empty());
        }
        out.append(e.as_str());
    }
    assert(fv.take(n as int) =~= fv);
    out
}

// ---------------------------------------------------------------------------
// Reading CSV back (RFC 4180)
// ---------------------------------------------------------------------------

/// Reads the rest of a quoted field, after its opening quote: the text up to
/// the closing quote, where `""` stands for one `"`, and what follows the
/// closing quote; `None` when the quote is never closed.
pub open spec fn read_quoted(t: Seq<char>) -> Option<(Seq<char>, Seq<char>)>
    decreases t.len(),
{
    if t.len() == 0 {
        None
    } else if t[0] == '"' {
        if t.len() >= 2 && t[1] == '"' {
            match read_quoted(t.skip(2)) {
                Some((c, r)) => Some((seq!['"'] + c, r)),
                None => None,
            }
        } else {
            Some((Seq::empty(), t.drop_first()))
        }
    } else {
        match read_quoted(t.drop_first()) {
            Some((c, r)) => Some((seq![t[0]] + c, r)),
            None => None,
        }
    }
}

/// Reads an unquoted field: the text up to the next comma, and the rest.
pub open spec fn read_unquoted(t: Seq<char>) -> (Seq<char>, Seq<char>)
    decreases t.len(),
{
    if t.len() == 0 || t[0] == ',' {
        (Seq::empty(), t)
    } else {
        let (c, r) = read_unquoted(t.drop_first());
        (seq![t[0]] + c, r)
    }
}

/// Reads the first field of a CSV line: a quoted field when the line starts
/// with `"`, else an unquoted one; gives the field's text and the rest.
pub open spec fn read_field(t: Seq<char>) -> Option<(Seq<char>, Seq<char>)> {
    if t.len() > 0 && t[0] == '"' {
        read_quoted(t.drop_first())
    } else {
        Some(read_unquoted(t))
    }
}

/// What follows a quoted field is shorter than the text it was read from.
pub proof fn lemma_read_quoted_rest(t: Seq<char>)
    ensures
        read_quoted(t) matches Some((c, r)) ==> r.len() < t.len(),
    decreases t.len(),
{
    if t.len() > 0 {
        if t[0] == '"' {
            if t.len() >= 2 && t[1] == '"' {
                lemma_read_quoted_rest(t.skip(2));
            }
        } else {
            lemma_read_quoted_rest(t.drop_first());
        }
    }
}

/// What follows an unquoted field is no longer than the text it was read
/// from.
pub proof fn lemma_read_unquoted_rest(t: Seq<char>)
    ensures
        read_unquoted(t).1.len() <= t.len(),
    decreases t.len(),
{
    if t.len() > 0 && t[0] != ',' {
        lemma_read_unquoted_rest(t.drop_first());
    }
}

/// Reads a CSV line into its fields: fields are read one after the other,
/// separated by commas; `None` when the line is malformed.
pub open spec fn read_record(t: Seq<char>) -> Option<Seq<Seq<char>>>
    decreases t.len(),
{
    match read_field(t) {
        None => None,
        Some((f, rest)) => if rest.len() == 0 {
            Some(seq![f])
        } else if rest[0] == ',' {
            proof {
                lemma_read_quoted_rest(t.drop_first());
                lemma_read_unquoted_rest(t);
            }
            match read_record(rest.drop_first()) {
                Some(fs) => Some(seq![f] + fs),
                None => None,
            }
        } else {
            None
        },
    }
}

// ---------------------------------------------------------------------------
// Shortened identifiers
// ---------------------------------------------------------------------------

/// The displayed width of `s` in terminal columns, as `unicode-width`'s
/// `UnicodeWidthStr::width` computes it.
pub uninterp spec fn display_width(s: Seq<char>) -> nat;

/// Printable ASCII: from the space to `~`.
pub open spec fn is_printable_ascii(s: Seq<char>) -> bool {
    forall|i: int| 0 <= i < s.len() ==> 0x20 <= #[trigger] (s[i] as u32) <= 0x7E
}

/// `UnicodeWidthStr::width` of the `unicode-width` crate: the displayed width
/// in columns, a function of the string alone; a text of printable ASCII
/// characters is one column per character.
#[verifier::external_body]
fn str_display_width(s: &str) -> (r: usize)
    ensures
        r as nat == display_width(s@),
        is_printable_ascii(s@) ==> r == s@.len(),
{
    unicode_width::UnicodeWidthStr::width(s)
}

/// The first characters of `s` that make up exactly `b` bytes, if a character
/// boundary lies there.
pub open spec fn prefix_of_bytes(s: Seq<char>, b: nat) -> Option<Seq<char>> {
    if exists|k: int| 0 <= k <= s.len() && utf8_len(s.take(k)) == b {
        let k = choose|k: int| 0 <= k <= s.len() && utf8_len(s.take(k)) == b;
        Some(s.take(k))
    } else {
        None
    }
}

/// The last characters of `s` that make up exactly `b` bytes, if a character
/// boundary lies there.
pub open spec fn suffix_of_bytes(s: Seq<char>, b: nat) -> Option<Seq<char>> {
    if exists|k: int| 0 <= k <= s.len() && utf8_len(s.skip(k)) == b {
        let k = choose|k: int| 0 <= k <= s.len() && utf8_len(s.skip(k)) == b;
        Some(s.skip(k))
    } else {
        None
    }
}

/// The identifier needs shortening: it is wider than 18 columns and longer
/// than 15 bytes.
pub open spec fn needs_shortening(id: Seq<char>) -> bool {
    display_width(id) > 18 && utf8_len(id) > 15
}

/// The table spelling of an identifier (after trimming): unchanged when it is
/// empty, at most 18 columns wide or at most 15 bytes long; else its first 8
/// bytes, `…` and its last 6 bytes. `None` exactly when those byte positions
/// do not fall on character boundaries, where slicing the text would fail.
pub open spec fn spec_shorten_id(id: Seq<char>) -> Option<Seq<char>> {
    let t = trim(id);
    if t.len() == 0 || !needs_shortening(t) {
        Some(t)
    } else {
        match (prefix_of_bytes(t, 8), suffix_of_bytes(t, 6)) {
            (Some(p), Some(q)) => Some(p + seq!['…'] + q),
            _ => None,
        }
    }
}

/// Byte lengths of prefixes never decrease.
proof fn lemma_prefix_bytes_monotone(s: Seq<char>, j: int, k: int)
    requires
        0 <= j <= k <= s.len(),
    ensures
        utf8_len(s.take(j)) <= utf8_len(s.take(k)),
{
    assert(s.take(k).take(j) =~= s.take(j));
    lemma_utf8_len_prefix(s.take(k), j);
}

/// The number of characters in the prefix of exactly `b` bytes, if any.
fn prefix_len_of_bytes(s: &[char], b: usize) -> (r: Option<usize>)
    ensures
        r matches Some(k) ==> k <= s@.len() && utf8_len(s@.take(k as int)) == b,
        r is None ==> forall|k: int| 0 <= k <= s@.len() ==> utf8_len(s@.take(k)) != b,
{
    let n = s.len();
    let mut total: usize = 0;
    let mut i: usize = 0;
    while i < n && total < b
        invariant
            n == s@.len(),
            i <= n,
            total == utf8_len(s@.take(i as int)),
            total <= b,
            forall|k: int| 0 <= k < i ==> utf8_len(s@.take(k)) < b,
        decreases n - i,
    {
        proof {
            lemma_utf8_len_take_step(s@, i as int);
        }
        let c = crate::text::char_len_utf8(s[i]);
        if c > b - total {
            proof {
                assert forall|k: int| 0 <= k <= s@.len() implies utf8_len(s@.take(k)) != b by {
                    if k <= i {
                        if k < i {
                        } else {
                        }
                    } else {
                        lemma_prefix_bytes_monotone(s@, i + 1, k);
                    }
                }
            }
            return None;
        }
        total = total + c;
        i = i + 1;
    }
    if total == b {
        Some(i)
    } else {
        proof {
            assert(i == n);
            assert forall|k: int| 0 <= k <= s@.len() implies utf8_len(s@.take(k)) != b by {
                if k == n {
                    assert(s@.take(k) =~= s@.take(i as int));
                }
            }
        }
        None
    }
}

/// Byte lengths determine prefixes: two prefixes with the same byte length
/// are the same.
proof fn lemma_prefix_bytes_injective(s: Seq<char>, j: int, k: int)
    requires
        0 <= j <= s.len(),
        0 <= k <= s.len(),
        utf8_len(s.take(j)) == utf8_len(s.take(k)),
    ensures
        j == k,
{
    if j < k {
        lemma_utf8_len_take_step(s, j);
        lemma_prefix_bytes_monotone(s, j + 1, k);
    } else if k < j {
        lemma_utf8_len_take_step(s, k);
        lemma_prefix_bytes_monotone(s, k + 1, j);
    }
}

/// The suffix starting at `k` has the bytes of the whole less those of the
/// prefix before `k`.
proof fn lemma_suffix_bytes(s: Seq<char>, k: int)
    requires
        0 <= k <= s.len(),
    ensures
        utf8_len(s.skip(k)) == utf8_len(s) - utf8_len(s.take(k)),
{
    assert(s =~= s.take(k) + s.skip(k));
    lemma_utf8_len_concat(s.take(k), s.skip(k));
}

/// The characters `s[from..]`.
fn skip_chars(s: &[char], from: usize) -> (r: Vec<char>)
    requires
        from <= s@.len(),
    ensures
        r@ == s@.skip(from as int),
{
    let n = s.len();
    let mut out: Vec<char> = Vec::new();
    let mut i = from;
    while i < n
        invariant
            n == s@.len(),
            from <= i <= n,
            out@ == s@.subrange(from as int, i as int),
        decreases n - i,
    {
        out.push(s[i]);
        assert(s@.subrange(from as int, i + 1) =~= s@.subrange(from as int, i as int).push(s@[i as int]));
        i = i + 1;
    }
    assert(s@.subrange(from as int, n as int) =~= s@.skip(from as int));
    out
}

/// The table spelling of an identifier, where the byte slicing succeeds: the
/// trimmed identifier when it is empty or short enough, else its first 8
/// bytes, `…` and its last 6 bytes.
pub fn shorten_id_for_table(id: &str) -> (r: String)
    requires
        spec_shorten_id(id@) is Some,
    ensures
        spec_shorten_id(id@) == Some(r@),
{
    let cs = chars_of(id);
    let t = trim_chars(cs.as_slice());
    let ts = string_of(t.as_slice());
    if t.len() == 0 {
        return ts;
    }
    let w = str_display_width(ts.as_str());
    if w <= 18 || utf8_len_is_at_most(t.as_slice(), 15) {
        return ts;
    }
    let ghost tv = t@;
    let p = prefix_len_of_bytes(t.as_slice(), 8);
    let k1 = match p {
        Some(k) => k,
        None => {
            proof {
                assert(false);
            }
            return ts;
        },
    };
    proof {
        assert(exists|k: int| 0 <= k <= tv.len() && utf8_len(tv.take(k)) == 8);
        let kc = choose|k: int| 0 <= k <= tv.len() && utf8_len(tv.take(k)) == 8;
        lemma_prefix_bytes_injective(tv, kc, k1 as int);
    }
    let k2 = match suffix_start_of_bytes(t.as_slice(), 6) {
        Some(k) => k,
        None => {
            proof {
                assert(false);
            }
            return ts;
        },
    };
    proof {
        lemma_suffix_bytes(tv, k2 as int);
        assert(exists|k: int| 0 <= k <= tv.len() && utf8_len(tv.skip(k)) == 6);
        let kc = choose|k: int| 0 <= k <= tv.len() && utf8_len(tv.skip(k)) == 6;
        lemma_suffix_bytes(tv, kc);
        lemma_prefix_bytes_injective(tv, kc, k2 as int);
    }
    let mut out: Vec<char> = Vec::new();
    let mut i: usize = 0;
    while i < k1
        invariant
            k1 <= t@.len(),
            i <= k1,
            out@ == t@.take(i as int),
        decreases k1 - i,
    {
        out.push(t[i]);
        assert(t@.take(i + 1) =~= t@.take(i as int).push(t@[i as int]));
        i = i + 1;
    }
    out.push('…');
    let tail = skip_chars(t.as_slice(), k2);
    let mut j: usize = 0;
    let m = tail.len();
    let ghost head = out@;
    while j < m
        invariant
            m == tail@.len(),
            j <= m,
            out@ == head + tail@.take(j as int),
        decreases m - j,
    {
        out.push(tail[j]);
        assert(tail@.take(j + 1) =~= tail@.take(j as int).push(tail@[j as int]));
        j = j + 1;
    }
    assert(tail@.take(m as int) =~= tail@);
    string_of(out.as_slice())
}

/// The table spelling of an identifier; `None` exactly where the first 8 or
/// the last 6 bytes of an identifier that needs shortening do not end on a
/// character boundary.
pub fn shorten_id(id: &str) -> (r: Option<String>)
    ensures
        r matches Some(s) ==> spec_shorten_id(id@) == Some(s@),
        r is None ==> spec_shorten_id(id@) is None,
{
    let cs = chars_of(id);
    let t = trim_chars(cs.as_slice());
    let ts = string_of(t.as_slice());
    if t.len() > 0 {
        let w = str_display_width(ts.as_str());
        if w > 18 && !utf8_len_is_at_most(t.as_slice(), 15) {
            if prefix_len_of_bytes(t.as_slice(), 8).is_none()
                || suffix_start_of_bytes(t.as_slice(), 6).is_none() {
                return None;
            }
        }
    }
    Some(shorten_id_for_table(id))
}

/// Whether the UTF-8 encoding of `s` has at most `n` bytes.
fn utf8_len_is_at_most(s: &[char], n: usize) -> (r: bool)
    ensures
        r == (utf8_len(s@) <= n),
{
    let len = s.len();
    let mut total: usize = 0;
    for i in 0..len
        invariant
            len == s@.len(),
            total == utf8_len(s@.take(i as int)),
            total <= n,
    {
        proof {
            lemma_utf8_len_take_step(s@, i as int);
        }
        let c = crate::text::char_len_utf8(s[i]);
        if c > n - total {
            proof {
                lemma_utf8_len_prefix(s@, i + 1);
            }
            return false;
        }
        total = total + c;
    }
    assert(s@.take(len as int) =~= s@);
    true
}

/// The position where the suffix of exactly `b` bytes starts, if any.
fn suffix_start_of_bytes(s: &[char], b: usize) -> (r: Option<usize>)
    ensures
        r matches Some(k) ==> k <= s@.len() && utf8_len(s@.skip(k as int)) == b,
        r is None ==> forall|k: int| 0 <= k <= s@.len() ==> utf8_len(s@.skip(k)) != b,
{
    let n = s.len();
    let mut total: usize = 0;
    let mut i: usize = n;
    assert(s@.skip(n as int) =~= Seq::<char>::empty());
    while i > 0 && total < b
        invariant
            n == s@.len(),
            i <= n,
            total == utf8_len(s@.skip(i as int)),
            total <= b,
            forall|k: int| i < k <= n ==> utf8_len(s@.skip(k)) < b,
        decreases i,
    {
        proof {
            assert(s@.skip(i - 1).drop_first() =~= s@.skip(i as int));
            assert(s@.skip(i - 1)[0] == s@[i - 1]);
        }
        let c = crate::text::char_len_utf8(s[i - 1]);
        if c > b - total {
            proof {
                assert forall|k: int| 0 <= k <= s@.len() implies utf8_len(s@.skip(k)) != b by {
                    if k < i - 1 {
                        lemma_suffix_bytes(s@, k);
                        lemma_suffix_bytes(s@, i - 1);
                        lemma_prefix_bytes_monotone(s@, k, i - 1);
                    }
                }
            }
            return None;
        }
        total = total + c;
        i = i - 1;
    }
    if total == b {
        Some(i)
    } else {
        proof {
            assert(i == 0);
        }
        None
    }
}

// ---------------------------------------------------------------------------
// Amounts
// ---------------------------------------------------------------------------

/// The text of a JSON value in a cell: strings as they are, numbers and
/// composite values by their JSON text, booleans as `true`/`false`, and
/// nothing for `null` or a missing value.
pub open spec fn spec_value_to_string(v: Option<AmountValue>) -> Seq<char> {
    match v {
        None => Seq::empty(),
        Some(AmountValue::Null) => Seq::empty(),
        Some(AmountValue::Bool(b)) => if b { "true"@ } else { "false"@ },
        Some(AmountValue::Number(n)) => n@,
        Some(AmountValue::Text(s)) => s@,
        Some(AmountValue::Composite(j)) => j@,
    }
}

/// The text of a JSON value in a cell.
pub fn value_to_string(v: &Option<AmountValue>) -> (r: String)
    ensures
        r@ == spec_value_to_string(*v),
{
    match v {
        None => String::new(),
        Some(AmountValue::Null) => String::new(),
        Some(AmountValue::Bool(b)) => if *b { "true".to_owned() } else { "false".to_owned() },
        Some(AmountValue::Number(n)) => n.clone(),
        Some(AmountValue::Text(s)) => s.clone(),
        Some(AmountValue::Composite(j)) => j.clone(),
    }
}

/// `s` without its leading `-` characters (`trim_start_matches('-')`).
pub open spec fn trim_leading_dashes(s: Seq<char>) -> Seq<char>
    decreases s.len(),
{
    if s.len() > 0 && s[0] == '-' {
        trim_leading_dashes(s.drop_first())
    } else {
        s
    }
}

/// The parts of an amount's text that its money spelling is made of: whether
/// it is negative, the text without leading dashes, and the trimmed text.
#[derive(Debug, Clone, PartialEq)]
pub struct MoneyText {
    pub negative: bool,
    pub numeric: String,
    pub trimmed: String,
}

/// The parts of the amount `v`: its text, trimmed, must not be empty; it is
/// negative when it starts with `-`.
pub fn money_text(v: &Option<AmountValue>) -> (r: Option<MoneyText>)
    ensures
        trim(spec_value_to_string(*v)).len() == 0 <==> r is None,
        r matches Some(m) ==> {
            let t = trim(spec_value_to_string(*v));
            &&& m.trimmed@ == t
            &&& m.negative == (t[0] == '-')
            &&& m.numeric@ == trim_leading_dashes(t)
        },
{
    let s = value_to_string(v);
    let cs = chars_of(s.as_str());
    let t = trim_chars(cs.as_slice());
    if t.len() == 0 {
        return None;
    }
    let negative = t[0] == '-';
    let mut k: usize = 0;
    let n = t.len();
    assert(t@.skip(0) =~= t@);
    while k < n && t[k] == '-'
        invariant
            n == t@.len(),
            k <= n,
            trim_leading_dashes(t@) == trim_leading_dashes(t@.skip(k as int)),
        decreases n - k,
    {
        assert(t@.skip(k as int).drop_first() =~= t@.skip(k + 1));
        k = k + 1;
    }
    let rest = skip_chars(t.as_slice(), k);
    Some(MoneyText {
        negative,
        numeric: string_of(rest.as_slice()),
        trimmed: string_of(t.as_slice()),
    })
}

/// The money spelling of an amount whose parts are `m`: when the text without
/// dashes reads as a number, `formatted` is its absolute value written with
/// two decimals and the result is `$` (or `-$`) and that; otherwise the text
/// is kept, after `-$` for a negative amount and after `$` otherwise.
pub open spec fn spec_format_money(m: MoneyText, formatted: Option<Seq<char>>) -> Seq<char> {
    match formatted {
        Some(f) => if m.negative { "-$"@ + f } else { "$"@ + f },
        None => if m.negative { "-$"@ + m.numeric@ } else { "$"@ + m.trimmed@ },
    }
}

/// The money spelling of an amount.
pub fn format_money(m: &MoneyText, formatted: Option<&str>) -> (r: String)
    ensures
        r@ == spec_format_money(*m, match formatted {
            Some(f) => Some(f@),
            None => None,
        }),
{
    let mut out = if m.negative { "-$".to_owned() } else { "$".to_owned() };
    match formatted {
        Some(f) => out.append(f),
        None => if m.negative {
            out.append(m.numeric.as_str())
        } else {
            out.append(m.trimmed.as_str())
        },
    }
    out
}

// ---------------------------------------------------------------------------
// Terminal
// ---------------------------------------------------------------------------

/// Whether table output is colored: always, never, or when standard output
/// is a terminal.
pub fn should_color(mode: ColorMode, stdout_is_terminal: bool) -> (r: bool)
    ensures
        r == match mode {
            ColorMode::Always => true,
            ColorMode::Never => false,
            ColorMode::Auto => stdout_is_terminal,
        },
{
    match mode {
        ColorMode::Always => true,
        ColorMode::Never => false,
        ColorMode::Auto => stdout_is_terminal,
    }
}

/// The table width from the `COLUMNS` setting, when it reads as a `u16`.
pub fn columns_setting(value: Option<&str>) -> (r: Option<u16>)
    ensures
        r == match value {
            None => None,
            Some(v) => match parse_unsigned(v@, 0xFFFF) {
                Some(n) => Some(n as u16),
                None => None,
            },
        },
{
    match value {
        None => None,
        Some(v) => {
            let cs = chars_of(v);
            match parse_unsigned_chars(cs.as_slice(), 0xFFFF) {
                Some(n) => Some(n as u16),
                None => None,
            }
        },
    }
}

} // verus!
