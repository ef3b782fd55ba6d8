//! Parser for EVE Online's MultiBuy export: one item per line, either
//! tab-separated (`name<TAB>qty[<TAB>volume<TAB>price]`) or whitespace
//! separated with the name followed by trailing numeric columns.
//!
//! Lines naming the same item (compared case-insensitively, after whitespace
//! normalization) are aggregated into one entry; unparseable lines are
//! reported with their 1-based line number.

use vstd::prelude::*;

use crate::auth::views;
use crate::numeric::{float_literal, is_float_literal, parse_i64, parse_i64_range};
use crate::text::{
    chars_of, join, line_ranges, lines, remove_char, remove_char_range, replace_nbsp,
    replace_nbsp_range, replace_nbsp_vec, contains_char_range, split_char, split_ranges, string_of_range, trim, trim_range, ws_token_ranges,
    ws_tokens,
};

verus! {

/// One aggregated item of a MultiBuy paste.
#[derive(Debug, Clone)]
pub struct ParsedLine {
    /// The 1-based numbers of the input lines that named this item.
    pub line_nos: Vec<u32>,
    /// The item name as first seen.
    pub name: String,
    /// The summed quantity.
    pub qty: i64,
}

/// A line that could not be parsed.
#[derive(Debug, Clone)]
pub struct LineError {
    pub line_no: u32,
    /// The line as it appeared in the input.
    pub raw: String,
    pub reason: String,
}

/// The result of parsing a whole paste.
#[derive(Debug, Clone)]
pub struct ParsedMultibuy {
    pub lines: Vec<ParsedLine>,
    pub errors: Vec<LineError>,
}

pub struct ParsedLineView {
    pub line_nos: Seq<u32>,
    pub name: Seq<char>,
    pub qty: i64,
}

pub struct LineErrorView {
    pub line_no: u32,
    pub raw: Seq<char>,
    pub reason: Seq<char>,
}

pub struct ParsedMultibuyView {
    pub lines: Seq<ParsedLineView>,
    pub errors: Seq<LineErrorView>,
}

impl View for ParsedLine {
    type V = ParsedLineView;

    open spec fn view(&self) -> ParsedLineView {
        ParsedLineView { line_nos: self.line_nos@, name: self.name@, qty: self.qty }
    }
}

impl View for LineError {
    type V = LineErrorView;

    open spec fn view(&self) -> LineErrorView {
        LineErrorView { line_no: self.line_no, raw: self.raw@, reason: self.reason@ }
    }
}

impl View for ParsedMultibuy {
    type V = ParsedMultibuyView;

    open spec fn view(&self) -> ParsedMultibuyView {
        ParsedMultibuyView { lines: view_lines(self.lines@), errors: view_errors(self.errors@) }
    }
}

pub open spec fn view_lines(ls: Seq<ParsedLine>) -> Seq<ParsedLineView> {
    ls.map_values(|l: ParsedLine| l@)
}

pub open spec fn view_errors(es: Seq<LineError>) -> Seq<LineErrorView> {
    es.map_values(|e: LineError| e@)
}

/// Lower-cased text, as `str::to_lowercase` computes it (full Unicode case
/// mapping).
pub uninterp spec fn lowercase(s: Seq<char>) -> Seq<char>;

/// `c` lower-cased when it is an ASCII capital, else `c`.
pub open spec fn ascii_lower_char(c: char) -> char {
    if 'A' <= c && c <= 'Z' {
        ((c as u32) + 32) as char
    } else {
        c
    }
}

/// Every character is ASCII.
pub open spec fn all_ascii(s: Seq<char>) -> bool {
    forall|i: int| 0 <= i < s.len() ==> (s[i] as u32) < 128
}

/// `str::to_lowercase`; the result is named [`lowercase`] of the input.
/// Each character lowers to one or more characters, so nothing gets
/// shorter; on ASCII text it lowers the capitals `A`-`Z` and keeps every
/// other character.
#[verifier::external_body]
fn str_to_lowercase(s: &str) -> (r: String)
    ensures
        r@ == lowercase(s@),
        r@.len() >= s@.len(),
        all_ascii(s@) ==> r@ == s@.map_values(|c: char| ascii_lower_char(c)),
{
    s.to_lowercase()
}

/// The aggregation key of a name: no-break spaces made plain, trimmed,
/// lower-cased.
pub open spec fn name_key_of(s: Seq<char>) -> Seq<char> {
    lowercase(trim(replace_nbsp(s)))
}

/// The quantity a column denotes: the text with commas removed, read as an
/// `i64`, and kept only when positive.
pub open spec fn qty_of(s: Seq<char>) -> Option<i64> {
    match parse_i64(remove_char(s, ',')) {
        Some(q) => if q > 0 {
            Some(q)
        } else {
            None
        },
        None => None,
    }
}

/// A token counts as numeric when, commas removed, it is a non-empty
/// floating-point literal.
pub open spec fn numeric_token(s: Seq<char>) -> bool {
    remove_char(s, ',').len() > 0 && is_float_literal(remove_char(s, ','))
}

pub open spec fn msg_tab_columns() -> Seq<char> {
    "tab line needs at least name and qty"@
}

pub open spec fn msg_missing_name() -> Seq<char> {
    "missing item name"@
}

pub open spec fn msg_bad_qty(tok: Seq<char>) -> Seq<char> {
    "quantity must be a positive integer (got '"@ + tok + "')"@
}

pub open spec fn msg_too_few_tokens() -> Seq<char> {
    "need at least an item name and a quantity"@
}

pub open spec fn msg_no_quantity() -> Seq<char> {
    "no trailing quantity column found"@
}

/// The key of a name (see [`name_key_of`]). A name that is not blank has a
/// key that is not empty, and an ASCII name's key is its trimmed text with
/// the capitals lowered, so names differing only in ASCII case share a key.
pub fn name_key(name: &str) -> (r: String)
    ensures
        r@ == name_key_of(name@),
        r@.len() >= trim(replace_nbsp(name@)).len(),
        all_ascii(trim(replace_nbsp(name@))) ==> r@ == trim(replace_nbsp(name@)).map_values(
            |c: char| ascii_lower_char(c),
        ),
{
    let v = chars_of(name);
    let n = replace_nbsp_vec(&v);
    let (a, b) = trim_range(&n, 0, n.len());
    assert(n@.subrange(0, n@.len() as int) =~= n@);
    let t = string_of_range(&n, a, b);
    str_to_lowercase(t.as_str())
}

/// [`qty_of`] on `v[lo..hi]`.
fn qty_range(v: &Vec<char>, lo: usize, hi: usize) -> (r: Option<i64>)
    requires
        lo <= hi <= v@.len(),
    ensures
        r == qty_of(v@.subrange(lo as int, hi as int)),
{
    let c = remove_char_range(v, lo, hi, ',');
    assert(c@.subrange(0, c@.len() as int) =~= c@);
    match parse_i64_range(&c, 0, c.len()) {
        Some(q) => if q > 0 {
            Some(q)
        } else {
            None
        },
        None => None,
    }
}

/// Strips commas, then reads the text as an `i64`; `None` unless positive.
pub fn parse_qty(s: &str) -> (r: Option<i64>)
    ensures
        r == qty_of(s@),
{
    let v = chars_of(s);
    assert(v@.subrange(0, v@.len() as int) =~= v@);
    qty_range(&v, 0, v.len())
}

/// [`numeric_token`] on `v[lo..hi]`.
fn numeric_token_range(v: &Vec<char>, lo: usize, hi: usize) -> (r: bool)
    requires
        lo <= hi <= v@.len(),
    ensures
        r == numeric_token(v@.subrange(lo as int, hi as int)),
{
    let c = remove_char_range(v, lo, hi, ',');
    if c.len() == 0 {
        return false;
    }
    float_literal(&c)
}

/// True if the token, commas removed, reads as a number (integer or
/// floating point).
pub fn is_numeric_token(s: &str) -> (r: bool)
    ensures
        r == numeric_token(s@),
{
    let v = chars_of(s);
    assert(v@.subrange(0, v@.len() as int) =~= v@);
    numeric_token_range(&v, 0, v.len())
}


/// The view of a line parser's result.
pub open spec fn line_result_view(r: Result<(String, i64), String>) -> Result<
    (Seq<char>, i64),
    Seq<char>,
> {
    match r {
        Ok((n, q)) => Ok((n@, q)),
        Err(e) => Err(e@),
    }
}

/// A tab-separated line: the first column (trimmed) is the name, the second
/// (trimmed) the quantity; further columns are ignored.
pub open spec fn tab_line(line: Seq<char>) -> Result<(Seq<char>, i64), Seq<char>> {
    let cols = split_char(line, '\t');
    if cols.len() < 2 {
        Err(msg_tab_columns())
    } else if trim(cols[0]).len() == 0 {
        Err(msg_missing_name())
    } else {
        match qty_of(trim(cols[1])) {
            Some(q) => Ok((trim(cols[0]), q)),
            None => Err(msg_bad_qty(trim(cols[1]))),
        }
    }
}

/// A tab-separated line is read for its first two columns: it parses
/// exactly when it has a second column, its first column is not blank, and
/// its second column, trimmed and with its thousands separators (commas)
/// removed, reads as a positive `i64`; the item is then the trimmed first
/// column with that quantity (so "1,000" is a thousand).
pub proof fn lemma_tab_line_reads_quantity(line: Seq<char>)
    ensures
        ({
            let cols = split_char(line, '\t');
            &&& tab_line(line) is Ok <==> (cols.len() >= 2 && trim(cols[0]).len() > 0 && (parse_i64(
                remove_char(trim(cols[1]), ','),
            ) matches Some(q) && q > 0))
            &&& forall|q: i64|
                cols.len() >= 2 && trim(cols[0]).len() > 0 && parse_i64(remove_char(trim(cols[1]), ','))
                    == Some(q) && q > 0 ==> tab_line(line) == Ok::<(Seq<char>, i64), Seq<char>>((trim(cols[0]), q))
            &&& tab_line(line) matches Ok((name, q)) ==> name == trim(cols[0]) && q > 0 && parse_i64(
                remove_char(trim(cols[1]), ','),
            ) == Some(q)
        }),
{
}

/// A whitespace-separated line's quantity is its leftmost trailing numeric
/// token read with commas removed, and is positive; a quantity token that
/// reads as a positive `i64` that way is never refused as a quantity.
pub proof fn lemma_whitespace_line_reads_quantity(line: Seq<char>)
    ensures
        ({
            let toks = ws_tokens(line);
            let ns = numeric_start(toks, toks.len() as int);
            &&& whitespace_line(line) matches Ok((name, q)) ==> 0 < ns < toks.len() && q > 0 && parse_i64(
                remove_char(toks[ns], ','),
            ) == Some(q)
            &&& (0 < ns < toks.len() && (parse_i64(remove_char(toks[ns], ',')) matches Some(q) && q > 0))
                ==> whitespace_line(line) != Err::<(Seq<char>, i64), Seq<char>>(msg_bad_qty(toks[ns]))
        }),
{
    let toks = ws_tokens(line);
    let ns = numeric_start(toks, toks.len() as int);
    lemma_numeric_start_bounds(toks, toks.len() as int);
    reveal_strlit("quantity must be a positive integer (got '");
    reveal_strlit("missing item name");
    if 0 < ns < toks.len() {
        let m = msg_bad_qty(toks[ns]);
        assert(m[0] == 'q');
        assert(msg_missing_name()[0] == 'm');
        assert(m != msg_missing_name());
    }
}

/// The index where the run of trailing numeric tokens among `toks[..n]`
/// begins.
pub open spec fn numeric_start(toks: Seq<Seq<char>>, n: int) -> int
    decreases n,
{
    if n > 0 && numeric_token(toks[n - 1]) {
        numeric_start(toks, n - 1)
    } else {
        n
    }
}

/// A whitespace-separated line: of the trailing numeric tokens the leftmost
/// is the quantity (the rest are volume and price); the tokens before them,
/// joined by single spaces, are the name.
pub open spec fn whitespace_line(line: Seq<char>) -> Result<(Seq<char>, i64), Seq<char>> {
    let toks = ws_tokens(line);
    let ns = numeric_start(toks, toks.len() as int);
    if toks.len() < 2 {
        Err(msg_too_few_tokens())
    } else if ns == toks.len() {
        Err(msg_no_quantity())
    } else if ns == 0 {
        Err(msg_missing_name())
    } else {
        match qty_of(toks[ns]) {
            None => Err(msg_bad_qty(toks[ns])),
            Some(q) => {
                let name = join(toks.take(ns), seq![' ']);
                if name.len() == 0 {
                    Err(msg_missing_name())
                } else {
                    Ok((name, q))
                }
            },
        }
    }
}

proof fn lemma_numeric_start_bounds(toks: Seq<Seq<char>>, n: int)
    requires
        0 <= n <= toks.len(),
    ensures
        0 <= numeric_start(toks, n) <= n,
        forall|i: int| numeric_start(toks, n) <= i < n ==> numeric_token(#[trigger] toks[i]),
        numeric_start(toks, n) > 0 ==> !numeric_token(toks[numeric_start(toks, n) - 1]),
    decreases n,
{
    if n > 0 && numeric_token(toks[n - 1]) {
        lemma_numeric_start_bounds(toks, n - 1);
    }
}

/// The error message for a quantity column that is not a positive integer.
fn bad_qty_message(v: &Vec<char>, lo: usize, hi: usize) -> (r: String)
    requires
        lo <= hi <= v@.len(),
    ensures
        r@ == msg_bad_qty(v@.subrange(lo as int, hi as int)),
{
    let tok = string_of_range(v, lo, hi);
    let mut m = String::from_str("quantity must be a positive integer (got '");
    m.append(tok.as_str());
    m.append("')");
    m
}

/// [`tab_line`] on `v[lo..hi]`.
fn tab_line_range(v: &Vec<char>, lo: usize, hi: usize) -> (r: Result<(String, i64), String>)
    requires
        lo <= hi <= v@.len(),
    ensures
        line_result_view(r) == tab_line(v@.subrange(lo as int, hi as int)),
{
    let ghost line = v@.subrange(lo as int, hi as int);
    let cols = split_ranges(v, lo, hi, '\t');
    if cols.len() < 2 {
        return Err(String::from_str("tab line needs at least name and qty"));
    }
    let (a0, b0) = cols[0];
    let (a1, b1) = cols[1];
    let (n0, n1) = trim_range(v, a0, b0);
    let (q0, q1) = trim_range(v, a1, b1);
    if n0 == n1 {
        return Err(String::from_str("missing item name"));
    }
    match qty_range(v, q0, q1) {
        Some(q) => Ok((string_of_range(v, n0, n1), q)),
        None => Err(bad_qty_message(v, q0, q1)),
    }
}

/// Parses a tab-separated MultiBuy line into `(name, qty)`.
pub fn parse_tab_line(line: &str) -> (r: Result<(String, i64), String>)
    ensures
        line_result_view(r) == tab_line(line@),
{
    let v = chars_of(line);
    assert(v@.subrange(0, v@.len() as int) =~= v@);
    tab_line_range(&v, 0, v.len())
}

/// [`whitespace_line`] on `v[lo..hi]`.
fn whitespace_line_range(v: &Vec<char>, lo: usize, hi: usize) -> (r: Result<(String, i64), String>)
    requires
        lo <= hi <= v@.len(),
    ensures
        line_result_view(r) == whitespace_line(v@.subrange(lo as int, hi as int)),
{
    let ghost line = v@.subrange(lo as int, hi as int);
    let toks = ws_token_ranges(v, lo, hi);
    let ghost ts = ws_tokens(line);
    proof {
        lemma_numeric_start_bounds(ts, ts.len() as int);
    }
    if toks.len() < 2 {
        return Err(String::from_str("need at least an item name and a quantity"));
    }
    let mut ns = toks.len();
    while ns > 0 && numeric_token_range(v, toks[ns - 1].0, toks[ns - 1].1)
        invariant
            lo <= hi <= v@.len(),
            0 <= ns <= toks@.len() == ts.len(),
            ts == ws_tokens(v@.subrange(lo as int, hi as int)),
            numeric_start(ts, ts.len() as int) == numeric_start(ts, ns as int),
            forall|k: int|
                0 <= k < toks@.len() ==> lo <= (#[trigger] toks@[k]).0 <= toks@[k].1 <= hi
                    && v@.subrange(toks@[k].0 as int, toks@[k].1 as int) == ts[k],
        decreases ns,
    {
        ns = ns - 1;
    }
    assert(numeric_start(ts, ns as int) == ns as int);
    if ns == toks.len() {
        return Err(String::from_str("no trailing quantity column found"));
    }
    if ns == 0 {
        return Err(String::from_str("missing item name"));
    }
    let (qa, qb) = toks[ns];
    let q = match qty_range(v, qa, qb) {
        Some(q) => q,
        None => {
            return Err(bad_qty_message(v, qa, qb));
        },
    };
    let mut name = String::new();
    let mut k: usize = 0;
    while k < ns
        invariant
            lo <= hi <= v@.len(),
            0 <= k <= ns < toks@.len() == ts.len(),
            forall|j: int|
                0 <= j < toks@.len() ==> lo <= (#[trigger] toks@[j]).0 <= toks@[j].1 <= hi
                    && v@.subrange(toks@[j].0 as int, toks@[j].1 as int) == ts[j],
            name@ == join(ts.take(k as int), seq![' ']),
        decreases ns - k,
    {
        let (a, b) = toks[k];
        let t = string_of_range(v, a, b);
        assert(ts.take(k + 1).drop_last() =~= ts.take(k as int));
        if k > 0 {
            name.append(" ");
            proof {
                reveal_strlit(" ");
            }
            assert(" "@ =~= seq![' ']);
        } else {
            assert(ts.take(1) =~= seq![ts[0]]);
        }
        name.append(t.as_str());
        k = k + 1;
    }
    if name.as_str().is_empty() {
        return Err(String::from_str("missing item name"));
    }
    Ok((name, q))
}

/// Parses a whitespace-separated MultiBuy line into `(name, qty)`.
pub fn parse_whitespace_line(line: &str) -> (r: Result<(String, i64), String>)
    ensures
        line_result_view(r) == whitespace_line(line@),
{
    let v = chars_of(line);
    assert(v@.subrange(0, v@.len() as int) =~= v@);
    whitespace_line_range(&v, 0, v.len())
}


/// `i64::saturating_add`.
pub open spec fn sat_add(a: i64, b: i64) -> i64 {
    if a + b > i64::MAX {
        i64::MAX
    } else if a + b < i64::MIN {
        i64::MIN
    } else {
        (a + b) as i64
    }
}

fn saturating_add_i64(a: i64, b: i64) -> (r: i64)
    ensures
        r == sat_add(a, b),
{
    let s = a as i128 + b as i128;
    if s > i64::MAX as i128 {
        i64::MAX
    } else if s < i64::MIN as i128 {
        i64::MIN
    } else {
        s as i64
    }
}

/// The index of the first entry whose name has aggregation key `key`.
pub open spec fn find_key(ls: Seq<ParsedLineView>, key: Seq<char>) -> Option<int>
    decreases ls.len(),
{
    if ls.len() == 0 {
        None
    } else {
        match find_key(ls.drop_last(), key) {
            Some(i) => Some(i),
            None => if name_key_of(ls.last().name) == key {
                Some(ls.len() - 1)
            } else {
                None
            },
        }
    }
}

proof fn lemma_find_key(ls: Seq<ParsedLineView>, key: Seq<char>, j: int)
    requires
        0 <= j <= ls.len(),
        forall|i: int| 0 <= i < j ==> name_key_of(#[trigger] ls[i].name) != key,
    ensures
        j == ls.len() ==> find_key(ls, key) is None,
        j < ls.len() && name_key_of(ls[j].name) == key ==> find_key(ls, key) == Some(j),
    decreases ls.len(),
{
    if ls.len() > 0 {
        let d = ls.drop_last();
        if j == ls.len() {
            lemma_find_key(d, key, j - 1);
        } else {
            lemma_find_key(d, key, j);
        }
    }
}

/// What one input line contributes: blank lines nothing; a line that parses
/// adds its quantity to the entry with the same key (or starts a new
/// entry); any other line becomes an error.
pub open spec fn parse_step(acc: ParsedMultibuyView, raw: Seq<char>, line_no: u32) -> ParsedMultibuyView {
    let t = trim(replace_nbsp(raw));
    if t.len() == 0 {
        acc
    } else {
        let parsed = if t.contains('\t') {
            tab_line(t)
        } else {
            whitespace_line(t)
        };
        match parsed {
            Err(reason) => ParsedMultibuyView {
                lines: acc.lines,
                errors: acc.errors.push(LineErrorView { line_no, raw, reason }),
            },
            Ok((name, qty)) => {
                let key = name_key_of(name);
                if key.len() == 0 {
                    ParsedMultibuyView {
                        lines: acc.lines,
                        errors: acc.errors.push(
                            LineErrorView { line_no, raw, reason: msg_missing_name() },
                        ),
                    }
                } else {
                    match find_key(acc.lines, key) {
                        Some(i) => ParsedMultibuyView {
                            lines: acc.lines.update(
                                i,
                                ParsedLineView {
                                    line_nos: acc.lines[i].line_nos.push(line_no),
                                    name: acc.lines[i].name,
                                    qty: sat_add(acc.lines[i].qty, qty),
                                },
                            ),
                            errors: acc.errors,
                        },
                        None => ParsedMultibuyView {
                            lines: acc.lines.push(
                                ParsedLineView { line_nos: seq![line_no], name, qty },
                            ),
                            errors: acc.errors,
                        },
                    }
                }
            },
        }
    }
}

/// The first position of `key` among `keys`.
pub open spec fn key_index(keys: Seq<Seq<char>>, key: Seq<char>) -> Option<int>
    decreases keys.len(),
{
    if keys.len() == 0 {
        None
    } else {
        match key_index(keys.drop_last(), key) {
            Some(i) => Some(i),
            None => if keys.last() == key {
                Some(keys.len() - 1)
            } else {
                None
            },
        }
    }
}

/// Adding a parsed line to the entries, given its key and the keys of the
/// entries: the entry with that key takes the line's number and adds its
/// quantity (saturating); a new key starts an entry with the line's name.
pub open spec fn merge_entry_spec(
    entries: Seq<ParsedLineView>,
    keys: Seq<Seq<char>>,
    key: Seq<char>,
    name: Seq<char>,
    qty: i64,
    line_no: u32,
) -> (Seq<ParsedLineView>, Seq<Seq<char>>) {
    match key_index(keys, key) {
        Some(i) => (
            entries.update(
                i,
                ParsedLineView {
                    line_nos: entries[i].line_nos.push(line_no),
                    name: entries[i].name,
                    qty: sat_add(entries[i].qty, qty),
                },
            ),
            keys,
        ),
        None => (entries.push(ParsedLineView { line_nos: seq![line_no], name, qty }), keys.push(key)),
    }
}

/// Merges one parsed line into the entries (`keys` holds each entry's key,
/// in order).
pub fn merge_entry(
    entries: &mut Vec<ParsedLine>,
    keys: &mut Vec<String>,
    key: String,
    name: String,
    qty: i64,
    line_no: u32,
)
    requires
        old(keys)@.len() == old(entries)@.len(),
    ensures
        (view_lines(final(entries)@), views(final(keys)@)) == merge_entry_spec(
            view_lines(old(entries)@),
            views(old(keys)@),
            key@,
            name@,
            qty,
            line_no,
        ),
        final(keys)@.len() == final(entries)@.len(),
{
    let ghost ks = views(keys@);
    let ghost es = view_lines(entries@);
    let mut j: usize = 0;
    while j < keys.len()
        invariant
            keys@.len() == entries@.len(),
            keys@ == old(keys)@,
            entries@ == old(entries)@,
            ks == views(keys@),
            es == view_lines(entries@),
            0 <= j <= keys@.len(),
            key_index(ks.take(j as int), key@) is None,
        decreases keys@.len() - j,
    {
        assert(ks.take(j + 1).drop_last() =~= ks.take(j as int));
        if keys[j] == key {
            proof {
                lemma_key_index_prefix(ks, key@, j as int + 1);
            }
            let ghost old_entries = entries@;
            let mut tmp = ParsedLine { line_nos: Vec::new(), name: String::new(), qty: 0 };
            entries.set_and_swap(j, &mut tmp);
            assert(tmp == old_entries[j as int]);
            tmp.qty = saturating_add_i64(tmp.qty, qty);
            tmp.line_nos.push(line_no);
            let ghost newv = tmp@;
            assert(es[j as int] == old_entries[j as int]@);
            assert(newv == ParsedLineView {
                line_nos: es[j as int].line_nos.push(line_no),
                name: es[j as int].name,
                qty: sat_add(es[j as int].qty, qty),
            });
            assert(ks[j as int] == key@);
            entries.set_and_swap(j, &mut tmp);
            assert(entries@[j as int]@ == newv);
            assert forall|i: int| 0 <= i < entries@.len() implies #[trigger] view_lines(entries@)[i]
                == es.update(j as int, newv)[i] by {
                if i != j {
                    assert(entries@[i] == old_entries[i]);
                }
            }
            assert(view_lines(entries@) =~= es.update(j as int, newv));
            return;
        }
        j = j + 1;
    }
    assert(ks.take(ks.len() as int) =~= ks);
    let ghost old_entries = entries@;
    let lns: Vec<u32> = vec![line_no];
    assert(lns@ =~= seq![line_no]);
    let ghost kv = key@;
    entries.push(ParsedLine { line_nos: lns, name, qty });
    keys.push(key);
    assert forall|i: int| 0 <= i < entries@.len() implies #[trigger] view_lines(entries@)[i]
        == es.push(ParsedLineView { line_nos: seq![line_no], name: name@, qty })[i] by {
        if i < old_entries.len() {
            assert(entries@[i] == old_entries[i]);
        }
    }
    assert(view_lines(entries@) =~= es.push(ParsedLineView { line_nos: seq![line_no], name: name@, qty }));
    assert(views(keys@) =~= ks.push(kv));
}

/// A key first found at position `n - 1` of a prefix is first found there
/// in the whole list too.
proof fn lemma_key_index_prefix(keys: Seq<Seq<char>>, key: Seq<char>, n: int)
    requires
        0 < n <= keys.len(),
        key_index(keys.take(n - 1), key) is None,
        keys[n - 1] == key,
    ensures
        key_index(keys, key) == Some(n - 1),
    decreases keys.len(),
{
    if n < keys.len() {
        let d = keys.drop_last();
        assert(d.take(n - 1) =~= keys.take(n - 1));
        lemma_key_index_prefix(d, key, n);
    } else {
        assert(keys.drop_last() =~= keys.take(n - 1));
    }
}

/// With each key the key of its entry's name, looking a key up among the
/// keys finds the entry [`find_key`] finds.
proof fn lemma_key_index_is_find_key(entries: Seq<ParsedLineView>, keys: Seq<Seq<char>>, key: Seq<char>)
    requires
        keys.len() == entries.len(),
        forall|j: int| 0 <= j < keys.len() ==> #[trigger] keys[j] == name_key_of(entries[j].name),
    ensures
        key_index(keys, key) == find_key(entries, key),
    decreases keys.len(),
{
    if keys.len() > 0 {
        let dk = keys.drop_last();
        let de = entries.drop_last();
        assert forall|j: int| 0 <= j < dk.len() implies #[trigger] dk[j] == name_key_of(de[j].name) by {
            assert(dk[j] == keys[j]);
            assert(de[j] == entries[j]);
        }
        lemma_key_index_is_find_key(de, dk, key);
        assert(keys.last() == name_key_of(entries.last().name));
    }
}

/// The result of parsing the first `n` of the lines `ls`.
pub open spec fn parse_lines(ls: Seq<Seq<char>>, n: nat) -> ParsedMultibuyView
    decreases n,
{
    if n == 0 {
        ParsedMultibuyView { lines: Seq::empty(), errors: Seq::empty() }
    } else {
        parse_step(parse_lines(ls, (n - 1) as nat), ls[n - 1], n as u32)
    }
}

/// The result of parsing a whole paste.
pub open spec fn multibuy(input: Seq<char>) -> ParsedMultibuyView {
    parse_lines(lines(input), lines(input).len())
}

/// Parses a MultiBuy paste. Blank lines are skipped; lines containing a tab
/// are read as tab-separated, others as whitespace-separated; entries with
/// the same name key are merged in first-seen order.
pub fn parse_multibuy(input: &str) -> (r: ParsedMultibuy)
    ensures
        r@ == multibuy(input@),
{
    let v = chars_of(input);
    let ranges = line_ranges(&v);
    let ghost ls = lines(v@);
    let mut out: Vec<ParsedLine> = Vec::new();
    let mut keys: Vec<String> = Vec::new();
    let mut errors: Vec<LineError> = Vec::new();
    let mut idx: usize = 0;
    assert(view_lines(out@) =~= Seq::<ParsedLineView>::empty());
    assert(view_errors(errors@) =~= Seq::<LineErrorView>::empty());
    while idx < ranges.len()
        invariant
            ls == lines(v@),
            v@ == input@,
            ranges@.len() == ls.len(),
            forall|k: int|
                0 <= k < ranges@.len() ==> (#[trigger] ranges@[k]).0 <= ranges@[k].1 <= v@.len()
                    && v@.subrange(ranges@[k].0 as int, ranges@[k].1 as int) == ls[k],
            0 <= idx <= ranges@.len(),
            keys@.len() == out@.len(),
            forall|j: int|
                0 <= j < keys@.len() ==> (#[trigger] keys@[j])@ == name_key_of(out@[j].name@),
            view_lines(out@) == parse_lines(ls, idx as nat).lines,
            view_errors(errors@) == parse_lines(ls, idx as nat).errors,
        decreases ranges@.len() - idx,
    {
        let (a, b) = ranges[idx];
        // Line numbers are `u32`, as in the stored rows; past `u32::MAX`
        // lines they wrap.
        let line_no: u32 = (idx + 1) as u32;
        let ghost raw_v = ls[idx as int];
        let ghost acc = parse_lines(ls, idx as nat);
        let ghost next = parse_lines(ls, (idx + 1) as nat);
        assert(next == parse_step(acc, raw_v, line_no));
        let norm = replace_nbsp_range(&v, a, b);
        let (ta, tb) = trim_range(&norm, 0, norm.len());
        assert(norm@.subrange(0, norm@.len() as int) =~= norm@);
        let ghost t = norm@.subrange(ta as int, tb as int);
        assert(t == trim(replace_nbsp(raw_v)));
        if ta == tb {
            idx = idx + 1;
            continue;
        }
        let parsed = if contains_char_range(&norm, ta, tb, '\t') {
            tab_line_range(&norm, ta, tb)
        } else {
            whitespace_line_range(&norm, ta, tb)
        };
        match parsed {
            Err(reason) => {
                let raw = string_of_range(&v, a, b);
                let e = LineError { line_no, raw, reason };
                errors.push(e);
                assert(view_errors(errors@) =~= next.errors);
                assert(view_lines(out@) =~= next.lines);
            },
            Ok((name, qty)) => {
                let key = name_key(name.as_str());
                if key.as_str().is_empty() {
                    let raw = string_of_range(&v, a, b);
                    let e = LineError { line_no, raw, reason: String::from_str("missing item name") };
                    errors.push(e);
                    assert(view_errors(errors@) =~= next.errors);
                    assert(view_lines(out@) =~= next.lines);
                } else {
                    let ghost ol = acc.lines;
                    proof {
                        lemma_key_index_is_find_key(ol, views(keys@), key@);
                    }
                    let ghost name_v = name@;
                    let ghost key_v = key@;
                    let ghost ok = views(keys@);
                    assert(key_v == name_key_of(name_v));
                    merge_entry(&mut out, &mut keys, key, name, qty, line_no);
                    proof {
                        let ks = views(keys@);
                        let nl = view_lines(out@);
                        lemma_find_key_result(ol, key_v);
                        let m = merge_entry_spec(ol, ok, key_v, name_v, qty, line_no);
                        assert(nl == m.0 && ks == m.1);
                        match key_index(ok, key_v) {
                            Some(i) => {
                                assert(ks == ok);
                                assert(nl == ol.update(
                                    i,
                                    ParsedLineView {
                                        line_nos: ol[i].line_nos.push(line_no),
                                        name: ol[i].name,
                                        qty: sat_add(ol[i].qty, qty),
                                    },
                                ));
                                assert forall|j: int| 0 <= j < keys@.len() implies (#[trigger] keys@[j])@
                                    == name_key_of(out@[j].name@) by {
                                    assert(ks[j] == keys@[j]@);
                                    assert(nl[j] == out@[j]@);
                                    assert(ok[j] == name_key_of(ol[j].name));
                                    if j != i {
                                        assert(nl[j] == ol[j]);
                                    }
                                    assert(nl[j].name == ol[j].name);
                                }
                            },
                            None => {
                                assert(ks == ok.push(key_v));
                                assert(nl == ol.push(ParsedLineView { line_nos: seq![line_no], name: name_v, qty }));
                                assert forall|j: int| 0 <= j < keys@.len() implies (#[trigger] keys@[j])@
                                    == name_key_of(out@[j].name@) by {
                                    assert(ks[j] == keys@[j]@);
                                    assert(nl[j] == out@[j]@);
                                    if j < ol.len() {
                                        assert(ok[j] == name_key_of(ol[j].name));
                                    }
                                }
                            },
                        }
                    }
                    assert(view_lines(out@) =~= next.lines);
                    assert(view_errors(errors@) =~= next.errors);
                }
            },
        }
        idx = idx + 1;
    }
    let r = ParsedMultibuy { lines: out, errors };
    assert(v@ == input@);
    r
}


/// A line that holds nothing but whitespace.
pub open spec fn blank(raw: Seq<char>) -> bool {
    trim(replace_nbsp(raw)).len() == 0
}

/// Line `k` is among the line numbers of some aggregated entry.
pub open spec fn in_entries(r: ParsedMultibuyView, k: u32) -> bool {
    exists|i: int, a: int|
        0 <= i < r.lines.len() && 0 <= a < r.lines[i].line_nos.len() && #[trigger] r.lines[i].line_nos[a]
            == k
}

/// Line `k` is reported as an error.
pub open spec fn in_errors(r: ParsedMultibuyView, k: u32) -> bool {
    exists|e: int| 0 <= e < r.errors.len() && #[trigger] r.errors[e].line_no == k
}

/// The bookkeeping that holds after parsing the first `n` lines of `ls`.
pub open spec fn accounted(r: ParsedMultibuyView, ls: Seq<Seq<char>>, n: nat) -> bool {
    &&& forall|i: int, a: int|
        0 <= i < r.lines.len() && 0 <= a < r.lines[i].line_nos.len() ==> 1 <= #[trigger] r.lines[i].line_nos[a]
            <= n
    &&& forall|i: int, a: int, b: int|
        0 <= i < r.lines.len() && 0 <= a < b < r.lines[i].line_nos.len() ==> #[trigger] r.lines[i].line_nos[a]
            < #[trigger] r.lines[i].line_nos[b]
    &&& forall|i1: int, i2: int, a1: int, a2: int|
        0 <= i1 < r.lines.len() && 0 <= i2 < r.lines.len() && i1 != i2 && 0 <= a1
            < r.lines[i1].line_nos.len() && 0 <= a2 < r.lines[i2].line_nos.len()
            ==> #[trigger] r.lines[i1].line_nos[a1] != #[trigger] r.lines[i2].line_nos[a2]
    &&& forall|e: int| 0 <= e < r.errors.len() ==> 1 <= #[trigger] r.errors[e].line_no <= n
    &&& forall|e1: int, e2: int|
        0 <= e1 < e2 < r.errors.len() ==> #[trigger] r.errors[e1].line_no < #[trigger] r.errors[e2].line_no
    &&& forall|i: int, a: int, e: int|
        0 <= i < r.lines.len() && 0 <= a < r.lines[i].line_nos.len() && 0 <= e < r.errors.len()
            ==> #[trigger] r.lines[i].line_nos[a] != #[trigger] r.errors[e].line_no
    &&& forall|k: u32| 1 <= k <= n ==> ((in_entries(r, k) || in_errors(r, k)) <==> !blank(#[trigger] ls[k - 1]))
}

/// Each aggregated entry has a positive quantity, at least one line, a
/// non-empty key, and a key no other entry shares.
pub open spec fn entries_wf(r: ParsedMultibuyView) -> bool {
    &&& forall|i: int|
        0 <= i < r.lines.len() ==> (#[trigger] r.lines[i]).qty > 0 && r.lines[i].line_nos.len() > 0
            && name_key_of(r.lines[i].name).len() > 0
    &&& forall|i: int, j: int|
        0 <= i < j < r.lines.len() ==> name_key_of(#[trigger] r.lines[i].name) != name_key_of(
            #[trigger] r.lines[j].name,
        )
}

/// Entries stand in the order of their first lines.
pub open spec fn entries_in_order(r: ParsedMultibuyView) -> bool {
    forall|i: int, j: int|
        0 <= i < j < r.lines.len() ==> (#[trigger] r.lines[i]).line_nos[0] < (#[trigger] r.lines[j]).line_nos[0]
}

proof fn lemma_find_key_result(ls: Seq<ParsedLineView>, key: Seq<char>)
    ensures
        find_key(ls, key) is None ==> forall|i: int| 0 <= i < ls.len() ==> name_key_of(#[trigger] ls[i].name) != key,
        find_key(ls, key) matches Some(i) ==> 0 <= i < ls.len() && name_key_of(ls[i].name) == key,
    decreases ls.len(),
{
    if ls.len() > 0 {
        let d = ls.drop_last();
        lemma_find_key_result(d, key);
        if find_key(ls, key) is None {
            assert forall|i: int| 0 <= i < ls.len() implies name_key_of(#[trigger] ls[i].name) != key by {
                if i < d.len() {
                    assert(d[i] == ls[i]);
                }
            }
        }
        if find_key(d, key) is Some {
            let i = find_key(d, key)->0;
            assert(d[i] == ls[i]);
        }
    }
}

proof fn lemma_tab_line_ok(line: Seq<char>)
    ensures
        tab_line(line) matches Ok((_, q)) ==> q > 0,
{
}

proof fn lemma_whitespace_line_ok(line: Seq<char>)
    ensures
        whitespace_line(line) matches Ok((_, q)) ==> q > 0,
{
}

#[verifier::rlimit(40)]
proof fn lemma_parse_lines_accounted(ls: Seq<Seq<char>>, n: nat)
    requires
        n <= ls.len() <= u32::MAX,
    ensures
        accounted(parse_lines(ls, n), ls, n),
        entries_wf(parse_lines(ls, n)),
        entries_in_order(parse_lines(ls, n)),
    decreases n,
{
    if n > 0 {
        let m = (n - 1) as nat;
        lemma_parse_lines_accounted(ls, m);
        let acc = parse_lines(ls, m);
        let raw = ls[m as int];
        let line_no = n as u32;
        let r = parse_lines(ls, n);
        assert(r == parse_step(acc, raw, line_no));
        let t = trim(replace_nbsp(raw));
        assert(line_no as int == n);
        if t.len() == 0 {
            assert(r == acc);
            assert forall|k: u32| 1 <= k <= n implies ((in_entries(r, k) || in_errors(r, k))
                <==> !blank(#[trigger] ls[k - 1])) by {
                if k == n {
                    if in_entries(r, k) {
                        let (i, a) = choose|i: int, a: int|
                            0 <= i < r.lines.len() && 0 <= a < r.lines[i].line_nos.len()
                                && #[trigger] r.lines[i].line_nos[a] == k;
                        assert(r.lines[i].line_nos[a] <= m);
                    }
                    if in_errors(r, k) {
                        let e = choose|e: int| 0 <= e < r.errors.len() && #[trigger] r.errors[e].line_no == k;
                        assert(r.errors[e].line_no <= m);
                    }
                }
            }
        } else {
            let parsed = if t.contains('\t') {
                tab_line(t)
            } else {
                whitespace_line(t)
            };
            lemma_tab_line_ok(t);
            lemma_whitespace_line_ok(t);
            lemma_find_key_result(acc.lines, match parsed {
                Ok((name, _)) => name_key_of(name),
                Err(_) => Seq::empty(),
            });
            assert forall|k: u32| 1 <= k <= n implies ((in_entries(r, k) || in_errors(r, k))
                <==> !blank(#[trigger] ls[k - 1])) by {
                if k < n {
                    if in_entries(r, k) && !in_entries(acc, k) {
                        let (i, a) = choose|i: int, a: int|
                            0 <= i < r.lines.len() && 0 <= a < r.lines[i].line_nos.len()
                                && #[trigger] r.lines[i].line_nos[a] == k;
                        if i < acc.lines.len() && a < acc.lines[i].line_nos.len() {
                            assert(acc.lines[i].line_nos[a] == k);
                        }
                    }
                    if in_entries(acc, k) {
                        let (i, a) = choose|i: int, a: int|
                            0 <= i < acc.lines.len() && 0 <= a < acc.lines[i].line_nos.len()
                                && #[trigger] acc.lines[i].line_nos[a] == k;
                        assert(r.lines[i].line_nos[a] == k);
                    }
                    if in_errors(r, k) && !in_errors(acc, k) {
                        let e = choose|e: int| 0 <= e < r.errors.len() && #[trigger] r.errors[e].line_no == k;
                        if e < acc.errors.len() {
                            assert(acc.errors[e].line_no == k);
                        }
                    }
                    if in_errors(acc, k) {
                        let e = choose|e: int| 0 <= e < acc.errors.len() && #[trigger] acc.errors[e].line_no == k;
                        assert(r.errors[e].line_no == k);
                    }
                } else {
                    match parsed {
                        Err(_) => {
                            assert(r.errors[r.errors.len() - 1].line_no == k);
                        },
                        Ok((name, qty)) => {
                            let key = name_key_of(name);
                            if key.len() == 0 {
                                assert(r.errors[r.errors.len() - 1].line_no == k);
                            } else {
                                match find_key(acc.lines, key) {
                                    Some(i) => {
                                        let ln = r.lines[i].line_nos;
                                        assert(ln[ln.len() - 1] == k);
                                    },
                                    None => {
                                        assert(r.lines[r.lines.len() - 1].line_nos[0] == k);
                                    },
                                }
                            }
                        },
                    }
                }
            }
        }
    }
}

/// Every non-blank input line is accounted for exactly once, as one line of
/// one aggregated entry or as one error, and blank lines not at all; the
/// line numbers of each entry, and those of the errors, are increasing, and
/// entries stand in the order of their first lines. Entries have positive
/// quantities and pairwise distinct name keys. (Line numbers are `u32`; the
/// law holds for pastes of at most `u32::MAX` lines, where none wraps.)
pub proof fn lemma_multibuy_accounts_for_lines(input: Seq<char>)
    requires
        lines(input).len() <= u32::MAX,
    ensures
        accounted(multibuy(input), lines(input), lines(input).len()),
        entries_wf(multibuy(input)),
        entries_in_order(multibuy(input)),
{
    lemma_parse_lines_accounted(lines(input), lines(input).len());
}

} // verus!
