//! Recursive-descent parser for single-table `SELECT` statements:
//! `SELECT <columns> FROM <table> [WHERE <cond>] ;` with case-insensitive
//! keywords. Each grammar rule is a pure function from a position in the
//! input to either a new position and a parsed value, or a failure; the
//! executable parser is proved to return exactly what the spec-level grammar
//! says, so parsing is deterministic and side-effect free.

use vstd::prelude::*;

verus! {

/// The column selection of a query: the `*` wildcard, or a (possibly empty)
/// comma-separated list of column names.
#[derive(Debug, PartialEq, Eq)]
pub enum Columns {
    All,
    Named(Vec<String>),
}

/// A `WHERE` comparison: a column name, one of the operators `=`, `>`, `<`,
/// and a literal value.
#[derive(Debug, PartialEq, Eq)]
pub struct Condition {
    pub column: String,
    pub operator: String,
    pub value: String,
}

/// The abstract syntax tree of a parsed `SELECT` statement.
#[derive(Debug, PartialEq, Eq)]
pub struct SelectQuery {
    pub columns: Columns,
    pub table: String,
    pub condition: Option<Condition>,
}

/// A rejected statement: the unconsumed input from the point of failure, and
/// a human-readable reason.
#[derive(Debug, PartialEq, Eq)]
pub struct ParseError {
    pub remaining: String,
    pub reason: String,
}

/// Spec-level mirror of `Columns`.
pub enum ColumnsView {
    All,
    Named(Seq<Seq<char>>),
}

/// Spec-level mirror of `Condition`.
pub struct ConditionView {
    pub column: Seq<char>,
    pub operator: Seq<char>,
    pub value: Seq<char>,
}

/// Spec-level mirror of `SelectQuery`.
pub struct QueryView {
    pub columns: ColumnsView,
    pub table: Seq<char>,
    pub condition: Option<ConditionView>,
}

impl View for Columns {
    type V = ColumnsView;

    open spec fn view(&self) -> ColumnsView {
        match self {
            Columns::All => ColumnsView::All,
            Columns::Named(names) => ColumnsView::Named(names.deep_view()),
        }
    }
}

impl View for Condition {
    type V = ConditionView;

    open spec fn view(&self) -> ConditionView {
        ConditionView { column: self.column@, operator: self.operator@, value: self.value@ }
    }
}

impl View for SelectQuery {
    type V = QueryView;

    open spec fn view(&self) -> QueryView {
        QueryView {
            columns: self.columns@,
            table: self.table@,
            condition: match self.condition {
                Some(c) => Some(c@),
                None => None,
            },
        }
    }
}

/// The single ASCII space character consumed by `space0` / `space1`.
pub open spec fn is_space(c: char) -> bool {
    c == ' '
}

/// An ASCII letter.
pub open spec fn is_alpha(c: char) -> bool {
    (0x61 <= c as u32 && c as u32 <= 0x7a) || (0x41 <= c as u32 && c as u32 <= 0x5a)
}

/// An ASCII digit.
pub open spec fn is_digit(c: char) -> bool {
    0x30 <= c as u32 && c as u32 <= 0x39
}

/// An ASCII letter or digit.
pub open spec fn is_alnum(c: char) -> bool {
    is_alpha(c) || is_digit(c)
}

/// A character that may open an identifier.
pub open spec fn is_ident_start(c: char) -> bool {
    is_alpha(c) || c == '_'
}

/// A character that may continue an identifier.
pub open spec fn is_ident_char(c: char) -> bool {
    is_alnum(c) || c == '_'
}

/// A character allowed in a literal value or table name: anything but a
/// space or the terminating semicolon.
pub open spec fn is_value_char(c: char) -> bool {
    c != ' ' && c != ';'
}

/// `c` equals the lowercase letter `l`, ignoring ASCII case.
pub open spec fn char_eq_ci(c: char, l: char) -> bool {
    c == l || c as u32 + 32 == l as u32
}

/// First position at or after `pos` that does not hold a space.
pub open spec fn skip_spaces(s: Seq<char>, pos: int) -> int
    decreases s.len() - pos when 0 <= pos <= s.len()
{
    if pos < s.len() && is_space(s[pos]) {
        skip_spaces(s, pos + 1)
    } else {
        pos
    }
}

/// First position at or after `pos` that cannot continue an identifier.
pub open spec fn ident_run_end(s: Seq<char>, pos: int) -> int
    decreases s.len() - pos when 0 <= pos <= s.len()
{
    if pos < s.len() && is_ident_char(s[pos]) {
        ident_run_end(s, pos + 1)
    } else {
        pos
    }
}

/// First position at or after `pos` that does not hold a letter or digit.
pub open spec fn alnum_run_end(s: Seq<char>, pos: int) -> int
    decreases s.len() - pos when 0 <= pos <= s.len()
{
    if pos < s.len() && is_alnum(s[pos]) {
        alnum_run_end(s, pos + 1)
    } else {
        pos
    }
}

/// First position at or after `pos` holding a space or semicolon.
pub open spec fn value_run_end(s: Seq<char>, pos: int) -> int
    decreases s.len() - pos when 0 <= pos <= s.len()
{
    if pos < s.len() && is_value_char(s[pos]) {
        value_run_end(s, pos + 1)
    } else {
        pos
    }
}

/// An identifier (letter or `_`, then letters, digits or `_`) starts at
/// `pos`; the result is the position just past it.
pub open spec fn ident_at(s: Seq<char>, pos: int) -> Option<int> {
    if 0 <= pos < s.len() && is_ident_start(s[pos]) {
        Some(ident_run_end(s, pos + 1))
    } else {
        None
    }
}

/// The identifiers after the first of a comma-separated column list: each
/// step consumes `, space0 identifier`; the list ends before anything else.
pub open spec fn columns_rest(s: Seq<char>, pos: int, acc: Seq<Seq<char>>) -> (int, Seq<Seq<char>>)
    decreases s.len() - pos when 0 <= pos <= s.len()
{
    if pos < s.len() && s[pos] == ',' {
        let p2 = skip_spaces(s, pos + 1);
        match ident_at(s, p2) {
            Some(end) => if pos < end && end <= s.len() {
                columns_rest(s, end, acc.push(s.subrange(p2, end)))
            } else {
                (pos, acc)
            },
            None => (pos, acc),
        }
    } else {
        (pos, acc)
    }
}

/// The column clause at `pos`: `*`, or a comma-separated identifier list,
/// which may be empty (consuming nothing). This rule never fails.
pub open spec fn columns_at(s: Seq<char>, pos: int) -> (int, ColumnsView) {
    if 0 <= pos < s.len() && s[pos] == '*' {
        (pos + 1, ColumnsView::All)
    } else {
        match ident_at(s, pos) {
            Some(end) => {
                let (e2, names) = columns_rest(s, end, seq![s.subrange(pos, end)]);
                (e2, ColumnsView::Named(names))
            },
            None => (pos, ColumnsView::Named(Seq::empty())),
        }
    }
}

/// A comparison at `pos`: identifier, one or more spaces, an operator among
/// `=` `>` `<`, one or more spaces, then a value (a run of letters and
/// digits, or else a run of anything but space and semicolon).
pub open spec fn condition_at(s: Seq<char>, pos: int) -> Option<(int, ConditionView)> {
    match ident_at(s, pos) {
        None => None,
        Some(e1) => {
            let p2 = skip_spaces(s, e1);
            if p2 == e1 || p2 >= s.len() {
                None
            } else if s[p2] == '=' || s[p2] == '>' || s[p2] == '<' {
                let p3 = skip_spaces(s, p2 + 1);
                if p3 == p2 + 1 {
                    None
                } else if p3 < s.len() && is_alnum(s[p3]) {
                    let e = alnum_run_end(s, p3);
                    Some(
                        (
                            e,
                            ConditionView {
                                column: s.subrange(pos, e1),
                                operator: s.subrange(p2, p2 + 1),
                                value: s.subrange(p3, e),
                            },
                        ),
                    )
                } else if p3 < s.len() && is_value_char(s[p3]) {
                    let e = value_run_end(s, p3);
                    Some(
                        (
                            e,
                            ConditionView {
                                column: s.subrange(pos, e1),
                                operator: s.subrange(p2, p2 + 1),
                                value: s.subrange(p3, e),
                            },
                        ),
                    )
                } else {
                    None
                }
            } else {
                None
            }
        },
    }
}

/// The keyword `FROM` (any ASCII case) occupies positions `pos..pos+4`.
pub open spec fn from_kw_at(s: Seq<char>, pos: int) -> bool {
    &&& 0 <= pos
    &&& pos + 4 <= s.len()
    &&& char_eq_ci(s[pos], 'f')
    &&& char_eq_ci(s[pos + 1], 'r')
    &&& char_eq_ci(s[pos + 2], 'o')
    &&& char_eq_ci(s[pos + 3], 'm')
}

/// The keyword `SELECT` (any ASCII case) occupies positions `pos..pos+6`.
pub open spec fn select_kw_at(s: Seq<char>, pos: int) -> bool {
    &&& 0 <= pos
    &&& pos + 6 <= s.len()
    &&& char_eq_ci(s[pos], 's')
    &&& char_eq_ci(s[pos + 1], 'e')
    &&& char_eq_ci(s[pos + 2], 'l')
    &&& char_eq_ci(s[pos + 3], 'e')
    &&& char_eq_ci(s[pos + 4], 'c')
    &&& char_eq_ci(s[pos + 5], 't')
}

/// The keyword `WHERE` (any ASCII case) occupies positions `pos..pos+5`.
pub open spec fn where_kw_at(s: Seq<char>, pos: int) -> bool {
    &&& 0 <= pos
    &&& pos + 5 <= s.len()
    &&& char_eq_ci(s[pos], 'w')
    &&& char_eq_ci(s[pos + 1], 'h')
    &&& char_eq_ci(s[pos + 2], 'e')
    &&& char_eq_ci(s[pos + 3], 'r')
    &&& char_eq_ci(s[pos + 4], 'e')
}

/// The table clause at `pos`: `FROM`, one or more spaces, then a table name
/// (a run of anything but space and semicolon).
pub open spec fn table_at(s: Seq<char>, pos: int) -> Option<(int, Seq<char>)> {
    if from_kw_at(s, pos) {
        let p = skip_spaces(s, pos + 4);
        if p == pos + 4 {
            None
        } else if p < s.len() && is_value_char(s[p]) {
            let end = value_run_end(s, p);
            Some((end, s.subrange(p, end)))
        } else {
            None
        }
    } else {
        None
    }
}

/// The optional `WHERE` clause at `pos`: if `WHERE`, one or more spaces and
/// a comparison all match, they are consumed; otherwise nothing is consumed
/// and there is no condition.
pub open spec fn where_opt_at(s: Seq<char>, pos: int) -> (int, Option<ConditionView>) {
    if where_kw_at(s, pos) {
        let p = skip_spaces(s, pos + 5);
        if p == pos + 5 {
            (pos, None)
        } else {
            match condition_at(s, p) {
                Some((e, c)) => (e, Some(c)),
                None => (pos, None),
            }
        }
    } else {
        (pos, None)
    }
}

/// The full statement grammar: `SELECT space0 columns space0 table-clause
/// space0 [WHERE space1 condition] space0 ';'`. The result is the position
/// just past the semicolon and the syntax tree; trailing input after the
/// semicolon is left unconsumed and is not an error.
pub open spec fn parse_select_at(s: Seq<char>) -> Option<(int, QueryView)> {
    if !select_kw_at(s, 0) {
        None
    } else {
        let p1 = skip_spaces(s, 6);
        let (p2, cols) = columns_at(s, p1);
        let p3 = skip_spaces(s, p2);
        match table_at(s, p3) {
            None => None,
            Some((p4, tbl)) => {
                let p5 = skip_spaces(s, p4);
                let (p6, cond) = where_opt_at(s, p5);
                let p7 = skip_spaces(s, p6);
                if p7 < s.len() && s[p7] == ';' {
                    Some((p7 + 1, QueryView { columns: cols, table: tbl, condition: cond }))
                } else {
                    None
                }
            },
        }
    }
}

fn is_alnum_x(c: char) -> (r: bool)
    ensures
        r == is_alnum(c),
{
    let u = c as u32;
    (0x61 <= u && u <= 0x7a) || (0x41 <= u && u <= 0x5a) || (0x30 <= u && u <= 0x39)
}

fn is_ident_start_x(c: char) -> (r: bool)
    ensures
        r == is_ident_start(c),
{
    let u = c as u32;
    (0x61 <= u && u <= 0x7a) || (0x41 <= u && u <= 0x5a) || c == '_'
}

fn is_ident_char_x(c: char) -> (r: bool)
    ensures
        r == is_ident_char(c),
{
    is_alnum_x(c) || c == '_'
}

fn is_value_char_x(c: char) -> (r: bool)
    ensures
        r == is_value_char(c),
{
    c != ' ' && c != ';'
}

fn eq_ci_x(c: char, l: char) -> (r: bool)
    ensures
        r == char_eq_ci(c, l),
{
    c == l || (c as u32) + 32 == (l as u32)
}

fn skip_spaces_x(s: &str, pos: usize) -> (r: usize)
    requires
        pos <= s@.len(),
    ensures
        r as int == skip_spaces(s@, pos as int),
        pos <= r <= s@.len(),
{
    let n = s.unicode_len();
    let mut i: usize = pos;
    while i < n && s.get_char(i) == ' '
        invariant
            pos <= i <= n,
            n == s@.len(),
            skip_spaces(s@, pos as int) == skip_spaces(s@, i as int),
        decreases n - i,
    {
        i += 1;
    }
    i
}

fn ident_run_end_x(s: &str, pos: usize) -> (r: usize)
    requires
        pos <= s@.len(),
    ensures
        r as int == ident_run_end(s@, pos as int),
        pos <= r <= s@.len(),
{
    let n = s.unicode_len();
    let mut i: usize = pos;
    while i < n && is_ident_char_x(s.get_char(i))
        invariant
            pos <= i <= n,
            n == s@.len(),
            ident_run_end(s@, pos as int) == ident_run_end(s@, i as int),
        decreases n - i,
    {
        i += 1;
    }
    i
}

fn alnum_run_end_x(s: &str, pos: usize) -> (r: usize)
    requires
        pos <= s@.len(),
    ensures
        r as int == alnum_run_end(s@, pos as int),
        pos <= r <= s@.len(),
{
    let n = s.unicode_len();
    let mut i: usize = pos;
    while i < n && is_alnum_x(s.get_char(i))
        invariant
            pos <= i <= n,
            n == s@.len(),
            alnum_run_end(s@, pos as int) == alnum_run_end(s@, i as int),
        decreases n - i,
    {
        i += 1;
    }
    i
}

fn value_run_end_x(s: &str, pos: usize) -> (r: usize)
    requires
        pos <= s@.len(),
    ensures
        r as int == value_run_end(s@, pos as int),
        pos <= r <= s@.len(),
{
    let n = s.unicode_len();
    let mut i: usize = pos;
    while i < n && is_value_char_x(s.get_char(i))
        invariant
            pos <= i <= n,
            n == s@.len(),
            value_run_end(s@, pos as int) == value_run_end(s@, i as int),
        decreases n - i,
    {
        i += 1;
    }
    i
}

fn ident_at_x(s: &str, pos: usize) -> (r: Option<usize>)
    requires
        pos <= s@.len(),
    ensures
        match r {
            Some(end) => ident_at(s@, pos as int) == Some(end as int) && pos < end <= s@.len(),
            None => ident_at(s@, pos as int) is None,
        },
{
    let n = s.unicode_len();
    if pos < n && is_ident_start_x(s.get_char(pos)) {
        let end = ident_run_end_x(s, pos + 1);
        Some(end)
    } else {
        None
    }
}

fn select_kw_at_x(s: &str, pos: usize) -> (r: bool)
    requires
        pos <= s@.len(),
    ensures
        r == select_kw_at(s@, pos as int),
{
    let n = s.unicode_len();
    if n < 6 || pos > n - 6 {
        return false;
    }
    eq_ci_x(s.get_char(pos), 's') && eq_ci_x(s.get_char(pos + 1), 'e') && eq_ci_x(
        s.get_char(pos + 2),
        'l',
    ) && eq_ci_x(s.get_char(pos + 3), 'e') && eq_ci_x(s.get_char(pos + 4), 'c') && eq_ci_x(
        s.get_char(pos + 5),
        't',
    )
}

fn from_kw_at_x(s: &str, pos: usize) -> (r: bool)
    requires
        pos <= s@.len(),
    ensures
        r == from_kw_at(s@, pos as int),
{
    let n = s.unicode_len();
    if n < 4 || pos > n - 4 {
        return false;
    }
    eq_ci_x(s.get_char(pos), 'f') && eq_ci_x(s.get_char(pos + 1), 'r') && eq_ci_x(
        s.get_char(pos + 2),
        'o',
    ) && eq_ci_x(s.get_char(pos + 3), 'm')
}

fn where_kw_at_x(s: &str, pos: usize) -> (r: bool)
    requires
        pos <= s@.len(),
    ensures
        r == where_kw_at(s@, pos as int),
{
    let n = s.unicode_len();
    if n < 5 || pos > n - 5 {
        return false;
    }
    eq_ci_x(s.get_char(pos), 'w') && eq_ci_x(s.get_char(pos + 1), 'h') && eq_ci_x(
        s.get_char(pos + 2),
        'e',
    ) && eq_ci_x(s.get_char(pos + 3), 'r') && eq_ci_x(s.get_char(pos + 4), 'e')
}

fn columns_at_x(s: &str, pos: usize) -> (r: (usize, Columns))
    requires
        pos <= s@.len(),
    ensures
        columns_at(s@, pos as int) == (r.0 as int, r.1@),
        pos <= r.0 <= s@.len(),
{
    let n = s.unicode_len();
    if pos < n && s.get_char(pos) == '*' {
        return (pos + 1, Columns::All);
    }
    match ident_at_x(s, pos) {
        None => {
            let names: Vec<String> = Vec::new();
            proof {
                assert(names.deep_view() =~= Seq::<Seq<char>>::empty());
            }
            (pos, Columns::Named(names))
        },
        Some(end0) => {
            let mut names: Vec<String> = Vec::new();
            names.push(s.substring_char(pos, end0).to_owned());
            proof {
                assert(names.deep_view() =~~= seq![s@.subrange(pos as int, end0 as int)]);
            }
            let ghost init = seq![s@.subrange(pos as int, end0 as int)];
            let mut p: usize = end0;
            loop
                invariant
                    pos <= p <= n,
                    n == s@.len(),
                    columns_rest(s@, end0 as int, init) == columns_rest(
                        s@,
                        p as int,
                        names.deep_view(),
                    ),
                ensures
                    pos <= p <= n,
                    columns_rest(s@, end0 as int, init) == (p as int, names.deep_view()),
                decreases n - p,
            {
                if p < n && s.get_char(p) == ',' {
                    let p2 = skip_spaces_x(s, p + 1);
                    match ident_at_x(s, p2) {
                        Some(e2) => {
                            let ghost prev = names.deep_view();
                            names.push(s.substring_char(p2, e2).to_owned());
                            proof {
                                assert(names.deep_view() =~~= prev.push(
                                    s@.subrange(p2 as int, e2 as int),
                                ));
                            }
                            p = e2;
                        },
                        None => {
                            break ;
                        },
                    }
                } else {
                    break ;
                }
            }
            (p, Columns::Named(names))
        },
    }
}

fn condition_at_x(s: &str, pos: usize) -> (r: Option<(usize, Condition)>)
    requires
        pos <= s@.len(),
    ensures
        match r {
            Some(ec) => condition_at(s@, pos as int) == Some((ec.0 as int, ec.1@)) && pos < ec.0
                <= s@.len(),
            None => condition_at(s@, pos as int) is None,
        },
{
    let n = s.unicode_len();
    let e1 = match ident_at_x(s, pos) {
        Some(e) => e,
        None => {
            return None;
        },
    };
    let p2 = skip_spaces_x(s, e1);
    if p2 == e1 || p2 >= n {
        return None;
    }
    let opc = s.get_char(p2);
    if !(opc == '=' || opc == '>' || opc == '<') {
        return None;
    }
    let p3 = skip_spaces_x(s, p2 + 1);
    if p3 == p2 + 1 {
        return None;
    }
    if p3 >= n {
        return None;
    }
    let c0 = s.get_char(p3);
    let e = if is_alnum_x(c0) {
        alnum_run_end_x(s, p3)
    } else if is_value_char_x(c0) {
        value_run_end_x(s, p3)
    } else {
        return None;
    };
    let cond = Condition {
        column: s.substring_char(pos, e1).to_owned(),
        operator: s.substring_char(p2, p2 + 1).to_owned(),
        value: s.substring_char(p3, e).to_owned(),
    };
    Some((e, cond))
}

fn table_at_x(s: &str, pos: usize) -> (r: Option<(usize, String)>)
    requires
        pos <= s@.len(),
    ensures
        match r {
            Some(et) => table_at(s@, pos as int) == Some((et.0 as int, et.1@)) && pos < et.0
                <= s@.len(),
            None => table_at(s@, pos as int) is None,
        },
{
    let n = s.unicode_len();
    if !from_kw_at_x(s, pos) {
        return None;
    }
    let p = skip_spaces_x(s, pos + 4);
    if p == pos + 4 {
        return None;
    }
    if p >= n {
        return None;
    }
    if !is_value_char_x(s.get_char(p)) {
        return None;
    }
    let end = value_run_end_x(s, p);
    Some((end, s.substring_char(p, end).to_owned()))
}

fn where_opt_at_x(s: &str, pos: usize) -> (r: (usize, Option<Condition>))
    requires
        pos <= s@.len(),
    ensures
        where_opt_at(s@, pos as int) == (
            r.0 as int,
            match r.1 {
                Some(c) => Some(c@),
                None => None::<ConditionView>,
            },
        ),
        pos <= r.0 <= s@.len(),
{
    let _n = s.unicode_len();  // the length bounds the keyword end, so `pos + 5` fits in usize
    if !where_kw_at_x(s, pos) {
        return (pos, None);
    }
    let p = skip_spaces_x(s, pos + 5);
    if p == pos + 5 {
        return (pos, None);
    }
    match condition_at_x(s, p) {
        Some((e, c)) => (e, Some(c)),
        None => (pos, None),
    }
}

fn parse_failure(s: &str, pos: usize, why: &str) -> (r: ParseError)
    requires
        pos <= s@.len(),
    ensures
        r.remaining@ == s@.subrange(pos as int, s@.len() as int),
        r.reason@ == why@,
{
    let n = s.unicode_len();
    ParseError { remaining: s.substring_char(pos, n).to_owned(), reason: why.to_owned() }
}

/// Parse a full `SELECT` statement at the front of `input`. On success the
/// result carries the input left after the terminating semicolon (trailing
/// text is ignored, not an error) and the syntax tree; the result is exactly
/// what the spec-level grammar `parse_select_at` yields, so a failure is
/// returned precisely when the grammar matches no prefix of the input.
pub fn parse_select(input: &str) -> (r: Result<(String, SelectQuery), ParseError>)
    ensures
        match r {
            Ok(rq) => parse_select_at(input@) == Some(
                (input@.len() - rq.0@.len(), rq.1@),
            ) && rq.0@ == input@.subrange(
                input@.len() - rq.0@.len(),
                input@.len() as int,
            ),
            Err(_) => parse_select_at(input@) is None,
        },
        r is Ok <==> parse_select_at(input@) is Some,
{
    let n = input.unicode_len();
    if !select_kw_at_x(input, 0) {
        return Err(parse_failure(input, 0, "expected SELECT keyword"));
    }
    let p1 = skip_spaces_x(input, 6);
    let (p2, cols) = columns_at_x(input, p1);
    let p3 = skip_spaces_x(input, p2);
    let (p4, tbl) = match table_at_x(input, p3) {
        Some(et) => et,
        None => {
            return Err(parse_failure(input, p3, "expected FROM clause"));
        },
    };
    let p5 = skip_spaces_x(input, p4);
    let (p6, cond) = where_opt_at_x(input, p5);
    let p7 = skip_spaces_x(input, p6);
    if p7 < n && input.get_char(p7) == ';' {
        let rest = input.substring_char(p7 + 1, n).to_owned();
        let q = SelectQuery { columns: cols, table: tbl, condition: cond };
        Ok((rest, q))
    } else {
        Err(parse_failure(input, p7, "expected terminating semicolon"))
    }
}

/// Parsing is a pure function of the input text: any two results that meet
/// the grammar on the same input are equal, so parsing the same statement
/// twice yields structurally equal syntax trees.
pub proof fn lemma_parse_deterministic(
    s: Seq<char>,
    a: Option<(int, QueryView)>,
    b: Option<(int, QueryView)>,
)
    requires
        a == parse_select_at(s),
        b == parse_select_at(s),
    ensures
        a == b,
{
}

} // verus!
