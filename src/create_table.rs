//! The model of a `CREATE TABLE` statement, its grammar, and its parser.
//!
//! The model borrows: every string it holds is a span of the statement text
//! as written, quotes included, so a model lives no longer than its text.
//! Only [`PropertyPair::key`] and [`PropertyPair::value`] strip quotes, when
//! they are read.
use vstd::prelude::*;

use crate::lexer::{
    after_keyword, after_symbol, chars_of, expect_keyword, expect_symbol, ident_end, keyword_at,
    lemma_skip_ws_bounds, lemma_token_bounds, scan_identifier, scan_string, scan_type,
    skip_whitespace, skip_ws, string_end, type_end,
};
use crate::laws::law_table_name_nonempty;
use crate::{Construct, Error, Expected};

verus! {

/// A column as the statement writes it.
pub struct ColumnView {
    pub name: Seq<char>,
    pub data_type: Seq<char>,
    pub comment: Option<Seq<char>>,
}

pub enum RowFormatView {
    Serde { serde_name: Seq<char>, properties: Seq<(Seq<char>, Seq<char>)> },
}

pub enum StoredAsView {
    InputOutputFormat { input_type: Seq<char>, output_type: Seq<char> },
}

/// A statement as spans of its text.
pub struct StatementView {
    pub database_name: Option<Seq<char>>,
    pub table_name: Seq<char>,
    pub columns: Seq<ColumnView>,
    pub partition_keys: Seq<ColumnView>,
    pub row_format: Option<RowFormatView>,
    pub stored_as: Option<StoredAsView>,
    pub location: Option<Seq<char>>,
    pub table_properties: Seq<(Seq<char>, Seq<char>)>,
}

pub open spec fn opt_str_view(o: Option<&str>) -> Option<Seq<char>> {
    match o {
        Some(x) => Some(x@),
        None => None,
    }
}

pub open spec fn pairs_view(v: Seq<(&str, &str)>) -> Seq<(Seq<char>, Seq<char>)> {
    v.map_values(|p: (&str, &str)| (p.0@, p.1@))
}

/// A `key = value` table property, both sides as written.
#[derive(Debug, Default, PartialEq, Eq, PartialOrd, Ord)]
pub struct PropertyPair<'l>(&'l str, &'l str);

impl<'l> View for PropertyPair<'l> {
    type V = (Seq<char>, Seq<char>);

    closed spec fn view(&self) -> (Seq<char>, Seq<char>) {
        (self.0@, self.1@)
    }
}

#[derive(Debug, Default, PartialEq, Eq, PartialOrd, Ord)]
pub struct TableColumn<'p> {
    name: &'p str,
    data_type: &'p str,
    comment: Option<&'p str>,
}

impl<'p> View for TableColumn<'p> {
    type V = ColumnView;

    closed spec fn view(&self) -> ColumnView {
        ColumnView { name: self.name@, data_type: self.data_type@, comment: opt_str_view(self.comment) }
    }
}

pub open spec fn columns_view(v: Seq<TableColumn>) -> Seq<ColumnView> {
    v.map_values(|c: TableColumn| c@)
}

pub open spec fn parse_error(i: int, e: Expected) -> Error {
    Error::ParseError { position: i as usize, expected: e }
}

/// A column at `i`: `name data_type [COMMENT 'text']`.
pub open spec fn column_at(s: Seq<char>, i: int) -> Result<(ColumnView, int), Error> {
    match ident_end(s, i) {
        None => Err(parse_error(i, Expected::Identifier)),
        Some(ne) => {
            let t = skip_ws(s, ne, false);
            match type_end(s, t) {
                None => Err(parse_error(t, Expected::DataType)),
                Some(te) => {
                    let c = skip_ws(s, te, false);
                    match after_keyword(s, c, "COMMENT"@) {
                        Some(q) => match string_end(s, q) {
                            None => Err(parse_error(q, Expected::StringLiteral)),
                            Some(qe) => Ok(
                                (
                                    ColumnView {
                                        name: s.subrange(i, ne),
                                        data_type: s.subrange(t, te),
                                        comment: Some(s.subrange(q, qe)),
                                    },
                                    qe,
                                ),
                            ),
                        },
                        None => Ok(
                            (
                                ColumnView {
                                    name: s.subrange(i, ne),
                                    data_type: s.subrange(t, te),
                                    comment: None,
                                },
                                te,
                            ),
                        ),
                    }
                },
            }
        },
    }
}

pub proof fn lemma_column_bounds(s: Seq<char>, i: int)
    requires
        0 <= i <= s.len(),
    ensures
        column_at(s, i) matches Ok((_, e)) ==> i < e <= s.len(),
{
    lemma_token_bounds(s, i);
    if let Some(ne) = ident_end(s, i) {
        lemma_skip_ws_bounds(s, ne, false);
        let t = skip_ws(s, ne, false);
        lemma_token_bounds(s, t);
        if let Some(te) = type_end(s, t) {
            lemma_skip_ws_bounds(s, te, false);
            let c = skip_ws(s, te, false);
            if keyword_at(s, c, "COMMENT"@) {
                lemma_skip_ws_bounds(s, c + "COMMENT"@.len(), false);
                lemma_token_bounds(s, skip_ws(s, c + "COMMENT"@.len(), false));
            }
        }
    }
}

/// Columns separated by commas, from `i` on, after the columns `acc`;
/// gives them all and the position after the last one.
pub open spec fn columns_from(s: Seq<char>, i: int, acc: Seq<ColumnView>) -> Result<
    (Seq<ColumnView>, int),
    Error,
>
    decreases s.len() - i,
{
    if 0 <= i <= s.len() {
        match column_at(s, i) {
            Err(e) => Err(e),
            Ok((c, e)) => {
                let j = skip_ws(s, e, false);
                match after_symbol(s, j, ',') {
                    Some(k) => {
                        proof {
                            lemma_column_bounds(s, i);
                            lemma_skip_ws_bounds(s, e, false);
                            lemma_skip_ws_bounds(s, j + 1, false);
                        }
                        columns_from(s, k, acc.push(c))
                    },
                    None => Ok((acc.push(c), j)),
                }
            },
        }
    } else {
        Err(parse_error(i, Expected::Identifier))
    }
}

/// A parenthesised column list at `i`, possibly empty; gives the columns in
/// the order written and the position after `)`.
pub open spec fn column_list_at(s: Seq<char>, i: int) -> Result<(Seq<ColumnView>, int), Error> {
    match after_symbol(s, i, '(') {
        None => Err(parse_error(i, Expected::OpenParen)),
        Some(j) => if j < s.len() && s[j] == ')' {
            Ok((Seq::empty(), j + 1))
        } else if ident_end(s, j) is None {
            Err(parse_error(j, Expected::IdentifierOrCloseParen))
        } else {
            match columns_from(s, j, Seq::empty()) {
                Err(e) => Err(e),
                Ok((cols, k)) => if 0 <= k < s.len() && s[k] == ')' {
                    Ok((cols, k + 1))
                } else if cols.last().comment is Some {
                    Err(parse_error(k, Expected::CommaOrCloseParen))
                } else {
                    Err(parse_error(k, Expected::CommentCommaOrCloseParen))
                },
            }
        },
    }
}

fn parse_column<'a>(ddl: &'a str, s: &Vec<char>, i: usize) -> (r: Result<(TableColumn<'a>, usize), Error>)
    requires
        s@ == ddl@,
        i <= s@.len(),
    ensures
        match r {
            Ok((c, e)) => column_at(s@, i as int) == Ok::<(ColumnView, int), Error>((c@, e as int)),
            Err(er) => column_at(s@, i as int) == Err::<(ColumnView, int), Error>(er),
        },
{
    let ne = match scan_identifier(s, i) {
        None => return Err(Error::ParseError { position: i, expected: Expected::Identifier }),
        Some(ne) => ne,
    };
    let t = skip_whitespace(s, ne);
    let te = match scan_type(s, t) {
        None => return Err(Error::ParseError { position: t, expected: Expected::DataType }),
        Some(te) => te,
    };
    let c = skip_whitespace(s, te);
    let name = ddl.substring_char(i, ne);
    let data_type = ddl.substring_char(t, te);
    match expect_keyword(s, c, "COMMENT") {
        Some(q) => match scan_string(s, q) {
            None => Err(Error::ParseError { position: q, expected: Expected::StringLiteral }),
            Some(qe) => {
                let comment = ddl.substring_char(q, qe);
                Ok((TableColumn { name, data_type, comment: Some(comment) }, qe))
            },
        },
        None => Ok((TableColumn { name, data_type, comment: None }, te)),
    }
}

fn parse_column_list<'a>(ddl: &'a str, s: &Vec<char>, i: usize) -> (r: Result<(Vec<TableColumn<'a>>, usize), Error>)
    requires
        s@ == ddl@,
        i <= s@.len(),
    ensures
        r matches Ok((_, e)) ==> e <= s@.len(),
        match r {
            Ok((v, e)) => column_list_at(s@, i as int) == Ok::<(Seq<ColumnView>, int), Error>(
                (columns_view(v@), e as int),
            ),
            Err(er) => column_list_at(s@, i as int) == Err::<(Seq<ColumnView>, int), Error>(er),
        },
{
    let j = match expect_symbol(s, i, '(') {
        None => return Err(Error::ParseError { position: i, expected: Expected::OpenParen }),
        Some(j) => j,
    };
    let mut cols: Vec<TableColumn<'a>> = Vec::new();
    if j < s.len() && s[j] == ')' {
        assert(columns_view(cols@) =~= Seq::empty());
        return Ok((cols, j + 1));
    }
    if scan_identifier(s, j).is_none() {
        return Err(Error::ParseError { position: j, expected: Expected::IdentifierOrCloseParen });
    }
    let mut k: usize = j;
    assert(columns_view(cols@) =~= Seq::empty());
    loop
        invariant
            s@ == ddl@,
            i < j <= k <= s@.len(),
            !(j < s@.len() && s@[j as int] == ')'),
            ident_end(s@, j as int) is Some,
            after_symbol(s@, i as int, '(') == Some(j as int),
            columns_from(s@, j as int, Seq::empty()) == columns_from(s@, k as int, columns_view(cols@)),
        decreases s@.len() - k,
    {
        let (c, e) = match parse_column(ddl, s, k) {
            Err(er) => return Err(er),
            Ok(ce) => ce,
        };
        proof {
            lemma_column_bounds(s@, k as int);
        }
        let ghost prev = cols@;
        let had_comment = c.comment.is_some();
        cols.push(c);
        assert(columns_view(cols@) =~= columns_view(prev).push(c@));
        let m = skip_whitespace(s, e);
        match expect_symbol(s, m, ',') {
            Some(n) => {
                k = n;
            },
            None => {
                if m < s.len() && s[m] == ')' {
                    return Ok((cols, m + 1));
                }
                if had_comment {
                    return Err(Error::ParseError { position: m, expected: Expected::CommaOrCloseParen });
                }
                return Err(
                    Error::ParseError { position: m, expected: Expected::CommentCommaOrCloseParen },
                );
            },
        }
    }
}

/// A property at `i`: `'key' = 'value'`, both string literals.
pub open spec fn pair_at(s: Seq<char>, i: int) -> Result<((Seq<char>, Seq<char>), int), Error> {
    match string_end(s, i) {
        None => Err(parse_error(i, Expected::StringLiteral)),
        Some(ke) => {
            let j = skip_ws(s, ke, false);
            match after_symbol(s, j, '=') {
                None => Err(parse_error(j, Expected::Equals)),
                Some(v) => match string_end(s, v) {
                    None => Err(parse_error(v, Expected::StringLiteral)),
                    Some(ve) => Ok(((s.subrange(i, ke), s.subrange(v, ve)), ve)),
                },
            }
        },
    }
}

pub proof fn lemma_pair_bounds(s: Seq<char>, i: int)
    requires
        0 <= i <= s.len(),
    ensures
        pair_at(s, i) matches Ok((_, e)) ==> i < e <= s.len(),
{
    lemma_token_bounds(s, i);
    if let Some(ke) = string_end(s, i) {
        lemma_skip_ws_bounds(s, ke, false);
        let j = skip_ws(s, ke, false);
        if j < s.len() {
            lemma_skip_ws_bounds(s, j + 1, false);
            lemma_token_bounds(s, skip_ws(s, j + 1, false));
        }
    }
}

/// Properties separated by commas, from `i` on, after the properties `acc`.
pub open spec fn pairs_from(s: Seq<char>, i: int, acc: Seq<(Seq<char>, Seq<char>)>) -> Result<
    (Seq<(Seq<char>, Seq<char>)>, int),
    Error,
>
    decreases s.len() - i,
{
    if 0 <= i <= s.len() {
        match pair_at(s, i) {
            Err(e) => Err(e),
            Ok((p, e)) => {
                let j = skip_ws(s, e, false);
                match after_symbol(s, j, ',') {
                    Some(k) => {
                        proof {
                            lemma_pair_bounds(s, i);
                            lemma_skip_ws_bounds(s, e, false);
                            lemma_skip_ws_bounds(s, j + 1, false);
                        }
                        pairs_from(s, k, acc.push(p))
                    },
                    None => Ok((acc.push(p), j)),
                }
            },
        }
    } else {
        Err(parse_error(i, Expected::StringLiteral))
    }
}

/// A parenthesised property list at `i`, possibly empty; gives the
/// properties in the order written, repeated keys included, and the position
/// after `)`.
pub open spec fn pair_list_at(s: Seq<char>, i: int) -> Result<(Seq<(Seq<char>, Seq<char>)>, int), Error> {
    match after_symbol(s, i, '(') {
        None => Err(parse_error(i, Expected::OpenParen)),
        Some(j) => if j < s.len() && s[j] == ')' {
            Ok((Seq::empty(), j + 1))
        } else if string_end(s, j) is None {
            Err(parse_error(j, Expected::StringLiteralOrCloseParen))
        } else {
            match pairs_from(s, j, Seq::empty()) {
                Err(e) => Err(e),
                Ok((ps, k)) => if 0 <= k < s.len() && s[k] == ')' {
                    Ok((ps, k + 1))
                } else {
                    Err(parse_error(k, Expected::CommaOrCloseParen))
                },
            }
        },
    }
}

fn parse_pair<'a>(ddl: &'a str, s: &Vec<char>, i: usize) -> (r: Result<((&'a str, &'a str), usize), Error>)
    requires
        s@ == ddl@,
        i <= s@.len(),
    ensures
        match r {
            Ok((p, e)) => pair_at(s@, i as int) == Ok::<((Seq<char>, Seq<char>), int), Error>(
                ((p.0@, p.1@), e as int),
            ),
            Err(er) => pair_at(s@, i as int) == Err::<((Seq<char>, Seq<char>), int), Error>(er),
        },
{
    let ke = match scan_string(s, i) {
        None => return Err(Error::ParseError { position: i, expected: Expected::StringLiteral }),
        Some(ke) => ke,
    };
    let j = skip_whitespace(s, ke);
    let v = match expect_symbol(s, j, '=') {
        None => return Err(Error::ParseError { position: j, expected: Expected::Equals }),
        Some(v) => v,
    };
    match scan_string(s, v) {
        None => Err(Error::ParseError { position: v, expected: Expected::StringLiteral }),
        Some(ve) => Ok(((ddl.substring_char(i, ke), ddl.substring_char(v, ve)), ve)),
    }
}

fn parse_pair_list<'a>(ddl: &'a str, s: &Vec<char>, i: usize) -> (r: Result<(Vec<(&'a str, &'a str)>, usize), Error>)
    requires
        s@ == ddl@,
        i <= s@.len(),
    ensures
        r matches Ok((_, e)) ==> e <= s@.len(),
        match r {
            Ok((v, e)) => pair_list_at(s@, i as int) == Ok::<(Seq<(Seq<char>, Seq<char>)>, int), Error>(
                (pairs_view(v@), e as int),
            ),
            Err(er) => pair_list_at(s@, i as int) == Err::<(Seq<(Seq<char>, Seq<char>)>, int), Error>(er),
        },
{
    let j = match expect_symbol(s, i, '(') {
        None => return Err(Error::ParseError { position: i, expected: Expected::OpenParen }),
        Some(j) => j,
    };
    let mut ps: Vec<(&'a str, &'a str)> = Vec::new();
    assert(pairs_view(ps@) =~= Seq::empty());
    if j < s.len() && s[j] == ')' {
        return Ok((ps, j + 1));
    }
    if scan_string(s, j).is_none() {
        return Err(Error::ParseError { position: j, expected: Expected::StringLiteralOrCloseParen });
    }
    let mut k: usize = j;
    loop
        invariant
            s@ == ddl@,
            i < j <= k <= s@.len(),
            !(j < s@.len() && s@[j as int] == ')'),
            string_end(s@, j as int) is Some,
            after_symbol(s@, i as int, '(') == Some(j as int),
            pairs_from(s@, j as int, Seq::empty()) == pairs_from(s@, k as int, pairs_view(ps@)),
        decreases s@.len() - k,
    {
        let (p, e) = match parse_pair(ddl, s, k) {
            Err(er) => return Err(er),
            Ok(pe) => pe,
        };
        proof {
            lemma_pair_bounds(s@, k as int);
        }
        let ghost prev = ps@;
        ps.push(p);
        assert(pairs_view(ps@) =~= pairs_view(prev).push((p.0@, p.1@)));
        let m = skip_whitespace(s, e);
        match expect_symbol(s, m, ',') {
            Some(n) => {
                k = n;
            },
            None => {
                if m < s.len() && s[m] == ')' {
                    return Ok((ps, m + 1));
                }
                return Err(Error::ParseError { position: m, expected: Expected::CommaOrCloseParen });
            },
        }
    }
}

/// How rows are serialised.
#[derive(Debug, PartialEq, Eq, PartialOrd, Ord)]
pub enum RowFormat<'p> {
    Serde { serde_name: &'p str, properties: Vec<(&'p str, &'p str)> },
}

impl<'p> View for RowFormat<'p> {
    type V = RowFormatView;

    open spec fn view(&self) -> RowFormatView {
        match self {
            RowFormat::Serde { serde_name, properties } => RowFormatView::Serde {
                serde_name: serde_name@,
                properties: pairs_view(properties@),
            },
        }
    }
}

/// The classes that read and write the table's files.
#[derive(Debug, PartialEq, Eq, PartialOrd, Ord)]
pub enum StoredAs<'p> {
    InputOutputFormat { input_type: &'p str, output_type: &'p str },
}

impl<'p> View for StoredAs<'p> {
    type V = StoredAsView;

    open spec fn view(&self) -> StoredAsView {
        match self {
            StoredAs::InputOutputFormat { input_type, output_type } => StoredAsView::InputOutputFormat {
                input_type: input_type@,
                output_type: output_type@,
            },
        }
    }
}

pub open spec fn opt_view<T: View>(o: Option<T>) -> Option<T::V> {
    match o {
        Some(x) => Some(x@),
        None => None,
    }
}

pub open spec fn properties_view(v: Seq<PropertyPair>) -> Seq<(Seq<char>, Seq<char>)> {
    v.map_values(|p: PropertyPair| p@)
}

/// `ROW FORMAT SERDE 'class' [WITH SERDEPROPERTIES (...)]` at `i`, if the
/// clause is there.
pub open spec fn row_format_at(s: Seq<char>, i: int) -> Result<(Option<RowFormatView>, int), Error> {
    match after_keyword(s, i, "ROW"@) {
        None => Ok((None, i)),
        Some(j) => match after_keyword(s, j, "FORMAT"@) {
            None => Err(parse_error(j, Expected::Format)),
            Some(k) => match after_keyword(s, k, "SERDE"@) {
                None => Err(Error::UnsupportedConstruct { position: k as usize, construct: Construct::RowFormat }),
                Some(m) => match string_end(s, m) {
                    None => Err(parse_error(m, Expected::StringLiteral)),
                    Some(me) => match after_keyword(s, skip_ws(s, me, false), "WITH"@) {
                        None => Ok(
                            (
                                Some(RowFormatView::Serde { serde_name: s.subrange(m, me), properties: Seq::empty() }),
                                me,
                            ),
                        ),
                        Some(x) => match after_keyword(s, x, "SERDEPROPERTIES"@) {
                            None => Err(parse_error(x, Expected::SerdeProperties)),
                            Some(y) => match pair_list_at(s, y) {
                                Err(e) => Err(e),
                                Ok((ps, z)) => Ok(
                                    (
                                        Some(RowFormatView::Serde { serde_name: s.subrange(m, me), properties: ps }),
                                        z,
                                    ),
                                ),
                            },
                        },
                    },
                },
            },
        },
    }
}

/// `STORED AS INPUTFORMAT 'class' OUTPUTFORMAT 'class'` at `i`, if the
/// clause is there.
pub open spec fn stored_as_at(s: Seq<char>, i: int) -> Result<(Option<StoredAsView>, int), Error> {
    match after_keyword(s, i, "STORED"@) {
        None => Ok((None, i)),
        Some(j) => match after_keyword(s, j, "AS"@) {
            None => Err(parse_error(j, Expected::As)),
            Some(k) => match after_keyword(s, k, "INPUTFORMAT"@) {
                None => Err(Error::UnsupportedConstruct { position: k as usize, construct: Construct::StorageFormat }),
                Some(m) => match string_end(s, m) {
                    None => Err(parse_error(m, Expected::StringLiteral)),
                    Some(me) => {
                        let n = skip_ws(s, me, false);
                        match after_keyword(s, n, "OUTPUTFORMAT"@) {
                            None => Err(parse_error(n, Expected::OutputFormat)),
                            Some(o) => match string_end(s, o) {
                                None => Err(parse_error(o, Expected::StringLiteral)),
                                Some(oe) => Ok(
                                    (
                                        Some(StoredAsView::InputOutputFormat {
                                            input_type: s.subrange(m, me),
                                            output_type: s.subrange(o, oe),
                                        }),
                                        oe,
                                    ),
                                ),
                            },
                        }
                    },
                },
            },
        },
    }
}

/// `LOCATION 'path'` at `i`, if the clause is there.
pub open spec fn location_at(s: Seq<char>, i: int) -> Result<(Option<Seq<char>>, int), Error> {
    match after_keyword(s, i, "LOCATION"@) {
        None => Ok((None, i)),
        Some(j) => match string_end(s, j) {
            None => Err(parse_error(j, Expected::StringLiteral)),
            Some(je) => Ok((Some(s.subrange(j, je)), je)),
        },
    }
}

/// `TBLPROPERTIES (...)` at `i`, if the clause is there.
pub open spec fn table_properties_at(s: Seq<char>, i: int) -> Result<(Seq<(Seq<char>, Seq<char>)>, int), Error> {
    match after_keyword(s, i, "TBLPROPERTIES"@) {
        None => Ok((Seq::empty(), i)),
        Some(j) => pair_list_at(s, j),
    }
}

/// `PARTITIONED BY (...)` at `i`, if the clause is there.
pub open spec fn partitioned_by_at(s: Seq<char>, i: int) -> Result<(Seq<ColumnView>, int), Error> {
    match after_keyword(s, i, "PARTITIONED"@) {
        None => Ok((Seq::empty(), i)),
        Some(j) => match after_keyword(s, j, "BY"@) {
            None => Err(parse_error(j, Expected::By)),
            Some(k) => column_list_at(s, k),
        },
    }
}

/// The column list right after the table name, if there is one.
pub open spec fn columns_at(s: Seq<char>, i: int) -> Result<(Seq<ColumnView>, int), Error> {
    if 0 <= i < s.len() && s[i] == '(' {
        column_list_at(s, i)
    } else {
        Ok((Seq::empty(), i))
    }
}

/// `CREATE [EXTERNAL] TABLE [database.]table`: the two names as written,
/// back-ticks included, and the position after them.
pub open spec fn header_of(s: Seq<char>) -> Result<(Option<Seq<char>>, Seq<char>, int), Error> {
    let i = skip_ws(s, 0, false);
    match after_keyword(s, i, "CREATE"@) {
        None => Err(parse_error(i, Expected::Create)),
        Some(j) => {
            let (k, wanted) = match after_keyword(s, j, "EXTERNAL"@) {
                Some(k) => (k, Expected::Table),
                None => (j, Expected::ExternalOrTable),
            };
            match after_keyword(s, k, "TABLE"@) {
                None => Err(parse_error(k, wanted)),
                Some(n) => match ident_end(s, n) {
                    None => Err(parse_error(n, Expected::Identifier)),
                    Some(ne) => if ne < s.len() && s[ne] == '.' {
                        match ident_end(s, ne + 1) {
                            None => Err(parse_error(ne + 1, Expected::Identifier)),
                            Some(te) => Ok((Some(s.subrange(n, ne)), s.subrange(ne + 1, te), te)),
                        }
                    } else {
                        Ok((None, s.subrange(n, ne), ne))
                    },
                },
            }
        },
    }
}

/// The statement that the text `s` holds, or why it holds none. The clauses
/// come in this order, each optional: the column list, `ROW FORMAT`,
/// `STORED AS`, `LOCATION`, `TBLPROPERTIES`, `PARTITIONED BY`. What follows
/// them is not read.
pub open spec fn statement_of(s: Seq<char>) -> Result<StatementView, Error> {
    match header_of(s) {
        Err(e) => Err(e),
        Ok((database_name, table_name, p0)) => match columns_at(s, skip_ws(s, p0, false)) {
            Err(e) => Err(e),
            Ok((columns, p1)) => match row_format_at(s, skip_ws(s, p1, false)) {
                Err(e) => Err(e),
                Ok((row_format, p2)) => match stored_as_at(s, skip_ws(s, p2, false)) {
                    Err(e) => Err(e),
                    Ok((stored_as, p3)) => match location_at(s, skip_ws(s, p3, false)) {
                        Err(e) => Err(e),
                        Ok((location, p4)) => match table_properties_at(s, skip_ws(s, p4, false)) {
                            Err(e) => Err(e),
                            Ok((table_properties, p5)) => match partitioned_by_at(s, skip_ws(s, p5, false)) {
                                Err(e) => Err(e),
                                Ok((partition_keys, _)) => Ok(
                                    StatementView {
                                        database_name,
                                        table_name,
                                        columns,
                                        partition_keys,
                                        row_format,
                                        stored_as,
                                        location,
                                        table_properties,
                                    },
                                ),
                            },
                        },
                    },
                },
            },
        },
    }
}

fn parse_row_format<'a>(ddl: &'a str, s: &Vec<char>, i: usize) -> (r: Result<(Option<RowFormat<'a>>, usize), Error>)
    requires
        s@ == ddl@,
        i <= s@.len(),
    ensures
        r matches Ok((_, e)) ==> e <= s@.len(),
        match r {
            Ok((f, e)) => row_format_at(s@, i as int) == Ok::<(Option<RowFormatView>, int), Error>(
                (opt_view(f), e as int),
            ),
            Err(er) => row_format_at(s@, i as int) == Err::<(Option<RowFormatView>, int), Error>(er),
        },
{
    let j = match expect_keyword(s, i, "ROW") {
        None => return Ok((None, i)),
        Some(j) => j,
    };
    let k = match expect_keyword(s, j, "FORMAT") {
        None => return Err(Error::ParseError { position: j, expected: Expected::Format }),
        Some(k) => k,
    };
    let m = match expect_keyword(s, k, "SERDE") {
        None => return Err(Error::UnsupportedConstruct { position: k, construct: Construct::RowFormat }),
        Some(m) => m,
    };
    let me = match scan_string(s, m) {
        None => return Err(Error::ParseError { position: m, expected: Expected::StringLiteral }),
        Some(me) => me,
    };
    let serde_name = ddl.substring_char(m, me);
    let w = skip_whitespace(s, me);
    let x = match expect_keyword(s, w, "WITH") {
        None => {
            let properties: Vec<(&'a str, &'a str)> = Vec::new();
            assert(pairs_view(properties@) =~= Seq::empty());
            return Ok((Some(RowFormat::Serde { serde_name, properties }), me));
        },
        Some(x) => x,
    };
    let y = match expect_keyword(s, x, "SERDEPROPERTIES") {
        None => return Err(Error::ParseError { position: x, expected: Expected::SerdeProperties }),
        Some(y) => y,
    };
    let (properties, z) = parse_pair_list(ddl, s, y)?;
    Ok((Some(RowFormat::Serde { serde_name, properties }), z))
}

fn parse_stored_as<'a>(ddl: &'a str, s: &Vec<char>, i: usize) -> (r: Result<(Option<StoredAs<'a>>, usize), Error>)
    requires
        s@ == ddl@,
        i <= s@.len(),
    ensures
        r matches Ok((_, e)) ==> e <= s@.len(),
        match r {
            Ok((f, e)) => stored_as_at(s@, i as int) == Ok::<(Option<StoredAsView>, int), Error>(
                (opt_view(f), e as int),
            ),
            Err(er) => stored_as_at(s@, i as int) == Err::<(Option<StoredAsView>, int), Error>(er),
        },
{
    let j = match expect_keyword(s, i, "STORED") {
        None => return Ok((None, i)),
        Some(j) => j,
    };
    let k = match expect_keyword(s, j, "AS") {
        None => return Err(Error::ParseError { position: j, expected: Expected::As }),
        Some(k) => k,
    };
    let m = match expect_keyword(s, k, "INPUTFORMAT") {
        None => return Err(Error::UnsupportedConstruct { position: k, construct: Construct::StorageFormat }),
        Some(m) => m,
    };
    let me = match scan_string(s, m) {
        None => return Err(Error::ParseError { position: m, expected: Expected::StringLiteral }),
        Some(me) => me,
    };
    let n = skip_whitespace(s, me);
    let o = match expect_keyword(s, n, "OUTPUTFORMAT") {
        None => return Err(Error::ParseError { position: n, expected: Expected::OutputFormat }),
        Some(o) => o,
    };
    match scan_string(s, o) {
        None => Err(Error::ParseError { position: o, expected: Expected::StringLiteral }),
        Some(oe) => Ok(
            (
                Some(StoredAs::InputOutputFormat {
                    input_type: ddl.substring_char(m, me),
                    output_type: ddl.substring_char(o, oe),
                }),
                oe,
            ),
        ),
    }
}

fn parse_location<'a>(ddl: &'a str, s: &Vec<char>, i: usize) -> (r: Result<(Option<&'a str>, usize), Error>)
    requires
        s@ == ddl@,
        i <= s@.len(),
    ensures
        r matches Ok((_, e)) ==> e <= s@.len(),
        match r {
            Ok((l, e)) => location_at(s@, i as int) == Ok::<(Option<Seq<char>>, int), Error>(
                (opt_str_view(l), e as int),
            ),
            Err(er) => location_at(s@, i as int) == Err::<(Option<Seq<char>>, int), Error>(er),
        },
{
    let j = match expect_keyword(s, i, "LOCATION") {
        None => return Ok((None, i)),
        Some(j) => j,
    };
    match scan_string(s, j) {
        None => Err(Error::ParseError { position: j, expected: Expected::StringLiteral }),
        Some(je) => Ok((Some(ddl.substring_char(j, je)), je)),
    }
}

fn parse_table_properties<'a>(ddl: &'a str, s: &Vec<char>, i: usize) -> (r: Result<(Vec<PropertyPair<'a>>, usize), Error>)
    requires
        s@ == ddl@,
        i <= s@.len(),
    ensures
        r matches Ok((_, e)) ==> e <= s@.len(),
        match r {
            Ok((v, e)) => table_properties_at(s@, i as int) == Ok::<(Seq<(Seq<char>, Seq<char>)>, int), Error>(
                (properties_view(v@), e as int),
            ),
            Err(er) => table_properties_at(s@, i as int) == Err::<(Seq<(Seq<char>, Seq<char>)>, int), Error>(er),
        },
{
    let mut props: Vec<PropertyPair<'a>> = Vec::new();
    assert(properties_view(props@) =~= Seq::empty());
    let j = match expect_keyword(s, i, "TBLPROPERTIES") {
        None => return Ok((props, i)),
        Some(j) => j,
    };
    let (pairs, e) = parse_pair_list(ddl, s, j)?;
    let mut n: usize = 0;
    while n < pairs.len()
        invariant
            n <= pairs@.len(),
            properties_view(props@) =~= pairs_view(pairs@).subrange(0, n as int),
        decreases pairs@.len() - n,
    {
        let (k, v) = pairs[n];
        let ghost prev = props@;
        props.push(PropertyPair(k, v));
        assert(properties_view(props@) =~= properties_view(prev).push((k@, v@)));
        n = n + 1;
    }
    assert(pairs_view(pairs@).subrange(0, n as int) =~= pairs_view(pairs@));
    Ok((props, e))
}

fn parse_partitioned_by<'a>(ddl: &'a str, s: &Vec<char>, i: usize) -> (r: Result<(Vec<TableColumn<'a>>, usize), Error>)
    requires
        s@ == ddl@,
        i <= s@.len(),
    ensures
        r matches Ok((_, e)) ==> e <= s@.len(),
        match r {
            Ok((v, e)) => partitioned_by_at(s@, i as int) == Ok::<(Seq<ColumnView>, int), Error>(
                (columns_view(v@), e as int),
            ),
            Err(er) => partitioned_by_at(s@, i as int) == Err::<(Seq<ColumnView>, int), Error>(er),
        },
{
    let j = match expect_keyword(s, i, "PARTITIONED") {
        None => {
            let v: Vec<TableColumn<'a>> = Vec::new();
            assert(columns_view(v@) =~= Seq::empty());
            return Ok((v, i));
        },
        Some(j) => j,
    };
    let k = match expect_keyword(s, j, "BY") {
        None => return Err(Error::ParseError { position: j, expected: Expected::By }),
        Some(k) => k,
    };
    parse_column_list(ddl, s, k)
}

fn parse_columns<'a>(ddl: &'a str, s: &Vec<char>, i: usize) -> (r: Result<(Vec<TableColumn<'a>>, usize), Error>)
    requires
        s@ == ddl@,
        i <= s@.len(),
    ensures
        r matches Ok((_, e)) ==> e <= s@.len(),
        match r {
            Ok((v, e)) => columns_at(s@, i as int) == Ok::<(Seq<ColumnView>, int), Error>(
                (columns_view(v@), e as int),
            ),
            Err(er) => columns_at(s@, i as int) == Err::<(Seq<ColumnView>, int), Error>(er),
        },
{
    if i < s.len() && s[i] == '(' {
        parse_column_list(ddl, s, i)
    } else {
        let v: Vec<TableColumn<'a>> = Vec::new();
        assert(columns_view(v@) =~= Seq::empty());
        Ok((v, i))
    }
}

fn parse_header<'a>(ddl: &'a str, s: &Vec<char>) -> (r: Result<(Option<&'a str>, &'a str, usize), Error>)
    requires
        s@ == ddl@,
    ensures
        match r {
            Ok((d, t, e)) => header_of(s@) == Ok::<(Option<Seq<char>>, Seq<char>, int), Error>(
                (opt_str_view(d), t@, e as int),
            ) && e <= s@.len(),
            Err(er) => header_of(s@) == Err::<(Option<Seq<char>>, Seq<char>, int), Error>(er),
        },
{
    let i = skip_whitespace(s, 0);
    let j = match expect_keyword(s, i, "CREATE") {
        None => return Err(Error::ParseError { position: i, expected: Expected::Create }),
        Some(j) => j,
    };
    let (k, wanted) = match expect_keyword(s, j, "EXTERNAL") {
        Some(k) => (k, Expected::Table),
        None => (j, Expected::ExternalOrTable),
    };
    let n = match expect_keyword(s, k, "TABLE") {
        None => return Err(Error::ParseError { position: k, expected: wanted }),
        Some(n) => n,
    };
    let ne = match scan_identifier(s, n) {
        None => return Err(Error::ParseError { position: n, expected: Expected::Identifier }),
        Some(ne) => ne,
    };
    if ne < s.len() && s[ne] == '.' {
        match scan_identifier(s, ne + 1) {
            None => Err(Error::ParseError { position: ne + 1, expected: Expected::Identifier }),
            Some(te) => Ok((Some(ddl.substring_char(n, ne)), ddl.substring_char(ne + 1, te), te)),
        }
    } else {
        Ok((None, ddl.substring_char(n, ne), ne))
    }
}

/// A `CREATE TABLE` statement. Every string is a span of the text that was
/// parsed, as written there.
#[derive(Debug, Default, PartialEq, Eq, PartialOrd, Ord)]
pub struct CreateTableStatement<'p> {
    database_name: Option<&'p str>,
    table_name: &'p str,
    columns: Vec<TableColumn<'p>>,
    partition_keys: Vec<TableColumn<'p>>,
    row_format: Option<RowFormat<'p>>,
    stored_as: Option<StoredAs<'p>>,
    location: Option<&'p str>,
    table_properties: Vec<PropertyPair<'p>>,
}

impl<'p> View for CreateTableStatement<'p> {
    type V = StatementView;

    closed spec fn view(&self) -> StatementView {
        StatementView {
            database_name: opt_str_view(self.database_name),
            table_name: self.table_name@,
            columns: columns_view(self.columns@),
            partition_keys: columns_view(self.partition_keys@),
            row_format: opt_view(self.row_format),
            stored_as: opt_view(self.stored_as),
            location: opt_str_view(self.location),
            table_properties: properties_view(self.table_properties@),
        }
    }
}

/// Parses one `CREATE TABLE` statement.
///
/// The result is exactly what the grammar `statement_of` gives for the
/// text: the statement, or the first error met, reading left to right.
pub fn parse_hive_create_table<'a>(ddl: &'a str) -> (r: Result<CreateTableStatement<'a>, Error>)
    ensures
        match r {
            Ok(st) => statement_of(ddl@) == Ok::<StatementView, Error>(st@),
            Err(e) => statement_of(ddl@) == Err::<StatementView, Error>(e),
        },
        r matches Ok(st) ==> st@.table_name.len() > 0,
{
    let s = chars_of(ddl);
    let (database_name, table_name, p0) = parse_header(ddl, &s)?;
    let (columns, p1) = parse_columns(ddl, &s, skip_whitespace(&s, p0))?;
    let (row_format, p2) = parse_row_format(ddl, &s, skip_whitespace(&s, p1))?;
    let (stored_as, p3) = parse_stored_as(ddl, &s, skip_whitespace(&s, p2))?;
    let (location, p4) = parse_location(ddl, &s, skip_whitespace(&s, p3))?;
    let (table_properties, p5) = parse_table_properties(ddl, &s, skip_whitespace(&s, p4))?;
    let (partition_keys, _) = parse_partitioned_by(ddl, &s, skip_whitespace(&s, p5))?;
    proof {
        law_table_name_nonempty(ddl@);
    }
    Ok(
        CreateTableStatement {
            database_name,
            table_name,
            columns,
            partition_keys,
            row_format,
            stored_as,
            location,
            table_properties,
        },
    )
}

pub open spec fn is_quote(c: char) -> bool {
    c == '\'' || c == '"'
}

/// `s` with its escapes resolved: a backslash is dropped and the character
/// after it is kept as it is, a backslash included. A backslash at the very
/// end escapes nothing and is dropped.
pub open spec fn unescaped(s: Seq<char>) -> Seq<char>
    decreases s.len(),
{
    if s.len() == 0 {
        s
    } else if s[0] == '\\' {
        if s.len() == 1 {
            Seq::empty()
        } else {
            seq![s[1]] + unescaped(s.subrange(2, s.len() as int))
        }
    } else {
        seq![s[0]] + unescaped(s.subrange(1, s.len() as int))
    }
}

/// `s` starts and ends with the same quote character, and these are two
/// characters.
pub open spec fn is_quoted(s: Seq<char>) -> bool {
    s.len() >= 2 && is_quote(s[0]) && s.last() == s[0]
}

/// A literal as its reader sees it: where a pair of matching quotes
/// surrounds it, they are dropped and its escapes are resolved; anything
/// else is left as it is.
pub open spec fn unquoted(s: Seq<char>) -> Seq<char> {
    if is_quoted(s) {
        unescaped(s.subrange(1, s.len() - 1))
    } else {
        s
    }
}

/// Strips one layer of quotes from a literal and resolves its escapes.
pub fn clean_parsed_string(s: &str) -> (r: String)
    ensures
        r@ == unquoted(s@),
{
    let n = s.unicode_len();
    if n < 2 {
        return s.to_owned();
    }
    let first = s.get_char(0);
    if !((first == '\'' || first == '"') && s.get_char(n - 1) == first) {
        return s.to_owned();
    }
    let end: usize = n - 1;
    let ghost body = s@.subrange(1, end as int);
    let mut r = String::new();
    let mut i: usize = 1;
    assert(s@.subrange(1, end as int) =~= body);
    while i < end
        invariant
            n == s@.len(),
            end == n - 1,
            1 <= i <= end,
            body == s@.subrange(1, end as int),
            unescaped(body) == r@ + unescaped(s@.subrange(i as int, end as int)),
        decreases end - i,
    {
        let ghost rest = s@.subrange(i as int, end as int);
        let c = s.get_char(i);
        if c == '\\' {
            if i + 1 < end {
                assert(rest.subrange(2, rest.len() as int) =~= s@.subrange(i + 2, end as int));
                r.append(s.substring_char(i + 1, i + 2));
                i = i + 2;
            } else {
                assert(unescaped(rest) =~= Seq::<char>::empty());
                assert(unescaped(s@.subrange(end as int, end as int)) =~= Seq::<char>::empty());
                i = end;
            }
        } else {
            assert(rest.subrange(1, rest.len() as int) =~= s@.subrange(i + 1, end as int));
            r.append(s.substring_char(i, i + 1));
            i = i + 1;
        }
        assert(r@ + unescaped(s@.subrange(i as int, end as int)) =~= unescaped(body));
    }
    assert(unescaped(s@.subrange(end as int, end as int)) =~= Seq::<char>::empty());
    assert(r@ =~= unescaped(body));
    r
}

impl<'l> PropertyPair<'l> {
    /// The key, without its quotes.
    pub fn key(&self) -> (r: String)
        ensures
            r@ == unquoted(self@.0),
    {
        clean_parsed_string(self.0)
    }

    /// The value, without its quotes.
    pub fn value(&self) -> (r: String)
        ensures
            r@ == unquoted(self@.1),
    {
        clean_parsed_string(self.1)
    }

    /// The key as written, quotes included.
    pub fn raw_key(&self) -> (r: &'l str)
        ensures
            r@ == self@.0,
    {
        self.0
    }

    /// The value as written, quotes included.
    pub fn raw_value(&self) -> (r: &'l str)
        ensures
            r@ == self@.1,
    {
        self.1
    }
}

impl<'p> TableColumn<'p> {
    pub fn name(&self) -> (r: &'p str)
        ensures
            r@ == self@.name,
    {
        self.name
    }

    pub fn data_type(&self) -> (r: &'p str)
        ensures
            r@ == self@.data_type,
    {
        self.data_type
    }

    pub fn comment(&self) -> (r: Option<&'p str>)
        ensures
            opt_str_view(r) == self@.comment,
    {
        self.comment
    }
}

impl<'p> CreateTableStatement<'p> {
    pub fn database_name(&self) -> (r: Option<&'p str>)
        ensures
            opt_str_view(r) == self@.database_name,
    {
        self.database_name
    }

    pub fn table_name(&self) -> (r: &'p str)
        ensures
            r@ == self@.table_name,
    {
        self.table_name
    }

    pub fn columns(&self) -> (r: &[TableColumn<'p>])
        ensures
            columns_view(r@) == self@.columns,
    {
        self.columns.as_slice()
    }

    pub fn partition_keys(&self) -> (r: &[TableColumn<'p>])
        ensures
            columns_view(r@) == self@.partition_keys,
    {
        self.partition_keys.as_slice()
    }

    pub fn row_format(&self) -> (r: &Option<RowFormat<'p>>)
        ensures
            opt_view(*r) == self@.row_format,
    {
        &self.row_format
    }

    pub fn stored_as(&self) -> (r: &Option<StoredAs<'p>>)
        ensures
            opt_view(*r) == self@.stored_as,
    {
        &self.stored_as
    }

    pub fn location(&self) -> (r: Option<&'p str>)
        ensures
            opt_str_view(r) == self@.location,
    {
        self.location
    }

    pub fn table_properties(&self) -> (r: &[PropertyPair<'p>])
        ensures
            properties_view(r@) == self@.table_properties,
    {
        self.table_properties.as_slice()
    }
}

} // verus!
