//! Properties of the parser that hold of every input.
use vstd::prelude::*;

use crate::create_table::{
    column_at, column_list_at, columns_at, columns_from, header_of, is_quote,
    lemma_column_bounds, partitioned_by_at, row_format_at, statement_of, stored_as_at,
    location_at, table_properties_at, unescaped, unquoted, ColumnView, is_quoted, StatementView,
};
use crate::{Construct, Error};
use crate::lexer::{
    after_keyword, ident_end, keyword_at, lemma_skip_ws_bounds, lemma_token_bounds, skip_ws,
};

verus! {

/// `cols` are the columns that the grammar reads at the positions `ps`, one
/// for one, and the positions go strictly forward through the text.
pub open spec fn read_in_order(s: Seq<char>, ps: Seq<int>, cols: Seq<ColumnView>) -> bool {
    &&& ps.len() == cols.len()
    &&& forall|k: int| 0 <= k < ps.len() - 1 ==> #[trigger] ps[k] < ps[k + 1]
    &&& forall|k: int|
        0 <= k < ps.len() ==> column_at(s, #[trigger] ps[k]) is Ok && column_at(s, ps[k])->Ok_0.0
            == cols[k]
}

proof fn lemma_columns_from_order(s: Seq<char>, i: int, acc: Seq<ColumnView>) -> (ps: Seq<int>)
    requires
        columns_from(s, i, acc) is Ok,
    ensures
        ({
            let cols = columns_from(s, i, acc)->Ok_0.0;
            &&& cols.len() > acc.len()
            &&& cols.subrange(0, acc.len() as int) == acc
            &&& ps.len() > 0
            &&& ps[0] == i
            &&& read_in_order(s, ps, cols.subrange(acc.len() as int, cols.len() as int))
        }),
    decreases s.len() - i,
{
    let (c, e) = column_at(s, i)->Ok_0;
    lemma_column_bounds(s, i);
    lemma_skip_ws_bounds(s, e, false);
    let j = skip_ws(s, e, false);
    let cols = columns_from(s, i, acc)->Ok_0.0;
    if 0 <= j < s.len() && s[j] == ',' {
        lemma_skip_ws_bounds(s, j + 1, false);
        let k = skip_ws(s, j + 1, false);
        let rest = lemma_columns_from_order(s, k, acc.push(c));
        let ps = seq![i].add(rest);
        assert(cols.subrange(0, acc.len() as int) =~= cols.subrange(0, acc.len() + 1int).drop_last());
        let tail = cols.subrange(acc.len() as int, cols.len() as int);
        let tail2 = cols.subrange(acc.len() + 1int, cols.len() as int);
        assert(tail2 =~= tail.drop_first());
        assert(tail[0] == acc.push(c)[acc.len() as int]);
        assert forall|m: int| 0 <= m < ps.len() - 1 implies #[trigger] ps[m] < ps[m + 1] by {
            if m > 0 {
                assert(rest[m - 1] < rest[m]);
            }
        }
        assert forall|m: int| 0 <= m < ps.len() implies column_at(s, #[trigger] ps[m]) is Ok
            && column_at(s, ps[m])->Ok_0.0 == tail[m] by {
            if m > 0 {
                assert(ps[m] == rest[m - 1]);
                assert(tail[m] == tail2[m - 1]);
            }
        }
        ps
    } else {
        let ps = seq![i];
        assert(cols == acc.push(c));
        assert(cols.subrange(0, acc.len() as int) =~= acc);
        assert(cols.subrange(acc.len() as int, cols.len() as int) =~= seq![c]);
        ps
    }
}

proof fn lemma_column_list_order(s: Seq<char>, i: int)
    requires
        column_list_at(s, i) is Ok,
    ensures
        exists|ps: Seq<int>| #[trigger] read_in_order(s, ps, column_list_at(s, i)->Ok_0.0),
{
    lemma_skip_ws_bounds(s, i + 1, false);
    let j = skip_ws(s, i + 1, false);
    let cols = column_list_at(s, i)->Ok_0.0;
    if j < s.len() && s[j] == ')' {
        let ps = Seq::<int>::empty();
        assert(read_in_order(s, ps, cols));
    } else {
        let ps = lemma_columns_from_order(s, j, Seq::empty());
        let all = columns_from(s, j, Seq::empty())->Ok_0.0;
        assert(all.subrange(0, all.len() as int) =~= all);
        assert(read_in_order(s, ps, cols));
    }
}

/// Every statement that parses has a table name that is not empty.
pub proof fn law_table_name_nonempty(s: Seq<char>)
    requires
        statement_of(s) is Ok,
    ensures
        statement_of(s)->Ok_0.table_name.len() > 0,
{
    lemma_header(s);
}

/// The columns and the partition keys of a statement that parses are the
/// column declarations of its text, any number of them, in the order in
/// which the text writes them.
pub proof fn law_columns_in_source_order(s: Seq<char>)
    requires
        statement_of(s) is Ok,
    ensures
        exists|ps: Seq<int>| #[trigger] read_in_order(s, ps, statement_of(s)->Ok_0.columns),
        exists|ps: Seq<int>| #[trigger] read_in_order(s, ps, statement_of(s)->Ok_0.partition_keys),
{
    let p0 = header_of(s)->Ok_0.2;
    let a = skip_ws(s, p0, false);
    assert(columns_at(s, a) is Ok);
    if 0 <= a < s.len() && s[a] == '(' {
        lemma_column_list_order(s, a);
    } else {
        assert(read_in_order(s, Seq::empty(), columns_at(s, a)->Ok_0.0));
    }
    let p1 = columns_at(s, a)->Ok_0.1;
    let b = skip_ws(s, p1, false);
    assert(row_format_at(s, b) is Ok);
    let c = skip_ws(s, row_format_at(s, b)->Ok_0.1, false);
    assert(stored_as_at(s, c) is Ok);
    let d = skip_ws(s, stored_as_at(s, c)->Ok_0.1, false);
    assert(location_at(s, d) is Ok);
    let f = skip_ws(s, location_at(s, d)->Ok_0.1, false);
    assert(table_properties_at(s, f) is Ok);
    let g = skip_ws(s, table_properties_at(s, f)->Ok_0.1, false);
    assert(partitioned_by_at(s, g) is Ok);
    assert(statement_of(s)->Ok_0.columns == columns_at(s, a)->Ok_0.0);
    assert(statement_of(s)->Ok_0.partition_keys == partitioned_by_at(s, g)->Ok_0.0);
    if keyword_at(s, g, "PARTITIONED"@) {
        let j = skip_ws(s, g + "PARTITIONED"@.len(), false);
        let k = skip_ws(s, j + "BY"@.len(), false);
        lemma_column_list_order(s, k);
    } else {
        assert(read_in_order(s, Seq::empty(), partitioned_by_at(s, g)->Ok_0.0));
    }
}

proof fn lemma_header(s: Seq<char>)
    requires
        header_of(s) is Ok,
    ensures
        header_of(s)->Ok_0.1.len() > 0,
{
    let i = skip_ws(s, 0, false);
    let j = skip_ws(s, i + "CREATE"@.len(), false);
    let k = match after_keyword(s, j, "EXTERNAL"@) {
        Some(k) => k,
        None => j,
    };
    lemma_skip_ws_bounds(s, k + "TABLE"@.len(), false);
    let n = skip_ws(s, k + "TABLE"@.len(), false);
    lemma_token_bounds(s, n);
    if let Some(ne) = ident_end(s, n) {
        if ne < s.len() && s[ne] == '.' {
            lemma_token_bounds(s, ne + 1);
        }
    }
}

/// A literal that is not surrounded by a matching pair of quotes reads as
/// it is written.
pub proof fn law_unquote_bare(s: Seq<char>)
    requires
        !is_quoted(s),
    ensures
        unquoted(s) == s,
{
}

proof fn lemma_no_backslashes(s: Seq<char>)
    requires
        forall|k: int| 0 <= k < s.len() ==> s[k] != '\\',
    ensures
        unescaped(s) == s,
    decreases s.len(),
{
    if s.len() > 0 {
        let tail = s.subrange(1, s.len() as int);
        lemma_no_backslashes(tail);
        assert(seq![s[0]] + tail =~= s);
    }
}

/// A literal in quotes with no backslash in it reads as the text between
/// its quotes.
pub proof fn law_unquote_quoted(q: char, body: Seq<char>)
    requires
        is_quote(q),
        forall|k: int| 0 <= k < body.len() ==> body[k] != '\\',
    ensures
        unquoted(seq![q] + body + seq![q]) == body,
{
    let s = seq![q] + body + seq![q];
    assert(s.subrange(1, s.len() - 1) =~= body);
    lemma_no_backslashes(body);
}

/// An escape keeps the character that it escapes: a backslash before any
/// character `c`, a quote or a backslash too, reads as `c` alone.
pub proof fn law_unescape_keeps_escaped(c: char, rest: Seq<char>)
    ensures
        unescaped(seq!['\\', c] + rest) == seq![c] + unescaped(rest),
{
    let s = seq!['\\', c] + rest;
    assert(s.subrange(2, s.len() as int) =~= rest);
}

/// Where the clause `STORED AS` would start in `s`: the header, the column
/// list and the row format before it are read without error.
pub open spec fn stored_as_position(s: Seq<char>) -> Option<int> {
    match header_of(s) {
        Err(_) => None,
        Ok((_, _, p0)) => match columns_at(s, skip_ws(s, p0, false)) {
            Err(_) => None,
            Ok((_, p1)) => match row_format_at(s, skip_ws(s, p1, false)) {
                Err(_) => None,
                Ok((_, p2)) => Some(skip_ws(s, p2, false)),
            },
        },
    }
}

/// The position of a storage-format shorthand in `s` (`STORED AS ORC`,
/// `STORED AS PARQUET`, ...): `STORED AS` stands where the clause starts and
/// is followed by anything but `INPUTFORMAT`.
pub open spec fn storage_shorthand_at(s: Seq<char>) -> Option<int> {
    match stored_as_position(s) {
        None => None,
        Some(c) => match after_keyword(s, c, "STORED"@) {
            None => None,
            Some(j) => match after_keyword(s, j, "AS"@) {
                None => None,
                Some(k) => if keyword_at(s, k, "INPUTFORMAT"@) {
                    None
                } else {
                    Some(k)
                },
            },
        },
    }
}

/// A statement with a storage-format shorthand is refused as an unsupported
/// storage format, at the position of the shorthand; it is neither read
/// without its storage format nor refused as a parse error.
pub proof fn law_storage_shorthand_unsupported(s: Seq<char>, k: int)
    requires
        storage_shorthand_at(s) == Some(k),
    ensures
        statement_of(s) == Err::<StatementView, Error>(
            Error::UnsupportedConstruct { position: k as usize, construct: Construct::StorageFormat },
        ),
{
}

} // verus!
