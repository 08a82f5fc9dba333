//! Character classes and token scanners of the DDL grammar.
//!
//! Every scanner works on the statement as a sequence of characters and
//! returns character positions. Each executable scanner is proved equal to
//! the spec function of the same name.
use vstd::prelude::*;

verus! {

pub open spec fn is_ws(c: char) -> bool {
    c == ' ' || c == '\t' || c == '\n' || c == '\r'
}

pub open spec fn is_ident_start(c: char) -> bool {
    ('a' <= c && c <= 'z') || ('A' <= c && c <= 'Z') || c == '_'
}

pub open spec fn is_ident_char(c: char) -> bool {
    is_ident_start(c) || ('0' <= c && c <= '9')
}

/// Position of the first character at or after `i` that is neither
/// whitespace nor part of a `--` comment running to the end of its line.
pub open spec fn skip_ws(s: Seq<char>, i: int, in_comment: bool) -> int
    decreases s.len() - i,
{
    if i < 0 || i >= s.len() {
        i
    } else if in_comment {
        skip_ws(s, i + 1, s[i] != '\n')
    } else if is_ws(s[i]) {
        skip_ws(s, i + 1, false)
    } else if s[i] == '-' && i + 1 < s.len() && s[i + 1] == '-' {
        skip_ws(s, i + 2, true)
    } else {
        i
    }
}

pub proof fn lemma_skip_ws_bounds(s: Seq<char>, i: int, in_comment: bool)
    requires
        0 <= i <= s.len(),
    ensures
        i <= skip_ws(s, i, in_comment) <= s.len(),
    decreases s.len() - i,
{
    if i < s.len() {
        if in_comment {
            lemma_skip_ws_bounds(s, i + 1, s[i] != '\n');
        } else if is_ws(s[i]) {
            lemma_skip_ws_bounds(s, i + 1, false);
        } else if s[i] == '-' && i + 1 < s.len() && s[i + 1] == '-' {
            lemma_skip_ws_bounds(s, i + 2, true);
        }
    }
}

pub fn skip_whitespace(s: &Vec<char>, i: usize) -> (r: usize)
    requires
        i <= s@.len(),
    ensures
        r == skip_ws(s@, i as int, false),
        i <= r <= s@.len(),
{
    let mut j: usize = i;
    let mut in_comment = false;
    while j < s.len()
        invariant
            i <= j <= s@.len(),
            skip_ws(s@, j as int, in_comment) == skip_ws(s@, i as int, false),
        decreases s@.len() - j,
    {
        let c = s[j];
        if in_comment {
            in_comment = c != '\n';
            j = j + 1;
        } else if c == ' ' || c == '\t' || c == '\n' || c == '\r' {
            j = j + 1;
        } else if c == '-' && j + 1 < s.len() && s[j + 1] == '-' {
            in_comment = true;
            j = j + 2;
        } else {
            return j;
        }
    }
    j
}

/// `c` is the letter `k`, in either case (`k` is an upper-case keyword letter).
pub open spec fn same_letter(c: char, k: char) -> bool {
    c == k || ('A' <= k && k <= 'Z' && c as u32 == k as u32 + 32)
}

/// The keyword `k` stands at `i`, in any case, and is not the start of a
/// longer word.
pub open spec fn keyword_at(s: Seq<char>, i: int, k: Seq<char>) -> bool {
    &&& 0 <= i
    &&& i + k.len() <= s.len()
    &&& forall|j: int| 0 <= j < k.len() ==> same_letter(#[trigger] s[i + j], k[j])
    &&& (i + k.len() == s.len() || !is_ident_char(s[i + k.len()]))
}

pub fn match_keyword(s: &Vec<char>, i: usize, k: &str) -> (r: bool)
    requires
        i <= s@.len(),
    ensures
        r == keyword_at(s@, i as int, k@),
{
    let n = k.unicode_len();
    if n > s.len() - i {
        return false;
    }
    let e = i + n;
    let mut j: usize = 0;
    let mut p: usize = i;
    while j < n
        invariant
            n == k@.len(),
            e == i + n,
            e <= s@.len(),
            j <= n,
            p == i + j,
            forall|m: int| 0 <= m < j ==> same_letter(#[trigger] s@[i + m], k@[m]),
        decreases n - j,
    {
        let c = s[p];
        let kc = k.get_char(j);
        if !(c == kc || ('A' <= kc && kc <= 'Z' && c as u32 == kc as u32 + 32)) {
            assert(!same_letter(s@[i + j as int], k@[j as int]));
            return false;
        }
        j = j + 1;
        p = p + 1;
    }
    if e < s.len() {
        let c = s[e];
        !(('a' <= c && c <= 'z') || ('A' <= c && c <= 'Z') || c == '_' || ('0' <= c && c <= '9'))
    } else {
        true
    }
}

/// A position that a scanner returned, as a mathematical integer.
pub open spec fn opt_pos(r: Option<usize>) -> Option<int> {
    match r {
        Some(e) => Some(e as int),
        None => None,
    }
}

/// End of the run of identifier characters that starts at `i`.
pub open spec fn word_end(s: Seq<char>, i: int) -> int
    decreases s.len() - i,
{
    if i < 0 || i >= s.len() || !is_ident_char(s[i]) {
        i
    } else {
        word_end(s, i + 1)
    }
}

pub fn scan_word(s: &Vec<char>, i: usize) -> (r: usize)
    requires
        i <= s@.len(),
    ensures
        r == word_end(s@, i as int),
        i <= r <= s@.len(),
{
    let mut j: usize = i;
    while j < s.len()
        invariant
            i <= j <= s@.len(),
            word_end(s@, j as int) == word_end(s@, i as int),
        decreases s@.len() - j,
    {
        let c = s[j];
        if !(('a' <= c && c <= 'z') || ('A' <= c && c <= 'Z') || c == '_' || ('0' <= c && c <= '9')) {
            return j;
        }
        j = j + 1;
    }
    j
}

/// Position just past the first `close` at or after `i`.
pub open spec fn close_of(s: Seq<char>, i: int, close: char) -> Option<int>
    decreases s.len() - i,
{
    if i < 0 || i >= s.len() {
        None
    } else if s[i] == close {
        Some(i + 1)
    } else {
        close_of(s, i + 1, close)
    }
}

/// An identifier at `i`: back-tick quoted, or a word that starts with a
/// letter or `_`. Gives the position just past it.
pub open spec fn ident_end(s: Seq<char>, i: int) -> Option<int> {
    if i < 0 || i >= s.len() {
        None
    } else if s[i] == '`' {
        close_of(s, i + 1, '`')
    } else if is_ident_start(s[i]) {
        Some(word_end(s, i + 1))
    } else {
        None
    }
}

pub fn scan_identifier(s: &Vec<char>, i: usize) -> (r: Option<usize>)
    requires
        i <= s@.len(),
    ensures
        r matches Some(e) ==> i < e <= s@.len(),
        opt_pos(r) == ident_end(s@, i as int),
{
    if i >= s.len() {
        return None;
    }
    let c = s[i];
    if c == '`' {
        let mut j: usize = i + 1;
        while j < s.len()
            invariant
                i < j <= s@.len(),
                s@[i as int] == '`',
                close_of(s@, j as int, '`') == close_of(s@, i + 1, '`'),
            decreases s@.len() - j,
        {
            if s[j] == '`' {
                assert(close_of(s@, j as int, '`') == Some(j + 1));
                return Some(j + 1);
            }
            j = j + 1;
        }
        None
    } else if ('a' <= c && c <= 'z') || ('A' <= c && c <= 'Z') || c == '_' {
        Some(scan_word(s, i + 1))
    } else {
        None
    }
}

/// Position just past the closing quote `q` of a string literal whose body
/// starts at `i`; a backslash escapes the character after it.
pub open spec fn string_close(s: Seq<char>, i: int, q: char) -> Option<int>
    decreases s.len() - i,
{
    if i < 0 || i >= s.len() {
        None
    } else if s[i] == q {
        Some(i + 1)
    } else if s[i] == '\\' {
        if i + 1 >= s.len() {
            None
        } else {
            string_close(s, i + 2, q)
        }
    } else {
        string_close(s, i + 1, q)
    }
}

/// A string literal in single or double quotes at `i`.
pub open spec fn string_end(s: Seq<char>, i: int) -> Option<int> {
    if 0 <= i < s.len() && (s[i] == '\'' || s[i] == '"') {
        string_close(s, i + 1, s[i])
    } else {
        None
    }
}

pub fn scan_string(s: &Vec<char>, i: usize) -> (r: Option<usize>)
    requires
        i <= s@.len(),
    ensures
        r matches Some(e) ==> i < e <= s@.len(),
        opt_pos(r) == string_end(s@, i as int),
{
    if i >= s.len() {
        return None;
    }
    let q = s[i];
    if q != '\'' && q != '"' {
        return None;
    }
    let mut j: usize = i + 1;
    while j < s.len()
        invariant
            i < j <= s@.len(),
            q == s@[i as int],
            q == '\'' || q == '"',
            string_close(s@, j as int, q) == string_close(s@, i + 1, q),
        decreases s@.len() - j,
    {
        let c = s[j];
        if c == q {
            assert(string_close(s@, j as int, q) == Some(j + 1));
            return Some(j + 1);
        } else if c == '\\' {
            if j + 1 >= s.len() {
                assert(string_close(s@, j + 2, q) is None);
                return None;
            }
            j = j + 2;
        } else {
            j = j + 1;
        }
    }
    None
}

pub open spec fn is_open_bracket(c: char) -> bool {
    c == '(' || c == '<'
}

pub open spec fn is_close_bracket(c: char) -> bool {
    c == ')' || c == '>'
}

/// The bracket that closes the open bracket `c`.
pub open spec fn closer_of(c: char) -> char {
    if c == '(' {
        ')'
    } else {
        '>'
    }
}

/// Position just past the bracket that closes a group whose body starts at
/// `i`; `open` holds the closing brackets still owed, innermost last. Round
/// and angle brackets nest, and each closes only its own kind.
pub open spec fn group_close(s: Seq<char>, i: int, open: Seq<char>) -> Option<int>
    decreases s.len() - i,
{
    if i < 0 || i >= s.len() || open.len() == 0 {
        None
    } else if is_open_bracket(s[i]) {
        group_close(s, i + 1, open.push(closer_of(s[i])))
    } else if is_close_bracket(s[i]) {
        if s[i] != open.last() {
            None
        } else if open.len() == 1 {
            Some(i + 1)
        } else {
            group_close(s, i + 1, open.drop_last())
        }
    } else {
        group_close(s, i + 1, open)
    }
}

/// A data type at `i`: a word, and right after it an optional bracketed
/// parameter list, commas included (`DECIMAL(18, 2)`, `map<string,int>`).
pub open spec fn type_end(s: Seq<char>, i: int) -> Option<int> {
    if i < 0 || i >= s.len() || !is_ident_start(s[i]) {
        None
    } else {
        let w = word_end(s, i + 1);
        if w < s.len() && is_open_bracket(s[w]) {
            group_close(s, w + 1, seq![closer_of(s[w])])
        } else {
            Some(w)
        }
    }
}

pub fn scan_type(s: &Vec<char>, i: usize) -> (r: Option<usize>)
    requires
        i <= s@.len(),
    ensures
        r matches Some(e) ==> i < e <= s@.len(),
        opt_pos(r) == type_end(s@, i as int),
{
    if i >= s.len() {
        return None;
    }
    let c = s[i];
    if !(('a' <= c && c <= 'z') || ('A' <= c && c <= 'Z') || c == '_') {
        return None;
    }
    let w = scan_word(s, i + 1);
    if w >= s.len() || !(s[w] == '(' || s[w] == '<') {
        return Some(w);
    }
    let first: char = if s[w] == '(' { ')' } else { '>' };
    let mut open: Vec<char> = vec![first];
    let mut j: usize = w + 1;
    assert(open@ =~= seq![closer_of(s@[w as int])]);
    while j < s.len()
        invariant
            i < j <= s@.len(),
            open@.len() >= 1,
            is_ident_start(s@[i as int]),
            w == word_end(s@, i + 1),
            w < s@.len(),
            is_open_bracket(s@[w as int]),
            group_close(s@, j as int, open@) == group_close(s@, w + 1, seq![closer_of(s@[w as int])]),
        decreases s@.len() - j,
    {
        let c = s[j];
        if c == '(' || c == '<' {
            let closer: char = if c == '(' { ')' } else { '>' };
            open.push(closer);
        } else if c == ')' || c == '>' {
            let n = open.len();
            if c != open[n - 1] {
                return None;
            }
            if n == 1 {
                assert(group_close(s@, j as int, open@) == Some(j + 1));
                return Some(j + 1);
            }
            open.pop();
        }
        j = j + 1;
    }
    None
}

pub proof fn lemma_word_end_bounds(s: Seq<char>, i: int)
    requires
        0 <= i <= s.len(),
    ensures
        i <= word_end(s, i) <= s.len(),
    decreases s.len() - i,
{
    if i < s.len() && is_ident_char(s[i]) {
        lemma_word_end_bounds(s, i + 1);
    }
}

pub proof fn lemma_close_of_bounds(s: Seq<char>, i: int, close: char)
    requires
        0 <= i,
    ensures
        close_of(s, i, close) matches Some(e) ==> i < e <= s.len(),
    decreases s.len() - i,
{
    if i < s.len() && s[i] != close {
        lemma_close_of_bounds(s, i + 1, close);
    }
}

pub proof fn lemma_string_close_bounds(s: Seq<char>, i: int, q: char)
    requires
        0 <= i,
    ensures
        string_close(s, i, q) matches Some(e) ==> i < e <= s.len(),
    decreases s.len() - i,
{
    if i < s.len() && s[i] != q {
        if s[i] == '\\' {
            if i + 1 < s.len() {
                lemma_string_close_bounds(s, i + 2, q);
            }
        } else {
            lemma_string_close_bounds(s, i + 1, q);
        }
    }
}

pub proof fn lemma_group_close_bounds(s: Seq<char>, i: int, open: Seq<char>)
    requires
        0 <= i,
    ensures
        group_close(s, i, open) matches Some(e) ==> i < e <= s.len(),
    decreases s.len() - i,
{
    if i < s.len() && open.len() > 0 {
        if is_open_bracket(s[i]) {
            lemma_group_close_bounds(s, i + 1, open.push(closer_of(s[i])));
        } else if is_close_bracket(s[i]) {
            if s[i] == open.last() && open.len() > 1 {
                lemma_group_close_bounds(s, i + 1, open.drop_last());
            }
        } else {
            lemma_group_close_bounds(s, i + 1, open);
        }
    }
}

/// Each token scanner, where it matches, moves forward and stays in the input.
pub proof fn lemma_token_bounds(s: Seq<char>, i: int)
    requires
        0 <= i <= s.len(),
    ensures
        ident_end(s, i) matches Some(e) ==> i < e <= s.len(),
        string_end(s, i) matches Some(e) ==> i < e <= s.len(),
        type_end(s, i) matches Some(e) ==> i < e <= s.len(),
{
    if i < s.len() {
        lemma_close_of_bounds(s, i + 1, '`');
        lemma_word_end_bounds(s, i + 1);
        lemma_string_close_bounds(s, i + 1, s[i]);
        let w = word_end(s, i + 1);
        if w < s.len() {
            lemma_group_close_bounds(s, w + 1, seq![closer_of(s[w])]);
        }
    }
}

/// Where the keyword `k` stands at `i`: the position of the next token after it.
pub open spec fn after_keyword(s: Seq<char>, i: int, k: Seq<char>) -> Option<int> {
    if keyword_at(s, i, k) {
        Some(skip_ws(s, i + k.len(), false))
    } else {
        None
    }
}

pub fn expect_keyword(s: &Vec<char>, i: usize, k: &str) -> (r: Option<usize>)
    requires
        i <= s@.len(),
    ensures
        r matches Some(e) ==> i + k@.len() <= e <= s@.len(),
        opt_pos(r) == after_keyword(s@, i as int, k@),
{
    if match_keyword(s, i, k) {
        let n = k.unicode_len();
        let len = s.len();
        assert(i + n <= len);
        Some(skip_whitespace(s, i + n))
    } else {
        None
    }
}

/// Where the character `c` stands at `i`: the position of the next token after it.
pub open spec fn after_symbol(s: Seq<char>, i: int, c: char) -> Option<int> {
    if 0 <= i < s.len() && s[i] == c {
        Some(skip_ws(s, i + 1, false))
    } else {
        None
    }
}

pub fn expect_symbol(s: &Vec<char>, i: usize, c: char) -> (r: Option<usize>)
    requires
        i <= s@.len(),
    ensures
        r matches Some(e) ==> i < e <= s@.len(),
        opt_pos(r) == after_symbol(s@, i as int, c),
{
    if i < s.len() && s[i] == c {
        Some(skip_whitespace(s, i + 1))
    } else {
        None
    }
}

/// The characters of `ddl`, one by one.
pub fn chars_of(ddl: &str) -> (r: Vec<char>)
    ensures
        r@ == ddl@,
{
    let n = ddl.unicode_len();
    let mut r: Vec<char> = Vec::new();
    let mut i: usize = 0;
    while i < n
        invariant
            n == ddl@.len(),
            i <= n,
            r@ == ddl@.subrange(0, i as int),
        decreases n - i,
    {
        r.push(ddl.get_char(i));
        i = i + 1;
    }
    assert(r@ =~= ddl@);
    r
}

} // verus!
