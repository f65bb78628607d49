//! SQL text handling: deciding whether a statement yields rows, and quoting
//! identifiers so that they can be spliced into a statement.

use vstd::prelude::*;
use crate::text::{chars_of, is_whitespace, push_char, spec_is_whitespace};

verus! {

/// Characters skipped before the first word of a statement: whitespace and
/// opening parentheses.
pub open spec fn is_leading_filler(c: char) -> bool {
    spec_is_whitespace(c) || c == '('
}

/// Index of the first character at or after `i` that is not leading filler.
pub open spec fn skip_filler(s: Seq<char>, i: int) -> int
    decreases s.len() - i,
{
    if 0 <= i < s.len() && is_leading_filler(s[i]) {
        skip_filler(s, i + 1)
    } else {
        i
    }
}

/// Index of the first whitespace character at or after `i` (or `s.len()`).
pub open spec fn word_end(s: Seq<char>, i: int) -> int
    decreases s.len() - i,
{
    if 0 <= i < s.len() && !spec_is_whitespace(s[i]) {
        word_end(s, i + 1)
    } else {
        i
    }
}

/// The first word of a statement, once leading whitespace and parentheses
/// are dropped; empty when there is none.
pub open spec fn first_word(s: Seq<char>) -> Seq<char> {
    let start = skip_filler(s, 0);
    s.subrange(start, word_end(s, start))
}

/// The code of `c` in ASCII upper case: lower-case ASCII letters are mapped
/// to their capitals, every other character is kept.
pub open spec fn upper_code(c: char) -> u32 {
    let u = c as u32;
    if 0x61 <= u <= 0x7A {
        (u - 32) as u32
    } else {
        u
    }
}

/// `word`, upper-cased in ASCII, equals `keyword`.
pub open spec fn matches_upper(word: Seq<char>, keyword: Seq<char>) -> bool {
    &&& word.len() == keyword.len()
    &&& forall|i: int| 0 <= i < word.len() ==> upper_code(#[trigger] word[i]) == keyword[i] as u32
}

/// The keywords that open a statement that yields rows.
pub open spec fn row_keywords() -> Seq<Seq<char>> {
    seq![
        seq!['S', 'E', 'L', 'E', 'C', 'T'],
        seq!['S', 'H', 'O', 'W'],
        seq!['D', 'E', 'S', 'C', 'R', 'I', 'B', 'E'],
        seq!['D', 'E', 'S', 'C'],
        seq!['E', 'X', 'P', 'L', 'A', 'I', 'N'],
        seq!['W', 'I', 'T', 'H'],
    ]
}

/// A statement yields rows when its first word, in any ASCII case, is one of
/// the row keywords.
pub open spec fn spec_returns_rows(sql: Seq<char>) -> bool {
    exists|k: int| 0 <= k < row_keywords().len() && matches_upper(first_word(sql), #[trigger] row_keywords()[k])
}

fn upper_code_of(c: char) -> (u: u32)
    ensures
        u == upper_code(c),
{
    let u = c as u32;
    if 0x61 <= u && u <= 0x7A {
        u - 32
    } else {
        u
    }
}

/// Whether `v[start..end]`, upper-cased in ASCII, equals `keyword`.
fn word_matches(v: &Vec<char>, start: usize, end: usize, keyword: &[char]) -> (b: bool)
    requires
        start <= end <= v.len(),
    ensures
        b == matches_upper(v@.subrange(start as int, end as int), keyword@),
{
    let ghost word = v@.subrange(start as int, end as int);
    if end - start != keyword.len() {
        return false;
    }
    let mut i: usize = 0;
    while i < keyword.len()
        invariant
            start <= end <= v.len(),
            end - start == keyword@.len(),
            word == v@.subrange(start as int, end as int),
            0 <= i <= keyword@.len(),
            forall|j: int| 0 <= j < i ==> upper_code(#[trigger] word[j]) == keyword@[j] as u32,
        decreases keyword.len() - i,
    {
        if upper_code_of(v[start + i]) != keyword[i] as u32 {
            assert(upper_code(word[i as int]) != keyword@[i as int] as u32);
            return false;
        }
        i = i + 1;
    }
    true
}

/// Whether running `sql` yields a result set (so its rows are fetched) rather
/// than a count of affected rows.
pub fn returns_rows(sql: &str) -> (b: bool)
    ensures
        b == spec_returns_rows(sql@),
{
    let v = chars_of(sql);
    let mut start: usize = 0;
    while start < v.len() && (is_whitespace(v[start]) || v[start] == '(')
        invariant
            0 <= start <= v.len(),
            skip_filler(v@, start as int) == skip_filler(v@, 0),
        decreases v.len() - start,
    {
        start = start + 1;
    }
    let mut end: usize = start;
    while end < v.len() && !is_whitespace(v[end])
        invariant
            start <= end <= v.len(),
            word_end(v@, end as int) == word_end(v@, start as int),
        decreases v.len() - end,
    {
        end = end + 1;
    }
    let ghost word = first_word(sql@);
    assert(word == v@.subrange(start as int, end as int));
    let k0 = word_matches(&v, start, end, &['S', 'E', 'L', 'E', 'C', 'T']);
    let k1 = word_matches(&v, start, end, &['S', 'H', 'O', 'W']);
    let k2 = word_matches(&v, start, end, &['D', 'E', 'S', 'C', 'R', 'I', 'B', 'E']);
    let k3 = word_matches(&v, start, end, &['D', 'E', 'S', 'C']);
    let k4 = word_matches(&v, start, end, &['E', 'X', 'P', 'L', 'A', 'I', 'N']);
    let k5 = word_matches(&v, start, end, &['W', 'I', 'T', 'H']);
    proof {
        let kws = row_keywords();
        assert(kws[0] =~= seq!['S', 'E', 'L', 'E', 'C', 'T']);
        assert(kws[1] =~= seq!['S', 'H', 'O', 'W']);
        assert(kws[2] =~= seq!['D', 'E', 'S', 'C', 'R', 'I', 'B', 'E']);
        assert(kws[3] =~= seq!['D', 'E', 'S', 'C']);
        assert(kws[4] =~= seq!['E', 'X', 'P', 'L', 'A', 'I', 'N']);
        assert(kws[5] =~= seq!['W', 'I', 'T', 'H']);
    }
    k0 || k1 || k2 || k3 || k4 || k5
}

/// A character as it stands inside a back-quoted identifier: a back-quote is
/// doubled, every other character is kept.
pub open spec fn escape_char(c: char) -> Seq<char> {
    if c == '`' {
        seq!['`', '`']
    } else {
        seq![c]
    }
}

/// `s` with every back-quote doubled.
pub open spec fn escape_backquotes(s: Seq<char>) -> Seq<char>
    decreases s.len(),
{
    if s.len() == 0 {
        Seq::empty()
    } else {
        escape_backquotes(s.drop_last()) + escape_char(s.last())
    }
}

/// `s` as a MySQL back-quoted identifier.
pub open spec fn spec_quote_identifier(s: Seq<char>) -> Seq<char> {
    seq!['`'] + escape_backquotes(s) + seq!['`']
}

/// Reads the inside of a back-quoted identifier back: a doubled back-quote
/// stands for one back-quote; a lone one is read as itself.
pub open spec fn unescape_backquotes(t: Seq<char>) -> Seq<char>
    decreases t.len(),
{
    if t.len() == 0 {
        Seq::empty()
    } else if t.len() >= 2 && t.last() == '`' && t[t.len() - 2] == '`' {
        unescape_backquotes(t.drop_last().drop_last()) + seq!['`']
    } else {
        unescape_backquotes(t.drop_last()) + seq![t.last()]
    }
}

/// The identifier that a back-quoted identifier `q` names.
pub open spec fn spec_unquote_identifier(q: Seq<char>) -> Seq<char> {
    unescape_backquotes(q.subrange(1, q.len() - 1))
}

/// Quotes `value` as a MySQL identifier: wrapped in back-quotes, with each
/// back-quote inside doubled.
pub fn quote_identifier(value: &str) -> (q: String)
    ensures
        q@ == spec_quote_identifier(value@),
{
    let v = chars_of(value);
    let mut out = String::new();
    push_char(&mut out, '`');
    let mut i: usize = 0;
    while i < v.len()
        invariant
            0 <= i <= v.len(),
            out@ == seq!['`'] + escape_backquotes(v@.take(i as int)),
        decreases v.len() - i,
    {
        assert(v@.take(i + 1).drop_last() =~= v@.take(i as int));
        let c = v[i];
        if c == '`' {
            push_char(&mut out, '`');
            push_char(&mut out, '`');
        } else {
            push_char(&mut out, c);
        }
        i = i + 1;
        assert(out@ =~= seq!['`'] + escape_backquotes(v@.take(i as int)));
    }
    push_char(&mut out, '`');
    assert(v@.take(v.len() as int) =~= v@);
    out
}

proof fn lemma_unescape_escape(s: Seq<char>)
    ensures
        unescape_backquotes(escape_backquotes(s)) == s,
    decreases s.len(),
{
    if s.len() > 0 {
        let prefix = escape_backquotes(s.drop_last());
        lemma_unescape_escape(s.drop_last());
        let t = escape_backquotes(s);
        if s.last() == '`' {
            assert(t.drop_last().drop_last() =~= prefix);
        } else {
            assert(t.drop_last() =~= prefix);
        }
        assert(s.drop_last() + seq![s.last()] =~= s);
    }
}

/// Reading a quoted identifier back gives the identifier that was quoted.
pub proof fn lemma_quote_identifier_round_trip(s: Seq<char>)
    ensures
        spec_unquote_identifier(spec_quote_identifier(s)) == s,
{
    let q = spec_quote_identifier(s);
    assert(q.subrange(1, q.len() - 1) =~= escape_backquotes(s));
    lemma_unescape_escape(s);
}

/// The number of back-quotes that stand just before position `j` of `t`.
pub open spec fn backquote_run_before(t: Seq<char>, j: int) -> int
    decreases j,
{
    if 0 < j <= t.len() && t[j - 1] == '`' {
        1 + backquote_run_before(t, j - 1)
    } else {
        0
    }
}

/// Every maximal run of back-quotes in `t` has even length, so inside a
/// back-quoted identifier none of them closes the quote.
pub open spec fn backquote_runs_even(t: Seq<char>) -> bool {
    forall|j: int|
        0 <= j <= t.len() && (j == t.len() || t[j] != '`') ==> #[trigger] backquote_run_before(t, j)
            % 2 == 0
}

proof fn lemma_run_before_prefix(a: Seq<char>, b: Seq<char>, j: int)
    requires
        0 <= j <= a.len(),
    ensures
        backquote_run_before(a + b, j) == backquote_run_before(a, j),
    decreases j,
{
    if j > 0 {
        assert((a + b)[j - 1] == a[j - 1]);
        lemma_run_before_prefix(a, b, j - 1);
    }
}

proof fn lemma_escape_runs_even(s: Seq<char>)
    ensures
        backquote_runs_even(escape_backquotes(s)),
    decreases s.len(),
{
    if s.len() > 0 {
        let c = s.last();
        let p = escape_backquotes(s.drop_last());
        let e = escape_char(c);
        let t = escape_backquotes(s);
        lemma_escape_runs_even(s.drop_last());
        assert(t == p + e);
        assert forall|j: int|
            0 <= j <= t.len() && (j == t.len() || t[j] != '`') implies #[trigger] backquote_run_before(
            t,
            j,
        ) % 2 == 0 by {
            if j <= p.len() {
                lemma_run_before_prefix(p, e, j);
                if j < p.len() {
                    assert(t[j] == p[j]);
                    assert(backquote_run_before(p, j) % 2 == 0);
                } else {
                    assert(backquote_run_before(p, p.len() as int) % 2 == 0);
                }
            } else if c == '`' {
                assert(t.len() == p.len() + 2);
                assert(t[p.len() as int] == '`');
                assert(t[p.len() as int + 1] == '`');
                if j == p.len() + 1 {
                    assert(t[j] == '`');
                } else {
                    lemma_run_before_prefix(p, e, p.len() as int);
                    assert(backquote_run_before(p, p.len() as int) % 2 == 0);
                    assert(j == p.len() + 2);
                    assert(backquote_run_before(t, j) == 1 + backquote_run_before(t, j - 1));
                    assert(backquote_run_before(t, j - 1) == 1 + backquote_run_before(
                        t,
                        p.len() as int,
                    ));
                }
            } else {
                assert(t[j - 1] == c);
            }
        }
    }
}

/// Inside a quoted identifier every run of back-quotes has even length, so
/// the quoted text is one identifier that ends only at its last character.
pub proof fn lemma_quote_identifier_runs_even(s: Seq<char>)
    ensures
        backquote_runs_even(
            spec_quote_identifier(s).subrange(1, spec_quote_identifier(s).len() - 1),
        ),
{
    let q = spec_quote_identifier(s);
    assert(q.subrange(1, q.len() - 1) =~= escape_backquotes(s));
    lemma_escape_runs_even(s);
}

/// Distinct identifiers are quoted to distinct texts.
pub proof fn lemma_quote_identifier_injective(a: Seq<char>, b: Seq<char>)
    requires
        spec_quote_identifier(a) == spec_quote_identifier(b),
    ensures
        a == b,
{
    lemma_quote_identifier_round_trip(a);
    lemma_quote_identifier_round_trip(b);
}

proof fn lemma_skip_filler_shift(p: Seq<char>, s: Seq<char>, k: int)
    requires
        0 <= k <= s.len(),
    ensures
        skip_filler(p + s, p.len() + k) == p.len() + skip_filler(s, k),
        word_end(p + s, p.len() + k) == p.len() + word_end(s, k),
    decreases s.len() - k,
{
    let t = p + s;
    if k < s.len() {
        assert(t[p.len() + k] == s[k]);
        lemma_skip_filler_shift(p, s, k + 1);
    }
}

proof fn lemma_skip_filler_prefix(p: Seq<char>, s: Seq<char>, j: int)
    requires
        0 <= j <= p.len(),
        forall|i: int| 0 <= i < p.len() ==> is_leading_filler(#[trigger] p[i]),
    ensures
        skip_filler(p + s, j) == p.len() + skip_filler(s, 0),
    decreases p.len() - j,
{
    if j < p.len() {
        assert((p + s)[j] == p[j]);
        lemma_skip_filler_prefix(p, s, j + 1);
    } else {
        lemma_skip_filler_shift(p, s, 0);
    }
}

/// Whitespace and opening parentheses before a statement do not change
/// whether it yields rows.
pub proof fn lemma_returns_rows_ignores_leading_filler(prefix: Seq<char>, sql: Seq<char>)
    requires
        forall|i: int| 0 <= i < prefix.len() ==> is_leading_filler(#[trigger] prefix[i]),
    ensures
        spec_returns_rows(prefix + sql) == spec_returns_rows(sql),
{
    let t = prefix + sql;
    lemma_skip_filler_prefix(prefix, sql, 0);
    let k = skip_filler(sql, 0);
    lemma_skip_filler_bounds(sql, 0);
    lemma_skip_filler_shift(prefix, sql, k);
    lemma_word_end_bounds(sql, k);
    assert(first_word(t) =~= first_word(sql));
}

proof fn lemma_skip_filler_bounds(s: Seq<char>, i: int)
    requires
        0 <= i <= s.len(),
    ensures
        i <= skip_filler(s, i) <= s.len(),
    decreases s.len() - i,
{
    if i < s.len() && is_leading_filler(s[i]) {
        lemma_skip_filler_bounds(s, i + 1);
    }
}

proof fn lemma_word_end_bounds(s: Seq<char>, i: int)
    requires
        0 <= i <= s.len(),
    ensures
        i <= word_end(s, i) <= s.len(),
    decreases s.len() - i,
{
    if i < s.len() && !spec_is_whitespace(s[i]) {
        lemma_word_end_bounds(s, i + 1);
    }
}

/// Two texts that agree up to the case of ASCII letters.
pub open spec fn same_up_to_ascii_case(a: Seq<char>, b: Seq<char>) -> bool {
    &&& a.len() == b.len()
    &&& forall|i: int| 0 <= i < a.len() ==> upper_code(#[trigger] a[i]) == upper_code(b[i])
}

proof fn lemma_same_upper_same_class(x: char, y: char)
    requires
        upper_code(x) == upper_code(y),
    ensures
        spec_is_whitespace(x) == spec_is_whitespace(y),
        is_leading_filler(x) == is_leading_filler(y),
{
}

proof fn lemma_case_spans(a: Seq<char>, b: Seq<char>, i: int)
    requires
        same_up_to_ascii_case(a, b),
        0 <= i <= a.len(),
    ensures
        skip_filler(a, i) == skip_filler(b, i),
        word_end(a, i) == word_end(b, i),
    decreases a.len() - i,
{
    if i < a.len() {
        lemma_same_upper_same_class(a[i], b[i]);
        lemma_case_spans(a, b, i + 1);
    }
}

/// Whether a statement yields rows does not depend on the case of its ASCII
/// letters.
pub proof fn lemma_returns_rows_ignores_ascii_case(a: Seq<char>, b: Seq<char>)
    requires
        same_up_to_ascii_case(a, b),
    ensures
        spec_returns_rows(a) == spec_returns_rows(b),
{
    lemma_case_spans(a, b, 0);
    let st = skip_filler(a, 0);
    lemma_skip_filler_bounds(a, 0);
    lemma_word_end_bounds(a, st);
    lemma_case_spans(a, b, st);
    let wa = first_word(a);
    let wb = first_word(b);
    assert(wa.len() == wb.len());
    assert forall|i: int| 0 <= i < wa.len() implies upper_code(#[trigger] wa[i]) == upper_code(
        wb[i],
    ) by {
        assert(wa[i] == a[st + i]);
        assert(wb[i] == b[st + i]);
    }
    assert forall|k: int| 0 <= k < row_keywords().len() implies matches_upper(
        wa,
        #[trigger] row_keywords()[k],
    ) == matches_upper(wb, row_keywords()[k]) by {
        let kw = row_keywords()[k];
        if matches_upper(wa, kw) {
            assert forall|i: int| 0 <= i < wb.len() implies upper_code(#[trigger] wb[i])
                == kw[i] as u32 by {
                assert(upper_code(wa[i]) == upper_code(wb[i]));
            }
        }
        if matches_upper(wb, kw) {
            assert forall|i: int| 0 <= i < wa.len() implies upper_code(#[trigger] wa[i])
                == kw[i] as u32 by {
                assert(upper_code(wa[i]) == upper_code(wb[i]));
            }
        }
    }
}

proof fn lemma_skip_filler_spans(s: Seq<char>, i: int)
    requires
        0 <= i <= s.len(),
    ensures
        i <= skip_filler(s, i) <= s.len(),
        forall|k: int| i <= k < skip_filler(s, i) ==> is_leading_filler(#[trigger] s[k]),
        skip_filler(s, i) < s.len() ==> !is_leading_filler(s[skip_filler(s, i)]),
    decreases s.len() - i,
{
    if i < s.len() && is_leading_filler(s[i]) {
        lemma_skip_filler_spans(s, i + 1);
    }
}

proof fn lemma_word_end_spans(s: Seq<char>, i: int)
    requires
        0 <= i <= s.len(),
    ensures
        i <= word_end(s, i) <= s.len(),
        forall|k: int| i <= k < word_end(s, i) ==> !spec_is_whitespace(#[trigger] s[k]),
        word_end(s, i) < s.len() ==> spec_is_whitespace(s[word_end(s, i)]),
    decreases s.len() - i,
{
    if i < s.len() && !spec_is_whitespace(s[i]) {
        lemma_word_end_spans(s, i + 1);
    }
}

/// `w` is `keyword` (written in capitals) in any ASCII case: each character is
/// the capital or the small letter 32 code points above it.
pub open spec fn equal_ignoring_ascii_case(w: Seq<char>, keyword: Seq<char>) -> bool {
    &&& w.len() == keyword.len()
    &&& forall|i: int|
        0 <= i < w.len() ==> (#[trigger] w[i]) as u32 == keyword[i] as u32 || w[i] as u32
            == keyword[i] as u32 + 32
}

/// `sql[p..q]` is the statement's first word: everything before `p` is
/// whitespace or `(`, the word starts with neither, holds no whitespace, and
/// ends at the end of the text or at whitespace.
pub open spec fn is_first_word_at(sql: Seq<char>, p: int, q: int) -> bool {
    &&& 0 <= p < q <= sql.len()
    &&& forall|k: int| 0 <= k < p ==> spec_is_whitespace(#[trigger] sql[k]) || sql[k] == '('
    &&& !spec_is_whitespace(sql[p]) && sql[p] != '('
    &&& forall|k: int| p <= k < q ==> !spec_is_whitespace(#[trigger] sql[k])
    &&& q == sql.len() || spec_is_whitespace(sql[q])
}

/// `w` is, in any ASCII case, one of SELECT, SHOW, DESCRIBE, DESC, EXPLAIN,
/// WITH.
pub open spec fn names_row_keyword(w: Seq<char>) -> bool {
    ||| equal_ignoring_ascii_case(w, seq!['S', 'E', 'L', 'E', 'C', 'T'])
    ||| equal_ignoring_ascii_case(w, seq!['S', 'H', 'O', 'W'])
    ||| equal_ignoring_ascii_case(w, seq!['D', 'E', 'S', 'C', 'R', 'I', 'B', 'E'])
    ||| equal_ignoring_ascii_case(w, seq!['D', 'E', 'S', 'C'])
    ||| equal_ignoring_ascii_case(w, seq!['E', 'X', 'P', 'L', 'A', 'I', 'N'])
    ||| equal_ignoring_ascii_case(w, seq!['W', 'I', 'T', 'H'])
}

/// A statement returns rows exactly when it has a first word and that word
/// is, in any ASCII case, one of SELECT, SHOW, DESCRIBE, DESC, EXPLAIN,
/// WITH; any other first word (CREATE, INSERT, ...) or none makes it a
/// command.
pub proof fn lemma_returns_rows_exactly_on_row_keywords(sql: Seq<char>)
    ensures
        spec_returns_rows(sql) <==> exists|p: int, q: int|
            #[trigger] is_first_word_at(sql, p, q) && names_row_keyword(sql.subrange(p, q)),
{
    let st = skip_filler(sql, 0);
    lemma_skip_filler_spans(sql, 0);
    lemma_word_end_spans(sql, st);
    let en = word_end(sql, st);
    let w = first_word(sql);
    let kws = row_keywords();
    let lits = seq![
        seq!['S', 'E', 'L', 'E', 'C', 'T'],
        seq!['S', 'H', 'O', 'W'],
        seq!['D', 'E', 'S', 'C', 'R', 'I', 'B', 'E'],
        seq!['D', 'E', 'S', 'C'],
        seq!['E', 'X', 'P', 'L', 'A', 'I', 'N'],
        seq!['W', 'I', 'T', 'H'],
    ];
    assert(kws =~= lits);
    assert(lits[0] == seq!['S', 'E', 'L', 'E', 'C', 'T']);
    assert(lits[1] == seq!['S', 'H', 'O', 'W']);
    assert(lits[2] == seq!['D', 'E', 'S', 'C', 'R', 'I', 'B', 'E']);
    assert(lits[3] == seq!['D', 'E', 'S', 'C']);
    assert(lits[4] == seq!['E', 'X', 'P', 'L', 'A', 'I', 'N']);
    assert(lits[5] == seq!['W', 'I', 'T', 'H']);
    // Each keyword is made of capital letters, so upper-casing matches exactly
    // the two cases of `equal_ignoring_ascii_case`.
    assert forall|k: int, v: Seq<char>| 0 <= k < 6 implies #[trigger] matches_upper(v, lits[k])
        == equal_ignoring_ascii_case(v, lits[k]) by {
        let kw = lits[k];
        assert forall|i: int| 0 <= i < kw.len() implies 0x41 <= (#[trigger] kw[i]) as u32
            <= 0x5A by {
            if k == 0 {
                assert(kw =~= seq!['S', 'E', 'L', 'E', 'C', 'T']);
            } else if k == 1 {
                assert(kw =~= seq!['S', 'H', 'O', 'W']);
            } else if k == 2 {
                assert(kw =~= seq!['D', 'E', 'S', 'C', 'R', 'I', 'B', 'E']);
            } else if k == 3 {
                assert(kw =~= seq!['D', 'E', 'S', 'C']);
            } else if k == 4 {
                assert(kw =~= seq!['E', 'X', 'P', 'L', 'A', 'I', 'N']);
            } else {
                assert(kw =~= seq!['W', 'I', 'T', 'H']);
            }
        }
        if v.len() == kw.len() {
            assert forall|i: int| 0 <= i < v.len() implies (upper_code(#[trigger] v[i])
                == kw[i] as u32) == (v[i] as u32 == kw[i] as u32 || v[i] as u32 == kw[i] as u32
                + 32) by {
                assert(0x41 <= kw[i] as u32 <= 0x5A);
            }
        }
    }
    assert forall|v: Seq<char>| #[trigger] names_row_keyword(v) == (exists|k: int|
        0 <= k < 6 && matches_upper(v, #[trigger] kws[k])) by {
        if names_row_keyword(v) {
            if equal_ignoring_ascii_case(v, lits[0]) {
                assert(matches_upper(v, kws[0]));
            } else if equal_ignoring_ascii_case(v, lits[1]) {
                assert(matches_upper(v, kws[1]));
            } else if equal_ignoring_ascii_case(v, lits[2]) {
                assert(matches_upper(v, kws[2]));
            } else if equal_ignoring_ascii_case(v, lits[3]) {
                assert(matches_upper(v, kws[3]));
            } else if equal_ignoring_ascii_case(v, lits[4]) {
                assert(matches_upper(v, kws[4]));
            } else {
                assert(matches_upper(v, kws[5]));
            }
        }
        if exists|k: int| 0 <= k < 6 && matches_upper(v, #[trigger] kws[k]) {
            let k = choose|k: int| 0 <= k < 6 && matches_upper(v, #[trigger] kws[k]);
            assert(equal_ignoring_ascii_case(v, lits[k]));
        }
    }
    assert(spec_returns_rows(sql) == names_row_keyword(w));
    // Any first word found this way is the one `first_word` takes.
    assert forall|p: int, q: int| #[trigger] is_first_word_at(sql, p, q) implies p == st && q
        == en by {
        if st < p {
            assert(is_leading_filler(sql[st]));
        } else if p < st {
            assert(is_leading_filler(sql[p]));
        }
        if en < q {
            assert(!spec_is_whitespace(sql[en]));
        } else if q < en {
            assert(!spec_is_whitespace(sql[q]));
        }
    }
    if names_row_keyword(w) {
        assert(w.len() > 0);
        assert(is_first_word_at(sql, st, en));
    }
}

} // verus!
