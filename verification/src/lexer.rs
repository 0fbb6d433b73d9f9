//! Where the comments of a SQL text stand, by the lexical rules of PostgreSQL.
//!
//! Quotes hide comments, so a text is cut into tokens as far as it takes to tell what is quoted:
//! string constants, those with backslash escapes (`E'..'`) among them, quoted identifiers, string
//! constants in dollar quotes, names, and comments of both kinds. Everything else is a token of one
//! character. What is left open runs to the end of the text.
//!
//! Whether backslashes escape in plain string constants too depends on the setting
//! `standard_conforming_strings`, which is handed in as `standard`: where it is on, they do not.

use vstd::prelude::*;

verus! {

/// `first` stands at `at`, and `second` behind it.
pub open spec fn pair_at(sql: Seq<char>, at: int, first: char, second: char) -> bool {
    0 <= at && at + 1 < sql.len() && sql[at] == first && sql[at + 1] == second
}

/// A character that ends a line.
pub open spec fn is_line_break(c: char) -> bool {
    c == '\n' || c == '\r'
}

/// White space that does not end a line.
pub open spec fn is_blank(c: char) -> bool {
    c == ' ' || c == '\t' || c == '\u{b}' || c == '\u{c}'
}

/// A character with which a name can begin: a letter, an underscore or anything beyond ASCII.
pub open spec fn starts_name(c: char) -> bool {
    'a' <= c <= 'z' || 'A' <= c <= 'Z' || c == '_' || c >= '\u{80}'
}

/// Where the name ends that goes on at `at`. A name can hold dollar signs, the tag of a dollar
/// quote cannot.
pub open spec fn name_end(sql: Seq<char>, at: int, dollars: bool) -> int
    decreases sql.len() - at,
{
    if at < sql.len() && (starts_name(sql[at]) || '0' <= sql[at] <= '9' || dollars && sql[at]
        == '$') {
        name_end(sql, at + 1, dollars)
    } else {
        at
    }
}

/// Where the line ends that goes on at `at`.
pub open spec fn line_end(sql: Seq<char>, at: int) -> int
    decreases sql.len() - at,
{
    if at < sql.len() && !is_line_break(sql[at]) {
        line_end(sql, at + 1)
    } else {
        at
    }
}

/// Where the block comments end of which `depth`, one inside the other, are open at `at`.
pub open spec fn block_end(sql: Seq<char>, at: int, depth: nat) -> int
    decreases sql.len() - at,
{
    if depth == 0 || at >= sql.len() {
        at
    } else if pair_at(sql, at, '/', '*') {
        block_end(sql, at + 2, depth + 1)
    } else if pair_at(sql, at, '*', '/') {
        block_end(sql, at + 2, (depth - 1) as nat)
    } else {
        block_end(sql, at + 1, depth)
    }
}

/// Where the quotation ends that goes on at `at`: behind a `quote` that is not doubled and, where
/// backslashes escape, not behind one.
pub open spec fn quoted_end(sql: Seq<char>, at: int, quote: char, escapes: bool) -> int
    decreases sql.len() + 1 - at,
{
    if at >= sql.len() {
        sql.len() as int
    } else if escapes && sql[at] == '\\' || pair_at(sql, at, quote, quote) {
        quoted_end(sql, at + 2, quote, escapes)
    } else if sql[at] == quote {
        at + 1
    } else {
        quoted_end(sql, at + 1, quote, escapes)
    }
}

/// Where the tag ends that begins at `at`; an empty one ends there.
pub open spec fn tag_end(sql: Seq<char>, at: int) -> int {
    if at < sql.len() && starts_name(sql[at]) {
        name_end(sql, at, false)
    } else {
        at
    }
}

/// A dollar quote opens at `at`: a tag, if any, between two dollar signs.
pub open spec fn opens_dollar_quote(sql: Seq<char>, at: int) -> bool {
    &&& 0 <= at < sql.len() && sql[at] == '$'
    &&& tag_end(sql, at + 1) < sql.len() && sql[tag_end(sql, at + 1)] == '$'
}

/// Where the dollar quote ends that goes on at `at`: behind the next `delimiter`.
pub open spec fn dollar_quoted_end(sql: Seq<char>, at: int, delimiter: Seq<char>) -> int
    decreases sql.len() + 1 - at,
{
    if at + delimiter.len() > sql.len() {
        sql.len() as int
    } else if sql.subrange(at, at + delimiter.len()) == delimiter {
        at + delimiter.len()
    } else {
        dollar_quoted_end(sql, at + 1, delimiter)
    }
}

/// A string constant with backslash escapes opens at `at`.
pub open spec fn opens_escape_string(sql: Seq<char>, at: int) -> bool {
    pair_at(sql, at, 'e', '\'') || pair_at(sql, at, 'E', '\'')
}

/// A comment opens at `at`.
pub open spec fn opens_comment(sql: Seq<char>, at: int) -> bool {
    pair_at(sql, at, '-', '-') || pair_at(sql, at, '/', '*')
}

/// What stands before a token, as far as it tells how a string constant is read.
#[derive(Clone, Copy, Debug, PartialEq, Eq, Structural)]
pub enum Before {
    /// A string constant with backslash escapes, with nothing behind it yet but blanks and a line
    /// comment.
    EscapeString,
    /// The same, and a line break: a string constant that follows goes on with that one.
    EscapeStringAndBreak,
    /// Anything else.
    Other,
}

/// Where the token ends that begins at `at`.
pub open spec fn token_end(sql: Seq<char>, at: int, before: Before, standard: bool) -> int {
    if pair_at(sql, at, '-', '-') {
        line_end(sql, at + 2)
    } else if pair_at(sql, at, '/', '*') {
        block_end(sql, at + 2, 1)
    } else if opens_escape_string(sql, at) {
        quoted_end(sql, at + 2, '\'', true)
    } else if sql[at] == '\'' {
        quoted_end(sql, at + 1, '\'', !standard || before == Before::EscapeStringAndBreak)
    } else if sql[at] == '"' {
        quoted_end(sql, at + 1, '"', false)
    } else if opens_dollar_quote(sql, at) {
        let open = tag_end(sql, at + 1) + 1;
        dollar_quoted_end(sql, open, sql.subrange(at, open))
    } else if starts_name(sql[at]) {
        name_end(sql, at, true)
    } else {
        at + 1
    }
}

/// What stands before the next token, the one at `at` included.
pub open spec fn before_next(sql: Seq<char>, at: int, before: Before) -> Before {
    if opens_escape_string(sql, at) || sql[at] == '\'' && before == Before::EscapeStringAndBreak {
        Before::EscapeString
    } else if before == Before::Other {
        Before::Other
    } else if is_line_break(sql[at]) {
        Before::EscapeStringAndBreak
    } else if is_blank(sql[at]) || pair_at(sql, at, '-', '-') {
        before
    } else {
        Before::Other
    }
}

/// The comment, from its start to its end, that holds the character at `at`, if one does, in a text
/// of which a token begins at `from`.
pub open spec fn comment_from(
    sql: Seq<char>,
    from: int,
    before: Before,
    at: int,
    standard: bool,
) -> Option<(int, int)>
    decreases sql.len() - from,
{
    if !(0 <= from <= at < sql.len()) {
        None
    } else {
        proof {
            token_advances(sql, from, before, standard);
        }
        let end = token_end(sql, from, before, standard);
        if at >= end {
            comment_from(sql, end, before_next(sql, from, before), at, standard)
        } else if opens_comment(sql, from) {
            Some((from, end))
        } else {
            None
        }
    }
}

/// The comment, from its start to its end, that holds the character at `at`, if one does.
pub open spec fn comment_around(sql: Seq<char>, at: int, standard: bool) -> Option<(int, int)> {
    comment_from(sql, 0, Before::Other, at, standard)
}

/// The character at `at` is part of a comment.
pub open spec fn in_comment(sql: Seq<char>, at: int, standard: bool) -> bool {
    comment_around(sql, at, standard) is Some
}

proof fn name_end_bounds(sql: Seq<char>, at: int, dollars: bool)
    requires
        at <= sql.len(),
    ensures
        at <= name_end(sql, at, dollars) <= sql.len(),
    decreases sql.len() - at,
{
    if at < sql.len() {
        name_end_bounds(sql, at + 1, dollars);
    }
}

proof fn line_end_bounds(sql: Seq<char>, at: int)
    requires
        at <= sql.len(),
    ensures
        at <= line_end(sql, at) <= sql.len(),
    decreases sql.len() - at,
{
    if at < sql.len() {
        line_end_bounds(sql, at + 1);
    }
}

proof fn block_end_bounds(sql: Seq<char>, at: int, depth: nat)
    requires
        at <= sql.len(),
    ensures
        at <= block_end(sql, at, depth) <= sql.len(),
    decreases sql.len() - at,
{
    if depth > 0 && at < sql.len() {
        if pair_at(sql, at, '/', '*') {
            block_end_bounds(sql, at + 2, depth + 1);
        } else if pair_at(sql, at, '*', '/') {
            block_end_bounds(sql, at + 2, (depth - 1) as nat);
        } else {
            block_end_bounds(sql, at + 1, depth);
        }
    }
}

proof fn quoted_end_bounds(sql: Seq<char>, at: int, quote: char, escapes: bool)
    ensures
        quoted_end(sql, at, quote, escapes) <= sql.len(),
        at <= sql.len() ==> at <= quoted_end(sql, at, quote, escapes),
    decreases sql.len() + 1 - at,
{
    if at < sql.len() {
        quoted_end_bounds(sql, at + 1, quote, escapes);
        quoted_end_bounds(sql, at + 2, quote, escapes);
    }
}

proof fn dollar_quoted_end_bounds(sql: Seq<char>, at: int, delimiter: Seq<char>)
    requires
        at <= sql.len(),
        delimiter.len() > 0,
    ensures
        at <= dollar_quoted_end(sql, at, delimiter) <= sql.len(),
    decreases sql.len() - at,
{
    if at < sql.len() {
        dollar_quoted_end_bounds(sql, at + 1, delimiter);
    }
}

/// Every token has a character at least, and ends within the text.
pub proof fn token_advances(sql: Seq<char>, at: int, before: Before, standard: bool)
    requires
        0 <= at < sql.len(),
    ensures
        at < token_end(sql, at, before, standard) <= sql.len(),
{
    if at + 2 <= sql.len() {
        line_end_bounds(sql, at + 2);
        block_end_bounds(sql, at + 2, 1);
    }
    quoted_end_bounds(sql, at + 2, '\'', true);
    quoted_end_bounds(sql, at + 1, '\'', !standard || before == Before::EscapeStringAndBreak);
    quoted_end_bounds(sql, at + 1, '"', false);
    name_end_bounds(sql, at + 1, true);
    name_end_bounds(sql, at + 1, false);
    if opens_dollar_quote(sql, at) {
        let open = tag_end(sql, at + 1) + 1;
        dollar_quoted_end_bounds(sql, open, sql.subrange(at, open));
    }
}

/// The tokens from the one at `from` on come to an end at `at`.
pub open spec fn tokens_meet(
    sql: Seq<char>,
    from: int,
    before: Before,
    at: int,
    standard: bool,
) -> bool
    decreases sql.len() - from,
{
    if !(0 <= from < at && from < sql.len()) {
        from == at
    } else {
        proof {
            token_advances(sql, from, before, standard);
        }
        tokens_meet(
            sql,
            token_end(sql, from, before, standard),
            before_next(sql, from, before),
            at,
            standard,
        )
    }
}

/// A token begins at `at`, or the text ends there: nothing that begins before it is still open.
pub open spec fn token_begins(sql: Seq<char>, at: int, standard: bool) -> bool {
    tokens_meet(sql, 0, Before::Other, at, standard)
}

/// The characters from `at` up to `stop` neither end a line nor have a part in the start or the end
/// of a block comment.
pub open spec fn is_plain(sql: Seq<char>, at: int, stop: int) -> bool {
    forall|p: int|
        at <= p < stop ==> !is_line_break(#[trigger] sql[p]) && sql[p] != '*' && sql[p] != '/'
}

/// What opens a comment, where a token begins, is one: it goes on to the end of that token.
pub proof fn comment_opens_at_token(sql: Seq<char>, at: int, p: int, standard: bool)
    requires
        token_begins(sql, at, standard),
        opens_comment(sql, at),
        at <= p < token_end(sql, at, Before::Other, standard),
    ensures
        comment_around(sql, p, standard) == Some((at, token_end(sql, at, Before::Other, standard))),
{
    token_advances(sql, at, Before::Other, standard);
    comment_opens_from(sql, 0, Before::Other, at, p, standard);
}

proof fn comment_opens_from(
    sql: Seq<char>,
    from: int,
    before: Before,
    at: int,
    p: int,
    standard: bool,
)
    requires
        0 <= from,
        tokens_meet(sql, from, before, at, standard),
        opens_comment(sql, at),
        at <= p < token_end(sql, at, Before::Other, standard) <= sql.len(),
    ensures
        comment_from(sql, from, before, p, standard) == Some(
            (at, token_end(sql, at, Before::Other, standard)),
        ),
    decreases sql.len() - from,
{
    if from < at {
        token_advances(sql, from, before, standard);
        let end = token_end(sql, from, before, standard);
        let next = before_next(sql, from, before);
        assert(tokens_meet(sql, end, next, at, standard));
        meeting_is_not_behind(sql, end, next, at, standard);
        comment_opens_from(sql, end, next, at, p, standard);
    }
}

/// What stands in a token of another kind, a string constant or a quoted identifier among them, is
/// in no comment, however a string constant is to be read there.
pub proof fn other_tokens_hold_no_comment(sql: Seq<char>, at: int, p: int, standard: bool)
    requires
        token_begins(sql, at, standard),
        !opens_comment(sql, at),
        at <= p,
        forall|before: Before| p < #[trigger] token_end(sql, at, before, standard),
    ensures
        !in_comment(sql, p, standard),
{
    no_comment_from(sql, 0, Before::Other, at, p, standard);
}

proof fn no_comment_from(sql: Seq<char>, from: int, before: Before, at: int, p: int, standard: bool)
    requires
        0 <= from,
        tokens_meet(sql, from, before, at, standard),
        !opens_comment(sql, at),
        at <= p,
        forall|b: Before| p < #[trigger] token_end(sql, at, b, standard),
    ensures
        comment_from(sql, from, before, p, standard) is None,
    decreases sql.len() - from,
{
    if from < at && from < sql.len() {
        token_advances(sql, from, before, standard);
        let end = token_end(sql, from, before, standard);
        let next = before_next(sql, from, before);
        meeting_is_not_behind(sql, end, next, at, standard);
        no_comment_from(sql, end, next, at, p, standard);
    } else {
        assert(p < token_end(sql, at, before, standard));
    }
}

/// A comment has a start and an end around every character of it, and opens at its start.
pub proof fn comment_spans_from_its_opening(sql: Seq<char>, at: int, standard: bool)
    ensures
        comment_around(sql, at, standard) matches Some((start, end)) ==> {
            &&& opens_comment(sql, start)
            &&& 0 <= start <= at < end <= sql.len()
        },
{
    comment_spans_from(sql, 0, Before::Other, at, standard);
}

proof fn comment_spans_from(sql: Seq<char>, from: int, before: Before, at: int, standard: bool)
    ensures
        comment_from(sql, from, before, at, standard) matches Some((start, end)) ==> {
            &&& opens_comment(sql, start)
            &&& 0 <= start <= at < end <= sql.len()
        },
    decreases sql.len() - from,
{
    if 0 <= from <= at < sql.len() {
        token_advances(sql, from, before, standard);
        let end = token_end(sql, from, before, standard);
        if at >= end {
            comment_spans_from(sql, end, before_next(sql, from, before), at, standard);
        }
    }
}

proof fn meeting_is_not_behind(sql: Seq<char>, from: int, before: Before, at: int, standard: bool)
    requires
        tokens_meet(sql, from, before, at, standard),
    ensures
        from <= at,
{
}

/// A block comment that is not closed at once goes on behind its start.
pub proof fn block_comment_goes_on(sql: Seq<char>, at: int, standard: bool)
    requires
        pair_at(sql, at, '/', '*'),
        at + 2 < sql.len(),
        sql[at + 2] != '*',
    ensures
        at + 2 < token_end(sql, at, Before::Other, standard),
{
    if pair_at(sql, at + 2, '/', '*') {
        block_end_bounds(sql, at + 4, 2);
    } else {
        block_end_bounds(sql, at + 3, 1);
    }
}

/// A comment that holds the first of some plain characters holds them all.
pub proof fn comment_holds_plain_text(sql: Seq<char>, at: int, stop: int, standard: bool)
    requires
        in_comment(sql, at, standard),
        at < stop <= sql.len(),
        is_plain(sql, at, stop),
    ensures
        comment_around(sql, at, standard) matches Some((start, end)) && start <= at && stop <= end,
{
    plain_text_is_held_from(sql, 0, Before::Other, at, stop, standard);
}

proof fn plain_text_is_held_from(
    sql: Seq<char>,
    from: int,
    before: Before,
    at: int,
    stop: int,
    standard: bool,
)
    requires
        comment_from(sql, from, before, at, standard) is Some,
        at < stop <= sql.len(),
        is_plain(sql, at, stop),
    ensures
        comment_from(sql, from, before, at, standard) matches Some((start, end)) && start <= at
            && stop <= end,
    decreases sql.len() - from,
{
    token_advances(sql, from, before, standard);
    let end = token_end(sql, from, before, standard);
    if at >= end {
        plain_text_is_held_from(sql, end, before_next(sql, from, before), at, stop, standard);
    } else if pair_at(sql, from, '-', '-') {
        if from + 2 <= stop {
            plain_text_is_in_line(sql, from + 2, at, stop);
        }
    } else {
        assert(!is_line_break(sql[at]) && sql[at] != '*' && sql[at] != '/');
        plain_text_is_in_block(sql, from + 2, 1, at, stop);
    }
}

proof fn plain_text_is_in_line(sql: Seq<char>, from: int, at: int, stop: int)
    requires
        at < line_end(sql, from) || at <= from,
        from <= stop <= sql.len(),
        is_plain(sql, at, stop),
    ensures
        stop <= line_end(sql, from),
    decreases stop - from,
{
    if from < stop {
        plain_text_is_in_line(sql, from + 1, at, stop);
    } else {
        line_end_bounds(sql, from);
    }
}

proof fn plain_text_is_in_block(sql: Seq<char>, from: int, depth: nat, at: int, stop: int)
    requires
        depth > 0,
        at < block_end(sql, from, depth) || at <= from,
        0 <= from <= stop <= sql.len(),
        is_plain(sql, at, stop),
        at < stop,
    ensures
        stop <= block_end(sql, from, depth),
    decreases stop - from,
{
    if from >= stop {
        block_end_bounds(sql, from, depth);
    } else if from >= at {
        assert(!is_line_break(sql[from]) && sql[from] != '*' && sql[from] != '/');
        plain_text_is_in_block(sql, from + 1, depth, at, stop);
    } else {
        assert(!is_line_break(sql[at]) && sql[at] != '*' && sql[at] != '/');
        if pair_at(sql, from, '/', '*') {
            plain_text_is_in_block(sql, from + 2, depth + 1, at, stop);
        } else if pair_at(sql, from, '*', '/') {
            assert(block_end(sql, from + 2, 0) == from + 2);
            plain_text_is_in_block(sql, from + 2, (depth - 1) as nat, at, stop);
        } else {
            plain_text_is_in_block(sql, from + 1, depth, at, stop);
        }
    }
}

proof fn name_end_stays(a: Seq<char>, b: Seq<char>, at: int, dollars: bool)
    requires
        0 <= at,
        name_end(a, at, dollars) < a.len(),
    ensures
        name_end(a + b, at, dollars) == name_end(a, at, dollars),
    decreases a.len() - at,
{
    if at < a.len() {
        assert((a + b)[at] == a[at]);
        name_end_bounds(a, at + 1, dollars);
        if name_end(a, at, dollars) != at {
            name_end_stays(a, b, at + 1, dollars);
        }
    }
}

proof fn line_end_stays(a: Seq<char>, b: Seq<char>, at: int)
    requires
        0 <= at <= a.len(),
    ensures
        line_end(a, at) <= line_end(a + b, at),
        line_end(a, at) < a.len() ==> line_end(a + b, at) == line_end(a, at),
    decreases a.len() - at,
{
    line_end_bounds(a + b, at);
    if at < a.len() {
        assert((a + b)[at] == a[at]);
        line_end_stays(a, b, at + 1);
    }
}

proof fn block_end_stays(a: Seq<char>, b: Seq<char>, at: int, depth: nat)
    requires
        0 <= at <= a.len(),
    ensures
        block_end(a, at, depth) <= block_end(a + b, at, depth),
        block_end(a, at, depth) < a.len() ==> block_end(a + b, at, depth) == block_end(
            a,
            at,
            depth,
        ),
    decreases a.len() - at,
{
    block_end_bounds(a + b, at, depth);
    if depth > 0 && at < a.len() {
        assert((a + b)[at] == a[at]);
        if at + 1 < a.len() {
            assert((a + b)[at + 1] == a[at + 1]);
            block_end_stays(a, b, at + 1, depth);
            block_end_stays(a, b, at + 2, depth + 1);
            block_end_stays(a, b, at + 2, (depth - 1) as nat);
        } else {
            assert(block_end(a, at + 1, depth) == a.len());
            if at + 2 <= (a + b).len() {
                block_end_bounds(a + b, at + 2, depth + 1);
                block_end_bounds(a + b, at + 2, (depth - 1) as nat);
            }
            block_end_bounds(a + b, at + 1, depth);
        }
    }
}

proof fn quoted_end_stays(a: Seq<char>, b: Seq<char>, at: int, quote: char, escapes: bool)
    requires
        0 <= at,
        quoted_end(a, at, quote, escapes) < a.len(),
    ensures
        quoted_end(a + b, at, quote, escapes) == quoted_end(a, at, quote, escapes),
    decreases a.len() + 1 - at,
{
    if at < a.len() {
        assert((a + b)[at] == a[at]);
        if at + 1 < a.len() {
            assert((a + b)[at + 1] == a[at + 1]);
        } else {
            assert(quoted_end(a, at + 1, quote, escapes) == a.len());
            assert(quoted_end(a, at + 2, quote, escapes) == a.len());
        }
        if escapes && a[at] == '\\' || pair_at(a, at, quote, quote) {
            quoted_end_stays(a, b, at + 2, quote, escapes);
        } else if a[at] != quote {
            quoted_end_stays(a, b, at + 1, quote, escapes);
        }
    }
}

proof fn dollar_quoted_end_stays(a: Seq<char>, b: Seq<char>, at: int, delimiter: Seq<char>)
    requires
        0 <= at,
        dollar_quoted_end(a, at, delimiter) < a.len(),
    ensures
        dollar_quoted_end(a + b, at, delimiter) == dollar_quoted_end(a, at, delimiter),
    decreases a.len() + 1 - at,
{
    if at + delimiter.len() <= a.len() {
        let here = a.subrange(at, at + delimiter.len());
        assert((a + b).subrange(at, at + delimiter.len()) =~= here);
        if here != delimiter {
            dollar_quoted_end_stays(a, b, at + 1, delimiter);
        }
    }
}

proof fn name_ends_before(sql: Seq<char>, at: int, dollars: bool, stop: int)
    requires
        0 <= at <= stop < sql.len(),
        !starts_name(sql[stop]) && !('0' <= sql[stop] <= '9') && sql[stop] != '$',
    ensures
        name_end(sql, at, dollars) <= stop,
    decreases stop - at,
{
    if at < stop {
        name_ends_before(sql, at + 1, dollars, stop);
    }
}

/// A token that ends before a comment opens stays as it is, whatever is appended to the text.
proof fn token_stays(
    a: Seq<char>,
    b: Seq<char>,
    at: int,
    before: Before,
    start: int,
    standard: bool,
)
    requires
        0 <= at < token_end(a, at, before, standard) <= start,
        opens_comment(a, start),
    ensures
        token_end(a + b, at, before, standard) == token_end(a, at, before, standard),
        before_next(a + b, at, before) == before_next(a, at, before),
        opens_comment(a + b, at) == opens_comment(a, at),
{
    let sql = a + b;
    let end = token_end(a, at, before, standard);
    assert(sql[at] == a[at] && sql[at + 1] == a[at + 1]);
    if pair_at(a, at, '-', '-') {
        line_end_stays(a, b, at + 2);
    } else if pair_at(a, at, '/', '*') {
        block_end_stays(a, b, at + 2, 1);
    } else if opens_escape_string(a, at) {
        quoted_end_stays(a, b, at + 2, '\'', true);
    } else if a[at] == '\'' {
        quoted_end_stays(
            a,
            b,
            at + 1,
            '\'',
            !standard || before == Before::EscapeStringAndBreak,
        );
    } else if a[at] == '"' {
        quoted_end_stays(a, b, at + 1, '"', false);
    } else if a[at] == '$' {
        if starts_name(a[at + 1]) {
            name_ends_before(a, at + 1, false, start);
            name_end_bounds(a, at + 1, false);
            name_end_stays(a, b, at + 1, false);
        }
        let tag = tag_end(a, at + 1);
        assert(tag_end(sql, at + 1) == tag);
        assert(sql[tag] == a[tag]);
        if opens_dollar_quote(a, at) {
            assert(sql.subrange(at, tag + 1) =~= a.subrange(at, tag + 1));
            dollar_quoted_end_stays(a, b, tag + 1, a.subrange(at, tag + 1));
        }
    } else if starts_name(a[at]) {
        name_end_stays(a, b, at, true);
    }
}

/// Appended text leaves the comments of a text where they are, up to and with the one around `at`;
/// only that one can go on into what is appended.
pub proof fn comments_stay_before_appended_text(
    a: Seq<char>,
    b: Seq<char>,
    at: int,
    p: int,
    standard: bool,
)
    requires
        in_comment(a, at, standard),
        p <= at,
    ensures
        match (comment_around(a, p, standard), comment_around(a + b, p, standard)) {
            (Some((start, end)), Some((start_after, end_after))) => {
                &&& start == start_after && end <= end_after
                &&& end <= at ==> end == end_after
            },
            (None, None) => true,
            _ => false,
        },
{
    comments_stay_from(a, b, 0, Before::Other, at, p, standard);
}

proof fn comments_stay_from(
    a: Seq<char>,
    b: Seq<char>,
    from: int,
    before: Before,
    at: int,
    p: int,
    standard: bool,
)
    requires
        comment_from(a, from, before, at, standard) is Some,
        p <= at,
    ensures
        match (
            comment_from(a, from, before, p, standard),
            comment_from(a + b, from, before, p, standard),
        ) {
            (Some((start, end)), Some((start_after, end_after))) => {
                &&& start == start_after && end <= end_after
                &&& end <= at ==> end == end_after
            },
            (None, None) => true,
            _ => false,
        },
    decreases a.len() - from,
{
    let sql = a + b;
    token_advances(a, from, before, standard);
    token_advances(sql, from, before, standard);
    let end = token_end(a, from, before, standard);
    if at >= end {
        comment_spans_from(a, end, before_next(a, from, before), at, standard);
        comment_starts_from(a, end, before_next(a, from, before), at, standard);
        let (start, _) = comment_from(a, from, before, at, standard)->0;
        token_stays(a, b, from, before, start, standard);
        comments_stay_from(a, b, end, before_next(a, from, before), at, p, standard);
    } else {
        assert(sql[from] == a[from] && sql[from + 1] == a[from + 1]);
        line_end_stays(a, b, from + 2);
        block_end_stays(a, b, from + 2, 1);
    }
}

proof fn comment_starts_from(
    sql: Seq<char>,
    from: int,
    before: Before,
    at: int,
    standard: bool,
)
    ensures
        comment_from(sql, from, before, at, standard) matches Some((start, end)) ==> from <= start,
    decreases sql.len() - from,
{
    if 0 <= from <= at < sql.len() {
        token_advances(sql, from, before, standard);
        let end = token_end(sql, from, before, standard);
        if at >= end {
            comment_starts_from(sql, end, before_next(sql, from, before), at, standard);
        }
    }
}

/// Where a token begins and ends however string constants are read there, the next one begins at its
/// end.
pub proof fn token_follows(sql: Seq<char>, at: int, end: int, standard: bool)
    requires
        token_begins(sql, at, standard),
        0 <= at < sql.len(),
        forall|before: Before| #[trigger] token_end(sql, at, before, standard) == end,
    ensures
        at < end <= sql.len(),
        token_begins(sql, end, standard),
{
    token_advances(sql, at, Before::Other, standard);
    assert(token_end(sql, at, Before::Other, standard) == end);
    tokens_meet_further(sql, 0, Before::Other, at, end, standard);
}

proof fn tokens_meet_further(
    sql: Seq<char>,
    from: int,
    before: Before,
    at: int,
    end: int,
    standard: bool,
)
    requires
        0 <= from,
        tokens_meet(sql, from, before, at, standard),
        0 <= at < end <= sql.len(),
        forall|b: Before| #[trigger] token_end(sql, at, b, standard) == end,
    ensures
        tokens_meet(sql, from, before, end, standard),
    decreases sql.len() - from,
{
    meeting_is_not_behind(sql, from, before, at, standard);
    token_advances(sql, from, before, standard);
    if from < at {
        let next = token_end(sql, from, before, standard);
        tokens_meet_further(sql, next, before_next(sql, from, before), at, end, standard);
    } else {
        assert(token_end(sql, at, before, standard) == end);
        assert(tokens_meet(sql, end, before_next(sql, from, before), end, standard));
    }
}

/// A character that is no quote, no dollar sign and no part of a name, and with which no comment
/// opens, is a token of its own.
pub proof fn single_character_is_a_token(sql: Seq<char>, at: int, standard: bool)
    requires
        token_begins(sql, at, standard),
        0 <= at < sql.len(),
        sql[at] != '\'' && sql[at] != '"' && sql[at] != '$' && sql[at] != '_',
        !('a' <= sql[at] <= 'z') && !('A' <= sql[at] <= 'Z') && sql[at] < '\u{80}',
        !(at + 1 < sql.len() && sql[at] == '-' && sql[at + 1] == '-'),
        !(at + 1 < sql.len() && sql[at] == '/' && sql[at + 1] == '*'),
    ensures
        token_begins(sql, at + 1, standard),
        !in_comment(sql, at, standard),
{
    token_follows(sql, at, at + 1, standard);
    other_tokens_hold_no_comment(sql, at, at, standard);
}

/// Text without quotes and dollar signs in which no comment opens holds no comment and leaves
/// nothing open.
pub proof fn unquoted_text_is_complete(sql: Seq<char>, from: int, to: int, standard: bool)
    requires
        token_begins(sql, from, standard),
        0 <= from <= to < sql.len(),
        forall|i: int|
            from <= i < to ==> (#[trigger] sql[i]) != '\'' && sql[i] != '"' && sql[i] != '$',
        forall|i: int|
            from <= i < to ==> !((#[trigger] sql[i]) == '-' && sql[i + 1] == '-') && !(sql[i] == '/'
                && sql[i + 1] == '*'),
        sql[to] != '\'' && sql[to] != '$' && sql[to] != '_' && sql[to] < '\u{80}',
        !('a' <= sql[to] <= 'z') && !('A' <= sql[to] <= 'Z') && !('0' <= sql[to] <= '9'),
    ensures
        token_begins(sql, to, standard),
        forall|p: int| from <= p < to ==> !#[trigger] in_comment(sql, p, standard),
    decreases to - from,
{
    if from < to {
        assert(sql[from] != '\'');
        if from + 1 < to {
            assert(sql[from + 1] != '\'');
        }
        let end = if starts_name(sql[from]) {
            name_end(sql, from, true)
        } else {
            from + 1
        };
        assert forall|b: Before| #[trigger] token_end(sql, from, b, standard) == end by {}
        token_follows(sql, from, end, standard);
        if starts_name(sql[from]) {
            name_ends_before(sql, from, true, to);
        }
        assert forall|p: int| from <= p < end implies !#[trigger] in_comment(sql, p, standard) by {
            other_tokens_hold_no_comment(sql, from, p, standard);
        }
        unquoted_text_is_complete(sql, end, to, standard);
    }
}

proof fn quoted_run(sql: Seq<char>, from: int, to: int, quote: char, escapes: bool)
    requires
        0 <= from <= to <= sql.len(),
        forall|i: int| from <= i < to ==> (#[trigger] sql[i]) != quote && sql[i] != '\\',
    ensures
        quoted_end(sql, from, quote, escapes) == quoted_end(sql, to, quote, escapes),
    decreases to - from,
{
    if from < to {
        assert(sql[from] != quote && sql[from] != '\\');
        quoted_run(sql, from + 1, to, quote, escapes);
    }
}

/// What stands between two quotes, quotes inside it being doubled, is hidden: no comment is in it,
/// and nothing is open behind it. `middle` is where the quote is that is doubled, or the end.
pub proof fn quotation_is_hidden(
    sql: Seq<char>,
    at: int,
    middle: int,
    end: int,
    quote: char,
    standard: bool,
)
    requires
        token_begins(sql, at, standard),
        quote == '\'' || quote == '"',
        0 <= at < middle <= end && end + 1 < sql.len(),
        sql[at] == quote && sql[end] == quote && sql[end + 1] != quote,
        forall|i: int| at < i < middle ==> (#[trigger] sql[i]) != quote && sql[i] != '\\',
        middle < end ==> middle + 1 < end && sql[middle] == quote && sql[middle + 1] == quote,
        forall|i: int| middle + 1 < i < end ==> (#[trigger] sql[i]) != quote && sql[i] != '\\',
    ensures
        token_begins(sql, end + 1, standard),
        forall|p: int| at <= p <= end ==> !#[trigger] in_comment(sql, p, standard),
{
    assert forall|escapes: bool| #[trigger] quoted_end(sql, at + 1, quote, escapes) == end + 1 by {
        quoted_run(sql, at + 1, middle, quote, escapes);
        if middle < end {
            assert(quoted_end(sql, middle, quote, escapes) == quoted_end(
                sql,
                middle + 2,
                quote,
                escapes,
            ));
            quoted_run(sql, middle + 2, end, quote, escapes);
        }
    }
    assert forall|b: Before| #[trigger] token_end(sql, at, b, standard) == end + 1 by {}
    token_follows(sql, at, end + 1, standard);
    assert forall|p: int| at <= p <= end implies !#[trigger] in_comment(sql, p, standard) by {
        other_tokens_hold_no_comment(sql, at, p, standard);
    }
}

/// In a string constant with backslash escapes a quote behind a backslash ends nothing.
pub proof fn escaped_quotation_is_hidden(
    sql: Seq<char>,
    at: int,
    middle: int,
    end: int,
    standard: bool,
)
    requires
        token_begins(sql, at, standard),
        0 <= at && at + 1 < middle && middle + 1 < end && end + 1 < sql.len(),
        sql[at] == 'e' || sql[at] == 'E',
        sql[at + 1] == '\'' && sql[middle] == '\\' && sql[middle + 1] == '\'',
        sql[end] == '\'' && sql[end + 1] != '\'',
        forall|i: int| at + 1 < i < middle ==> (#[trigger] sql[i]) != '\'' && sql[i] != '\\',
        forall|i: int| middle + 1 < i < end ==> (#[trigger] sql[i]) != '\'' && sql[i] != '\\',
    ensures
        token_begins(sql, end + 1, standard),
        forall|p: int| at <= p <= end ==> !#[trigger] in_comment(sql, p, standard),
{
    quoted_run(sql, at + 2, middle, '\'', true);
    quoted_run(sql, middle + 2, end, '\'', true);
    assert(quoted_end(sql, middle, '\'', true) == quoted_end(sql, middle + 2, '\'', true));
    assert forall|b: Before| #[trigger] token_end(sql, at, b, standard) == end + 1 by {}
    token_follows(sql, at, end + 1, standard);
    assert forall|p: int| at <= p <= end implies !#[trigger] in_comment(sql, p, standard) by {
        other_tokens_hold_no_comment(sql, at, p, standard);
    }
}

proof fn name_runs(sql: Seq<char>, from: int, to: int)
    requires
        0 <= from <= to < sql.len(),
        forall|i: int| from <= i < to ==> 'a' <= #[trigger] sql[i] <= 'z',
        sql[to] == '$',
    ensures
        name_end(sql, from, false) == to,
    decreases to - from,
{
    if from < to {
        assert('a' <= sql[from] <= 'z');
        name_runs(sql, from + 1, to);
    }
}

proof fn dollar_run(sql: Seq<char>, from: int, to: int, delimiter: Seq<char>)
    requires
        0 <= from <= to,
        to + delimiter.len() <= sql.len(),
        delimiter.len() > 0 && delimiter[0] == '$',
        forall|i: int| from <= i < to ==> (#[trigger] sql[i]) != '$',
        sql.subrange(to, to + delimiter.len()) == delimiter,
    ensures
        dollar_quoted_end(sql, from, delimiter) == to + delimiter.len(),
    decreases to - from,
{
    if from < to {
        assert(sql.subrange(from, from + delimiter.len())[0] == sql[from]);
        dollar_run(sql, from + 1, to, delimiter);
    }
}

/// What stands in dollar quotes is hidden: no comment is in it, and nothing is open behind it. The
/// quotes open at `at` and at `close`, with a tag of lower-case letters, if any, up to `tag`.
pub proof fn dollar_quotation_is_hidden(
    sql: Seq<char>,
    at: int,
    tag: int,
    close: int,
    standard: bool,
)
    requires
        token_begins(sql, at, standard),
        0 <= at < tag < close && close + (tag + 1 - at) <= sql.len(),
        sql[at] == '$' && sql[tag] == '$',
        forall|i: int| at < i < tag ==> 'a' <= #[trigger] sql[i] <= 'z',
        forall|i: int| tag < i < close ==> (#[trigger] sql[i]) != '$',
        sql.subrange(close, close + (tag + 1 - at)) == sql.subrange(at, tag + 1),
    ensures
        token_begins(sql, close + (tag + 1 - at), standard),
        forall|p: int|
            at <= p < close + (tag + 1 - at) ==> !#[trigger] in_comment(sql, p, standard),
{
    let end = close + (tag + 1 - at);
    name_runs(sql, at + 1, tag);
    if at + 1 < tag {
        assert('a' <= sql[at + 1] <= 'z');
    }
    dollar_run(sql, tag + 1, close, sql.subrange(at, tag + 1));
    assert forall|b: Before| #[trigger] token_end(sql, at, b, standard) == end by {}
    token_follows(sql, at, end, standard);
    assert forall|p: int| at <= p < end implies !#[trigger] in_comment(sql, p, standard) by {
        other_tokens_hold_no_comment(sql, at, p, standard);
    }
}

proof fn block_run(sql: Seq<char>, from: int, to: int, depth: nat)
    requires
        0 <= from <= to <= sql.len(),
        depth > 0,
        forall|i: int| from <= i < to ==> (#[trigger] sql[i]) != '*' && sql[i] != '/',
    ensures
        block_end(sql, from, depth) == block_end(sql, to, depth),
    decreases to - from,
{
    if from < to {
        assert(sql[from] != '*' && sql[from] != '/');
        block_run(sql, from + 1, to, depth);
    }
}

/// A block comment that holds no other goes from its start to the first end.
pub proof fn block_comment_ends(sql: Seq<char>, at: int, end: int, standard: bool)
    requires
        token_begins(sql, at, standard),
        0 <= at && at + 2 <= end && end + 1 < sql.len(),
        sql[at] == '/' && sql[at + 1] == '*' && sql[end] == '*' && sql[end + 1] == '/',
        forall|i: int| at + 2 <= i < end ==> (#[trigger] sql[i]) != '*' && sql[i] != '/',
    ensures
        token_begins(sql, end + 2, standard),
        forall|p: int|
            at <= p < end + 2 ==> #[trigger] comment_around(sql, p, standard) == Some((at, end + 2)),
{
    block_run(sql, at + 2, end, 1);
    assert(block_end(sql, end, 1) == block_end(sql, end + 2, 0));
    assert forall|b: Before| #[trigger] token_end(sql, at, b, standard) == end + 2 by {}
    token_follows(sql, at, end + 2, standard);
    assert forall|p: int| at <= p < end + 2 implies #[trigger] comment_around(sql, p, standard)
        == Some((at, end + 2)) by {
        comment_opens_at_token(sql, at, p, standard);
    }
}

proof fn line_run(sql: Seq<char>, from: int, to: int)
    requires
        0 <= from <= to <= sql.len(),
        forall|i: int| from <= i < to ==> (#[trigger] sql[i]) != '\n' && sql[i] != '\r',
    ensures
        line_end(sql, from) == line_end(sql, to),
    decreases to - from,
{
    if from < to {
        assert(sql[from] != '\n' && sql[from] != '\r');
        line_run(sql, from + 1, to);
    }
}

/// A line comment goes to the end of its line.
pub proof fn line_comment_ends(sql: Seq<char>, at: int, end: int, standard: bool)
    requires
        token_begins(sql, at, standard),
        0 <= at && at + 2 <= end < sql.len(),
        sql[at] == '-' && sql[at + 1] == '-',
        sql[end] == '\n' || sql[end] == '\r',
        forall|i: int| at + 2 <= i < end ==> (#[trigger] sql[i]) != '\n' && sql[i] != '\r',
    ensures
        token_begins(sql, end, standard),
        forall|p: int|
            at <= p < end ==> #[trigger] comment_around(sql, p, standard) == Some((at, end)),
{
    line_run(sql, at + 2, end);
    assert forall|b: Before| #[trigger] token_end(sql, at, b, standard) == end by {}
    token_follows(sql, at, end, standard);
    assert forall|p: int| at <= p < end implies #[trigger] comment_around(sql, p, standard)
        == Some((at, end)) by {
        comment_opens_at_token(sql, at, p, standard);
    }
}

/// Inside a block comment another one can stand: behind its end the outer one goes on.
pub proof fn outer_block_comment_goes_on(
    sql: Seq<char>,
    at: int,
    inner: int,
    inner_end: int,
    p: int,
    standard: bool,
)
    requires
        token_begins(sql, at, standard),
        0 <= at && at + 2 <= inner && inner + 2 <= inner_end && inner_end + 2 <= p < sql.len(),
        sql[at] == '/' && sql[at + 1] == '*' && sql[inner] == '/' && sql[inner + 1] == '*',
        sql[inner_end] == '*' && sql[inner_end + 1] == '/',
        forall|i: int| at + 2 <= i < inner ==> (#[trigger] sql[i]) != '*' && sql[i] != '/',
        forall|i: int| inner + 2 <= i < inner_end ==> (#[trigger] sql[i]) != '*' && sql[i] != '/',
        forall|i: int| inner_end + 2 <= i <= p ==> (#[trigger] sql[i]) != '*' && sql[i] != '/',
    ensures
        in_comment(sql, p, standard),
{
    block_run(sql, at + 2, inner, 1);
    assert(block_end(sql, inner, 1) == block_end(sql, inner + 2, 2));
    block_run(sql, inner + 2, inner_end, 2);
    assert(block_end(sql, inner_end, 2) == block_end(sql, inner_end + 2, 1));
    block_run(sql, inner_end + 2, p + 1, 1);
    block_end_bounds(sql, p + 1, 1);
    comment_opens_at_token(sql, at, p, standard);
}

/// A comment goes on over plain text behind its opening.
pub proof fn comment_goes_on_over_plain_text(sql: Seq<char>, at: int, p: int, standard: bool)
    requires
        token_begins(sql, at, standard),
        0 <= at && at + 2 <= p < sql.len(),
        sql[at] == '/' && sql[at + 1] == '*' || sql[at] == '-' && sql[at + 1] == '-',
        forall|i: int|
            at + 2 <= i <= p ==> (#[trigger] sql[i]) != '*' && sql[i] != '/' && sql[i] != '\n'
                && sql[i] != '\r',
    ensures
        in_comment(sql, p, standard),
        forall|q: int|
            at <= q <= p ==> (#[trigger] comment_around(sql, q, standard) matches Some((start, _))
                && start == at),
{
    if sql[at] == '/' {
        block_run(sql, at + 2, p + 1, 1);
        block_end_bounds(sql, p + 1, 1);
    } else {
        line_run(sql, at + 2, p + 1);
        line_end_bounds(sql, p + 1);
    }
    assert forall|q: int| at <= q <= p implies (#[trigger] comment_around(sql, q, standard) matches Some(
        (start, _),
    ) && start == at) by {
        comment_opens_at_token(sql, at, q, standard);
    }
    assert(comment_around(sql, p, standard) is Some);
}

/// A name is one token, dollar signs in it included, and no comment is in it. `end` is behind it.
pub proof fn name_is_a_token(sql: Seq<char>, at: int, end: int, standard: bool)
    requires
        token_begins(sql, at, standard),
        0 <= at < end < sql.len(),
        'a' <= sql[at] <= 'z' || 'A' <= sql[at] <= 'Z' || sql[at] == '_' || sql[at] >= '\u{80}',
        forall|i: int|
            at <= i < end ==> ('a' <= (#[trigger] sql[i]) <= 'z' || 'A' <= sql[i] <= 'Z' || sql[i]
                == '_' || sql[i] >= '\u{80}' || '0' <= sql[i] <= '9' || sql[i] == '$'),
        sql[end] == ' ',
    ensures
        token_begins(sql, end, standard),
        forall|p: int| at <= p < end ==> !#[trigger] in_comment(sql, p, standard),
{
    name_goes_on(sql, at, end);
    if at + 1 < end {
        assert('a' <= sql[at + 1] <= 'z' || 'A' <= sql[at + 1] <= 'Z' || sql[at + 1] == '_' || sql[at
            + 1] >= '\u{80}' || '0' <= sql[at + 1] <= '9' || sql[at + 1] == '$');
    }
    assert forall|b: Before| #[trigger] token_end(sql, at, b, standard) == end by {}
    token_follows(sql, at, end, standard);
    assert forall|p: int| at <= p < end implies !#[trigger] in_comment(sql, p, standard) by {
        other_tokens_hold_no_comment(sql, at, p, standard);
    }
}

proof fn name_goes_on(sql: Seq<char>, at: int, end: int)
    requires
        0 <= at <= end < sql.len(),
        forall|i: int|
            at <= i < end ==> ('a' <= (#[trigger] sql[i]) <= 'z' || 'A' <= sql[i] <= 'Z' || sql[i]
                == '_' || sql[i] >= '\u{80}' || '0' <= sql[i] <= '9' || sql[i] == '$'),
        sql[end] == ' ',
    ensures
        name_end(sql, at, true) == end,
    decreases end - at,
{
    if at < end {
        assert(sql[at] == sql[at]);
        name_goes_on(sql, at + 1, end);
    }
}

/// A dollar sign before a digit quotes nothing: it is a token of its own.
pub proof fn parameter_quotes_nothing(sql: Seq<char>, at: int, standard: bool)
    requires
        token_begins(sql, at, standard),
        0 <= at && at + 1 < sql.len(),
        sql[at] == '$' && '0' <= sql[at + 1] <= '9',
    ensures
        token_begins(sql, at + 1, standard),
        !in_comment(sql, at, standard),
{
    assert forall|b: Before| #[trigger] token_end(sql, at, b, standard) == at + 1 by {}
    token_follows(sql, at, at + 1, standard);
    other_tokens_hold_no_comment(sql, at, at, standard);
}

proof fn unquoted_prefix(sql: Seq<char>, from: int, to: int, x: int, standard: bool)
    requires
        0 <= from <= to < sql.len(),
        to <= x,
        forall|i: int|
            from <= i < to ==> (#[trigger] sql[i]) != '\'' && sql[i] != '"' && sql[i] != '$',
        forall|i: int|
            from <= i < to ==> !((#[trigger] sql[i]) == '-' && sql[i + 1] == '-') && !(sql[i] == '/'
                && sql[i + 1] == '*'),
        from < to ==> sql[to - 1] == ' ',
    ensures
        tokens_meet(sql, from, Before::Other, x, standard) == tokens_meet(
            sql,
            to,
            Before::Other,
            x,
            standard,
        ),
        comment_from(sql, from, Before::Other, x, standard) == comment_from(
            sql,
            to,
            Before::Other,
            x,
            standard,
        ),
    decreases to - from,
{
    if from < to {
        assert(sql[from] != '\'');
        if from + 1 < to {
            assert(sql[from + 1] != '\'');
        }
        token_advances(sql, from, Before::Other, standard);
        let end = token_end(sql, from, Before::Other, standard);
        if starts_name(sql[from]) {
            name_ends_before(sql, from, true, to - 1);
        }
        if x < sql.len() {
            assert(before_next(sql, from, Before::Other) == Before::Other);
        }
        unquoted_prefix(sql, end, to, x, standard);
    }
}

/// A plain string constant behind unquoted text: where the setting is on, a backslash before its
/// closing quote is an ordinary character; where it is off, the quote behind the backslash is not
/// the closing one. Either way no comment is in it and nothing is open behind it.
pub proof fn backslashes_are_read_by_the_setting(
    sql: Seq<char>,
    at: int,
    middle: int,
    end: int,
    standard: bool,
)
    requires
        0 <= at < middle && middle < end && end + 1 < sql.len(),
        forall|i: int|
            0 <= i < at ==> (#[trigger] sql[i]) != '\'' && sql[i] != '"' && sql[i] != '$',
        forall|i: int|
            0 <= i < at ==> !((#[trigger] sql[i]) == '-' && sql[i + 1] == '-') && !(sql[i] == '/'
                && sql[i + 1] == '*'),
        at > 0 ==> sql[at - 1] == ' ',
        sql[at] == '\'' && sql[middle] == '\\' && sql[middle + 1] == '\'',
        forall|i: int| at < i < middle ==> (#[trigger] sql[i]) != '\'' && sql[i] != '\\',
        sql[end] == '\'' && sql[end + 1] != '\'',
        standard ==> end == middle + 1,
        !standard ==> middle + 1 < end,
        forall|i: int| middle + 1 < i < end ==> (#[trigger] sql[i]) != '\'' && sql[i] != '\\',
    ensures
        token_begins(sql, end + 1, standard),
        forall|p: int| 0 <= p <= end ==> !#[trigger] in_comment(sql, p, standard),
{
    quoted_run(sql, at + 1, middle, '\'', !standard);
    if !standard {
        assert(quoted_end(sql, middle, '\'', true) == quoted_end(sql, middle + 2, '\'', true));
        quoted_run(sql, middle + 2, end, '\'', true);
    } else {
        assert(quoted_end(sql, middle, '\'', false) == quoted_end(sql, middle + 1, '\'', false));
    }
    assert(token_end(sql, at, Before::Other, standard) == end + 1);
    unquoted_prefix(sql, 0, at, end + 1, standard);
    assert(tokens_meet(sql, end + 1, before_next(sql, at, Before::Other), end + 1, standard));
    unquoted_prefix(sql, 0, at, at, standard);
    assert(tokens_meet(sql, at, Before::Other, at, standard));
    assert forall|p: int| 0 <= p <= end implies !#[trigger] in_comment(sql, p, standard) by {
        if p < at {
            if at > 1 {
                unquoted_text_is_complete(sql, 0, at - 1, standard);
            }
            if p == at - 1 {
                unquoted_prefix(sql, 0, at, p + 1, standard);
                space_is_no_comment(sql, p, standard);
            }
        } else {
            unquoted_prefix(sql, 0, at, p, standard);
        }
    }
}

/// A space outside quotes, dollar signs and comments is in no comment.
proof fn space_is_no_comment(sql: Seq<char>, at: int, standard: bool)
    requires
        0 <= at && at + 1 < sql.len(),
        sql[at] == ' ',
        forall|i: int|
            0 <= i < at ==> (#[trigger] sql[i]) != '\'' && sql[i] != '"' && sql[i] != '$',
        forall|i: int|
            0 <= i < at ==> !((#[trigger] sql[i]) == '-' && sql[i + 1] == '-') && !(sql[i] == '/'
                && sql[i + 1] == '*'),
    ensures
        !in_comment(sql, at, standard),
{
    assert(token_begins(sql, 0, standard));
    unquoted_text_is_complete(sql, 0, at, standard);
    single_character_is_a_token(sql, at, standard);
}

/// The characters of `sql`.
pub(crate) fn characters(sql: &str) -> (chars: Vec<char>)
    ensures
        chars@ == sql@,
{
    let mut chars: Vec<char> = Vec::new();
    for c in iter: sql.chars()
        invariant
            iter.seq() == sql@,
            chars@ =~= sql@.take(iter.index() as int),
    {
        chars.push(c);
    }
    chars
}

/// The text of the characters from `from` up to `to`.
pub(crate) fn text_between(chars: &Vec<char>, from: usize, to: usize) -> (text: String)
    requires
        from <= to <= chars.len(),
    ensures
        text@ == chars@.subrange(from as int, to as int),
{
    let mut text = String::new();
    let mut i: usize = from;
    while i < to
        invariant
            from <= i <= to <= chars.len(),
            text@ =~= chars@.subrange(from as int, i as int),
        decreases to - i,
    {
        text.push(chars[i]);
        i += 1;
    }
    text
}

fn has_pair(sql: &Vec<char>, at: usize, first: char, second: char) -> (found: bool)
    requires
        at < sql.len(),
    ensures
        found == pair_at(sql@, at as int, first, second),
{
    at < sql.len() - 1 && sql[at] == first && sql[at + 1] == second
}

fn can_start_name(c: char) -> (can: bool)
    ensures
        can == starts_name(c),
{
    'a' <= c && c <= 'z' || 'A' <= c && c <= 'Z' || c == '_' || c >= '\u{80}'
}

fn find_name_end(sql: &Vec<char>, from: usize, dollars: bool) -> (end: usize)
    requires
        from <= sql.len(),
    ensures
        end == name_end(sql@, from as int, dollars),
        from <= end <= sql.len(),
{
    let mut i: usize = from;
    while i < sql.len() && (can_start_name(sql[i]) || '0' <= sql[i] && sql[i] <= '9' || dollars
        && sql[i] == '$')
        invariant
            from <= i <= sql.len(),
            name_end(sql@, from as int, dollars) == name_end(sql@, i as int, dollars),
        decreases sql.len() - i,
    {
        i += 1;
    }
    i
}

fn find_line_end(sql: &Vec<char>, from: usize) -> (end: usize)
    requires
        from <= sql.len(),
    ensures
        end == line_end(sql@, from as int),
{
    let mut i: usize = from;
    while i < sql.len() && sql[i] != '\n' && sql[i] != '\r'
        invariant
            from <= i <= sql.len(),
            line_end(sql@, from as int) == line_end(sql@, i as int),
        decreases sql.len() - i,
    {
        i += 1;
    }
    i
}

fn find_block_end(sql: &Vec<char>, from: usize) -> (end: usize)
    requires
        from <= sql.len(),
    ensures
        end == block_end(sql@, from as int, 1),
{
    let mut i: usize = from;
    let mut depth: usize = 1;
    while depth > 0 && i < sql.len()
        invariant
            from <= i <= sql.len(),
            depth <= 1 + i,
            block_end(sql@, from as int, 1) == block_end(sql@, i as int, depth as nat),
        decreases sql.len() - i,
    {
        if has_pair(sql, i, '/', '*') {
            depth += 1;
            i += 2;
        } else if has_pair(sql, i, '*', '/') {
            depth -= 1;
            i += 2;
        } else {
            i += 1;
        }
    }
    i
}

fn find_quoted_end(sql: &Vec<char>, from: usize, quote: char, escapes: bool) -> (end: usize)
    requires
        from <= sql.len(),
    ensures
        end == quoted_end(sql@, from as int, quote, escapes),
{
    let mut i: usize = from;
    while i < sql.len()
        invariant
            from <= i <= sql.len(),
            quoted_end(sql@, from as int, quote, escapes) == quoted_end(
                sql@,
                i as int,
                quote,
                escapes,
            ),
        decreases sql.len() - i,
    {
        if escapes && sql[i] == '\\' || has_pair(sql, i, quote, quote) {
            if i == sql.len() - 1 {
                assert(quoted_end(sql@, i + 2, quote, escapes) == sql.len());
                return sql.len();
            }
            i += 2;
        } else if sql[i] == quote {
            return i + 1;
        } else {
            i += 1;
        }
    }
    i
}

/// Where the tag of the dollar quote ends that opens at `at`, if one does.
fn find_tag_end(sql: &Vec<char>, at: usize) -> (end: Option<usize>)
    requires
        at < sql.len(),
    ensures
        match end {
            Some(e) => opens_dollar_quote(sql@, at as int) && e == tag_end(sql@, at + 1) && at < e
                < sql.len(),
            None => !opens_dollar_quote(sql@, at as int),
        },
{
    if sql[at] != '$' {
        return None;
    }
    let mut end: usize = at + 1;
    if end < sql.len() && can_start_name(sql[end]) {
        end = find_name_end(sql, end, false);
    }
    if end < sql.len() && sql[end] == '$' {
        Some(end)
    } else {
        None
    }
}

/// Whether the same `len` characters stand at `a` and at `b`.
fn same_at(sql: &Vec<char>, a: usize, b: usize, len: usize) -> (same: bool)
    requires
        a + len <= sql.len(),
        b + len <= sql.len(),
    ensures
        same == (sql@.subrange(a as int, a + len) == sql@.subrange(b as int, b + len)),
{
    let ghost left = sql@.subrange(a as int, a + len);
    let ghost right = sql@.subrange(b as int, b + len);
    let mut i: usize = 0;
    while i < len
        invariant
            i <= len,
            a + len <= sql.len(),
            b + len <= sql.len(),
            left == sql@.subrange(a as int, a + len),
            right == sql@.subrange(b as int, b + len),
            forall|j: int| 0 <= j < i ==> left[j] == right[j],
        decreases len - i,
    {
        if sql[a + i] != sql[b + i] {
            assert(left[i as int] != right[i as int]);
            return false;
        }
        i += 1;
    }
    assert(left =~= right);
    true
}

fn find_dollar_quoted_end(sql: &Vec<char>, at: usize, open: usize) -> (end: usize)
    requires
        at < open <= sql.len(),
    ensures
        end == dollar_quoted_end(sql@, open as int, sql@.subrange(at as int, open as int)),
{
    let len: usize = open - at;
    let ghost delimiter = sql@.subrange(at as int, open as int);
    let mut i: usize = open;
    while len <= sql.len() - i
        invariant
            at < open <= i <= sql.len(),
            len == open - at,
            delimiter == sql@.subrange(at as int, at + len),
            dollar_quoted_end(sql@, open as int, delimiter) == dollar_quoted_end(
                sql@,
                i as int,
                delimiter,
            ),
        decreases sql.len() - i,
    {
        if same_at(sql, i, at, len) {
            return i + len;
        }
        i += 1;
    }
    sql.len()
}

fn is_escape_string(sql: &Vec<char>, at: usize) -> (is: bool)
    requires
        at < sql.len(),
    ensures
        is == opens_escape_string(sql@, at as int),
{
    has_pair(sql, at, 'e', '\'') || has_pair(sql, at, 'E', '\'')
}

/// Whether a comment opens at `at`.
pub(crate) fn is_comment(sql: &Vec<char>, at: usize) -> (is: bool)
    requires
        at < sql.len(),
    ensures
        is == opens_comment(sql@, at as int),
{
    has_pair(sql, at, '-', '-') || has_pair(sql, at, '/', '*')
}

/// Where the token ends that begins at `at`.
pub(crate) fn find_token_end(
    sql: &Vec<char>,
    at: usize,
    before: Before,
    standard: bool,
) -> (end: usize)
    requires
        at < sql.len(),
    ensures
        end == token_end(sql@, at as int, before, standard),
        at < end <= sql.len(),
{
    proof {
        token_advances(sql@, at as int, before, standard);
    }
    if has_pair(sql, at, '-', '-') {
        find_line_end(sql, at + 2)
    } else if has_pair(sql, at, '/', '*') {
        find_block_end(sql, at + 2)
    } else if is_escape_string(sql, at) {
        find_quoted_end(sql, at + 2, '\'', true)
    } else if sql[at] == '\'' {
        find_quoted_end(
            sql,
            at + 1,
            '\'',
            !standard || before == Before::EscapeStringAndBreak,
        )
    } else if sql[at] == '"' {
        find_quoted_end(sql, at + 1, '"', false)
    } else if let Some(end) = find_tag_end(sql, at) {
        find_dollar_quoted_end(sql, at, end + 1)
    } else if can_start_name(sql[at]) {
        find_name_end(sql, at, true)
    } else {
        at + 1
    }
}

/// What stands before the next token, the one at `at` included.
pub(crate) fn find_before_next(sql: &Vec<char>, at: usize, before: Before) -> (next: Before)
    requires
        at < sql.len(),
    ensures
        next == before_next(sql@, at as int, before),
{
    let c: char = sql[at];
    if is_escape_string(sql, at) || c == '\'' && before == Before::EscapeStringAndBreak {
        Before::EscapeString
    } else if before == Before::Other {
        Before::Other
    } else if c == '\n' || c == '\r' {
        Before::EscapeStringAndBreak
    } else if c == ' ' || c == '\t' || c == '\u{b}' || c == '\u{c}' || has_pair(
        sql,
        at,
        '-',
        '-',
    ) {
        before
    } else {
        Before::Other
    }
}

} // verus!
