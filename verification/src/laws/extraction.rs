//! What is extracted from a SQL text.

use vstd::prelude::*;

use crate::parser::{extract_traceparent, TraceContext, TraceparentRegex};

verus! {

/// A hexadecimal digit in either case.
pub open spec fn is_digit(c: char) -> bool {
    '0' <= c <= '9' || 'a' <= c <= 'f' || 'A' <= c <= 'F'
}

/// The number that a hexadecimal digit stands for.
pub open spec fn digit_value(c: char) -> int {
    if '0' <= c <= '9' {
        c as int - '0' as int
    } else if 'a' <= c <= 'f' {
        10 + c as int - 'a' as int
    } else {
        10 + c as int - 'A' as int
    }
}

/// A hexadecimal digit in lower case.
pub open spec fn lowered(c: char) -> char {
    if c == 'A' {
        'a'
    } else if c == 'B' {
        'b'
    } else if c == 'C' {
        'c'
    } else if c == 'D' {
        'd'
    } else if c == 'E' {
        'e'
    } else if c == 'F' {
        'f'
    } else {
        c
    }
}

/// `text` is made of that many hexadecimal digits.
pub open spec fn is_number(text: Seq<char>, digits: nat) -> bool {
    text.len() == digits && forall|i: int| 0 <= i < digits ==> is_digit(#[trigger] text[i])
}

/// `text` is `digits` in lower case.
pub open spec fn is_lowered(text: Seq<char>, digits: Seq<char>) -> bool {
    &&& text.len() == digits.len()
    &&& forall|i: int| 0 <= i < digits.len() ==> #[trigger] text[i] == lowered(digits[i])
}

/// The context that came out is the one with these identifiers and flags.
pub open spec fn carries(
    ctx: Option<TraceContext>,
    trace_id: Seq<char>,
    parent_id: Seq<char>,
    flags: Seq<char>,
) -> bool {
    ctx matches Some(c) && {
        &&& is_lowered(c.trace_id@, trace_id)
        &&& is_lowered(c.parent_span_id@, parent_id)
        &&& c.trace_flags == 16 * digit_value(flags[0]) + digit_value(flags[1])
    }
}

/// `ctx` is what extraction gave for `sql`, with the setting `standard_conforming_strings` on or
/// not.
pub open spec fn was_extracted(
    regex: TraceparentRegex,
    sql: &str,
    standard: bool,
    ctx: Option<TraceContext>,
) -> bool {
    ||| call_ensures(TraceparentRegex::extract, (&regex, sql, standard), ctx)
    ||| standard && call_ensures(extract_traceparent, (sql,), ctx)
}

/// Text without quotes and dollar signs in which no comment opens.
pub open spec fn is_unquoted(text: Seq<char>) -> bool {
    &&& forall|i: int|
        0 <= i < text.len() ==> (#[trigger] text[i]) != '\'' && text[i] != '"' && text[i] != '$'
    &&& forall|i: int|
        0 <= i < text.len() - 1 ==> !((#[trigger] text[i]) == '-' && text[i + 1] == '-') && !(
        text[i] == '/' && text[i + 1] == '*')
}

/// A part of a query.
pub enum Piece {
    /// Anything without quotes and comments.
    Plain(Seq<char>),
    /// A string constant or a quoted identifier, as its quote tells, with one quote inside it, which
    /// is doubled, if there is a second part.
    Quoted(char, Seq<char>, Option<Seq<char>>),
    /// A string constant with backslash escapes, by its letter, and one escaped quote between its
    /// two parts.
    Escaped(char, Seq<char>, Seq<char>),
    /// A string constant in dollar quotes with a tag.
    Dollar(Seq<char>, Seq<char>),
    /// A block comment.
    Block(Seq<char>),
    /// A line comment and the character that ends its line.
    Line(Seq<char>, char),
    /// A name, which can hold dollar signs.
    Name(Seq<char>),
    /// A parameter: a dollar sign and digits.
    Parameter(Seq<char>),
}

/// None of the characters is one of the two.
pub open spec fn is_free_of(text: Seq<char>, a: char, b: char) -> bool {
    forall|i: int| 0 <= i < text.len() ==> (#[trigger] text[i]) != a && text[i] != b
}

/// A letter, an underscore or anything beyond ASCII.
pub open spec fn is_letter(c: char) -> bool {
    'a' <= c <= 'z' || 'A' <= c <= 'Z' || c == '_' || c >= '\u{80}'
}

/// The part is of the kind that it says it is; a comment holds no key of a traceparent.
pub open spec fn is_piece(piece: Piece) -> bool {
    match piece {
        Piece::Plain(text) => is_unquoted(text),
        Piece::Quoted(quote, first, second) => {
            &&& quote == '\'' || quote == '"'
            &&& is_free_of(first, quote, '\\')
            &&& (second matches Some(text) ==> is_free_of(text, quote, '\\'))
        },
        Piece::Escaped(letter, first, second) => {
            &&& letter == 'e' || letter == 'E'
            &&& is_free_of(first, '\'', '\\') && is_free_of(second, '\'', '\\')
        },
        Piece::Dollar(tag, text) => {
            &&& forall|i: int| 0 <= i < tag.len() ==> 'a' <= #[trigger] tag[i] <= 'z'
            &&& is_free_of(text, '$', '$')
        },
        Piece::Block(text) => is_free_of(text, '*', '/') && is_free_of(text, '=', '='),
        Piece::Line(text, end) => {
            &&& end == '\n' || end == '\r'
            &&& is_free_of(text, '\n', '\r') && is_free_of(text, '=', '=')
        },
        Piece::Name(text) => {
            &&& text.len() > 0 && is_letter(text[0])
            &&& forall|i: int|
                0 <= i < text.len() ==> is_letter(#[trigger] text[i]) || '0' <= text[i] <= '9'
                    || text[i] == '$'
        },
        Piece::Parameter(digits) => {
            &&& digits.len() > 0
            &&& forall|i: int| 0 <= i < digits.len() ==> '0' <= #[trigger] digits[i] <= '9'
        },
    }
}

/// The text of a part, and a space behind it.
pub open spec fn piece_text(piece: Piece) -> Seq<char> {
    match piece {
        Piece::Plain(text) => text + seq![' '],
        Piece::Quoted(quote, first, None) => seq![quote] + first + seq![quote, ' '],
        Piece::Quoted(quote, first, Some(second)) => seq![quote] + first + seq![quote, quote]
            + second + seq![quote, ' '],
        Piece::Escaped(letter, first, second) => seq![letter, '\''] + first + seq!['\\', '\'']
            + second + seq!['\'', ' '],
        Piece::Dollar(tag, text) => seq!['$'] + tag + seq!['$'] + text + seq!['$'] + tag + seq![
            '$',
            ' ',
        ],
        Piece::Block(text) => seq!['/', '*'] + text + seq!['*', '/', ' '],
        Piece::Line(text, end) => seq!['-', '-'] + text + seq![end, ' '],
        Piece::Name(text) => text + seq![' '],
        Piece::Parameter(digits) => seq!['$'] + digits + seq![' '],
    }
}

/// A query made of parts.
pub open spec fn query_text(pieces: Seq<Piece>) -> Seq<char>
    decreases pieces.len(),
{
    if pieces.len() == 0 {
        Seq::empty()
    } else {
        query_text(pieces.drop_last()) + piece_text(pieces.last())
    }
}

/// A query with a traceparent behind the opening of a comment, and whatever follows it.
pub open spec fn annotated(
    query: Seq<char>,
    opening: Seq<char>,
    quote: Seq<char>,
    trace_id: Seq<char>,
    parent_id: Seq<char>,
    flags: Seq<char>,
    rest: Seq<char>,
) -> Seq<char> {
    query + opening + "traceparent="@ + quote + "00-"@ + trace_id + "-"@ + parent_id + "-"@ + flags
        + rest
}

/// No quote, or one of the two.
pub open spec fn is_quote(quote: Seq<char>) -> bool {
    quote.len() == 0 || quote == seq!['\''] || quote == seq!['"']
}

/// What opens a comment of either kind, with text behind it that does not end the comment and holds
/// no key of a traceparent.
pub open spec fn is_opening(opening: Seq<char>) -> bool {
    &&& opening.len() >= 2
    &&& opening[0] == '/' && opening[1] == '*' || opening[0] == '-' && opening[1] == '-'
    &&& forall|i: int|
        2 <= i < opening.len() ==> (#[trigger] opening[i]) != '*' && opening[i] != '/' && opening[i]
            != '\n' && opening[i] != '\r' && opening[i] != '='
}

#[verifier::rlimit(60)]
#[verifier::spinoff_prover]
proof fn piece_is_passed(sql: Seq<char>, from: int, piece: Piece, standard: bool)
    requires
        is_piece(piece),
        0 <= from && from + piece_text(piece).len() <= sql.len(),
        sql.subrange(from, from + piece_text(piece).len()) == piece_text(piece),
        crate::lexer::token_begins(sql, from, standard),
    ensures
        crate::lexer::token_begins(sql, from + piece_text(piece).len(), standard),
        forall|p: int|
            from <= p < from + piece_text(piece).len()
                ==> !#[trigger] crate::parser::commented_traceparent_at(sql, p, standard),
{
    let text = piece_text(piece);
    let space = from + text.len() - 1;
    assert forall|i: int| 0 <= i < text.len() implies sql[from + i] == #[trigger] text[i] by {
        assert(sql.subrange(from, from + text.len())[i] == text[i]);
    }
    assert(sql[space] == text[text.len() - 1]);
    match piece {
        Piece::Plain(plain) => {
            assert forall|i: int| from <= i < space implies (#[trigger] sql[i]) != '\'' && sql[i]
                != '"' && sql[i] != '$' && !(sql[i] == '-' && sql[i + 1] == '-') && !(sql[i] == '/'
                && sql[i + 1] == '*') by {
                assert(sql[i] == text[i - from] && text[i - from] == plain[i - from]);
                assert(sql[i + 1] == text[i + 1 - from]);
                if i + 1 < space {
                    assert(text[i + 1 - from] == plain[i + 1 - from]);
                }
            }
            crate::lexer::unquoted_text_is_complete(sql, from, space, standard);
            assert forall|p: int| from <= p < space implies !#[trigger]
                crate::parser::commented_traceparent_at(sql, p, standard) by {
                assert(!crate::lexer::in_comment(sql, p, standard));
            }
        },
        Piece::Quoted(quote, first, second) => {
            let middle = from + 1 + first.len();
            let end = space - 1;
            assert(sql[from] == text[0]);
            assert(sql[end] == text[end - from]);
            assert forall|i: int| from < i < middle implies (#[trigger] sql[i]) != quote && sql[i]
                != '\\' by {
                assert(sql[i] == text[i - from] && text[i - from] == first[i - from - 1]);
            }
            if let Some(other) = second {
                assert(sql[middle] == text[middle - from]);
                assert(sql[middle + 1] == text[middle + 1 - from]);
                assert forall|i: int| middle + 1 < i < end implies (#[trigger] sql[i]) != quote
                    && sql[i] != '\\' by {
                    assert(sql[i] == text[i - from] && text[i - from] == other[i - middle - 2]);
                }
            }
            crate::lexer::quotation_is_hidden(sql, from, middle, end, quote, standard);
            assert forall|p: int| from <= p < space implies !#[trigger]
                crate::parser::commented_traceparent_at(sql, p, standard) by {
                assert(!crate::lexer::in_comment(sql, p, standard));
            }
        },
        Piece::Escaped(_, first, second) => {
            let middle = from + 2 + first.len();
            let end = space - 1;
            assert(sql[from] == text[0] && sql[from + 1] == text[1]);
            assert(sql[end] == text[end - from]);
            assert(sql[middle] == text[middle - from]);
            assert(sql[middle + 1] == text[middle + 1 - from]);
            assert forall|i: int| from + 1 < i < middle implies (#[trigger] sql[i]) != '\''
                && sql[i] != '\\' by {
                assert(sql[i] == text[i - from] && text[i - from] == first[i - from - 2]);
            }
            assert forall|i: int| middle + 1 < i < end implies (#[trigger] sql[i]) != '\''
                && sql[i] != '\\' by {
                assert(sql[i] == text[i - from] && text[i - from] == second[i - middle - 2]);
            }
            crate::lexer::escaped_quotation_is_hidden(sql, from, middle, end, standard);
            assert forall|p: int| from <= p < space implies !#[trigger]
                crate::parser::commented_traceparent_at(sql, p, standard) by {
                assert(!crate::lexer::in_comment(sql, p, standard));
            }
        },
        Piece::Dollar(tag, body) => {
            let tag_end = from + 1 + tag.len();
            let close = tag_end + 1 + body.len();
            assert(sql[from] == text[0]);
            assert(sql[tag_end] == text[tag_end - from]);
            assert forall|i: int| from < i < tag_end implies 'a' <= #[trigger] sql[i] <= 'z' by {
                assert(sql[i] == text[i - from] && text[i - from] == tag[i - from - 1]);
            }
            assert forall|i: int| tag_end < i < close implies (#[trigger] sql[i]) != '$' by {
                assert(sql[i] == text[i - from] && text[i - from] == body[i - tag_end - 1]);
            }
            let len = tag_end + 1 - from;
            assert(text.subrange(0, len) =~= text.subrange(close - from, close - from + len));
            assert(sql.subrange(from, tag_end + 1) =~= text.subrange(0, len));
            assert(sql.subrange(close, close + len) =~= text.subrange(
                close - from,
                close - from + len,
            ));
            crate::lexer::dollar_quotation_is_hidden(sql, from, tag_end, close, standard);
            assert forall|p: int| from <= p < space implies !#[trigger]
                crate::parser::commented_traceparent_at(sql, p, standard) by {
                assert(!crate::lexer::in_comment(sql, p, standard));
            }
        },
        Piece::Block(body) => {
            let end = from + 2 + body.len();
            assert(sql[from] == text[0] && sql[from + 1] == text[1]);
            assert(sql[end] == text[end - from] && sql[end + 1] == text[end + 1 - from]);
            assert forall|i: int| from + 2 <= i < end implies (#[trigger] sql[i]) != '*' && sql[i]
                != '/' && sql[i] != '=' by {
                assert(sql[i] == text[i - from] && text[i - from] == body[i - from - 2]);
            }
            crate::lexer::block_comment_ends(sql, from, end, standard);
            assert forall|p: int| from <= p < end + 2 implies !#[trigger]
                crate::parser::commented_traceparent_at(sql, p, standard) by {
                assert(crate::lexer::comment_around(sql, p, standard) == Some((from, end + 2)));
                traceparent_holds_an_equals_sign(sql, p);
            }
        },
        Piece::Line(body, _) => {
            let end = from + 2 + body.len();
            assert(sql[from] == text[0] && sql[from + 1] == text[1]);
            assert(sql[end] == text[end - from]);
            assert forall|i: int| from + 2 <= i < end implies (#[trigger] sql[i]) != '\n' && sql[i]
                != '\r' && sql[i] != '=' by {
                assert(sql[i] == text[i - from] && text[i - from] == body[i - from - 2]);
            }
            crate::lexer::line_comment_ends(sql, from, end, standard);
            assert forall|p: int| from <= p < end implies !#[trigger]
                crate::parser::commented_traceparent_at(sql, p, standard) by {
                assert(crate::lexer::comment_around(sql, p, standard) == Some((from, end)));
                traceparent_holds_an_equals_sign(sql, p);
            }
            crate::lexer::single_character_is_a_token(sql, end, standard);
            assert(!crate::parser::commented_traceparent_at(sql, end, standard));
        },
        Piece::Name(name) => {
            assert forall|i: int| from <= i < space implies ('a' <= (#[trigger] sql[i]) <= 'z'
                || 'A' <= sql[i] <= 'Z' || sql[i] == '_' || sql[i] >= '\u{80}' || '0' <= sql[i]
                <= '9' || sql[i] == '$') by {
                assert(sql[i] == text[i - from] && text[i - from] == name[i - from]);
            }
            assert(sql[from] == text[0] && text[0] == name[0]);
            crate::lexer::name_is_a_token(sql, from, space, standard);
            assert forall|p: int| from <= p < space implies !#[trigger]
                crate::parser::commented_traceparent_at(sql, p, standard) by {
                assert(!crate::lexer::in_comment(sql, p, standard));
            }
        },
        Piece::Parameter(digits) => {
            assert(sql[from] == text[0] && sql[from + 1] == text[1] && text[1] == digits[0]);
            crate::lexer::parameter_quotes_nothing(sql, from, standard);
            assert forall|i: int| from + 1 <= i < space implies (#[trigger] sql[i]) != '\'' && sql[i]
                != '"' && sql[i] != '$' && !(sql[i] == '-' && sql[i + 1] == '-') && !(sql[i] == '/'
                && sql[i + 1] == '*') by {
                assert(sql[i] == text[i - from] && text[i - from] == digits[i - from - 1]);
            }
            crate::lexer::unquoted_text_is_complete(sql, from + 1, space, standard);
            assert forall|p: int| from <= p < space implies !#[trigger]
                crate::parser::commented_traceparent_at(sql, p, standard) by {
                assert(!crate::lexer::in_comment(sql, p, standard));
            }
        },
    }
    crate::lexer::single_character_is_a_token(sql, space, standard);
    assert forall|p: int| from <= p < from + text.len() implies !#[trigger]
        crate::parser::commented_traceparent_at(sql, p, standard) by {
        if p == space {
            assert(!crate::lexer::in_comment(sql, p, standard));
        }
    }
}

proof fn traceparent_holds_an_equals_sign(sql: Seq<char>, at: int)
    ensures
        crate::parser::traceparent_at(sql, at) ==> {
            &&& sql[at + 11] == '='
            &&& crate::parser::value_start(sql, at) >= at + 12
            &&& sql[at] == 't'
        },
{
    reveal_strlit("traceparent=");
    if crate::parser::traceparent_at(sql, at) {
        let key = sql.subrange(at, at + crate::parser::traceparent_key().len());
        assert(sql[at] == key[0] && sql[at + 11] == key[11]);
    }
}

proof fn pieces_are_passed(sql: Seq<char>, pieces: Seq<Piece>, standard: bool)
    requires
        forall|i: int| 0 <= i < pieces.len() ==> is_piece(#[trigger] pieces[i]),
        query_text(pieces).len() <= sql.len(),
        sql.take(query_text(pieces).len() as int) == query_text(pieces),
    ensures
        crate::lexer::token_begins(sql, query_text(pieces).len() as int, standard),
        forall|p: int|
            0 <= p < query_text(pieces).len() ==> !#[trigger]
                crate::parser::commented_traceparent_at(sql, p, standard),
    decreases pieces.len(),
{
    if pieces.len() > 0 {
        let earlier = query_text(pieces.drop_last());
        let last = piece_text(pieces.last());
        let from = earlier.len() as int;
        let whole = query_text(pieces);
        assert(whole == earlier + last);
        assert(sql.take(from) =~= whole.take(from));
        assert(whole.take(from) =~= earlier);
        pieces_are_passed(sql, pieces.drop_last(), standard);
        assert(sql.subrange(from, from + last.len()) =~= whole.subrange(from, whole.len() as int));
        assert(whole.subrange(from, whole.len() as int) =~= last);
        piece_is_passed(sql, from, pieces.last(), standard);
    }
}

proof fn digits_are_read_and_lowered(c: char)
    requires
        is_digit(c),
    ensures
        crate::parser::is_hex(c),
        crate::parser::hex_value(c) == digit_value(c),
        0 <= digit_value(c) < 16,
        crate::text::hex_char(crate::parser::hex_value(c)) == lowered(c),
{
    let value = crate::parser::hex_value(c);
    assert(value == 0 || value == 1 || value == 2 || value == 3 || value == 4 || value == 5 || value
        == 6 || value == 7 || value == 8 || value == 9 || value == 10 || value == 11 || value == 12
        || value == 13 || value == 14 || value == 15);
}

proof fn number_is_lowered(text: Seq<char>, digits: nat)
    requires
        is_number(text, digits),
    ensures
        crate::parser::all_hex(text),
        is_lowered(crate::parser::lower_hex(text), text),
{
    assert forall|i: int| 0 <= i < text.len() implies crate::parser::is_hex(#[trigger] text[i])
        && crate::parser::lower_hex(text)[i] == lowered(text[i]) by {
        digits_are_read_and_lowered(text[i]);
    }
}

proof fn annotation_is_a_traceparent(
    before: Seq<char>,
    quote: Seq<char>,
    trace_id: Seq<char>,
    parent_id: Seq<char>,
    flags: Seq<char>,
    rest: Seq<char>,
)
    requires
        is_quote(quote),
    ensures
        before + "traceparent="@ + quote + "00-"@ + trace_id + "-"@ + parent_id + "-"@ + flags
            + rest == crate::parser::sql_with_value(
            before,
            if quote.len() == 0 {
                None
            } else {
                Some(quote[0])
            },
            crate::parser::traceparent_text(trace_id, parent_id, flags),
            rest,
        ),
        quote.len() > 0 ==> quote[0] == '\'' || quote[0] == '"',
{
    reveal_strlit("00-");
    reveal_strlit("-");
    assert("00-"@ =~= seq!['0', '0', '-']);
    assert("-"@ =~= seq!['-']);
    let key = "traceparent="@;
    let value = crate::parser::traceparent_text(trace_id, parent_id, flags);
    let left = before + key + quote + "00-"@ + trace_id + "-"@ + parent_id + "-"@ + flags + rest;
    assert(left =~= before + key + quote + value + rest);
    if quote.len() == 0 {
        assert(before + key + quote + value + rest =~= before + key + value + rest);
    } else {
        assert(quote =~= seq![quote[0]]);
    }
}

/// Behind a complete query, a traceparent in a comment is what the text carries.
#[verifier::rlimit(60)]
#[verifier::spinoff_prover]
proof fn annotation_is_found(
    sql: Seq<char>,
    standard: bool,
    start: int,
    opening: Seq<char>,
    quote: Seq<char>,
    trace_id: Seq<char>,
    parent_id: Seq<char>,
    flags: Seq<char>,
    rest: Seq<char>,
)
    requires
        0 <= start <= sql.len(),
        crate::lexer::token_begins(sql, start, standard),
        forall|p: int|
            0 <= p < start ==> !#[trigger] crate::parser::commented_traceparent_at(
                sql,
                p,
                standard,
            ),
        is_opening(opening),
        is_quote(quote),
        is_number(trace_id, 32),
        is_number(parent_id, 16),
        is_number(flags, 2),
        sql == annotated(
            sql.take(start),
            opening,
            quote,
            trace_id,
            parent_id,
            flags,
            rest,
        ),
    ensures
        ({
            let found = crate::parser::extracted_by(sql, standard);
            found matches Some(c) && {
                &&& is_lowered(c.trace_id, trace_id)
                &&& is_lowered(c.parent_span_id, parent_id)
                &&& c.trace_flags == 16 * digit_value(flags[0]) + digit_value(flags[1])
            }
        }),
{
    let before = sql.take(start) + opening;
    let mark = if quote.len() == 0 {
        None
    } else {
        Some(quote[0])
    };
    annotation_layout(sql, start, opening, quote, trace_id, parent_id, flags, rest);
    opening_holds_no_traceparent(sql, standard, start, opening);
    number_is_lowered(trace_id, 32);
    number_is_lowered(parent_id, 16);
    number_is_lowered(flags, 2);
    digits_are_read_and_lowered(flags[0]);
    digits_are_read_and_lowered(flags[1]);
    crate::parser::injected_context_is_extracted(
        before,
        mark,
        trace_id,
        parent_id,
        flags,
        rest,
        standard,
    );
}

#[verifier::rlimit(60)]
#[verifier::spinoff_prover]
proof fn annotation_layout(
    sql: Seq<char>,
    start: int,
    opening: Seq<char>,
    quote: Seq<char>,
    trace_id: Seq<char>,
    parent_id: Seq<char>,
    flags: Seq<char>,
    rest: Seq<char>,
)
    requires
        0 <= start <= sql.len(),
        is_quote(quote),
        sql == annotated(
            sql.take(start),
            opening,
            quote,
            trace_id,
            parent_id,
            flags,
            rest,
        ),
    ensures
        sql == crate::parser::sql_with_value(
            sql.take(start) + opening,
            if quote.len() == 0 {
                None
            } else {
                Some(quote[0])
            },
            crate::parser::traceparent_text(trace_id, parent_id, flags),
            rest,
        ),
        quote.len() > 0 ==> quote[0] == '\'' || quote[0] == '"',
        (sql.take(start) + opening).len() == start + opening.len(),
        start + opening.len() + 12 <= sql.len(),
        forall|i: int|
            start <= i < start + opening.len() ==> #[trigger] sql[i] == opening[i - start],
        sql[start + opening.len()] == 't',
        forall|i: int|
            start + opening.len() <= i < start + opening.len() + 11 ==> (#[trigger] sql[i]) != '=',
{
    let before = sql.take(start) + opening;
    reveal_strlit("traceparent=");
    annotation_is_a_traceparent(before, quote, trace_id, parent_id, flags, rest);
    let tail = quote + "00-"@ + trace_id + "-"@ + parent_id + "-"@ + flags + rest;
    assert(sql =~= before + "traceparent="@ + tail);
    assert forall|i: int| start + opening.len() <= i < start + opening.len() + 12 implies
        #[trigger] sql[i] == "traceparent="@[i - start - opening.len()] by {}
    assert(sql[start + opening.len()] == "traceparent="@[0]);
}

#[verifier::rlimit(60)]
#[verifier::spinoff_prover]
proof fn opening_holds_no_traceparent(
    sql: Seq<char>,
    standard: bool,
    start: int,
    opening: Seq<char>,
)
    requires
        0 <= start,
        crate::lexer::token_begins(sql, start, standard),
        forall|p: int|
            0 <= p < start ==> !#[trigger] crate::parser::commented_traceparent_at(
                sql,
                p,
                standard,
            ),
        is_opening(opening),
        start + opening.len() + 12 <= sql.len(),
        forall|i: int|
            start <= i < start + opening.len() ==> #[trigger] sql[i] == opening[i - start],
        sql[start + opening.len()] == 't',
        forall|i: int|
            start + opening.len() <= i < start + opening.len() + 11 ==> (#[trigger] sql[i]) != '=',
    ensures
        crate::lexer::in_comment(sql, start + opening.len(), standard),
        forall|p: int|
            0 <= p < start + opening.len() ==> !#[trigger]
                crate::parser::commented_traceparent_at(sql, p, standard),
{
    let at = start + opening.len();
    assert(sql[start] == opening[0] && sql[start + 1] == opening[1]);
    crate::lexer::comment_goes_on_over_plain_text(sql, start, at, standard);
    assert forall|p: int| 0 <= p < at implies !#[trigger] crate::parser::commented_traceparent_at(
        sql,
        p,
        standard,
    ) by {
        if p >= start {
            traceparent_holds_an_equals_sign(sql, p);
            if p + 11 < at {
                assert(sql[p + 11] == opening[p + 11 - start]);
            } else {
                assert(sql[p + 11] != '=');
            }
        }
    }
}

/// Whatever a query is made of, the context in a comment behind it is what is extracted: its
/// identifiers in lower case and the number that its flags stand for. Nothing in the string
/// constants, identifiers and comments of the query hides it or stands in for it, and nothing that
/// follows it changes it.
#[verifier::rlimit(60)]
#[verifier::spinoff_prover]
pub proof fn context_behind_a_query_is_extracted(
    regex: TraceparentRegex,
    sql: &str,
    standard: bool,
    ctx: Option<TraceContext>,
    pieces: Seq<Piece>,
    tail: Seq<char>,
    opening: Seq<char>,
    quote: Seq<char>,
    trace_id: Seq<char>,
    parent_id: Seq<char>,
    flags: Seq<char>,
    rest: Seq<char>,
)
    requires
        was_extracted(regex, sql, standard, ctx),
        forall|i: int| 0 <= i < pieces.len() ==> is_piece(#[trigger] pieces[i]),
        is_unquoted(tail),
        is_opening(opening),
        opening[0] == '-' ==> tail.len() == 0 || tail.last() != '-',
        is_quote(quote),
        is_number(trace_id, 32),
        is_number(parent_id, 16),
        is_number(flags, 2),
        sql@ == annotated(
            query_text(pieces) + tail,
            opening,
            quote,
            trace_id,
            parent_id,
            flags,
            rest,
        ),
    ensures
        carries(ctx, trace_id, parent_id, flags),
{
    let text = sql@;
    let query = query_text(pieces);
    let from = query.len() as int;
    let start = from + tail.len();
    assert(text.take(from) =~= query);
    assert(text.take(start) =~= query + tail);
    pieces_are_passed(text, pieces, standard);
    assert(text[start] == opening[0]);
    assert forall|i: int| from <= i < start implies (#[trigger] text[i]) != '\'' && text[i] != '"'
        && text[i] != '$' && !(text[i] == '-' && text[i + 1] == '-') && !(text[i] == '/' && text[i
        + 1] == '*') by {
        assert(text[i] == tail[i - from]);
        if i + 1 < start {
            assert(text[i + 1] == tail[i + 1 - from]);
        }
    }
    crate::lexer::unquoted_text_is_complete(text, from, start, standard);
    assert forall|p: int| 0 <= p < start implies !#[trigger]
        crate::parser::commented_traceparent_at(text, p, standard) by {
        if p >= from {
            assert(!crate::lexer::in_comment(text, p, standard));
        }
    }
    annotation_is_found(
        text,
        standard,
        start,
        opening,
        quote,
        trace_id,
        parent_id,
        flags,
        rest,
    );
}

/// What the string constants, identifiers and comments of a query hold is not taken for a context: a
/// query made of such parts carries none.
pub proof fn query_without_context_carries_none(
    regex: TraceparentRegex,
    sql: &str,
    standard: bool,
    ctx: Option<TraceContext>,
    pieces: Seq<Piece>,
)
    requires
        was_extracted(regex, sql, standard, ctx),
        forall|i: int| 0 <= i < pieces.len() ==> is_piece(#[trigger] pieces[i]),
        sql@ == query_text(pieces),
    ensures
        ctx is None,
{
    assert(sql@.take(sql@.len() as int) =~= sql@);
    pieces_are_passed(sql@, pieces, standard);
    crate::parser::extraction_succeeds_iff_present(sql@, standard);
    assert forall|at: int| !crate::parser::commented_traceparent_at(sql@, at, standard) by {
        if crate::parser::commented_traceparent_at(sql@, at, standard) {
            traceparent_holds_an_equals_sign(sql@, at);
        }
    }
}

/// A plain string constant that holds a backslash before a quote: with the setting on, the quote
/// ends it; with the setting off, it goes on.
pub open spec fn backslashed(first: Seq<char>, second: Seq<char>, standard: bool) -> Seq<char> {
    if standard {
        seq!['\''] + first + seq!['\\', '\'', ' ']
    } else {
        seq!['\''] + first + seq!['\\', '\''] + second + seq!['\'', ' ']
    }
}

/// Behind a plain string constant with a backslash before a quote, the context in a comment is
/// extracted too, the constant being read as the setting `standard_conforming_strings` says.
#[verifier::rlimit(60)]
#[verifier::spinoff_prover]
pub proof fn context_behind_backslashes_is_extracted(
    regex: TraceparentRegex,
    sql: &str,
    standard: bool,
    ctx: Option<TraceContext>,
    query: Seq<char>,
    first: Seq<char>,
    second: Seq<char>,
    opening: Seq<char>,
    quote: Seq<char>,
    trace_id: Seq<char>,
    parent_id: Seq<char>,
    flags: Seq<char>,
    rest: Seq<char>,
)
    requires
        was_extracted(regex, sql, standard, ctx),
        is_unquoted(query),
        is_free_of(first, '\'', '\\'),
        is_free_of(second, '\'', '\\'),
        is_opening(opening),
        is_quote(quote),
        is_number(trace_id, 32),
        is_number(parent_id, 16),
        is_number(flags, 2),
        sql@ == annotated(
            query + seq![' '] + backslashed(first, second, standard),
            opening,
            quote,
            trace_id,
            parent_id,
            flags,
            rest,
        ),
    ensures
        carries(ctx, trace_id, parent_id, flags),
{
    let text = sql@;
    let constant = backslashed(first, second, standard);
    let whole = query + seq![' '] + constant;
    let at = query.len() as int + 1;
    let middle = at + 1 + first.len();
    let start = whole.len() as int;
    let end = start - 2;
    assert(text.take(start) =~= whole);
    assert forall|i: int| 0 <= i < start implies #[trigger] text[i] == whole[i] by {
        assert(text.take(start)[i] == whole[i]);
    }
    assert forall|i: int| 0 <= i < at implies (#[trigger] text[i]) != '\'' && text[i] != '"'
        && text[i] != '$' && !(text[i] == '-' && text[i + 1] == '-') && !(text[i] == '/' && text[i
        + 1] == '*') by {
        assert(text[i] == whole[i] && text[i + 1] == whole[i + 1]);
        if i < query.len() {
            assert(whole[i] == query[i]);
            if i + 1 < query.len() {
                assert(whole[i + 1] == query[i + 1]);
            }
        }
    }
    assert(text[at - 1] == whole[at - 1]);
    assert(text[at] == whole[at]);
    assert(text[middle] == whole[middle]);
    assert(text[middle + 1] == whole[middle + 1]);
    assert(text[end] == whole[end] && text[end + 1] == whole[end + 1]);
    assert forall|i: int| at < i < middle implies (#[trigger] text[i]) != '\'' && text[i]
        != '\\' by {
        assert(text[i] == whole[i] && whole[i] == first[i - at - 1]);
    }
    assert forall|i: int| middle + 1 < i < end implies (#[trigger] text[i]) != '\'' && text[i]
        != '\\' by {
        assert(text[i] == whole[i] && whole[i] == second[i - middle - 2]);
    }
    crate::lexer::backslashes_are_read_by_the_setting(text, at, middle, end, standard);
    crate::lexer::single_character_is_a_token(text, end + 1, standard);
    assert forall|p: int| 0 <= p < start implies !#[trigger]
        crate::parser::commented_traceparent_at(text, p, standard) by {
        assert(!crate::lexer::in_comment(text, p, standard));
    }
    annotation_is_found(
        text,
        standard,
        start,
        opening,
        quote,
        trace_id,
        parent_id,
        flags,
        rest,
    );
}

/// Block comments nest: behind a comment inside a comment the outer one goes on, and a context there
/// is extracted.
#[verifier::rlimit(60)]
#[verifier::spinoff_prover]
pub proof fn context_behind_a_nested_comment_is_extracted(
    regex: TraceparentRegex,
    sql: &str,
    standard: bool,
    ctx: Option<TraceContext>,
    query: Seq<char>,
    first: Seq<char>,
    nested: Seq<char>,
    second: Seq<char>,
    quote: Seq<char>,
    trace_id: Seq<char>,
    parent_id: Seq<char>,
    flags: Seq<char>,
    rest: Seq<char>,
)
    requires
        was_extracted(regex, sql, standard, ctx),
        is_unquoted(query),
        is_free_of(first, '*', '/') && is_free_of(first, '=', '='),
        is_free_of(nested, '*', '/') && is_free_of(nested, '=', '='),
        is_free_of(second, '*', '/') && is_free_of(second, '=', '='),
        is_quote(quote),
        is_number(trace_id, 32),
        is_number(parent_id, 16),
        is_number(flags, 2),
        sql@ == annotated(
            query,
            seq!['/', '*'] + first + seq!['/', '*'] + nested + seq!['*', '/'] + second,
            quote,
            trace_id,
            parent_id,
            flags,
            rest,
        ),
    ensures
        carries(ctx, trace_id, parent_id, flags),
{
    let text = sql@;
    let opening = seq!['/', '*'] + first + seq!['/', '*'] + nested + seq!['*', '/'] + second;
    let start = query.len() as int;
    assert(text.take(start) =~= query);
    annotation_layout(text, start, opening, quote, trace_id, parent_id, flags, rest);
    nested_opening_characters(first, nested, second);
    nested_opening_is_a_comment(
        text,
        standard,
        query,
        opening,
        first.len() as int,
        nested.len() as int,
    );
    number_is_lowered(trace_id, 32);
    number_is_lowered(parent_id, 16);
    number_is_lowered(flags, 2);
    digits_are_read_and_lowered(flags[0]);
    digits_are_read_and_lowered(flags[1]);
    crate::parser::injected_context_is_extracted(
        text.take(start) + opening,
        if quote.len() == 0 {
            None
        } else {
            Some(quote[0])
        },
        trace_id,
        parent_id,
        flags,
        rest,
        standard,
    );
}

/// A comment with another one inside it, up to where the inner one has ended.
pub open spec fn is_nested_opening(opening: Seq<char>, first: int, nested: int) -> bool {
    &&& opening.len() >= first + nested + 6
    &&& opening[0] == '/' && opening[1] == '*'
    &&& opening[first + 2] == '/' && opening[first + 3] == '*'
    &&& opening[first + nested + 4] == '*' && opening[first + nested + 5] == '/'
    &&& forall|i: int| 0 <= i < opening.len() ==> (#[trigger] opening[i]) != '='
    &&& forall|i: int|
        2 <= i < opening.len() && !(first + 2 <= i < first + 4) && !(first + nested + 4 <= i < first
            + nested + 6) ==> (#[trigger] opening[i]) != '*' && opening[i] != '/'
}

proof fn nested_opening_characters(first: Seq<char>, nested: Seq<char>, second: Seq<char>)
    requires
        is_free_of(first, '*', '/') && is_free_of(first, '=', '='),
        is_free_of(nested, '*', '/') && is_free_of(nested, '=', '='),
        is_free_of(second, '*', '/') && is_free_of(second, '=', '='),
    ensures
        is_nested_opening(
            seq!['/', '*'] + first + seq!['/', '*'] + nested + seq!['*', '/'] + second,
            first.len() as int,
            nested.len() as int,
        ),
{
    let opening = seq!['/', '*'] + first + seq!['/', '*'] + nested + seq!['*', '/'] + second;
    let inner = 2 + first.len();
    let inner_end = inner + 2 + nested.len();
    assert forall|i: int| 2 <= i < inner implies #[trigger] opening[i] == first[i - 2] by {}
    assert forall|i: int| inner + 2 <= i < inner_end implies #[trigger] opening[i] == nested[i
        - inner - 2] by {}
    assert forall|i: int| inner_end + 2 <= i < opening.len() implies #[trigger] opening[i]
        == second[i - inner_end - 2] by {}
}

#[verifier::rlimit(60)]
#[verifier::spinoff_prover]
proof fn nested_opening_is_a_comment(
    text: Seq<char>,
    standard: bool,
    query: Seq<char>,
    opening: Seq<char>,
    first: int,
    nested: int,
)
    requires
        0 <= first && 0 <= nested,
        is_unquoted(query),
        is_nested_opening(opening, first, nested),
        query.len() + opening.len() + 12 <= text.len(),
        text.take(query.len() as int) == query,
        forall|i: int|
            query.len() <= i < query.len() + opening.len() ==> #[trigger] text[i] == opening[i
                - query.len()],
        text[(query.len() + opening.len()) as int] == 't',
        forall|i: int|
            query.len() + opening.len() <= i < query.len() + opening.len() + 11 ==> (
            #[trigger] text[i]) != '=',
    ensures
        crate::lexer::in_comment(text, (query.len() + opening.len()) as int, standard),
        forall|p: int|
            0 <= p < query.len() + opening.len() ==> !#[trigger]
                crate::parser::commented_traceparent_at(text, p, standard),
{
    let start = query.len() as int;
    let at = start + opening.len();
    let inner = start + 2 + first;
    let inner_end = inner + 2 + nested;
    assert(text[start] == opening[0] && text[start + 1] == opening[1]);
    assert forall|i: int| 0 <= i < start implies (#[trigger] text[i]) != '\'' && text[i] != '"'
        && text[i] != '$' && !(text[i] == '-' && text[i + 1] == '-') && !(text[i] == '/' && text[i
        + 1] == '*') by {
        assert(text[i] == text.take(start)[i]);
        if i + 1 < start {
            assert(text[i + 1] == text.take(start)[i + 1]);
        }
    }
    assert(crate::lexer::token_begins(text, 0, standard));
    crate::lexer::unquoted_text_is_complete(text, 0, start, standard);
    assert(text[inner] == opening[inner - start] && text[inner + 1] == opening[inner + 1 - start]);
    assert(text[inner_end] == opening[inner_end - start]);
    assert(text[inner_end + 1] == opening[inner_end + 1 - start]);
    crate::lexer::outer_block_comment_goes_on(text, start, inner, inner_end, at, standard);
    assert forall|p: int| 0 <= p < at implies !#[trigger] crate::parser::commented_traceparent_at(
        text,
        p,
        standard,
    ) by {
        if p < start {
            assert(!crate::lexer::in_comment(text, p, standard));
        } else {
            traceparent_holds_an_equals_sign(text, p);
            if p + 11 < at {
                assert(text[p + 11] == opening[p + 11 - start]);
            } else {
                assert(text[p + 11] != '=');
            }
        }
    }
}

/// What is extracted stands in the text: behind the opening of a comment the key, one quote or none,
/// and a version 00 traceparent with those identifiers and flags.
pub proof fn extracted_context_stands_in_the_text(
    regex: TraceparentRegex,
    sql: &str,
    standard: bool,
    ctx: Option<TraceContext>,
)
    requires
        was_extracted(regex, sql, standard, ctx),
        ctx is Some,
    ensures
        exists|comment: int, at: int, from: int|
            {
                &&& 0 <= comment < at && at + 12 <= from && from + 55 <= sql@.len()
                &&& sql@[comment] == '-' && sql@[comment + 1] == '-' || sql@[comment] == '/'
                    && sql@[comment + 1] == '*'
                &&& #[trigger] sql@.subrange(at, at + 12) == "traceparent="@
                &&& from == at + 12 || from == at + 13 && (sql@[at + 12] == '\'' || sql@[at + 12]
                    == '"')
                &&& #[trigger] sql@.subrange(from, from + 3) == seq!['0', '0', '-']
                &&& is_number(sql@.subrange(from + 3, from + 35), 32) && sql@[from + 35] == '-'
                &&& is_number(sql@.subrange(from + 36, from + 52), 16) && sql@[from + 52] == '-'
                &&& is_number(sql@.subrange(from + 53, from + 55), 2)
                &&& carries(
                    ctx,
                    sql@.subrange(from + 3, from + 35),
                    sql@.subrange(from + 36, from + 52),
                    sql@.subrange(from + 53, from + 55),
                )
                &&& #[trigger] crate::lexer::opens_comment(sql@, comment)
            },
{
    let text = sql@;
    crate::parser::extraction_succeeds_iff_present(text, standard);
    let some = choose|p: int| crate::parser::commented_traceparent_at(text, p, standard);
    let at = crate::parser::first_commented(text, some, standard);
    crate::parser::extraction_takes_the_leftmost(text, at, standard);
    crate::lexer::comment_spans_from_its_opening(text, at, standard);
    traceparent_holds_an_equals_sign(text, at);
    reveal_strlit("traceparent=");
    let comment = crate::lexer::comment_around(text, at, standard)->0;
    let start = comment.0;
    let from = crate::parser::value_start(text, at);
    let value = crate::parser::value_at(text, at);
    assert(value =~= text.subrange(from, from + 55));
    assert(text.subrange(from, from + 3) =~= seq![value[0], value[1], value[2]]);
    assert(text.subrange(from + 3, from + 35) =~= value.subrange(3, 35));
    assert(text.subrange(from + 36, from + 52) =~= value.subrange(36, 52));
    assert(text.subrange(from + 53, from + 55) =~= value.subrange(53, 55));
    assert(text[from + 35] == value[35] && text[from + 52] == value[52]);
    hex_is_number(value.subrange(3, 35));
    hex_is_number(value.subrange(36, 52));
    hex_is_number(value.subrange(53, 55));
    number_is_lowered(value.subrange(3, 35), 32);
    number_is_lowered(value.subrange(36, 52), 16);
    digits_are_read_and_lowered(value.subrange(53, 55)[0]);
    digits_are_read_and_lowered(value.subrange(53, 55)[1]);
    assert(value.subrange(53, 55)[0] == value[53] && value.subrange(53, 55)[1] == value[54]);
    assert(text[start] == '-' || text[start] == '/');
    assert(start < at);
    assert(crate::lexer::opens_comment(text, start));
    assert(text.subrange(at, at + 12) == "traceparent="@);
}

proof fn hex_is_number(text: Seq<char>)
    requires
        crate::parser::all_hex(text),
    ensures
        is_number(text, text.len()),
{
    assert forall|i: int| 0 <= i < text.len() implies is_digit(#[trigger] text[i]) by {
        assert(crate::parser::is_hex(text[i]));
    }
}

} // verus!
