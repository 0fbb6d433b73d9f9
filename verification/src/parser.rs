//! Extraction of a W3C trace context from the comments of a SQL text.

use regex::Regex;
use vstd::prelude::*;

use crate::lexer::{
    characters, find_before_next, find_token_end, is_comment, text_between, Before,
};

verus! {

/// Matches sqlcommenter-style traceparent comments.
///
/// Examples:
///   `/*traceparent='00-0af7651916cd43dd8448eb211c80319c-b7ad6b7169203331-01'*/`
///   `/* traceparent="00-..." */`
pub const TRACEPARENT_PATTERN: &'static str =
    r#"traceparent=['\"]?(00-[0-9a-fA-F]{32}-[0-9a-fA-F]{16}-[0-9a-fA-F]{2})['\"]?"#;

/// What every match of the pattern begins with: the key of a traceparent.
pub const TRACEPARENT_KEY: &'static str = "traceparent=";

/// Parsed W3C traceparent context.
#[derive(Debug)]
pub struct TraceContext {
    pub trace_id: String,
    pub parent_span_id: String,
    pub trace_flags: u8,
}

/// What a trace context says.
#[verifier::ext_equal]
pub struct TraceContextModel {
    pub trace_id: Seq<char>,
    pub parent_span_id: Seq<char>,
    pub trace_flags: u8,
}

impl View for TraceContext {
    type V = TraceContextModel;

    open spec fn view(&self) -> TraceContextModel {
        TraceContextModel {
            trace_id: self.trace_id@,
            parent_span_id: self.parent_span_id@,
            trace_flags: self.trace_flags,
        }
    }
}

impl Clone for TraceContext {
    fn clone(&self) -> (copy: Self)
        ensures
            copy == *self,
    {
        TraceContext {
            trace_id: self.trace_id.clone(),
            parent_span_id: self.parent_span_id.clone(),
            trace_flags: self.trace_flags,
        }
    }
}

/// A hexadecimal digit in either case.
pub open spec fn is_hex(c: char) -> bool {
    '0' <= c <= '9' || 'a' <= c <= 'f' || 'A' <= c <= 'F'
}

/// The number that a hexadecimal digit stands for.
pub open spec fn hex_value(c: char) -> nat
    recommends
        is_hex(c),
{
    if '0' <= c <= '9' {
        (c as nat - '0' as nat) as nat
    } else if 'a' <= c <= 'f' {
        (c as nat - 'a' as nat + 10) as nat
    } else {
        (c as nat - 'A' as nat + 10) as nat
    }
}

/// Only hexadecimal digits.
pub open spec fn all_hex(s: Seq<char>) -> bool {
    forall|i: int| 0 <= i < s.len() ==> is_hex(#[trigger] s[i])
}

/// Hexadecimal digits in lower case.
pub open spec fn lower_hex(s: Seq<char>) -> Seq<char> {
    s.map_values(|c: char| crate::text::hex_char(hex_value(c)))
}

/// A version 00 traceparent: `00-<32 digits>-<16 digits>-<2 digits>`.
pub open spec fn is_traceparent(s: Seq<char>) -> bool {
    &&& s.len() == 55
    &&& s[0] == '0' && s[1] == '0' && s[2] == '-'
    &&& all_hex(s.subrange(3, 35)) && s[35] == '-'
    &&& all_hex(s.subrange(36, 52)) && s[52] == '-'
    &&& all_hex(s.subrange(53, 55))
}

/// The key that introduces a traceparent.
pub open spec fn traceparent_key() -> Seq<char> {
    TRACEPARENT_KEY@
}

/// Where the value stands whose key begins at `at`: behind the key and one quote, if any.
pub open spec fn value_start(sql: Seq<char>, at: int) -> int {
    let after_key = at + traceparent_key().len();
    if after_key < sql.len() && (sql[after_key] == '\'' || sql[after_key] == '"') {
        after_key + 1
    } else {
        after_key
    }
}

/// The value whose key begins at `at`.
pub open spec fn value_at(sql: Seq<char>, at: int) -> Seq<char> {
    sql.subrange(value_start(sql, at), value_start(sql, at) + 55)
}

/// A key begins at `at`, and a traceparent follows it.
pub open spec fn traceparent_at(sql: Seq<char>, at: int) -> bool {
    &&& 0 <= at
    &&& value_start(sql, at) + 55 <= sql.len()
    &&& sql.subrange(at, at + traceparent_key().len()) == traceparent_key()
    &&& is_traceparent(value_at(sql, at))
}

/// The first traceparent whose key begins at `from` or later.
pub open spec fn find_traceparent(sql: Seq<char>, from: int) -> Option<Seq<char>>
    decreases sql.len() - from,
{
    if from >= sql.len() {
        None
    } else if traceparent_at(sql, from) {
        Some(value_at(sql, from))
    } else {
        find_traceparent(sql, from + 1)
    }
}

/// The context that a traceparent carries: its identifiers in lower case and its flags.
pub open spec fn context_of(traceparent: Seq<char>) -> TraceContextModel {
    TraceContextModel {
        trace_id: lower_hex(traceparent.subrange(3, 35)),
        parent_span_id: lower_hex(traceparent.subrange(36, 52)),
        trace_flags: (hex_value(traceparent[53]) * 16 + hex_value(traceparent[54])) as u8,
    }
}

/// A key begins at `at` and a traceparent follows it, all of it in one comment.
pub open spec fn commented_traceparent_at(sql: Seq<char>, at: int, standard: bool) -> bool {
    &&& traceparent_at(sql, at)
    &&& crate::lexer::comment_around(sql, at, standard) matches Some((start, end)) && value_start(
        sql,
        at,
    ) + 55 <= end
}

/// The first traceparent that lies in one comment, its key beginning at `from` or later.
pub open spec fn find_commented_traceparent(sql: Seq<char>, from: int, standard: bool) -> Option<
    Seq<char>,
>
    decreases sql.len() - from,
{
    if from >= sql.len() {
        None
    } else if commented_traceparent_at(sql, from, standard) {
        Some(value_at(sql, from))
    } else {
        find_commented_traceparent(sql, from + 1, standard)
    }
}

/// The context that a SQL text carries, if any: that of the leftmost traceparent that lies in one
/// comment, `standard_conforming_strings` being on or not.
pub open spec fn extracted_by(sql: Seq<char>, standard: bool) -> Option<TraceContextModel> {
    match find_commented_traceparent(sql, 0, standard) {
        Some(traceparent) => Some(context_of(traceparent)),
        None => None,
    }
}

/// The context that a SQL text carries, if any, with `standard_conforming_strings` on, as it is by
/// default.
pub open spec fn extracted(sql: Seq<char>) -> Option<TraceContextModel> {
    extracted_by(sql, true)
}

/// `regex::Regex`, a compiled pattern.
#[verifier::external_type_specification]
#[verifier::external_body]
pub struct ExRegex(regex::Regex);

/// The pattern that a `regex::Regex` was compiled from, as `Regex::as_str` gives it.
pub uninterp spec fn pattern_of(regex: regex::Regex) -> Seq<char>;

/// `regex::Regex::new`, for the traceparent pattern alone, which is well-formed: the pattern,
/// compiled.
#[verifier::external_body]
fn compile(pattern: &str) -> (regex: Regex)
    requires
        pattern@ == TRACEPARENT_PATTERN@,
    ensures
        pattern_of(regex) == pattern@,
{
    Regex::new(pattern).unwrap()
}

/// `regex::Regex::captures`, for the traceparent pattern alone: the text of the pattern's group
/// in the leftmost match, or `None` where nothing matches.
///
/// The claim is that the leftmost match of the pattern begins at the first position where the
/// key is followed by at most one quote and a version 00 traceparent, and that the group is
/// that traceparent. The quote is no digit, so a match can take or leave it in one way only.
#[verifier::external_body]
fn first_group(regex: &Regex, text: &str) -> (group: Option<String>)
    requires
        pattern_of(*regex) == TRACEPARENT_PATTERN@,
    ensures
        match group {
            Some(value) => find_traceparent(text@, 0) == Some(value@),
            None => find_traceparent(text@, 0) is None,
        },
{
    let captures = regex.captures(text)?;
    Some(captures.get(1)?.as_str().to_string())
}

proof fn found_is_traceparent(sql: Seq<char>, from: int)
    ensures
        find_traceparent(sql, from) matches Some(value) ==> is_traceparent(value),
    decreases sql.len() - from,
{
    if from < sql.len() && !traceparent_at(sql, from) {
        found_is_traceparent(sql, from + 1);
    }
}

/// In the text of a comment the traceparents stand that lie in that comment.
proof fn comment_is_searched(sql: Seq<char>, start: int, end: int, from: int, standard: bool)
    requires
        0 <= start < end <= sql.len(),
        0 <= from <= end - start,
        forall|p: int|
            start <= p < end ==> #[trigger] crate::lexer::comment_around(sql, p, standard) == Some(
                (start, end),
            ),
    ensures
        find_commented_traceparent(sql, start + from, standard) == match find_traceparent(
            sql.subrange(start, end),
            from,
        ) {
            Some(value) => Some(value),
            None => find_commented_traceparent(sql, end, standard),
        },
    decreases end - start - from,
{
    if from < end - start {
        let comment = sql.subrange(start, end);
        let at = start + from;
        let key = traceparent_key().len();
        assert(crate::lexer::comment_around(sql, at, standard) == Some((start, end)));
        if value_start(sql, at) + 55 <= end || value_start(comment, from) + 55 <= end - start {
            assert(comment.subrange(from, from + key) =~= sql.subrange(at, at + key));
            assert(value_at(comment, from) =~= value_at(sql, at));
        }
        comment_is_searched(sql, start, end, from + 1, standard);
    }
}

/// Outside comments there is nothing to find.
proof fn token_is_passed_over(sql: Seq<char>, from: int, end: int, standard: bool)
    requires
        0 <= from <= end <= sql.len(),
        forall|p: int|
            from <= p < end ==> #[trigger] crate::lexer::comment_around(sql, p, standard) is None,
    ensures
        find_commented_traceparent(sql, from, standard) == find_commented_traceparent(
            sql,
            end,
            standard,
        ),
    decreases end - from,
{
    if from < end {
        assert(crate::lexer::comment_around(sql, from, standard) is None);
        token_is_passed_over(sql, from + 1, end, standard);
    }
}

fn hex_digit(c: char) -> (value: u8)
    requires
        is_hex(c),
    ensures
        value == hex_value(c),
        value < 16,
{
    let code: u32 = c as u32;
    if code <= 57 {
        (code - 48) as u8
    } else if code <= 70 {
        (code - 55) as u8
    } else {
        (code - 87) as u8
    }
}

/// The digits of `text` from `from` up to `to`, in lower case.
fn lower_digits(text: &str, from: usize, to: usize) -> (digits: String)
    requires
        from <= to <= text@.len(),
        all_hex(text@.subrange(from as int, to as int)),
    ensures
        digits@ == lower_hex(text@.subrange(from as int, to as int)),
{
    let mut digits = String::new();
    let mut at: usize = from;
    let ghost source = text@.subrange(from as int, to as int);
    while at < to
        invariant
            from <= at <= to <= text@.len(),
            source == text@.subrange(from as int, to as int),
            all_hex(source),
            digits@ =~= lower_hex(source.take(at - from)),
        decreases to - at,
    {
        let c: char = text.get_char(at);
        assert(c == source[at - from]);
        digits.push(crate::text::digit_to_char(hex_digit(c)));
        at += 1;
    }
    assert(source.take(to - from) =~= source);
    digits
}

/// The context that a traceparent carries.
fn parse_traceparent(traceparent: &str) -> (ctx: TraceContext)
    requires
        is_traceparent(traceparent@),
    ensures
        ctx@ == context_of(traceparent@),
{
    assert(traceparent@.subrange(53, 55)[0] == traceparent@[53]);
    assert(traceparent@.subrange(53, 55)[1] == traceparent@[54]);
    TraceContext {
        trace_id: lower_digits(traceparent, 3, 35),
        parent_span_id: lower_digits(traceparent, 36, 52),
        trace_flags: hex_digit(traceparent.get_char(53)) * 16 + hex_digit(
            traceparent.get_char(54),
        ),
    }
}

/// The traceparent pattern, compiled once for any number of texts.
pub struct TraceparentRegex {
    regex: Regex,
}

impl TraceparentRegex {
    /// It is the traceparent pattern that was compiled.
    #[verifier::type_invariant]
    pub closed spec fn is_compiled(self) -> bool {
        pattern_of(self.regex) == TRACEPARENT_PATTERN@
    }

    /// Compiles the pattern.
    pub fn new() -> (compiled: TraceparentRegex)
        ensures
            compiled.is_compiled(),
    {
        TraceparentRegex { regex: compile(TRACEPARENT_PATTERN) }
    }

    /// Extract a W3C traceparent from the comments of a SQL text, with the setting
    /// `standard_conforming_strings` by which it is read.
    pub fn extract(&self, sql: &str, standard: bool) -> (ctx: Option<TraceContext>)
        ensures
            match ctx {
                Some(c) => extracted_by(sql@, standard) == Some(c@),
                None => extracted_by(sql@, standard) is None,
            },
    {
        proof {
            use_type_invariant(self);
        }
        let chars = characters(sql);
        let mut at: usize = 0;
        let mut before: Before = Before::Other;
        while at < chars.len()
            invariant
                at <= chars.len(),
                chars@ == sql@,
                pattern_of(self.regex) == TRACEPARENT_PATTERN@,
                find_commented_traceparent(sql@, 0, standard) == find_commented_traceparent(
                    sql@,
                    at as int,
                    standard,
                ),
                forall|p: int|
                    at <= p ==> #[trigger] crate::lexer::comment_around(sql@, p, standard)
                        == crate::lexer::comment_from(sql@, at as int, before, p, standard),
            decreases chars.len() - at,
        {
            let end: usize = find_token_end(&chars, at, before, standard);
            if is_comment(&chars, at) {
                let comment = text_between(&chars, at, end);
                proof {
                    comment_is_searched(sql@, at as int, end as int, 0, standard);
                }
                if let Some(traceparent) = first_group(&self.regex, comment.as_str()) {
                    proof {
                        found_is_traceparent(comment@, 0);
                    }
                    return Some(parse_traceparent(traceparent.as_str()));
                }
            } else {
                proof {
                    token_is_passed_over(sql@, at as int, end as int, standard);
                }
            }
            before = find_before_next(&chars, at, before);
            at = end;
        }
        None
    }
}

/// Extract a W3C traceparent from the comments of a SQL text, read with the setting
/// `standard_conforming_strings` on, as it is by default.
pub fn extract_traceparent(sql: &str) -> (ctx: Option<TraceContext>)
    ensures
        match ctx {
            Some(c) => extracted(sql@) == Some(c@),
            None => extracted(sql@) is None,
        },
{
    TraceparentRegex::new().extract(sql, true)
}

/// The traceparent that is found is the leftmost of those that lie in one comment.
pub proof fn extraction_takes_the_leftmost(sql: Seq<char>, at: int, standard: bool)
    requires
        commented_traceparent_at(sql, at, standard),
        forall|earlier: int|
            0 <= earlier < at ==> !#[trigger] commented_traceparent_at(sql, earlier, standard),
    ensures
        extracted_by(sql, standard) == Some(context_of(value_at(sql, at))),
{
    leftmost_from(sql, at, 0, standard);
}

proof fn leftmost_from(sql: Seq<char>, at: int, from: int, standard: bool)
    requires
        0 <= from <= at,
        commented_traceparent_at(sql, at, standard),
        forall|earlier: int|
            0 <= earlier < at ==> !#[trigger] commented_traceparent_at(sql, earlier, standard),
    ensures
        find_commented_traceparent(sql, from, standard) == Some(value_at(sql, at)),
    decreases at - from,
{
    if from < at {
        assert(!commented_traceparent_at(sql, from, standard));
        leftmost_from(sql, at, from + 1, standard);
    }
}

/// A SQL text yields a context exactly where a traceparent lies in one of its comments: in string
/// constants, quoted identifiers and the statement itself it is not looked for.
pub proof fn extraction_succeeds_iff_present(sql: Seq<char>, standard: bool)
    ensures
        extracted_by(sql, standard) is Some <==> exists|at: int|
            commented_traceparent_at(sql, at, standard),
{
    if exists|at: int| commented_traceparent_at(sql, at, standard) {
        let at = choose|at: int| commented_traceparent_at(sql, at, standard);
        found_from(sql, at, 0, standard);
    }
    absent_from(sql, 0, standard);
}

/// A text in which no comment opens carries no context, whatever else it holds.
pub proof fn text_without_comments_carries_nothing(sql: Seq<char>, standard: bool)
    requires
        forall|at: int| !#[trigger] crate::lexer::opens_comment(sql, at),
    ensures
        extracted_by(sql, standard) is None,
{
    extraction_succeeds_iff_present(sql, standard);
    assert forall|at: int| !commented_traceparent_at(sql, at, standard) by {
        crate::lexer::comment_spans_from_its_opening(sql, at, standard);
    }
}

proof fn found_from(sql: Seq<char>, at: int, from: int, standard: bool)
    requires
        0 <= from <= at,
        commented_traceparent_at(sql, at, standard),
    ensures
        find_commented_traceparent(sql, from, standard) is Some,
    decreases at - from,
{
    if from < at && !commented_traceparent_at(sql, from, standard) {
        found_from(sql, at, from + 1, standard);
    }
}

proof fn absent_from(sql: Seq<char>, from: int, standard: bool)
    ensures
        find_commented_traceparent(sql, from, standard) is Some ==> exists|at: int|
            commented_traceparent_at(sql, at, standard),
    decreases sql.len() - from,
{
    if from < sql.len() && !commented_traceparent_at(sql, from, standard) {
        absent_from(sql, from + 1, standard);
    }
}

/// The text of a traceparent with the given identifiers and flags.
pub open spec fn traceparent_text(
    trace_id: Seq<char>,
    parent_span_id: Seq<char>,
    flags: Seq<char>,
) -> Seq<char> {
    seq!['0', '0', '-'] + trace_id + seq!['-'] + parent_span_id + seq!['-'] + flags
}

/// A SQL text with `value` behind the key and an opening quote, if any.
pub open spec fn sql_with_value(
    before: Seq<char>,
    quote: Option<char>,
    value: Seq<char>,
    after: Seq<char>,
) -> Seq<char> {
    match quote {
        Some(q) => before + traceparent_key() + seq![q] + value + after,
        None => before + traceparent_key() + value + after,
    }
}

proof fn traceparent_text_parts(
    trace_id: Seq<char>,
    parent_span_id: Seq<char>,
    flags: Seq<char>,
)
    requires
        trace_id.len() == 32 && all_hex(trace_id),
        parent_span_id.len() == 16 && all_hex(parent_span_id),
        flags.len() == 2 && all_hex(flags),
    ensures
        ({
            let value = traceparent_text(trace_id, parent_span_id, flags);
            &&& is_traceparent(value)
            &&& context_of(value) == (TraceContextModel {
                trace_id: lower_hex(trace_id),
                parent_span_id: lower_hex(parent_span_id),
                trace_flags: (hex_value(flags[0]) * 16 + hex_value(flags[1])) as u8,
            })
        }),
{
    let value = traceparent_text(trace_id, parent_span_id, flags);
    assert(value.subrange(3, 35) =~= trace_id);
    assert(value.subrange(36, 52) =~= parent_span_id);
    assert(value.subrange(53, 55) =~= flags);
}

proof fn value_is_behind_key(
    before: Seq<char>,
    quote: Option<char>,
    value: Seq<char>,
    after: Seq<char>,
)
    requires
        quote matches Some(q) ==> q == '\'' || q == '"',
        is_traceparent(value),
    ensures
        ({
            let sql = sql_with_value(before, quote, value, after);
            &&& traceparent_at(sql, before.len() as int)
            &&& value_at(sql, before.len() as int) == value
        }),
{
    let sql = sql_with_value(before, quote, value, after);
    let at = before.len() as int;
    assert(sql.subrange(at, at + traceparent_key().len()) =~= traceparent_key());
    assert(value_at(sql, at) =~= value);
}

proof fn traceparent_is_plain(
    before: Seq<char>,
    quote: Option<char>,
    value: Seq<char>,
    after: Seq<char>,
)
    requires
        quote matches Some(q) ==> q == '\'' || q == '"',
        is_traceparent(value),
    ensures
        ({
            let sql = sql_with_value(before, quote, value, after);
            let at = before.len() as int;
            &&& at < value_start(sql, at) + 55 <= sql.len()
            &&& crate::lexer::is_plain(sql, at, value_start(sql, at) + 55)
        }),
{
    let sql = sql_with_value(before, quote, value, after);
    let at = before.len() as int;
    let start = value_start(sql, at);
    value_is_behind_key(before, quote, value, after);
    reveal_strlit("traceparent=");
    assert forall|p: int| at <= p < start + 55 implies {
        &&& !crate::lexer::is_line_break(#[trigger] sql[p])
        &&& sql[p] != '*'
        &&& sql[p] != '/'
    } by {
        if p >= start {
            let i = p - start;
            assert(sql[p] == value_at(sql, at)[i]);
            if 3 <= i < 35 {
                assert(value[i] == value.subrange(3, 35)[i - 3]);
            } else if 36 <= i < 52 {
                assert(value[i] == value.subrange(36, 52)[i - 36]);
            } else if 53 <= i {
                assert(value[i] == value.subrange(53, 55)[i - 53]);
            }
        } else if p < at + traceparent_key().len() {
            assert(sql[p] == traceparent_key()[p - at]);
        }
    }
}

/// The identifiers and flags that an application injects into a comment behind the key, bare or
/// quoted, are what is extracted, in lower case, wherever in the comment the key stands, unless a
/// traceparent stands in a comment before it.
pub proof fn injected_context_is_extracted(
    before: Seq<char>,
    quote: Option<char>,
    trace_id: Seq<char>,
    parent_span_id: Seq<char>,
    flags: Seq<char>,
    after: Seq<char>,
    standard: bool,
)
    requires
        quote matches Some(q) ==> q == '\'' || q == '"',
        trace_id.len() == 32 && all_hex(trace_id),
        parent_span_id.len() == 16 && all_hex(parent_span_id),
        flags.len() == 2 && all_hex(flags),
        ({
            let value = traceparent_text(trace_id, parent_span_id, flags);
            let sql = sql_with_value(before, quote, value, after);
            &&& crate::lexer::in_comment(sql, before.len() as int, standard)
            &&& forall|at: int|
                0 <= at < before.len() ==> !#[trigger] commented_traceparent_at(sql, at, standard)
        }),
    ensures
        extracted_by(
            sql_with_value(
                before,
                quote,
                traceparent_text(trace_id, parent_span_id, flags),
                after,
            ),
            standard,
        ) == Some(
            TraceContextModel {
                trace_id: lower_hex(trace_id),
                parent_span_id: lower_hex(parent_span_id),
                trace_flags: (hex_value(flags[0]) * 16 + hex_value(flags[1])) as u8,
            },
        ),
{
    let value = traceparent_text(trace_id, parent_span_id, flags);
    let sql = sql_with_value(before, quote, value, after);
    let at = before.len() as int;
    traceparent_text_parts(trace_id, parent_span_id, flags);
    value_is_behind_key(before, quote, value, after);
    traceparent_is_plain(before, quote, value, after);
    crate::lexer::comment_holds_plain_text(sql, at, value_start(sql, at) + 55, standard);
    extraction_takes_the_leftmost(sql, at, standard);
}

/// A context that an application appends to a query as a trailing comment is what is extracted,
/// unless the query carries one in a comment already. The query has to be complete: a comment
/// cannot begin where a string constant, a quoted identifier or another comment is still open.
pub proof fn appended_context_is_extracted(
    query: Seq<char>,
    quote: Option<char>,
    trace_id: Seq<char>,
    parent_span_id: Seq<char>,
    flags: Seq<char>,
    after: Seq<char>,
    standard: bool,
)
    requires
        quote matches Some(q) ==> q == '\'' || q == '"',
        trace_id.len() == 32 && all_hex(trace_id),
        parent_span_id.len() == 16 && all_hex(parent_span_id),
        flags.len() == 2 && all_hex(flags),
        ({
            let value = traceparent_text(trace_id, parent_span_id, flags);
            let sql = sql_with_value(query + seq!['/', '*'], quote, value, after);
            &&& crate::lexer::token_begins(sql, query.len() as int, standard)
            &&& forall|at: int|
                0 <= at < query.len() ==> !#[trigger] commented_traceparent_at(sql, at, standard)
        }),
    ensures
        extracted_by(
            sql_with_value(
                query + seq!['/', '*'],
                quote,
                traceparent_text(trace_id, parent_span_id, flags),
                after,
            ),
            standard,
        ) == Some(
            TraceContextModel {
                trace_id: lower_hex(trace_id),
                parent_span_id: lower_hex(parent_span_id),
                trace_flags: (hex_value(flags[0]) * 16 + hex_value(flags[1])) as u8,
            },
        ),
{
    let value = traceparent_text(trace_id, parent_span_id, flags);
    let before = query + seq!['/', '*'];
    let sql = sql_with_value(before, quote, value, after);
    let start = query.len() as int;
    traceparent_text_parts(trace_id, parent_span_id, flags);
    appended_comment_opens(query, quote, value, after);
    crate::lexer::block_comment_goes_on(sql, start, standard);
    crate::lexer::comment_opens_at_token(sql, start, start + 2, standard);
    assert forall|p: int| 0 <= p < start + 2 implies !#[trigger] commented_traceparent_at(
        sql,
        p,
        standard,
    ) by {
        traceparent_begins_with_t(sql, p);
    }
    injected_context_is_extracted(before, quote, trace_id, parent_span_id, flags, after, standard);
}

proof fn appended_comment_opens(
    query: Seq<char>,
    quote: Option<char>,
    value: Seq<char>,
    after: Seq<char>,
)
    ensures
        ({
            let sql = sql_with_value(query + seq!['/', '*'], quote, value, after);
            let start = query.len() as int;
            &&& crate::lexer::pair_at(sql, start, '/', '*')
            &&& start + 2 < sql.len() && sql[start + 2] == 't'
        }),
{
    reveal_strlit("traceparent=");
    let before = query + seq!['/', '*'];
    let sql = sql_with_value(before, quote, value, after);
    let start = query.len() as int;
    assert(sql[start] == before[start]);
    assert(sql[start + 1] == before[start + 1]);
    assert(sql[start + 2] == traceparent_key()[0]);
}

proof fn traceparent_begins_with_t(sql: Seq<char>, at: int)
    ensures
        traceparent_at(sql, at) ==> sql[at] == 't',
{
    reveal_strlit("traceparent=");
    if traceparent_at(sql, at) {
        assert(sql[at] == sql.subrange(at, at + traceparent_key().len())[0]);
    }
}

/// Two traceparents do not overlap.
proof fn traceparents_are_apart(sql: Seq<char>, at: int, later: int)
    requires
        traceparent_at(sql, at),
        traceparent_at(sql, later),
        at < later,
    ensures
        value_start(sql, at) + 55 <= later,
{
    reveal_strlit("traceparent=");
    let key = traceparent_key();
    let start = value_start(sql, at);
    let value = value_at(sql, at);
    assert(key.len() == 12);
    assert(sql[later] == sql.subrange(later, later + key.len())[0]);
    assert(sql[later + 1] == sql.subrange(later, later + key.len())[1]);
    if later < at + 12 {
        assert(sql[later] == sql.subrange(at, at + key.len())[later - at]);
        if later < at + 11 {
            assert(sql[later + 1] == sql.subrange(at, at + key.len())[later + 1 - at]);
        }
        assert(false);
    } else if start <= later < start + 55 {
        let i = later - start;
        assert(sql[later] == value[i]);
        if 3 <= i < 35 {
            assert(value[i] == value.subrange(3, 35)[i - 3]);
        } else if 36 <= i < 52 {
            assert(value[i] == value.subrange(36, 52)[i - 36]);
        } else if 53 <= i {
            assert(value[i] == value.subrange(53, 55)[i - 53]);
        }
        assert(false);
    }
}

/// A traceparent stands in a text whether or not more is appended to it.
proof fn traceparent_stays(a: Seq<char>, b: Seq<char>, at: int)
    requires
        0 <= at,
        traceparent_at(a, at) || value_start(a + b, at) + 55 <= a.len(),
    ensures
        traceparent_at(a + b, at) == traceparent_at(a, at),
        value_start(a + b, at) == value_start(a, at),
        value_at(a + b, at) == value_at(a, at),
{
    let sql = a + b;
    let after_key = at + traceparent_key().len();
    assert(after_key < a.len());
    assert(sql[after_key] == a[after_key]);
    assert(value_at(sql, at) =~= value_at(a, at));
    assert(sql.subrange(at, after_key) =~= a.subrange(at, after_key));
}

/// Text that is appended to a query that carries a context does not change the context.
pub proof fn appended_text_changes_no_context(a: Seq<char>, b: Seq<char>, standard: bool)
    requires
        extracted_by(a, standard) is Some,
    ensures
        extracted_by(a + b, standard) == extracted_by(a, standard),
{
    let sql = a + b;
    extraction_succeeds_iff_present(a, standard);
    let some = choose|at: int| commented_traceparent_at(a, at, standard);
    let at = first_commented(a, some, standard);
    extraction_takes_the_leftmost(a, at, standard);
    traceparent_stays(a, b, at);
    crate::lexer::comments_stay_before_appended_text(a, b, at, at, standard);
    assert(commented_traceparent_at(sql, at, standard));
    assert forall|p: int| 0 <= p < at implies !#[trigger] commented_traceparent_at(
        sql,
        p,
        standard,
    ) by {
        if commented_traceparent_at(sql, p, standard) {
            traceparents_are_apart(sql, p, at);
            traceparent_stays(a, b, p);
            crate::lexer::comments_stay_before_appended_text(a, b, at, p, standard);
            assert(commented_traceparent_at(a, p, standard));
        }
    }
    extraction_takes_the_leftmost(sql, at, standard);
}

/// The position of the first traceparent that lies in one comment, at `some` or before.
pub(crate) proof fn first_commented(sql: Seq<char>, some: int, standard: bool) -> (first: int)
    requires
        commented_traceparent_at(sql, some, standard),
    ensures
        commented_traceparent_at(sql, first, standard),
        forall|earlier: int|
            0 <= earlier < first ==> !#[trigger] commented_traceparent_at(sql, earlier, standard),
    decreases some,
{
    if exists|earlier: int|
        0 <= earlier < some && #[trigger] commented_traceparent_at(sql, earlier, standard) {
        let earlier = choose|earlier: int|
            0 <= earlier < some && #[trigger] commented_traceparent_at(sql, earlier, standard);
        first_commented(sql, earlier, standard)
    } else {
        some
    }
}

/// Identifiers as this library generates them are extracted as they are.
pub proof fn generated_hex_is_kept(value: nat, width: nat)
    ensures
        all_hex(crate::text::hex_text(value, width)),
        lower_hex(crate::text::hex_text(value, width)) == crate::text::hex_text(value, width),
    decreases width,
{
    crate::text::hex_text_shape(value, width);
    let text = crate::text::hex_text(value, width);
    if width > 0 {
        generated_hex_is_kept(value / 16, (width - 1) as nat);
        let shorter = crate::text::hex_text(value / 16, (width - 1) as nat);
        assert forall|i: int| 0 <= i < text.len() implies lower_hex(text)[i] == text[i] by {
            if i < shorter.len() {
                assert(lower_hex(shorter)[i] == shorter[i]);
            }
        }
    }
    assert(lower_hex(text) =~= text);
}

/// Identifiers and flags that one service writes into a traceparent in a comment reach the other as
/// they were.
pub proof fn propagated_context_survives(
    before: Seq<char>,
    quote: Option<char>,
    trace: u128,
    span: u64,
    flags: u8,
    after: Seq<char>,
    standard: bool,
)
    requires
        quote matches Some(q) ==> q == '\'' || q == '"',
        ({
            let value = traceparent_text(
                crate::text::hex_text(trace as nat, 32),
                crate::text::hex_text(span as nat, 16),
                crate::text::hex_text(flags as nat, 2),
            );
            let sql = sql_with_value(before, quote, value, after);
            &&& crate::lexer::in_comment(sql, before.len() as int, standard)
            &&& forall|at: int|
                0 <= at < before.len() ==> !#[trigger] commented_traceparent_at(sql, at, standard)
        }),
    ensures
        extracted_by(
            sql_with_value(
                before,
                quote,
                traceparent_text(
                    crate::text::hex_text(trace as nat, 32),
                    crate::text::hex_text(span as nat, 16),
                    crate::text::hex_text(flags as nat, 2),
                ),
                after,
            ),
            standard,
        ) == Some(
            TraceContextModel {
                trace_id: crate::text::hex_text(trace as nat, 32),
                parent_span_id: crate::text::hex_text(span as nat, 16),
                trace_flags: flags,
            },
        ),
{
    let trace_id = crate::text::hex_text(trace as nat, 32);
    let parent_span_id = crate::text::hex_text(span as nat, 16);
    let digits = crate::text::hex_text(flags as nat, 2);
    crate::text::hex_text_shape(trace as nat, 32);
    crate::text::hex_text_shape(span as nat, 16);
    crate::text::hex_text_shape(flags as nat, 2);
    generated_hex_is_kept(trace as nat, 32);
    generated_hex_is_kept(span as nat, 16);
    generated_hex_is_kept(flags as nat, 2);
    injected_context_is_extracted(before, quote, trace_id, parent_span_id, digits, after, standard);
    assert(hex_value(digits[0]) * 16 + hex_value(digits[1]) == flags) by {
        reveal_with_fuel(crate::text::hex_text, 3);
        assert(digits[1] == crate::text::hex_char((flags % 16) as nat));
        assert(digits[0] == crate::text::hex_char((flags / 16 % 16) as nat));
    }
}

/// An extracted trace id has 32 lower-case hexadecimal digits, an extracted parent id has 16.
pub proof fn extracted_ids_are_lower_hex(sql: Seq<char>, standard: bool)
    ensures
        extracted_by(sql, standard) matches Some(ctx) ==> {
            &&& ctx.trace_id.len() == 32
            &&& forall|i: int| 0 <= i < 32 ==> crate::text::is_lower_hex(#[trigger] ctx.trace_id[i])
            &&& ctx.parent_span_id.len() == 16
            &&& forall|i: int|
                0 <= i < 16 ==> crate::text::is_lower_hex(#[trigger] ctx.parent_span_id[i])
        },
{
    found_in_comment_is_traceparent(sql, 0, standard);
    if let Some(value) = find_commented_traceparent(sql, 0, standard) {
        lower_hex_shape(value.subrange(3, 35));
        lower_hex_shape(value.subrange(36, 52));
    }
}

proof fn found_in_comment_is_traceparent(sql: Seq<char>, from: int, standard: bool)
    ensures
        find_commented_traceparent(sql, from, standard) matches Some(value) ==> is_traceparent(
            value,
        ),
    decreases sql.len() - from,
{
    if from < sql.len() && !commented_traceparent_at(sql, from, standard) {
        found_in_comment_is_traceparent(sql, from + 1, standard);
    }
}

proof fn lower_hex_shape(s: Seq<char>)
    requires
        all_hex(s),
    ensures
        lower_hex(s).len() == s.len(),
        forall|i: int| 0 <= i < s.len() ==> crate::text::is_lower_hex(#[trigger] lower_hex(s)[i]),
{
    assert forall|i: int| 0 <= i < s.len() implies crate::text::is_lower_hex(
        #[trigger] lower_hex(s)[i],
    ) by {
        assert(is_hex(s[i]));
    }
}

} // verus!
