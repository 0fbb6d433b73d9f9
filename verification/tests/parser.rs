use pg_otel_tracer::parser::{extract_traceparent, TraceparentRegex};
use pg_otel_tracer::span::{generate_span_id, generate_trace_id};

#[test]
fn test_basic_traceparent() {
    let sql = "SELECT 1 /*traceparent='00-0af7651916cd43dd8448eb211c80319c-b7ad6b7169203331-01'*/";
    let ctx = extract_traceparent(sql).unwrap();
    assert_eq!(ctx.trace_id, "0af7651916cd43dd8448eb211c80319c");
    assert_eq!(ctx.parent_span_id, "b7ad6b7169203331");
    assert_eq!(ctx.trace_flags, 1);
}

#[test]
fn test_double_quoted_traceparent() {
    let sql = r#"SELECT * FROM users /*traceparent="00-4bf92f3577b34da6a3ce929d0e0e4736-00f067aa0ba902b7-01"*/"#;
    let ctx = extract_traceparent(sql).unwrap();
    assert_eq!(ctx.trace_id, "4bf92f3577b34da6a3ce929d0e0e4736");
}

#[test]
fn test_no_traceparent() {
    let sql = "SELECT 1";
    assert!(extract_traceparent(sql).is_none());
}

#[test]
fn test_parse_traceparent() {
    let sql = "SELECT 1 /*traceparent='00-0af7651916cd43dd8448eb211c80319c-b7ad6b7169203331-01'*/";
    let ctx = extract_traceparent(sql);
    assert!(ctx.is_some());
    let ctx = ctx.unwrap();
    assert_eq!(ctx.trace_id, "0af7651916cd43dd8448eb211c80319c");
    assert_eq!(ctx.parent_span_id, "b7ad6b7169203331");
}

#[test]
fn unquoted_value_is_extracted() {
    let sql = "/* traceparent=00-0af7651916cd43dd8448eb211c80319c-b7ad6b7169203331-ff */ SELECT 1";
    let ctx = extract_traceparent(sql).unwrap();
    assert_eq!(ctx.trace_id, "0af7651916cd43dd8448eb211c80319c");
    assert_eq!(ctx.parent_span_id, "b7ad6b7169203331");
    assert_eq!(ctx.trace_flags, 255);
}

#[test]
fn identifiers_are_lowered() {
    let sql = "/*traceparent='00-0AF7651916CD43DD8448EB211C80319C-B7AD6B7169203331-aB'*/ SELECT 1";
    let ctx = extract_traceparent(sql).unwrap();
    assert_eq!(ctx.trace_id, "0af7651916cd43dd8448eb211c80319c");
    assert_eq!(ctx.parent_span_id, "b7ad6b7169203331");
    assert_eq!(ctx.trace_flags, 0xab);
}

#[test]
fn mixed_quotes_and_text_beyond_ascii_do_not_matter() {
    let sql = "SELECT 'größe – ☃' /*traceparent=\"00-0af7651916cd43dd8448eb211c80319c-b7ad6b7169203331-00'*/ é";
    let ctx = extract_traceparent(sql).unwrap();
    assert_eq!(ctx.trace_id, "0af7651916cd43dd8448eb211c80319c");
    assert_eq!(ctx.trace_flags, 0);
}

#[test]
fn leftmost_valid_value_wins() {
    let sql = "/*traceparent='00-short'*/ \
        /*traceparent='00-11111111111111111111111111111111-2222222222222222-03'*/ \
        /*traceparent='00-33333333333333333333333333333333-4444444444444444-05'*/";
    let ctx = extract_traceparent(sql).unwrap();
    assert_eq!(ctx.trace_id, "11111111111111111111111111111111");
    assert_eq!(ctx.parent_span_id, "2222222222222222");
    assert_eq!(ctx.trace_flags, 3);
}

#[test]
fn longer_digit_strings_are_cut_at_the_flags() {
    let sql = "SELECT 1 -- traceparent=00-0af7651916cd43dd8448eb211c80319c-b7ad6b7169203331-0123";
    assert_eq!(extract_traceparent(sql).unwrap().trace_flags, 1);
}

#[test]
fn malformed_values_are_not_extracted() {
    let malformed = [
        "",
        "traceparent=",
        "traceparent",
        // another version
        "traceparent='01-0af7651916cd43dd8448eb211c80319c-b7ad6b7169203331-01'",
        // a trace id that is too short
        "traceparent='00-0af7651916cd43dd8448eb211c80319-b7ad6b7169203331-01'",
        // a span id that is too long
        "traceparent='00-0af7651916cd43dd8448eb211c80319c-b7ad6b71692033310-01'",
        // no digit
        "traceparent='00-0af7651916cd43dd8448eb211c80319g-b7ad6b7169203331-01'",
        // two quotes
        "traceparent=''00-0af7651916cd43dd8448eb211c80319c-b7ad6b7169203331-01'",
        // a space behind the key
        "traceparent= 00-0af7651916cd43dd8448eb211c80319c-b7ad6b7169203331-01",
        // the key in capitals
        "TRACEPARENT='00-0af7651916cd43dd8448eb211c80319c-b7ad6b7169203331-01'",
        // one flag digit
        "traceparent='00-0af7651916cd43dd8448eb211c80319c-b7ad6b7169203331-0'",
        // digits of another script
        "traceparent='00-0af7651916cd43dd8448eb211c80319c-b7ad6b716920333١-01'",
    ];
    for sql in malformed {
        assert!(extract_traceparent(&format!("/*{}*/", sql)).is_none(), "{}", sql);
    }
}

#[test]
fn generated_ids_survive_the_way_through_a_comment() {
    let trace_id = generate_trace_id();
    let span_id = generate_span_id();
    let sql = format!("SELECT 1 /*traceparent='00-{}-{}-7f'*/", trace_id, span_id);
    let ctx = extract_traceparent(&sql).unwrap();
    assert_eq!(ctx.trace_id, trace_id);
    assert_eq!(ctx.parent_span_id, span_id);
    assert_eq!(ctx.trace_flags, 0x7f);
    let copy = ctx.clone();
    assert_eq!(copy.trace_id, ctx.trace_id);
}

#[test]
fn compiled_pattern_serves_many_texts() {
    let compiled = TraceparentRegex::new();
    let first = "/*traceparent='00-11111111111111111111111111111111-2222222222222222-03'*/";
    let second = "/*traceparent=00-33333333333333333333333333333333-4444444444444444-05*/";
    assert_eq!(compiled.extract(first, true).unwrap().trace_id, "11111111111111111111111111111111");
    assert!(compiled.extract("SELECT 1", true).is_none());
    let ctx = compiled.extract(second, true).unwrap();
    assert_eq!(ctx.parent_span_id, "4444444444444444");
    assert_eq!(ctx.trace_flags, 5);
}

const VALUE: &str = "traceparent=00-0af7651916cd43dd8448eb211c80319c-b7ad6b7169203331-01";

#[test]
fn string_literal_is_not_read() {
    let sql = "SELECT 'traceparent=00-0af7651916cd43dd8448eb211c80319c-b7ad6b7169203331-01'";
    assert!(extract_traceparent(sql).is_none());
}

#[test]
fn only_comments_are_read() {
    let outside = [
        // no comment at all
        "{}",
        "SELECT 1 {}",
        // before and behind comments
        "{} /* a */",
        "/* a */ {}",
        "/* a /* b */ c */ {}",
        "/* a **/ {}",
        "-- a\n{}",
        "-- a\r{}",
        // quoted, though it looks like a comment
        "SELECT '/* {} */'",
        "SELECT '-- {}'",
        "SELECT 'it''s /* {} */'",
        "SELECT 'a\\', '/* {} */'",
        "SELECT \"/* {} */\"",
        "SELECT \"a\"\"/* {} */\"",
        "SELECT $$/* {} */$$",
        "SELECT $$ $a$ /* {} */ $a$ $$",
        "SELECT $fn$ $$ /* {} */ $$ $fn$",
        "SELECT 1$a$/* {} */$a$",
        "SELECT $1$a$/* {} */$a$",
        "SELECT E'it\\'s /* {} */'",
        "SELECT e'a''\\' /* {} */'",
        "SELECT E'\\\\', '/* {} */'",
        // an escape string that goes on over a line break
        "SELECT E'a' -- b\n  '\\' /* {} */'",
        // not closed
        "SELECT '/* {} */",
        "SELECT $a$/* {} */",
    ];
    for sql in outside {
        let sql = sql.replace("{}", VALUE);
        assert!(extract_traceparent(&sql).is_none(), "{}", sql);
    }
}

#[test]
fn comments_of_every_kind_are_read() {
    let inside = [
        "/*{}*/",
        "/* a */ SELECT 1 /* {} */",
        "/* a /* b */ {} */",
        "/* a /* {} */ b */",
        "/*/ {} /*/ */ */",
        "/* '{} */",
        "SELECT 1 -- {}",
        "SELECT 1 -- {}\n, 2",
        "SELECT 1 --'{}'",
        "SELECT 4 */* {} */ 2",
        "SELECT 4 //* {} */ 2",
        // behind what is quoted
        "SELECT 'a' /* {} */",
        "SELECT 'it''s' /* {} */",
        "SELECT 'a\\' /* {} */",
        "SELECT '/*' /* {} */",
        "SELECT \"--\" /* {} */",
        "SELECT $$/*$$ /* {} */",
        "SELECT $a$ $b$ $$ $a$ /* {} */",
        "SELECT $a$ $$a$ /* {} */",
        "SELECT E'it\\'s' /* {} */",
        "SELECT E'\\\\' /* {} */",
        // a dollar sign in a name, or before a number, quotes nothing
        "SELECT a$b$ /* {} */",
        "SELECT $1 /* {} */, $2",
        "SELECT é$b$ /* {} */",
        // a name that ends in the letter makes no escape string
        "SELECT typE'a\\' /* {} */",
        // an escape string that does not go on: no line break, or something in between
        "SELECT E'a' '\\' /* {} */",
        "SELECT E'a'\n, '\\' /* {} */",
        "SELECT E'a' -- {}\n  'b'",
        // not closed
        "SELECT 1 /* {}",
    ];
    for sql in inside {
        let sql = sql.replace("{}", VALUE);
        let ctx = extract_traceparent(&sql);
        assert!(ctx.is_some(), "{}", sql);
        assert_eq!(ctx.unwrap().trace_id, "0af7651916cd43dd8448eb211c80319c");
    }
}

#[test]
fn traceparent_does_not_span_two_comments() {
    let sql = "-- traceparent=00-0af7651916cd43dd8448eb211c80319c-\n-- b7ad6b7169203331-01";
    assert!(extract_traceparent(sql).is_none());
    let sql = "/*traceparent=*//*00-0af7651916cd43dd8448eb211c80319c-b7ad6b7169203331-01*/";
    assert!(extract_traceparent(sql).is_none());
}

#[test]
fn quoted_traceparent_does_not_hide_the_one_in_a_comment() {
    let sql = "SELECT 'traceparent=00-11111111111111111111111111111111-2222222222222222-03' \
        /*traceparent='00-33333333333333333333333333333333-4444444444444444-05'*/";
    assert_eq!(extract_traceparent(sql).unwrap().trace_flags, 5);
}

#[test]
fn backslashes_escape_in_plain_strings_where_the_setting_is_off() {
    let compiled = TraceparentRegex::new();
    let texts = [
        // (text, found with the setting on, found with it off)
        ("SELECT 'it\\'s' /* {} */", false, true),
        ("SELECT 'a\\', '/* {} */'", false, true),
        ("SELECT 'a\\' /* {} */", true, false),
        ("SELECT '\\' -- {} ' || '\\' --'", true, false),
        ("SELECT 'a' /* {} */", true, true),
        ("SELECT E'it\\'s' /* {} */", true, true),
        ("SELECT '/* {} */'", false, false),
        ("SELECT \"a\\\" /* {} */", true, true),
        ("SELECT $$\\$$ /* {} */", true, true),
    ];
    for (sql, on, off) in texts {
        let sql = sql.replace("{}", VALUE);
        assert_eq!(compiled.extract(&sql, true).is_some(), on, "{}", sql);
        assert_eq!(compiled.extract(&sql, false).is_some(), off, "{}", sql);
        assert_eq!(extract_traceparent(&sql).is_some(), on, "{}", sql);
    }
}

#[test]
fn appended_text_does_not_change_the_context() {
    let first = "SELECT 1 /*traceparent=00-11111111111111111111111111111111-2222222222222222-03";
    let appended = [
        "",
        "*/",
        " */ '",
        "*/ /*traceparent=00-33333333333333333333333333333333-4444444444444444-05*/",
        "4-*/",
    ];
    for text in appended {
        let ctx = extract_traceparent(&format!("{}{}", first, text)).unwrap();
        assert_eq!(ctx.trace_id, "11111111111111111111111111111111");
        assert_eq!(ctx.trace_flags, 3);
    }
}
