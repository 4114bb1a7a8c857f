use code_minifier::minify::minify;
use code_minifier::profile::CommentProfile;
use code_minifier::scanner::{scan, ScannerState};

fn c_like() -> CommentProfile {
    CommentProfile::new("//", "/*", "*/")
}

fn buffer_of(content: &str, profile: &CommentProfile) -> String {
    scan(content, profile).buffer.iter().collect()
}

#[test]
fn leading_line_comment_is_removed() {
    assert_eq!(minify("// banner\nlet x = 1;", &c_like()), "let x = 1;");
}

#[test]
fn newline_in_string_is_escaped_and_block_comment_dropped() {
    let input = "let s = \"line1\nline2\"; /* drop */ let t = 2;";
    assert_eq!(minify(input, &c_like()), "let s = \"line1\\nline2\"; let t = 2;");
}

#[test]
fn slash_in_char_literal_is_no_comment() {
    let input = "let c = '/'; // not a comment after this point on same logical check";
    assert_eq!(minify(input, &CommentProfile::new("//", "", "")), "let c = '/';");
    assert_eq!(minify(input, &c_like()), "let c = '/';");
    assert_eq!(minify("let c = '//'; x", &c_like()), "let c = '//'; x");
}

#[test]
fn empty_block_tokens_never_match() {
    let input = "/* not a comment */";
    assert_eq!(minify(input, &CommentProfile::new("//", "", "")), "/* not a comment */");
    assert_eq!(minify(input, &CommentProfile::new("#", "", "")), "/* not a comment */");
    assert_eq!(
        minify("a   /*  not a   comment */\n b", &CommentProfile::new("#", "", "")),
        "a /* not a comment */ b"
    );
}

#[test]
fn input_ending_inside_a_string_is_no_error() {
    let input = "let s = \"unterminated";
    assert_eq!(minify(input, &c_like()), "let s = \"unterminated");
    assert_eq!(scan(input, &c_like()).end, ScannerState::InStringLiteral);
}

#[test]
fn end_state_tells_where_the_text_stopped() {
    let p = c_like();
    assert_eq!(scan("", &p).end, ScannerState::Normal);
    assert_eq!(scan("let x = 1;", &p).end, ScannerState::Normal);
    assert_eq!(scan("let c = 'a", &p).end, ScannerState::InCharLiteral);
    assert_eq!(scan("x // tail", &p).end, ScannerState::InLineComment);
    assert_eq!(scan("x // tail\n", &p).end, ScannerState::Normal);
    assert_eq!(scan("x /* open", &p).end, ScannerState::InBlockComment);
    assert_eq!(scan("x /* open */", &p).end, ScannerState::Normal);
    assert_eq!(scan("\"done\"", &p).end, ScannerState::Normal);
}

#[test]
fn unterminated_comments_are_dropped_to_the_end() {
    assert_eq!(minify("a /* never closed\nb", &c_like()), "a");
    assert_eq!(minify("a // to the end", &c_like()), "a");
    assert_eq!(minify("let c = 'x // kept", &c_like()), "let c = 'x // kept");
}

#[test]
fn empty_and_blank_inputs_give_the_empty_text() {
    assert_eq!(minify("", &c_like()), "");
    assert_eq!(minify("   \n\t  ", &c_like()), "");
    assert_eq!(minify("// only a comment", &c_like()), "");
    assert_eq!(minify("/* only */", &c_like()), "");
}

#[test]
fn whitespace_in_plain_code_becomes_single_spaces() {
    assert_eq!(minify("  a  +\t\tb \n\n c  ", &c_like()), "a + b c");
    assert_eq!(minify("fn  main ( )\r\n{\r\n}\r\n", &c_like()), "fn main ( ) { }");
    assert_eq!(minify("a\u{00A0}\u{2003}b", &c_like()), "a b");
}

#[test]
fn whitespace_is_collapsed_inside_literals_too() {
    assert_eq!(minify("\"a   b\"", &c_like()), "\"a b\"");
    assert_eq!(minify("\"a\tb\"", &c_like()), "\"a b\"");
    assert_eq!(minify("'a  b'", &c_like()), "'a b'");
}

#[test]
fn literal_content_without_whitespace_is_kept_as_it_stands() {
    assert_eq!(minify("x = \"//not/*a*/comment\";", &c_like()), "x = \"//not/*a*/comment\";");
    assert_eq!(minify("x = '/*'; y", &c_like()), "x = '/*'; y");
    assert_eq!(minify("s = \"it's\"; // c", &c_like()), "s = \"it's\";");
    assert_eq!(minify("c = '\"'; // c", &c_like()), "c = '\"';");
}

#[test]
fn line_breaks_in_strings_become_backslash_n() {
    assert_eq!(minify("\"a\nb\"", &c_like()), "\"a\\nb\"");
    assert_eq!(minify("\"a\rb\"", &c_like()), "\"a\\nb\"");
    assert_eq!(minify("\"a\r\nb\"", &c_like()), "\"a\\n\\nb\"");
    assert_eq!(buffer_of("\"a\nb\"", &c_like()), "\"a\\nb\"");
}

#[test]
fn line_breaks_elsewhere_are_never_escaped() {
    assert_eq!(minify("a\nb", &c_like()), "a b");
    assert_eq!(minify("'a\nb'", &c_like()), "'a b'");
    assert_eq!(buffer_of("'a\nb'", &c_like()), "'a\nb'");
    assert_eq!(buffer_of("a\nb", &c_like()), "a\nb");
    assert_eq!(minify("a // c\nb", &c_like()), "a b");
    assert_eq!(minify("a /* c\nd */ b", &c_like()), "a b");
}

#[test]
fn recognised_escapes_are_copied_as_pairs() {
    assert_eq!(minify("\"a\\nb\"; // c", &c_like()), "\"a\\nb\";");
    assert_eq!(minify("\"a\\\"b\"; // c", &c_like()), "\"a\\\"b\";");
    assert_eq!(minify("\"a\\tb\\r\"; // c", &c_like()), "\"a\\tb\\r\";");
    assert_eq!(minify("\"a\\n\"; // c", &c_like()), "\"a\\n\";");
    assert_eq!(minify("\"a\\\"\"; // c", &c_like()), "\"a\\\"\";");
}

#[test]
fn unrecognised_escape_copies_the_backslash_alone() {
    assert_eq!(minify("\"a\\qb\"; // c", &c_like()), "\"a\\qb\";");
    assert_eq!(minify("\"a\\\nb\"", &c_like()), "\"a\\\\nb\"");
    assert_eq!(minify("\"a\\", &c_like()), "\"a\\");
}

#[test]
fn backslash_before_a_quote_keeps_the_literal_open() {
    // Backslash parity is not tracked: an escaped backslash before the
    // closing quote is taken as escaping the quote.
    assert_eq!(minify("\"a\\\\\" // kept", &c_like()), "\"a\\\\\" // kept");
    assert_eq!(scan("\"a\\\\\"", &c_like()).end, ScannerState::InStringLiteral);
    assert_eq!(minify("'\\'' // c", &c_like()), "'\\''");
    assert_eq!(minify("'\\\\' // kept", &c_like()), "'\\\\' // kept");
}

#[test]
fn backslash_before_a_quote_in_plain_code_opens_no_literal() {
    assert_eq!(minify("\\\"a // c", &c_like()), "\\\"a");
    assert_eq!(minify("\\'a // c", &c_like()), "\\'a");
    assert_eq!(scan("\\\"", &c_like()).end, ScannerState::Normal);
}

#[test]
fn comments_leave_no_separator_behind() {
    assert_eq!(minify("a/* c */b", &c_like()), "ab");
    assert_eq!(minify("a// c\nb", &c_like()), "ab");
    assert_eq!(minify("a /* c */ b", &c_like()), "a b");
}

#[test]
fn block_comments_do_not_nest() {
    assert_eq!(minify("a /* x /* y */ b */ c", &c_like()), "a b */ c");
}

#[test]
fn line_comment_token_wins_over_block_start() {
    let lua = CommentProfile::new("--", "--[[", "]]");
    assert_eq!(minify("a --[[ x\nb ]] c", &lua), "a b ]] c");
    let tie = CommentProfile::new("/*", "/*", "*/");
    assert_eq!(minify("a /* x */ b\nc", &tie), "a c");
}

#[test]
fn line_comment_token_inside_block_comment_is_ignored() {
    assert_eq!(minify("a /* // */ b", &c_like()), "a b");
    assert_eq!(minify("a // /* \n b */ c", &c_like()), "a b */ c");
}

#[test]
fn failed_token_match_consumes_nothing() {
    assert_eq!(minify("a / b", &c_like()), "a / b");
    assert_eq!(minify("a/b*c", &c_like()), "a/b*c");
    assert_eq!(minify("x = a /b/ c; /**/", &c_like()), "x = a /b/ c;");
    assert_eq!(minify("a /", &c_like()), "a /");
}

#[test]
fn empty_line_token_never_matches() {
    let p = CommentProfile::new("", "/*", "*/");
    assert_eq!(minify("a // b /* c */ d", &p), "a // b d");
    let none = CommentProfile::new("", "", "");
    assert_eq!(minify("a // b /* c */ d", &none), "a // b /* c */ d");
}

#[test]
fn empty_block_end_never_closes() {
    let p = CommentProfile::new("//", "/*", "");
    assert_eq!(minify("a /* b */ c", &p), "a");
}

#[test]
fn multi_character_tokens_are_matched_whole() {
    let ruby = CommentProfile::new("#", "=begin", "=end");
    assert_eq!(minify("a =begin x\ny =end b # c", &ruby), "a b");
    assert_eq!(minify("a =begi x", &ruby), "a =begi x");
    let perl = CommentProfile::new("#", "=pod", "=cut");
    assert_eq!(minify("a =pod x =cu =cut b", &perl), "a b");
    let matlab = CommentProfile::new("%", "%{", "%}");
    assert_eq!(minify("a %{ x %} b", &matlab), "a");
}

#[test]
fn quote_rule_comes_before_comment_tokens() {
    let vb = CommentProfile::new("'", "", "");
    assert_eq!(minify("a ' b", &vb), "a ' b");
    assert_eq!(scan("a ' b", &vb).end, ScannerState::InCharLiteral);
    let python = CommentProfile::new("#", "'''", "'''");
    assert_eq!(minify("a ''' b ''' c # d", &python), "a ''' b ''' c");
}

#[test]
fn minifying_again_changes_nothing_without_leftover_tokens() {
    let inputs = [
        "// banner\nlet x = 1;",
        "let s = \"line1\nline2\"; /* drop */ let t = 2;",
        "let c = '/'; // tail",
        "  a  +\t\tb \n\n c  ",
        "\"a\n\" /**/ \"b // c\"",
        "x = \"a\\\\\"; y",
    ];
    for input in inputs {
        let once = minify(input, &c_like());
        assert_eq!(minify(&once, &c_like()), once);
    }
}

#[test]
fn minifying_again_can_find_a_token_that_removal_put_together() {
    let haskell = CommentProfile::new("--", "{-", "-}");
    let once = minify("{{- -}-", &haskell);
    assert_eq!(once, "{-");
    assert_eq!(minify(&once, &haskell), "");
    let once = minify("\\/**/\"a // b\"", &c_like());
    assert_eq!(once, "\\\"a // b\"");
    assert_eq!(minify(&once, &c_like()), "\\\"a");
}

#[test]
fn result_is_collapsed_and_on_one_line() {
    let inputs = [
        " \t a \n\n b  // c\n  \"x \n y\"  /* z */ w \r\n",
        "\n\n\n",
        "'a\n\nb'  ",
        "\u{3000}x\u{2028}y\u{0085}",
    ];
    for input in inputs {
        let out = minify(input, &c_like());
        assert!(!out.contains("  "));
        assert!(!out.contains('\n'));
        assert!(!out.contains('\r'));
        assert!(out.chars().all(|c| !c.is_whitespace() || c == ' '));
        assert_eq!(out.trim(), out);
    }
}

#[test]
fn non_ascii_text_is_kept() {
    assert_eq!(minify("let s = \"héllo wörld ✓\"; // ünïcode", &c_like()), "let s = \"héllo wörld ✓\";");
    let p = CommentProfile::new("※", "«", "»");
    assert_eq!(minify("a « b » c ※ d", &p), "a c");
}
