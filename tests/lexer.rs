use syntx::java_tokenset::{
    JavaBase, JavaDelimeters, JavaIdentifier, JavaKeyword, JavaOperator, JavaToken, JavaTokenSet,
};
use syntx::syntx_tokenset::{
    syntxDelimeter, syntxIdentifier, syntxKeyword, syntxOperator, syntxToken, syntxTokenSet,
};
use syntx::lexer::{Lexer, Step, BATCH_SIZE};
use syntx::normalize::{fold_hash, normalize};
use syntx::tokens::{Token, TokenKind};

fn lex(input: &str) -> Vec<JavaToken> {
    let mut lexer = Lexer::<JavaTokenSet>::new(input);
    let mut out = Vec::new();
    for step in lexer.run() {
        match step {
            Step::Send(b) | Step::Import(b, _) | Step::Close(b) => out.extend(b),
        }
    }
    out
}

fn kw(k: JavaKeyword) -> JavaToken {
    JavaToken::Identifier(JavaIdentifier::JavaKeyword(k))
}

fn op(o: JavaOperator) -> JavaToken {
    JavaToken::Operator(o)
}

fn delim(d: JavaDelimeters) -> JavaToken {
    JavaToken::Delimeter(d)
}

fn unknown(name: &str, depth: usize) -> JavaToken {
    JavaToken::Identifier(JavaIdentifier::Unknown(normalize(name.as_bytes(), depth)))
}

fn string_lit(s: &str) -> JavaToken {
    JavaToken::Identifier(JavaIdentifier::StringLiteral(s.to_string()))
}

#[test]
fn run_consumes_everything_and_closes_once() {
    let src = "class A { int f(int x) { return x + 1; } } // tail";
    let mut lexer = Lexer::<JavaTokenSet>::new(src);
    let steps = lexer.run();
    assert_eq!(lexer.pos, src.chars().count());
    assert!(lexer.closed);
    let closes = steps.iter().filter(|s| matches!(s, Step::Close(_))).count();
    assert_eq!(closes, 1);
    assert!(matches!(steps.last(), Some(Step::Close(_))));
}

#[test]
fn empty_input_closes_with_an_empty_batch() {
    let mut lexer = Lexer::<JavaTokenSet>::new("");
    match lexer.tokenize() {
        Step::Close(b) => assert!(b.is_empty()),
        _ => panic!("expected the stream to close"),
    }
    assert!(lexer.closed);
}

#[test]
fn full_batches_are_sent_in_order() {
    let src = "a ".repeat(BATCH_SIZE + 5);
    let mut lexer = Lexer::<JavaTokenSet>::new(&src);
    let steps = lexer.run();
    assert_eq!(steps.len(), 2);
    match &steps[0] {
        Step::Send(b) => assert_eq!(b.len(), BATCH_SIZE),
        _ => panic!("expected a full batch first"),
    }
    match &steps[1] {
        Step::Close(b) => assert_eq!(b.len(), 5),
        _ => panic!("expected the last batch to close"),
    }
}

#[test]
fn tokens_come_in_source_order() {
    assert_eq!(
        lex("a + b"),
        vec![unknown("a", 0), op(JavaOperator::Plus), unknown("b", 0)]
    );
}

#[test]
fn balanced_braces_end_at_level_zero() {
    let mut lexer = Lexer::<JavaTokenSet>::new("{ ( { } ) } ( )");
    lexer.run();
    assert_eq!(lexer.state.brace_level, 0);
    assert_eq!(lexer.state.paren_level, 0);
    assert!(!lexer.state.in_paren);

    let mut open = Lexer::<JavaTokenSet>::new("{ { (");
    open.run();
    assert_eq!(open.state.brace_level, 2);
    assert_eq!(open.state.paren_level, 1);
    assert!(open.state.in_paren);
}

#[test]
fn closing_at_level_zero_stays_at_zero() {
    let mut lexer = Lexer::<JavaTokenSet>::new("} ) {");
    lexer.run();
    assert_eq!(lexer.state.brace_level, 1);
    assert_eq!(lexer.state.paren_level, 0);
}

#[test]
fn whitespace_is_never_emitted() {
    let tokens = lex("a   b \n\t c ;\n\n d");
    assert!(tokens.iter().all(|t| t.kind() != TokenKind::Whitespace));
    assert_eq!(tokens.len(), 5);
}

#[test]
fn every_escape_round_trips() {
    let table = [
        ('t', "\t"),
        ('b', "\u{8}"),
        ('n', "\n"),
        ('r', "\r"),
        ('f', "\u{c}"),
        ('\'', "'"),
        ('"', "\""),
        ('\\', "\\"),
    ];
    for (e, d) in table {
        let src = format!("\"\\{}\"", e);
        assert_eq!(lex(&src), vec![string_lit(d)], "escape {}", e);
    }
}

#[test]
fn unknown_escape_is_kept_raw() {
    assert_eq!(lex(r#""\q""#), vec![string_lit("q")]);
}

#[test]
fn malformed_unicode_escapes_fall_back_to_their_digits() {
    assert_eq!(lex(r#""\u{110000}""#), vec![string_lit("110000")]);
    assert_eq!(lex(r#""\u{D800}""#), vec![string_lit("D800")]);
    assert_eq!(lex(r#""\uZZZZ""#), vec![string_lit("ZZZZ")]);
    assert_eq!(lex(r#""\u{1F600""#), vec![string_lit("1F600\"")]);
}

#[test]
fn legacy_unicode_escape_reads_four_digits() {
    assert_eq!(lex(r#""\u00A9x""#), vec![string_lit("©x")]);
    assert_eq!(lex(r#""\U0001F600""#), vec![string_lit("😀")]);
}

#[test]
fn same_name_same_depth_same_identity() {
    let tokens = lex("x { x } x");
    assert_eq!(tokens[0], tokens[4]);
    assert_ne!(tokens[0], tokens[2]);
    assert_eq!(tokens[2], unknown("x", 1));
}

#[test]
fn identity_is_the_folded_xxh3_of_name_and_depth() {
    let mut input = b"main".to_vec();
    input.extend_from_slice(&3u64.to_le_bytes());
    let h = xxhash_rust::xxh3::xxh3_128(&input);
    let expected = ((h >> 64) as u64) ^ (h as u64);
    assert_eq!(normalize(b"main", 3), expected);
    assert_eq!(fold_hash(h), expected);
    assert_eq!(fold_hash((5u128 << 64) | 3), 6);
}

#[test]
fn maximal_munch_takes_the_longest_operator() {
    assert_eq!(lex(">>>="), vec![op(JavaOperator::UBitShiftRightEq)]);
    assert_eq!(lex(">>>>"), vec![op(JavaOperator::UBitShiftRight), op(JavaOperator::Gt)]);
    assert_eq!(lex("a+=b"), vec![unknown("a", 0), op(JavaOperator::PlusEq), unknown("b", 0)]);
}

#[test]
fn block_comments_do_not_nest() {
    assert_eq!(
        lex("/* /* x */ y */"),
        vec![unknown("y", 0), op(JavaOperator::Mul), op(JavaOperator::Div)]
    );
}

#[test]
fn unterminated_block_comment_runs_to_the_end() {
    assert_eq!(lex("a /* b c"), vec![unknown("a", 0)]);
}

#[test]
fn line_comment_runs_to_the_newline() {
    assert_eq!(lex("// int x\ny"), vec![unknown("y", 0)]);
}

#[test]
fn declaration_of_main() {
    assert_eq!(
        lex("int main() {}"),
        vec![
            kw(JavaKeyword::Int),
            unknown("main", 0),
            delim(JavaDelimeters::LParen),
            delim(JavaDelimeters::Rparen),
            delim(JavaDelimeters::LBrace),
            delim(JavaDelimeters::RBrace),
        ]
    );
}

#[test]
fn literals_and_operators() {
    assert_eq!(
        lex("int x = 0xFF + 42;"),
        vec![
            kw(JavaKeyword::Int),
            unknown("x", 0),
            op(JavaOperator::Assign),
            JavaToken::Identifier(JavaIdentifier::Integer("0xFF".to_string(), JavaBase::Hexadecimal)),
            op(JavaOperator::Plus),
            JavaToken::Identifier(JavaIdentifier::Integer("42".to_string(), JavaBase::Decimal)),
            delim(JavaDelimeters::Semicolon),
        ]
    );
}

#[test]
fn newline_escape_is_decoded() {
    assert_eq!(lex(r#""hello\nworld""#), vec![string_lit("hello\nworld")]);
}

#[test]
fn braced_unicode_escape_is_decoded() {
    assert_eq!(lex(r#""\u{1F600}""#), vec![string_lit("\u{1F600}")]);
}

#[test]
fn garbage_unicode_escape_keeps_its_text() {
    assert_eq!(lex(r#""\u{ZZZZ} garbage""#), vec![string_lit("ZZZZ garbage")]);
}

#[test]
fn generics_merge_closing_angles() {
    let tokens = lex("Map<String, List<Map<Integer, List<String>>>> deepMap;");
    assert!(tokens.contains(&op(JavaOperator::Lt)));
    assert!(tokens.contains(&op(JavaOperator::UBitShiftRight)));
}

#[test]
fn unterminated_string_closes_at_the_end() {
    assert_eq!(lex("\"abc"), vec![string_lit("abc")]);
}

#[test]
fn char_literals() {
    let tokens = lex("char c = 'x'; char d = '\\n';");
    assert!(tokens.contains(&JavaToken::Identifier(JavaIdentifier::CharLiteral("x".to_string()))));
    assert!(tokens.contains(&JavaToken::Identifier(JavaIdentifier::CharLiteral("\n".to_string()))));
    assert_eq!(tokens.len(), 10);
}

#[test]
fn numerals_are_classified() {
    let tokens = lex("1_000.5 0b1010 0o17 12_34 3.14e10f 6.022E23 1e");
    assert_eq!(tokens[0], JavaToken::Identifier(JavaIdentifier::Float("1000.5".to_string())));
    assert_eq!(tokens[1], JavaToken::Identifier(JavaIdentifier::Integer("0b1010".to_string(), JavaBase::Binary)));
    assert_eq!(tokens[2], JavaToken::Identifier(JavaIdentifier::Integer("0o17".to_string(), JavaBase::Octal)));
    assert_eq!(tokens[3], JavaToken::Identifier(JavaIdentifier::Integer("12_34".to_string(), JavaBase::Decimal)));
    assert_eq!(tokens[4], unknown("3.14e10f", 0));
    assert_eq!(tokens[5], JavaToken::Identifier(JavaIdentifier::Float("6.022E23".to_string())));
    assert_eq!(tokens[6], unknown("1e", 0));
}

#[test]
fn unicode_digit_starts_a_numeral() {
    assert_eq!(lex("٣"), vec![unknown("٣", 0)]);
}

#[test]
fn import_directive_is_handed_to_the_driver() {
    let mut lexer = Lexer::<JavaTokenSet>::new("int a;\nimport java.util.List;\nb");
    match lexer.tokenize() {
        Step::Import(batch, name) => {
            assert_eq!(name, "java.util.List");
            assert_eq!(
                batch,
                vec![kw(JavaKeyword::Int), unknown("a", 0), delim(JavaDelimeters::Semicolon)]
            );
        }
        _ => panic!("expected an import"),
    }
    match lexer.tokenize() {
        Step::Close(batch) => assert_eq!(batch, vec![unknown("b", 0)]),
        _ => panic!("expected the end"),
    }
}

#[test]
fn rows_and_columns_are_tracked() {
    let mut lexer = Lexer::<JavaTokenSet>::new("a\nbc\n\"x\ny\"");
    lexer.run();
    assert_eq!(lexer.state.row, 3);
    assert_eq!(lexer.state.column, 5);
}

#[test]
fn the_engine_runs_the_description_language() {
    let mut lexer = Lexer::<syntxTokenSet>::new("name=\"x\";");
    let mut out = Vec::new();
    for step in lexer.run() {
        match step {
            Step::Send(b) | Step::Import(b, _) | Step::Close(b) => out.extend(b),
        }
    }
    assert_eq!(
        out,
        vec![
            syntxToken::Identifier(syntxIdentifier::syntxKeyword(syntxKeyword::Name)),
            syntxToken::Operator(syntxOperator::Eq),
            syntxToken::Identifier(syntxIdentifier::StringLiteral("x".to_string())),
            syntxToken::Delimeter(syntxDelimeter::Semicolon),
        ]
    );
}
