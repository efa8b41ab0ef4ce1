use syntx::codegen::{capitalize, codegen, trim_quotes};
use syntx::generate::{inference_source, tables_source, tokenset_source};
use syntx::import_resolution::{import_target, search_path, ImportTarget};
use syntx::java_delimiters::{keyword_id, operator_id};
use syntx::java_tokenset::{JavaIdentifier, JavaKeyword, JavaOperator, JavaToken, JavaTokenSet};
use syntx::numerals::parses_as_float;
use syntx::syntx::CurrentState;
use syntx::text::parse_hex_u32;
use syntx::states::State;
use syntx::syntx_tokenset::{
    syntxBase, syntxDelimeter, syntxIdentifier, syntxKeyword, syntxOperator, syntxToken,
    syntxTokenSet,
};
use syntx::tokens::{Delimeted, Lexable, Token, TokenKind};

#[test]
fn operator_table() {
    assert_eq!(operator_id(b">>>="), Some(JavaOperator::UBitShiftRightEq));
    assert_eq!(operator_id(b"instanceof"), Some(JavaOperator::Instanceof));
    assert_eq!(operator_id(b"&="), Some(JavaOperator::AndEq));
    assert_eq!(operator_id(b"=>"), None);
    assert!(JavaTokenSet::is_operator(b"<<="));
    assert!(!JavaTokenSet::is_operator(b"("));
}

#[test]
fn keyword_table() {
    let chars = |s: &str| s.chars().collect::<Vec<char>>();
    assert_eq!(keyword_id(&chars("while")), Some(JavaKeyword::While));
    assert_eq!(keyword_id(&chars("String")), Some(JavaKeyword::Class));
    assert_eq!(keyword_id(&chars("import")), Some(JavaKeyword::Import));
    assert_eq!(keyword_id(&chars("While")), None);
}

#[test]
fn language_tables() {
    assert!(JavaTokenSet::is_delimeter(&b';'));
    assert!(!JavaTokenSet::is_delimeter(&b'@'));
    assert_eq!(JavaTokenSet::is_scape(&'n'), Some('\n'));
    assert_eq!(JavaTokenSet::is_scape(&'q'), None);
    assert_eq!(JavaTokenSet::allowed_unicode_char(&'U'), Some(8));
    assert!(JavaTokenSet::trigger_comment_line(&['/', '/']));
    assert!(JavaTokenSet::trigger_comment_block(&['/', '*']));
    assert_eq!(JavaTokenSet::may_trigger_block_comment('/'), Some((vec!['*', '/'], 2)));
    assert!(JavaTokenSet::allowed_number_chars(&'_'));
    assert!(!JavaTokenSet::allowed_number_chars(&';'));
}

#[test]
fn float_grammar() {
    let yes = ["3.14", "5.", ".5", "1e5", "1E+5", "-2.5e-3", "inf", "NaN", "Infinity", "+7"];
    let no = ["", ".", "1e", "e5", "1.2.3", "0x1F", "3.14e10f", "in", "--1"];
    for s in yes {
        let c: Vec<char> = s.chars().collect();
        assert!(parses_as_float(&c), "{}", s);
        assert!(s.parse::<f64>().is_ok(), "{}", s);
    }
    for s in no {
        let c: Vec<char> = s.chars().collect();
        assert!(!parses_as_float(&c), "{}", s);
        assert!(s.parse::<f64>().is_err(), "{}", s);
    }
}

#[test]
fn hex_parse_matches_from_str_radix() {
    for s in ["1F600", "+A9", "", "+", "-1", "FFFFFFFF", "100000000", "zz"] {
        let c: Vec<char> = s.chars().collect();
        assert_eq!(parse_hex_u32(&c), u32::from_str_radix(s, 16).ok(), "{}", s);
    }
}

#[test]
fn import_targets() {
    assert!(import_target("java.util.List").is_none());
    assert!(import_target("javax.swing.JFrame").is_none());
    match import_target("testpkg.*") {
        Some(ImportTarget::Wildcard(d)) => assert_eq!(d, "testpkg/"),
        _ => panic!("expected a wildcard"),
    }
    match import_target("com.acme.Widget") {
        Some(ImportTarget::File(f)) => assert_eq!(f, "com/acme/Widget.java"),
        _ => panic!("expected a file"),
    }
}

#[test]
fn search_path_splitting() {
    assert_eq!(search_path("", ':'), vec!["."]);
    assert_eq!(search_path("/a:/b::c", ':'), vec!["/a", "/b", "", "c"]);
    assert_eq!(search_path("x;y", ';'), vec!["x", "y"]);
}

#[test]
fn capitalize_and_trim_quotes() {
    assert_eq!(capitalize("abstract"), "Abstract");
    assert_eq!(capitalize("ßx"), "SSx");
    assert_eq!(capitalize(""), "");
    assert_eq!(trim_quotes("  \"\\t\";"), "\\t");
    assert_eq!(trim_quotes("x"), "x");
}

#[test]
fn specification_file_is_read() {
    let src = "# a language\n[info]\nname = \"syntx\";\n\n[tokens]\nEq = \"=\";\nSemicolon = \";\";\nEq = \"==\";\n[delimeters]\nSemicolon;\n[operators]\nEq;\n[comments]\nline = \"//\";\nblock = [\"/*\", \"*/\"];\n[keywords]\ninfo;\nname;\n[scapes]\nn = \"\\n\";\n[numbers]\n[\".\", \"_\", \"e\"];\n";
    let stx = codegen(src);
    assert_eq!(stx.name, "syntx");
    assert_eq!(
        stx.tokens,
        vec![
            ("Eq".to_string(), "==".to_string()),
            ("Semicolon".to_string(), ";".to_string())
        ]
    );
    assert_eq!(stx.delimiters, vec!["Semicolon"]);
    assert_eq!(stx.operators, vec!["Eq"]);
    assert_eq!(stx.line_comment, "//");
    assert_eq!(stx.block_start, "/*");
    assert_eq!(stx.block_end, "*/");
    assert_eq!(
        stx.keywords,
        vec![
            ("Info".to_string(), "info".to_string()),
            ("Name".to_string(), "name".to_string())
        ]
    );
    assert_eq!(stx.scapes, vec![("n".to_string(), "\\n".to_string())]);
    assert_eq!(stx.numbers, vec![".", "_", "e"]);
    assert_eq!(stx.state, Some(CurrentState::Numbers));
}

#[test]
fn description_format_tables() {
    assert!(syntxTokenSet::is_operator(b"="));
    assert!(!syntxTokenSet::is_operator(b"=="));
    assert!(syntxTokenSet::is_delimeter(&b'['));
    assert!(!syntxTokenSet::is_delimeter(&b'+'));
    assert_eq!(syntxTokenSet::is_scape(&'"'), Some('"'));
    assert_eq!(
        syntxToken::Delimeter(syntxDelimeter::NewLine).kind(),
        TokenKind::Whitespace
    );
    assert_eq!(syntxToken::Delimeter(syntxDelimeter::Comma).kind(), TokenKind::Delimeter);
}

#[test]
fn description_format_inference() {
    let mut st = State::default();
    let infer = |s: &str, st: &mut State| syntxTokenSet::infer_token(s.to_string(), st);
    assert_eq!(
        infer("name", &mut st),
        Some(syntxToken::Identifier(syntxIdentifier::syntxKeyword(syntxKeyword::Name)))
    );
    assert_eq!(infer("=", &mut st), Some(syntxToken::Operator(syntxOperator::Eq)));
    assert_eq!(infer(";", &mut st), Some(syntxToken::Delimeter(syntxDelimeter::Semicolon)));
    assert_eq!(
        infer("42", &mut st),
        Some(syntxToken::Identifier(syntxIdentifier::Integer("42".to_string(), syntxBase::Decimal)))
    );
    st.in_str = true;
    assert_eq!(
        infer("a;b", &mut st),
        Some(syntxToken::Identifier(syntxIdentifier::StringLiteral("a;b".to_string())))
    );
}

#[test]
fn java_inference_swallows_import() {
    let mut st = State::default();
    assert_eq!(JavaTokenSet::infer_token("import".to_string(), &mut st), None);
    assert!(st.read_include);
    assert_eq!(
        JavaTokenSet::infer_token("instanceof".to_string(), &mut st),
        Some(JavaToken::Operator(JavaOperator::Instanceof))
    );
    assert_eq!(
        JavaTokenSet::infer_token("inf".to_string(), &mut st),
        Some(JavaToken::Identifier(JavaIdentifier::Float("inf".to_string())))
    );
}

#[test]
fn token_literal_lookup() {
    let stx = codegen("[tokens]\nPlus = \"+\";\nMinus = \"-\";\n");
    assert_eq!(stx.token_literal(&"Minus".to_string()), Some("-".to_string()));
    assert_eq!(stx.token_literal(&"Times".to_string()), None);
}

const DESCRIPTION: &str = "[info]\nname = \"mini\";\n[tokens]\nEq = \"=\";\nSemicolon = \";\";\n[delimeters]\nSemicolon;\n[operators]\nEq;\n[comments]\nline = \"--\";\nblock = [\"{-\", \"-}\"];\n[keywords]\nlet;\n[scapes]\nn = \"\\n\";\n[numbers]\n[\".\", \"_\"];\n";

#[test]
fn generated_token_set() {
    let stx = codegen(DESCRIPTION);
    let text = tokenset_source(&stx);
    assert!(text.starts_with("use crate::tokens::token_traits::{Token, TokenKind};\n"));
    assert!(text.contains("pub enum miniOperator {\n    Eq,\n}\n"));
    assert!(text.contains("pub enum miniDelimeter {\n    Semicolon,\n   Whitespace,\n    NewLine,\n}\n"));
    assert!(text.contains("pub enum miniKeyword {\n    Let,\n}\n"));
    assert!(text.ends_with("pub struct miniTokenSet;\n"));
}

#[test]
fn generated_tables() {
    let stx = codegen(DESCRIPTION);
    let text = tables_source(&stx).unwrap();
    assert!(text.contains("\t\t\t'n' => Some('\\n'),\n"));
    assert!(text.contains("if \"--\".starts_with(c) { Some(\"--\".chars().count()) }"));
    assert!(text.contains("Some((\"-}\".chars().collect(), \"{-\".chars().count()))"));
    assert!(text.contains("matches!(\n            c,\n\t\t\tb';'\n\t\t)"));
    assert!(text.contains("matches!(\n            s,\n\t\t\tb\"=\"\n\t\t)"));
    assert!(text.contains("matches!(c, '.'\n\t\t\t | '_'\n\t\t)"));
}

#[test]
fn generated_inference() {
    let stx = codegen(DESCRIPTION);
    let text = inference_source(&stx).unwrap();
    assert!(text.contains("impl Lexable for miniTokenSet {\n"));
    assert!(text.contains("                b\"=\" => miniToken::Operator(miniOperator::Eq),\n"));
    assert!(text.contains("                    b\";\" => miniToken::Delimeter(miniDelimeter::Semicolon),\n"));
    assert!(text.contains("            b\"let\" => { return Some(miniToken::Identifier(miniIdentifier::miniKeyword(miniKeyword::Let))); },\n"));
}

#[test]
fn generation_needs_every_literal() {
    let stx = codegen("[info]\nname = \"bad\";\n[operators]\nPlus;\n");
    assert!(tables_source(&stx).is_none());
    assert!(inference_source(&stx).is_none());
    assert!(tokenset_source(&stx).contains("pub enum badOperator {\n    Plus,\n}\n"));
}
