use procfs::process::Process;
use std::time::Instant;
use syntx::import_resolution::{import_target, ImportTarget};
use syntx::java_tokenset::{JavaIdentifier, JavaKeyword, JavaOperator, JavaToken, JavaTokenSet};
use syntx::lexer::{Lexer, Step};

fn assert_runtime_and_memory<F: FnOnce()>(f: F, max_time_ms: u128, max_mem_mb: f64) {
    let start_mem = Process::myself().unwrap().statm().unwrap().resident;
    let page_size = procfs::page_size();
    let start = Instant::now();

    f();

    let elapsed = start.elapsed();
    let end_mem = Process::myself().unwrap().statm().unwrap().resident;
    let used_pages = end_mem.saturating_sub(start_mem);
    let used_mb = (used_pages * page_size) as f64 / (1024.0 * 1024.0);

    assert!(
        elapsed.as_millis() <= max_time_ms,
        "Test exceeded time limit: {}ms > {}ms",
        elapsed.as_millis(),
        max_time_ms
    );
    assert!(
        used_mb <= max_mem_mb,
        "Test exceeded memory limit: {:.2}MB > {:.2}MB",
        used_mb,
        max_mem_mb
    );
}

/// The sources that an in-memory search path holds, by directory.
fn package_sources(dir: &str) -> Vec<&'static str> {
    if dir == "testpkg/" {
        vec!["public class A {}"]
    } else {
        Vec::new()
    }
}

/// Lexes `input` to the end, resolving wildcard imports against the
/// in-memory packages, and collects every batch in order.
fn run_lexer(input: &str) -> Vec<JavaToken> {
    let mut lexer = Lexer::<JavaTokenSet>::new(input);
    let mut tokens = Vec::with_capacity(512);
    loop {
        match lexer.tokenize() {
            Step::Send(batch) => tokens.extend(batch),
            Step::Import(batch, name) => {
                tokens.extend(batch);
                if let Some(ImportTarget::Wildcard(dir)) = import_target(&name) {
                    for src in package_sources(&dir) {
                        tokens.extend(run_lexer(src));
                    }
                }
            }
            Step::Close(batch) => {
                tokens.extend(batch);
                break;
            }
        }
    }
    tokens
}

fn assert_token_present(tokens: &[JavaToken], expected: JavaToken) {
    assert!(
        tokens.iter().any(|t| t == &expected),
        "Token {:?} not found!",
        expected,
    );
}

#[test]
fn crazy_unicode_escapes_everywhere() {
    assert_runtime_and_memory(
        || {
            let tokens = run_lexer(r#""\u{1F600}\u{1F602}\u{1F60D}""#);
            assert!(tokens.iter().any(|t| matches!(
                t,
                JavaToken::Identifier(JavaIdentifier::StringLiteral(s)) if s == "😀😂😍"
            )));
        },
        8,
        5.0,
    );
}

#[test]
fn nested_comments_survival() {
    assert_runtime_and_memory(
        || {
            let tokens = run_lexer(
                r#"
                    /* comment /* nested */ still comment */
                    // single-line comment
                    public class A {}
                "#,
            );

            assert_token_present(
                &tokens,
                JavaToken::Identifier(JavaIdentifier::JavaKeyword(JavaKeyword::Public)),
            );
            assert_token_present(
                &tokens,
                JavaToken::Identifier(JavaIdentifier::JavaKeyword(JavaKeyword::Class)),
            );
        },
        10,
        6.0,
    );
}

#[test]
fn insane_variable_naming() {
    assert_runtime_and_memory(
        || {
            let tokens = run_lexer("int αβγ = 123; String $name_123 = \"ok\";");
            assert_token_present(
                &tokens,
                JavaToken::Identifier(JavaIdentifier::JavaKeyword(JavaKeyword::Int)),
            );
            assert_token_present(
                &tokens,
                JavaToken::Identifier(JavaIdentifier::JavaKeyword(JavaKeyword::Class)),
            );
            assert!(tokens.iter().any(|t| matches!(
                t,
                JavaToken::Identifier(JavaIdentifier::Integer(s, _)) if s == "123"
            )));
        },
        10,
        5.0,
    );
}

#[test]
fn crazy_numeric_literals() {
    assert_runtime_and_memory(
        || {
            let tokens = run_lexer(
                "double pi = 3.1415; int hex = 0xDEAD; int bin = 0b1010; float big = 6.02e23f;",
            );
            assert!(tokens.iter().any(|t| matches!(
                t,
                JavaToken::Identifier(JavaIdentifier::Float(f)) if f.parse::<f64>().unwrap() > 3.0
            )));
            assert!(tokens.iter().any(|t| matches!(
                t,
                JavaToken::Identifier(JavaIdentifier::Integer(s, _)) if s.contains("0xDEAD")
            )));
            assert!(tokens.iter().any(|t| matches!(
                t,
                JavaToken::Identifier(JavaIdentifier::Integer(s, _)) if s.contains("0b1010")
            )));
        },
        10,
        5.0,
    );
}

#[test]
fn deep_generics_brackets() {
    assert_runtime_and_memory(
        || {
            let tokens = run_lexer("Map<String, List<Map<Integer, List<String>>>> deepMap;");
            assert_token_present(&tokens, JavaToken::Operator(JavaOperator::Lt));
            assert_token_present(&tokens, JavaToken::Operator(JavaOperator::UBitShiftRight));
        },
        10,
        5.0,
    );
}

#[test]
fn large_strings_and_chars() {
    assert_runtime_and_memory(
        || {
            let tokens = run_lexer(
                r#"
                    String s = "This is a massive string with a huge number of characters and escape sequences \n \t \u{1F60D}";
                    char c = '💀';
                "#,
            );

            assert!(tokens.iter().any(|t| matches!(
                t,
                JavaToken::Identifier(JavaIdentifier::StringLiteral(s)) if s.contains("massive string")
            )));
            assert!(tokens.iter().any(|t| matches!(
                t,
                JavaToken::Identifier(JavaIdentifier::CharLiteral(s)) if s.contains("💀")
            )));
        },
        15,
        7.0,
    );
}

#[test]
fn invalid_unicode_and_recovery() {
    assert_runtime_and_memory(
        || {
            let tokens = run_lexer(r#""\u{ZZZZ} garbage""#);
            assert!(tokens.iter().any(|t| matches!(
                t,
                JavaToken::Identifier(JavaIdentifier::StringLiteral(s)) if s.contains("garbage")
            )));
        },
        8,
        5.0,
    );
}

#[test]
fn wildcard_import_expansion() {
    assert_runtime_and_memory(
        || {
            let tokens = run_lexer(
                r#"
                import testpkg.*;
                int x = 42;
                "#,
            );

            assert_token_present(
                &tokens,
                JavaToken::Identifier(JavaIdentifier::JavaKeyword(JavaKeyword::Public)),
            );
            assert_token_present(
                &tokens,
                JavaToken::Identifier(JavaIdentifier::JavaKeyword(JavaKeyword::Class)),
            );

            assert_token_present(
                &tokens,
                JavaToken::Identifier(JavaIdentifier::JavaKeyword(JavaKeyword::Int)),
            );
            assert_token_present(&tokens, JavaToken::Operator(JavaOperator::Assign));
            assert!(tokens.iter().any(|t| matches!(
                t,
                JavaToken::Identifier(JavaIdentifier::Integer(s, _)) if s == "42"
            )));
        },
        20,
        8.0,
    );
}

#[test]
fn imported_tokens_come_before_the_rest() {
    let tokens = run_lexer("import testpkg.*;\nint x = 42;");
    let class = tokens
        .iter()
        .position(|t| t == &JavaToken::Identifier(JavaIdentifier::JavaKeyword(JavaKeyword::Class)))
        .expect("the imported class");
    let int = tokens
        .iter()
        .position(|t| t == &JavaToken::Identifier(JavaIdentifier::JavaKeyword(JavaKeyword::Int)))
        .expect("the declaration");
    assert!(class < int);
    assert_eq!(
        tokens[0],
        JavaToken::Identifier(JavaIdentifier::JavaKeyword(JavaKeyword::Public))
    );
    assert_eq!(tokens.len(), 5 + 5);
}
