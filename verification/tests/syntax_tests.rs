use psy::ast::{Expression, Operator, Statement};
use psy::formatter::Formatter;
use psy::lexer::Lexer;
use psy::parser::{ParseError, Parser, Severity};
use psy::symbols::{collect_symbols, SymbolKind};
use psy::token::Token;

fn tokens_of(source: &str) -> Vec<Token> {
    let mut lexer = Lexer::new(source.to_string());
    lexer.tokenize().into_iter().map(|t| t.token).collect()
}

#[test]
fn lexes_assignment() {
    assert_eq!(
        tokens_of("x = 5"),
        vec![Token::Identifier("x".to_string()), Token::Assign, Token::Number("5".to_string()), Token::EOF]
    );
}

#[test]
fn lexes_keywords_operators_and_strings() {
    assert_eq!(
        tokens_of("IF a >= 2 THEN\nOUTPUT \"hi\" // note\nENDIF"),
        vec![
            Token::If,
            Token::Identifier("a".to_string()),
            Token::GreaterEqual,
            Token::Number("2".to_string()),
            Token::Then,
            Token::Newline,
            Token::Output,
            Token::StringLiteral("hi".to_string()),
            Token::Newline,
            Token::EndIf,
            Token::EOF,
        ]
    );
}

#[test]
fn lexer_tracks_lines_and_columns() {
    let mut lexer = Lexer::new("a\n  b".to_string());
    let tokens = lexer.tokenize();
    assert_eq!((tokens[0].line, tokens[0].column), (1, 1));
    assert_eq!((tokens[2].line, tokens[2].column), (2, 3));
    assert_eq!(tokens.last().unwrap().token, Token::EOF);
}

#[test]
fn parses_binary_precedence() {
    let mut lexer = Lexer::new("START\nx = 1 + 2 * 3\nEND".to_string());
    let mut parser = Parser::new(lexer.tokenize());
    let (statements, errors) = parser.parse();
    assert!(errors.is_empty());
    assert_eq!(statements.len(), 1);
    match &statements[0].node {
        Statement::Assign { variable, expression } => {
            assert_eq!(variable, "x");
            match &expression.node {
                Expression::BinaryOp { operator, right, .. } => {
                    assert_eq!(*operator, Operator::Add);
                    assert!(matches!(right.node, Expression::BinaryOp { operator: Operator::Multiply, .. }));
                }
                other => panic!("unexpected {:?}", other),
            }
        }
        other => panic!("unexpected {:?}", other),
    }
}

#[test]
fn parse_error_text_names_its_place() {
    let e = ParseError { message: "Expected ENDIF".to_string(), line: 3, column: 7, severity: Severity::Error };
    assert_eq!(e.to_text(), "Expected ENDIF (line 3, column 7)");
}

fn format(source: &str) -> String {
    let mut f = Formatter::new();
    f.format(source).unwrap()
}

#[test]
fn formats_single_assignment() {
    assert_eq!(format("START\nx = 1\nEND"), "START\n    x = 1\nEND\n");
}

#[test]
fn formats_blocks_and_spacing() {
    assert_eq!(
        format("START\nIF x > 1 THEN\nOUTPUT \"big\"\nENDIF\ny = 2\nEND"),
        "START\n    IF x > 1 THEN\n        OUTPUT \"big\"\n    ENDIF\n\n    y = 2\nEND\n"
    );
}

#[test]
fn formats_numbers_operators_and_imports() {
    assert_eq!(
        format("IMPORT _MATH[SIN, COS]\nSTART\nx = 007.50*(a-1)\nEND"),
        "IMPORT _MATH[SIN, COS]\n\nSTART\n    x = 7.5*a - 1\nEND\n"
    );
}

#[test]
fn formats_public_function() {
    assert_eq!(
        format("START\nPUB FUNCTION f(a, b)\nRETURN a\nENDFUNCTION\nEND"),
        "START\n    PUB FUNCTION f(a, b)\n        RETURN a\n    ENDFUNCTION\nEND\n"
    );
}

#[test]
fn formatter_output_accumulates() {
    let mut f = Formatter::new();
    let first = f.format("START\nEND").unwrap();
    assert_eq!(first, "START\nEND\n");
    let second = f.format("START\nEND").unwrap();
    assert_eq!(second, "START\nEND\nSTART\nEND\n");
}

#[test]
fn collects_symbols_in_order() {
    let source = "IMPORT _MATH[SIN]\nSTART\nINPUT a, b\nDECLARE arr[10]\nFUNCTION f(p)\nSTATIC s = 1\nRETURN p\nENDFUNCTION\nFOR i = 1 TO 3\nc = i\nENDFOR\nEND";
    let mut lexer = Lexer::new(source.to_string());
    let mut parser = Parser::new(lexer.tokenize());
    let (statements, errors) = parser.parse();
    assert!(errors.is_empty());
    let symbols = collect_symbols(&statements);
    let names: Vec<&str> = symbols.iter().map(|s| s.name.as_str()).collect();
    assert_eq!(names, vec!["SIN", "a", "b", "arr", "f", "p", "s", "i", "c"]);
    assert_eq!(symbols[0].kind, SymbolKind::Import { module: "_MATH".to_string() });
    assert_eq!(symbols[3].kind, SymbolKind::Array { size: 10 });
    assert_eq!(symbols[4].kind, SymbolKind::Function { parameters: vec!["p".to_string()] });
    assert_eq!(symbols[6].kind, SymbolKind::Static);
    assert!(symbols.iter().all(|s| s.line == 0 && s.column == 0));
}

#[test]
fn lexer_looks_ahead_and_advances() {
    let mut lexer = Lexer::new("ab\nc".to_string());
    assert_eq!(lexer.peek(), Some('b'));
    lexer.advance_char();
    assert_eq!(lexer.peek(), Some('\n'));
    lexer.advance_char();
    lexer.advance_char();
    assert_eq!(lexer.peek(), None);
    let tokens = lexer.tokenize();
    assert_eq!(tokens.len(), 2);
    assert_eq!(tokens[0].token, Token::Identifier("c".to_string()));
    assert_eq!((tokens[0].line, tokens[0].column), (2, 1));
    assert_eq!(tokens[1].token, Token::EOF);
}
