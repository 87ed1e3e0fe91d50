use psy::exports::{collect_exports, export_name, has_pub_exports, record_exports, sibling_error_message, Export};
use psy::lexer::Lexer;
use psy::parser::Parser;
use psy::checker::Diagnostic;
use psy::editor::{unused_imports, completion_detail, completion_insert_text, editor_message, editor_position, get_word_at_position, hover_for_user_symbol};
use psy::integers::is_prime_checked;
use psy::parser::Severity;
use psy::symbols::{Symbol, SymbolKind};
use psy::url::is_decodable;

fn sym(name: &str, kind: SymbolKind) -> Symbol {
    Symbol { name: name.to_string(), kind, line: 0, column: 0 }
}

#[test]
fn word_under_cursor() {
    let doc = "START\nresult = total_sum + 1\r\nEND";
    assert_eq!(get_word_at_position(doc, 1, 12), Some(("total_sum".to_string(), 9, 18)));
    assert_eq!(get_word_at_position(doc, 1, 0), Some(("result".to_string(), 0, 6)));
    assert_eq!(get_word_at_position(doc, 1, 7), None);
    assert_eq!(get_word_at_position(doc, 2, 3), Some(("END".to_string(), 0, 3)));
    assert_eq!(get_word_at_position(doc, 3, 0), None);
    assert_eq!(get_word_at_position(doc, 0, 6), None);
}

#[test]
fn hover_texts() {
    let symbols = vec![
        sym("f", SymbolKind::Function { parameters: vec!["a".to_string(), "b".to_string()] }),
        sym("g", SymbolKind::Function { parameters: vec![] }),
        sym("x", SymbolKind::Variable),
        sym("arr", SymbolKind::Array { size: 5 }),
        sym("SIN", SymbolKind::Import { module: "_MATH".to_string() }),
        sym("x", SymbolKind::Const),
    ];
    assert_eq!(
        hover_for_user_symbol("f", &symbols),
        Some("```psy\nFUNCTION f(a, b)\n```\n\n*User-defined function* — declared at line 0".to_string())
    );
    assert_eq!(
        hover_for_user_symbol("g", &symbols),
        Some("```psy\nFUNCTION g()\n```\n\n*User-defined function* — declared at line 0".to_string())
    );
    assert_eq!(
        hover_for_user_symbol("x", &symbols),
        Some("**x** — variable, first assigned at line 0".to_string())
    );
    assert_eq!(
        hover_for_user_symbol("arr", &symbols),
        Some("**arr** — array of size 5, declared at line 0".to_string())
    );
    assert_eq!(
        hover_for_user_symbol("SIN", &symbols),
        Some("**SIN** — imported from `_MATH`\n\nSee module documentation for details.".to_string())
    );
    assert_eq!(hover_for_user_symbol("nope", &symbols), None);
}

#[test]
fn completion_texts() {
    let f = sym("f", SymbolKind::Function { parameters: vec!["a".to_string(), "b".to_string()] });
    assert_eq!(completion_detail(&f.kind), "Function(a, b)");
    assert_eq!(completion_insert_text(&f), "f(${1:a}, ${2:b})");
    let g = sym("g", SymbolKind::Function { parameters: vec![] });
    assert_eq!(completion_insert_text(&g), "g()");
    assert_eq!(completion_detail(&SymbolKind::Array { size: 3 }), "Array[3]");
    assert_eq!(completion_detail(&SymbolKind::Static), "Static variable");
    assert_eq!(completion_insert_text(&sym("v", SymbolKind::Variable)), "v");
}

#[test]
fn diagnostics_for_the_editor() {
    let d = Diagnostic {
        message: "Expected ENDIF".to_string(),
        line: 3,
        column: 1,
        severity: Severity::Error,
        suggestion: Some("Use ELSEIF".to_string()),
    };
    assert_eq!(editor_message(&d), "Expected ENDIF\nSuggestion: Use ELSEIF");
    assert_eq!(editor_position(&d), (2, 0));
    let top = Diagnostic { message: "m".to_string(), line: 0, column: 0, severity: Severity::Warning, suggestion: None };
    assert_eq!(editor_message(&top), "m");
    assert_eq!(editor_position(&top), (0, 0));
}

#[test]
fn checked_variants() {
    assert_eq!(is_prime_checked(97), Some(true));
    assert_eq!(is_prime_checked(9223372036854775807), Some(false));
    assert!(is_decodable("a%41"));
    assert!(is_decodable("%é"));
    assert!(!is_decodable("%€"));
    assert!(!is_decodable("%aé"));
}

#[test]
fn unused_import_warnings() {
    let symbols = vec![
        sym("SQRT", SymbolKind::Import { module: "math".to_string() }),
        sym("HASH", SymbolKind::Import { module: "crypto".to_string() }),
        sym("SQRT", SymbolKind::Variable),
        sym("HASH", SymbolKind::Function { parameters: vec![] }),
    ];
    assert_eq!(unused_imports(&symbols), vec![(1, "Imported 'HASH' from crypto is never used".to_string())]);
    assert!(unused_imports(&[]).is_empty());
    let consts = vec![
        sym("PI", SymbolKind::Import { module: "math".to_string() }),
        sym("PI", SymbolKind::Const),
        sym("E", SymbolKind::Import { module: "math".to_string() }),
        sym("E", SymbolKind::Static),
    ];
    assert!(unused_imports(&consts).is_empty());
}

#[test]
fn sibling_exports() {
    let first = vec![
        Export::Function { name: "area".to_string(), parameters: vec!["w".to_string(), "h".to_string()] },
        Export::Const { name: "LIMIT".to_string() },
    ];
    let second = vec![
        Export::Array { name: "grid".to_string(), size: 9 },
        Export::Const { name: "LIMIT".to_string() },
        Export::Const { name: "OTHER".to_string() },
    ];
    assert_eq!(export_name(&first[0]), "area");
    assert_eq!(export_name(&second[0]), "grid");
    let mut seen: Vec<String> = Vec::new();
    assert_eq!(record_exports(&mut seen, &first), Ok(()));
    assert_eq!(seen, vec!["area".to_string(), "LIMIT".to_string()]);
    assert_eq!(
        record_exports(&mut seen, &second),
        Err("Ambiguous PUB export: 'LIMIT' is declared in more than one sibling file".to_string())
    );
    assert_eq!(seen, vec!["area".to_string(), "LIMIT".to_string(), "grid".to_string()]);
    let twice = vec![Export::Const { name: "X".to_string() }, Export::Const { name: "X".to_string() }];
    let mut fresh: Vec<String> = Vec::new();
    assert!(record_exports(&mut fresh, &twice).is_err());
}

#[test]
fn public_declarations_are_found() {
    let parse = |source: &str| {
        let tokens = Lexer::new(source.to_string()).tokenize();
        Parser::new(tokens).parse().0
    };
    assert!(has_pub_exports(&parse("PUB CONST LIMIT = 3")));
    assert!(!has_pub_exports(&parse("x = 1")));
}

#[test]
fn exports_of_a_program() {
    let tokens = Lexer::new(
        "PUB FUNCTION area(w, h)\n  RETURN w * h\nENDFUNCTION\nPUB CONST LIMIT = 3\nPUB DECLARE grid[9]\nx = 1\nCONST HIDDEN = 2"
            .to_string(),
    )
    .tokenize();
    let (ast, errors) = Parser::new(tokens).parse();
    assert!(errors.iter().all(|e| e.severity == Severity::Warning));
    let exports = collect_exports(&ast);
    let names: Vec<String> = exports.iter().map(export_name).collect();
    assert_eq!(names, vec!["area", "LIMIT", "grid"]);
    assert!(matches!(&exports[0], Export::Function { parameters, .. } if parameters == &vec!["w".to_string(), "h".to_string()]));
    assert!(matches!(&exports[2], Export::Array { size: 9, .. }));
}

#[test]
fn sibling_syntax_errors() {
    let diagnostics = vec![
        Diagnostic { message: "Unclosed IF".to_string(), line: 3, column: 1, severity: Severity::Error, suggestion: None },
        Diagnostic { message: "Missing START".to_string(), line: 1, column: 1, severity: Severity::Warning, suggestion: None },
        Diagnostic { message: "Bad token".to_string(), line: 12, column: 40, severity: Severity::Error, suggestion: Some("x".to_string()) },
    ];
    assert_eq!(
        sibling_error_message("lib/util.psy", &diagnostics),
        Some(
            "Cannot load sibling module lib/util.psy: syntax errors found\n  error at line 3, column 1: Unclosed IF\n  error at line 12, column 40: Bad token\n"
                .to_string()
        )
    );
    assert_eq!(sibling_error_message("a.psy", &diagnostics[1..2]), None);
    assert_eq!(sibling_error_message("a.psy", &[]), None);
}
