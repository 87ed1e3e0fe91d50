use psy::definitions::{completion_entries, CompletionKind, Definitions, ModuleInfo, SymbolInfo};
use psy::hover::static_symbol_info;
use psy::symbols::{Symbol, SymbolKind};

fn info(description: &str, detail: &str, example: &str) -> SymbolInfo {
    SymbolInfo { description: description.to_string(), detail: detail.to_string(), example: example.to_string() }
}

fn sym(name: &str, kind: SymbolKind) -> Symbol {
    Symbol { name: name.to_string(), kind, line: 0, column: 0 }
}

fn sample() -> Definitions {
    Definitions {
        keywords: vec![
            ("IF".to_string(), info("Conditional", "Runs a block when true.", "IF x > 1 THEN")),
            ("FOR".to_string(), info("Counted loop", "Repeats a block.", "FOR i = 1 TO 3")),
        ],
        modules: vec![(
            "_MATH".to_string(),
            ModuleInfo {
                description: "Mathematics".to_string(),
                detail: "Numbers and more.".to_string(),
                functions: vec![
                    ("SQRT".to_string(), info("Square root", "Root of a number.", "SQRT(9)")),
                    ("ABS".to_string(), info("Absolute value", "Drops the sign.", "ABS(-2)")),
                    ("ABSOLUTE".to_string(), info("Long form", "Same as ABS.", "ABSOLUTE(-2)")),
                ],
            },
        )],
        builtins: vec![("LENGTH".to_string(), info("Length of an array", "Counts the elements.", "LENGTH(a)"))],
    }
}

#[test]
fn completion_offers_each_label_once() {
    let defs = sample();
    let symbols = vec![
        sym("SQRT", SymbolKind::Import { module: "_MATH".to_string() }),
        sym("total", SymbolKind::Variable),
        sym("IF", SymbolKind::Variable),
        sym("area", SymbolKind::Function { parameters: vec!["w".to_string(), "h".to_string()] }),
        sym("LIMIT", SymbolKind::Const),
        sym("total", SymbolKind::Const),
    ];
    let items = completion_entries(&defs, &symbols);
    let labels: Vec<&str> = items.iter().map(|e| e.label.as_str()).collect();
    assert_eq!(labels, vec!["FOR", "LENGTH", "SQRT", "total", "IF", "area", "LIMIT"]);
    assert_eq!(items[0].kind, CompletionKind::Keyword);
    assert_eq!(items[0].detail, "Counted loop");
    assert_eq!(items[0].documentation.as_deref(), Some("Repeats a block.\n\n```psy\nFOR i = 1 TO 3\n```"));
    assert_eq!(items[0].insert_text, None);
    assert_eq!(items[1].kind, CompletionKind::Function);
    // The document's own symbols override the language's names.
    assert_eq!(items[2].detail, "Imported from _MATH");
    assert_eq!(items[2].kind, CompletionKind::Function);
    assert_eq!(items[4].kind, CompletionKind::Variable);
    assert_eq!(items[4].detail, "Variable");
    assert_eq!(items[4].insert_text.as_deref(), Some("IF"));
    assert_eq!(items[4].documentation, None);
    // Of two symbols with one name, the first is offered.
    assert_eq!(items[3].detail, "Variable");
    assert_eq!(items[3].insert_text.as_deref(), Some("total"));
    assert_eq!(items[5].insert_text.as_deref(), Some("area(${1:w}, ${2:h})"));
    assert_eq!(items[5].detail, "Function(w, h)");
    assert_eq!(items[6].kind, CompletionKind::Constant);
}

#[test]
fn repeated_language_names_keep_the_first_item() {
    let mut defs = sample();
    defs.keywords.push(("LENGTH".to_string(), info("Shadowed", "x", "y")));
    let symbols = vec![Symbol {
        name: "ABS".to_string(),
        kind: SymbolKind::Import { module: "_MATH".to_string() },
        line: 0,
        column: 0,
    }];
    let items = completion_entries(&defs, &[]);
    let labels: Vec<&str> = items.iter().map(|e| e.label.as_str()).collect();
    assert_eq!(labels, vec!["IF", "FOR", "LENGTH"]);
    assert_eq!(items[2].detail, "Shadowed");
    let items = completion_entries(&defs, &symbols);
    let labels: Vec<&str> = items.iter().map(|e| e.label.as_str()).collect();
    assert_eq!(labels, vec!["IF", "FOR", "LENGTH", "ABS"]);
    assert_eq!(items[3].detail, "Imported from _MATH");
}

#[test]
fn completion_without_imports_skips_module_functions() {
    let items = completion_entries(&sample(), &[]);
    let labels: Vec<&str> = items.iter().map(|e| e.label.as_str()).collect();
    assert_eq!(labels, vec!["IF", "FOR", "LENGTH"]);
}

#[test]
fn hover_over_language_names() {
    let defs = sample();
    assert_eq!(
        static_symbol_info("if", &defs).as_deref(),
        Some("**if** — Conditional\n\nRuns a block when true.\n\n```psy\nIF x > 1 THEN\n```")
    );
    assert_eq!(
        static_symbol_info("length", &defs).as_deref(),
        Some("**length** — Length of an array\n\nCounts the elements.\n\n```psy\nLENGTH(a)\n```")
    );
    assert_eq!(
        static_symbol_info("Sqrt", &defs).as_deref(),
        Some("**Sqrt** — Square root *(from `_MATH`)*\n\nRoot of a number.\n\n```psy\nSQRT(9)\n```")
    );
    assert_eq!(
        static_symbol_info("_math", &defs).as_deref(),
        Some(
            "**_math** — Mathematics\n\nNumbers and more.\n\n**Available functions:**\n\
             - `ABS`: Absolute value\n- `ABSOLUTE`: Long form\n- `SQRT`: Square root\n"
        )
    );
    assert_eq!(static_symbol_info("nothing", &defs), None);
}
