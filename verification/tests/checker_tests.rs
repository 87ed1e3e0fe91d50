use psy::checker::check;
use psy::parser::Severity;
use psy::rules::suggest_fix;

#[test]
fn detects_grade_check_errors() {
    let source = r#"
START
    INPUT score
    IF score >= 70 THEN
        OUTPUT "Grade: A"
    ELSE IF score >= 60 THEN
        OUTPUT "Grade: B"
    ENDIF
END
"#;
    let diagnostics = check(source);
    assert!(!diagnostics.is_empty());
    for d in &diagnostics {
        println!("{:?}", d);
    }
}

#[test]
fn clean_program_has_no_diagnostics() {
    let diagnostics = check("START\nINPUT x\nIF x > 1 THEN\nOUTPUT \"big\"\nENDIF\nEND\n");
    assert!(diagnostics.is_empty());
}

#[test]
fn unclosed_if_is_reported_with_suggestion() {
    let diagnostics = check("START\nIF x THEN\nEND\n");
    let endif = diagnostics.iter().find(|d| d.message == "Expected ENDIF").expect("missing ENDIF error");
    assert_eq!(endif.severity, Severity::Error);
    assert_eq!(
        endif.suggestion.as_deref(),
        Some("This IF block is missing its ENDIF. If you meant to chain conditions, use ELSEIF instead of ELSE IF")
    );
    let unknown = diagnostics
        .iter()
        .find(|d| d.message == "Unknown statement starting with: END")
        .expect("missing unknown statement error");
    assert_eq!(
        unknown.suggestion.as_deref(),
        Some("Check for an unclosed block above this line (missing ENDIF, ENDFOR, or ENDWHILE)")
    );
    assert_eq!(unknown.line, 3);
    assert_eq!(unknown.column, 1);
}

#[test]
fn missing_start_and_end_are_warnings() {
    let diagnostics = check("x = 1\n");
    assert_eq!(diagnostics.len(), 2);
    assert_eq!(diagnostics[0].message, "Program should start with START");
    assert_eq!(diagnostics[0].severity, Severity::Warning);
    assert_eq!(diagnostics[1].message, "Program should end with END");
    assert_eq!(diagnostics[1].severity, Severity::Warning);
    assert!(diagnostics[0].suggestion.is_none());
}

#[test]
fn suggestions_follow_the_rules_in_order() {
    assert_eq!(
        suggest_fix("Unknown statement starting with: ENDFOR"),
        Some("Check for an unclosed block above this line (missing ENDIF, ENDFOR, or ENDWHILE)".to_string())
    );
    assert_eq!(suggest_fix("Expected ENDFOR"), Some("This FOR block is missing its ENDFOR".to_string()));
    assert_eq!(suggest_fix("Expected ENDWHILE"), Some("This WHILE block is missing its ENDWHILE".to_string()));
    assert_eq!(
        suggest_fix("Expected = for assignment"),
        Some("Assignments use a single = (not == or :=)".to_string())
    );
    assert_eq!(
        suggest_fix("Expected identifier after INPUT"),
        Some("INPUT must be followed by one or more variable names".to_string())
    );
    assert_eq!(
        suggest_fix("Unknown statement starting with: FOO"),
        Some("This line doesn't match any known statement (INPUT, OUTPUT, IF, FOR, WHILE, DECLARE, or an assignment)".to_string())
    );
    assert_eq!(suggest_fix("Something else"), None);
}
