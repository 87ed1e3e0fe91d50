//! Suggestions for known parse-error messages.
use vstd::prelude::*;
use vstd::string::StringExecFns;
use crate::text::{has_infix, has_prefix, str_contains, str_starts_with};

verus! {

/// The suggestion attached to a parse-error message: the first rule whose
/// pattern the message holds decides.
pub open spec fn suggestion_for(message: Seq<char>) -> Option<Seq<char>> {
    if has_infix(message, "Unknown statement starting with: END"@) {
        Some("Check for an unclosed block above this line (missing ENDIF, ENDFOR, or ENDWHILE)"@)
    } else if has_infix(message, "Expected ENDIF"@) {
        Some("This IF block is missing its ENDIF. If you meant to chain conditions, use ELSEIF instead of ELSE IF"@)
    } else if has_infix(message, "Expected ENDFOR"@) {
        Some("This FOR block is missing its ENDFOR"@)
    } else if has_infix(message, "Expected ENDWHILE"@) {
        Some("This WHILE block is missing its ENDWHILE"@)
    } else if has_infix(message, "Expected = for assignment"@) {
        Some("Assignments use a single = (not == or :=)"@)
    } else if has_infix(message, "Expected identifier after INPUT"@) {
        Some("INPUT must be followed by one or more variable names"@)
    } else if has_prefix(message, "Unknown statement starting with:"@) {
        Some("This line doesn't match any known statement (INPUT, OUTPUT, IF, FOR, WHILE, DECLARE, or an assignment)"@)
    } else {
        None
    }
}

/// The text of an optional string.
pub open spec fn opt_text(o: Option<String>) -> Option<Seq<char>> {
    match o {
        Some(s) => Some(s@),
        None => None,
    }
}

/// Maps a known parse-error message to an actionable suggestion.
pub fn suggest_fix(message: &str) -> (r: Option<String>)
    ensures
        opt_text(r) == suggestion_for(message@),
{
    if str_contains(message, "Unknown statement starting with: END") {
        return Some(String::from_str(
            "Check for an unclosed block above this line (missing ENDIF, ENDFOR, or ENDWHILE)",
        ));
    }
    if str_contains(message, "Expected ENDIF") {
        return Some(String::from_str(
            "This IF block is missing its ENDIF. If you meant to chain conditions, use ELSEIF instead of ELSE IF",
        ));
    }
    if str_contains(message, "Expected ENDFOR") {
        return Some(String::from_str("This FOR block is missing its ENDFOR"));
    }
    if str_contains(message, "Expected ENDWHILE") {
        return Some(String::from_str("This WHILE block is missing its ENDWHILE"));
    }
    if str_contains(message, "Expected = for assignment") {
        return Some(String::from_str("Assignments use a single = (not == or :=)"));
    }
    if str_contains(message, "Expected identifier after INPUT") {
        return Some(String::from_str("INPUT must be followed by one or more variable names"));
    }
    if str_starts_with(message, "Unknown statement starting with:") {
        return Some(String::from_str(
            "This line doesn't match any known statement (INPUT, OUTPUT, IF, FOR, WHILE, DECLARE, or an assignment)",
        ));
    }
    None
}

} // verus!
