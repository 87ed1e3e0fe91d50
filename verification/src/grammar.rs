//! The grammar of the language, as the parser reads it: each function
//! below takes the token sequence and a position, and gives what the parser
//! builds from there together with the position after it. Errors recovered
//! from inside blocks are collected in an error list that is threaded
//! through.
use vstd::prelude::*;
use crate::ast::{Located, Operator, SExpr, SModuleImport, SOutput, SStmt, UnaryOperator};
use crate::formatter::operator_text;
use crate::number::literal_size;
use crate::parser::{SParseError, Severity};
use crate::token::{SPosToken, SToken};

verus! {

/// What an expression-level rule gives: the expression or the error, and
/// the position reached.
pub type ExprResult = (Result<Located<SExpr>, SParseError>, int);

/// What a statement-level rule gives: the statement or the error, the
/// position reached, and the errors collected so far.
pub type StmtResult = (Result<Located<SStmt>, SParseError>, int, Seq<SParseError>);

/// What a block gives: its statements, the position reached and the errors
/// collected so far.
pub type BlockResult = (Seq<Located<SStmt>>, int, Seq<SParseError>);

/// The token at `p`, or `EOF` past the end.
pub open spec fn cur(toks: Seq<SPosToken>, p: int) -> SToken {
    if 0 <= p < toks.len() {
        toks[p].token
    } else {
        SToken::EOF
    }
}

/// The line and column of the token at `p`; past the end, those of the
/// last token, or (1, 1) when there are no tokens.
pub open spec fn cur_pos(toks: Seq<SPosToken>, p: int) -> (usize, usize) {
    if 0 <= p < toks.len() {
        (toks[p].line, toks[p].column)
    } else if toks.len() > 0 {
        (toks.last().line, toks.last().column)
    } else {
        (1, 1)
    }
}

/// One token on, but never past the end.
pub open spec fn adv(toks: Seq<SPosToken>, p: int) -> int {
    if 0 <= p < toks.len() {
        p + 1
    } else {
        p
    }
}

/// The tokens left from `p`.
pub open spec fn rem(toks: Seq<SPosToken>, p: int) -> nat {
    if 0 <= p <= toks.len() {
        (toks.len() - p) as nat
    } else {
        0
    }
}

/// `q` lies at or after `p`, within the tokens.
pub open spec fn fwd(toks: Seq<SPosToken>, p: int, q: int) -> bool {
    0 <= p <= q <= toks.len()
}

/// `q` lies after `p`, within the tokens.
pub open spec fn fwd_strict(toks: Seq<SPosToken>, p: int, q: int) -> bool {
    0 <= p < q <= toks.len()
}

pub open spec fn at_end(toks: Seq<SPosToken>, p: int) -> bool {
    p >= toks.len() || cur(toks, p) == SToken::EOF
}

pub open spec fn skip_nl(toks: Seq<SPosToken>, p: int) -> int
    decreases rem(toks, p),
{
    if 0 <= p < toks.len() && toks[p].token == SToken::Newline {
        skip_nl(toks, p + 1)
    } else {
        p
    }
}

/// Skipping line breaks moves forward, stays within the tokens and stops
/// at a token that is not a line break.
pub proof fn lemma_skip_nl(toks: Seq<SPosToken>, p: int)
    ensures
        skip_nl(toks, p) >= p,
        rem(toks, skip_nl(toks, p)) <= rem(toks, p),
        0 <= p <= toks.len() ==> skip_nl(toks, p) <= toks.len(),
        cur(toks, skip_nl(toks, p)) != SToken::Newline,
    decreases rem(toks, p),
{
    if 0 <= p < toks.len() && toks[p].token == SToken::Newline {
        lemma_skip_nl(toks, p + 1);
    }
}

pub open spec fn error_at(toks: Seq<SPosToken>, p: int, message: Seq<char>) -> SParseError {
    SParseError { message, line: cur_pos(toks, p).0, column: cur_pos(toks, p).1, severity: Severity::Error }
}

pub open spec fn warning_at(toks: Seq<SPosToken>, p: int, message: Seq<char>) -> SParseError {
    SParseError { message, line: cur_pos(toks, p).0, column: cur_pos(toks, p).1, severity: Severity::Warning }
}

pub open spec fn located<T>(node: T, pos: (usize, usize)) -> Located<T> {
    Located { node, line: pos.0, column: pos.1 }
}

/// Skips the token after `p` when it is a comma.
pub open spec fn skip_comma(toks: Seq<SPosToken>, p: int) -> int {
    if cur(toks, p) == SToken::Comma {
        adv(toks, p)
    } else {
        p
    }
}

/// After an error: skips to the next newline, end or stop token, then past
/// newlines.
pub open spec fn recover(toks: Seq<SPosToken>, p: int, stops: Seq<SToken>) -> int
    decreases rem(toks, p),
{
    if !at_end(toks, p) && cur(toks, p) != SToken::Newline && !stops.contains(cur(toks, p)) {
        recover(toks, adv(toks, p), stops)
    } else {
        skip_nl(toks, p)
    }
}

/// Recovering after an error moves forward and stays within the tokens.
pub proof fn lemma_recover(toks: Seq<SPosToken>, p: int, stops: Seq<SToken>)
    ensures
        recover(toks, p, stops) >= p,
        0 <= p <= toks.len() ==> recover(toks, p, stops) <= toks.len(),
    decreases rem(toks, p),
{
    if !at_end(toks, p) && cur(toks, p) != SToken::Newline && !stops.contains(cur(toks, p)) {
        lemma_recover(toks, adv(toks, p), stops);
    } else {
        lemma_skip_nl(toks, p);
    }
}

// ---------------------------------------------------------------------
// Expressions. Binary operators bind in seven levels, loosest first:
// OR, AND, comparison (`==`, `!=`, `=`, `<`, `>`, `<=`, `>=`), `+ -`,
// `* /`, `%`, `^`; all of them group to the left. Below them come the
// prefix operators `-` and `NOT`, then primary expressions.

/// Termination ranks of the precedence levels: a level, then its operand
/// and tail, come before the next level.
pub open spec fn level_rank(level: nat) -> nat {
    if level <= 6 { (2 * (7 - level) + 1) as nat } else { 2 }
}

pub open spec fn operand_rank(level: nat) -> nat {
    if level <= 6 { (2 * (7 - level)) as nat } else { 2 }
}

/// The operator a token stands for at a precedence level.
pub open spec fn level_operator(level: nat, t: SToken) -> Option<Operator> {
    if level == 0 {
        if t == SToken::Or { Some(Operator::Or) } else { None }
    } else if level == 1 {
        if t == SToken::And { Some(Operator::And) } else { None }
    } else if level == 2 {
        match t {
            SToken::Eq => Some(Operator::Equal),
            SToken::NotEqual => Some(Operator::NotEqual),
            SToken::Assign => Some(Operator::Equal),
            SToken::LessThan => Some(Operator::LessThan),
            SToken::GreaterThan => Some(Operator::GreaterThan),
            SToken::LessEqual => Some(Operator::LessEqual),
            SToken::GreaterEqual => Some(Operator::GreaterEqual),
            _ => None,
        }
    } else if level == 3 {
        match t {
            SToken::Plus => Some(Operator::Add),
            SToken::Minus => Some(Operator::Subtract),
            _ => None,
        }
    } else if level == 4 {
        match t {
            SToken::Star => Some(Operator::Multiply),
            SToken::Slash => Some(Operator::Divide),
            _ => None,
        }
    } else if level == 5 {
        if t == SToken::Percent { Some(Operator::Modulo) } else { None }
    } else if level == 6 {
        if t == SToken::Caret { Some(Operator::Power) } else { None }
    } else {
        None
    }
}

/// A full expression.
pub open spec fn parse_expression(toks: Seq<SPosToken>, p: int) -> ExprResult
    decreases rem(toks, p), 16nat,
{
    parse_level(toks, p, 0)
}

/// An expression at a precedence level (0 to 6): operands of the next
/// level joined by this level's operators, grouped to the left; every
/// node takes the position where the level started.
pub open spec fn parse_level(toks: Seq<SPosToken>, p: int, level: nat) -> ExprResult
    decreases rem(toks, p), level_rank(level),
{
    if level > 6 {
        parse_unary(toks, p)
    } else {
        let (first, p1) = parse_operand(toks, p, level);
        match first {
            Err(e) => (Err(e), p1),
            Ok(left) => if fwd(toks, p, p1) {
                level_tail(toks, p1, level, left, cur_pos(toks, p))
            } else {
                (Ok(left), p1)
            },
        }
    }
}

/// The operand of a level: the next level, or a prefix expression below
/// the last one.
pub open spec fn parse_operand(toks: Seq<SPosToken>, p: int, level: nat) -> ExprResult
    decreases rem(toks, p), operand_rank(level),
{
    if level >= 6 {
        parse_unary(toks, p)
    } else {
        parse_level(toks, p, level + 1)
    }
}

/// The rest of a level after its first operand.
pub open spec fn level_tail(toks: Seq<SPosToken>, p: int, level: nat, left: Located<SExpr>, pos: (usize, usize)) -> ExprResult
    decreases rem(toks, p), operand_rank(level),
{
    match level_operator(level, cur(toks, p)) {
        Some(op) => {
            let (second, p2) = parse_operand(toks, adv(toks, p), level);
            match second {
                Err(e) => (Err(e), p2),
                Ok(right) => {
                    let node = located(SExpr::BinaryOp { left: Box::new(left), operator: op, right: Box::new(right) }, pos);
                    if fwd_strict(toks, p, p2) {
                        level_tail(toks, p2, level, node, pos)
                    } else {
                        (Ok(node), p2)
                    }
                },
            }
        },
        None => (Ok(left), p),
    }
}

/// `-` and `NOT` before a primary expression.
pub open spec fn parse_unary(toks: Seq<SPosToken>, p: int) -> ExprResult
    decreases rem(toks, p), 1nat,
{
    let pos = cur_pos(toks, p);
    if cur(toks, p) == SToken::Minus || cur(toks, p) == SToken::Not {
        let operator = if cur(toks, p) == SToken::Minus { UnaryOperator::Negate } else { UnaryOperator::Not };
        let (inner, p1) = parse_unary(toks, adv(toks, p));
        match inner {
            Err(e) => (Err(e), p1),
            Ok(x) => (Ok(located(SExpr::UnaryOp { operator, expr: Box::new(x) }, pos)), p1),
        }
    } else {
        parse_primary(toks, p)
    }
}

/// Expressions up to the closing token, optionally separated by commas.
pub open spec fn parse_list(toks: Seq<SPosToken>, p: int, close: SToken, acc: Seq<Located<SExpr>>) -> (Result<Seq<Located<SExpr>>, SParseError>, int)
    decreases rem(toks, p), 17nat,
{
    if cur(toks, p) == close {
        (Ok(acc), p)
    } else {
        let (item, p1) = parse_expression(toks, p);
        match item {
            Err(e) => (Err(e), p1),
            Ok(x) => {
                let p2 = skip_comma(toks, p1);
                if fwd_strict(toks, p, p2) {
                    parse_list(toks, p2, close, acc.push(x))
                } else {
                    (Ok(acc.push(x)), p2)
                }
            },
        }
    }
}

/// Literals, array literals, parenthesised expressions, names, array
/// accesses and calls.
pub open spec fn parse_primary(toks: Seq<SPosToken>, p: int) -> ExprResult
    decreases rem(toks, p), 0nat,
{
    let q = skip_nl(toks, p);
    let pos = cur_pos(toks, q);
    proof {
        lemma_skip_nl(toks, p);
    }
    match cur(toks, q) {
        SToken::Number(n) => (Ok(located(SExpr::Number(n), pos)), adv(toks, q)),
        SToken::StringLiteral(s) => (Ok(located(SExpr::String(s), pos)), adv(toks, q)),
        SToken::Boolean(b) => (Ok(located(SExpr::Boolean(b), pos)), adv(toks, q)),
        SToken::LeftBracket => {
            let (items, q1) = parse_list(toks, adv(toks, q), SToken::RightBracket, Seq::empty());
            match items {
                Err(e) => (Err(e), q1),
                Ok(xs) => (Ok(located(SExpr::ArrayLiteral(xs), pos)), adv(toks, q1)),
            }
        },
        SToken::LeftParen => {
            let (inner, q1) = parse_expression(toks, adv(toks, q));
            match inner {
                Err(e) => (Err(e), q1),
                Ok(x) => if cur(toks, q1) != SToken::RightParen {
                    (Err(error_at(toks, q1, "Expected )"@)), q1)
                } else {
                    (Ok(x), adv(toks, q1))
                },
            }
        },
        SToken::Identifier(name) => {
            let q1 = adv(toks, q);
            if cur(toks, q1) == SToken::LeftBracket {
                let (index, q2) = parse_expression(toks, adv(toks, q1));
                match index {
                    Err(e) => (Err(e), q2),
                    Ok(i) => if cur(toks, q2) != SToken::RightBracket {
                        (Err(error_at(toks, q2, "Expected ]"@)), q2)
                    } else {
                        (Ok(located(SExpr::ArrayAccess { name, index: Box::new(i) }, pos)), adv(toks, q2))
                    },
                }
            } else if cur(toks, q1) == SToken::LeftParen {
                let (args, q2) = parse_list(toks, adv(toks, q1), SToken::RightParen, Seq::empty());
                match args {
                    Err(e) => (Err(e), q2),
                    Ok(xs) => (Ok(located(SExpr::FunctionCall { name, arguments: xs }, pos)), adv(toks, q2)),
                }
            } else {
                (Ok(located(SExpr::Identifier(name), pos)), q1)
            }
        },
        t => (Err(error_at(toks, q, "Unexpected token: "@ + t.text())), q),
    }
}

// ---------------------------------------------------------------------
// Statements.

/// Statements until the end or a stop token; a statement that fails is
/// recorded as an error and skipped up to the next line.
pub open spec fn parse_block(toks: Seq<SPosToken>, p: int, errs: Seq<SParseError>, stops: Seq<SToken>) -> BlockResult
    decreases rem(toks, p), 23nat,
{
    let q = skip_nl(toks, p);
    proof {
        lemma_skip_nl(toks, p);
    }
    if at_end(toks, q) || stops.contains(cur(toks, q)) {
        (Seq::empty(), q, errs)
    } else {
        let (r, q1, e1) = parse_statement(toks, q, errs);
        let (first, e2, q2) = match r {
            Ok(s) => (seq![s], e1, q1),
            Err(e) => (Seq::empty(), e1.push(e), recover(toks, q1, stops)),
        };
        if fwd_strict(toks, p, q2) {
            let (rest, q3, e3) = parse_block(toks, q2, e2, stops);
            (first + rest, q3, e3)
        } else {
            (first, q2, e2)
        }
    }
}

/// An identifier followed by the given token.
pub open spec fn ident_then(toks: Seq<SPosToken>, p: int, t: SToken) -> bool {
    0 <= p && p + 1 < toks.len() && cur(toks, p) is Identifier && toks[p + 1].token == t
}

/// One statement, chosen by its first token.
pub open spec fn parse_statement(toks: Seq<SPosToken>, p: int, errs: Seq<SParseError>) -> StmtResult
    decreases rem(toks, p), 22nat,
{
    let q = skip_nl(toks, p);
    proof {
        lemma_skip_nl(toks, p);
    }
    let t = cur(toks, q);
    if at_end(toks, q) {
        (Err(error_at(toks, q, "Unexpected end of file"@)), q, errs)
    } else if t == SToken::Input {
        let (r, q1) = parse_input(toks, q);
        (r, q1, errs)
    } else if t == SToken::Output {
        let (r, q1) = parse_output(toks, q);
        (r, q1, errs)
    } else if t == SToken::If {
        parse_if(toks, q, errs)
    } else if t == SToken::For {
        parse_for(toks, q, errs)
    } else if t == SToken::While {
        parse_while(toks, q, errs)
    } else if t == SToken::Declare {
        let (r, q1) = parse_declare(toks, q);
        (r, q1, errs)
    } else if t == SToken::Function {
        parse_function(toks, q, errs)
    } else if t == SToken::Return {
        let (r, q1) = parse_return(toks, q);
        (r, q1, errs)
    } else if t == SToken::Const {
        let (r, q1) = parse_binding(toks, q, false);
        (r, q1, errs)
    } else if t == SToken::Static {
        let (r, q1) = parse_binding(toks, q, true);
        (r, q1, errs)
    } else if t == SToken::Pub {
        parse_public(toks, q, errs)
    } else if ident_then(toks, q, SToken::Assign) {
        let (r, q1) = parse_assign(toks, q);
        (r, q1, errs)
    } else if ident_then(toks, q, SToken::LeftBracket) {
        let (r, q1) = parse_array_assign(toks, q);
        (r, q1, errs)
    } else if ident_then(toks, q, SToken::LeftParen) {
        let (r, q1) = parse_expression_statement(toks, q);
        (r, q1, errs)
    } else {
        (Err(error_at(toks, q, "Unknown statement starting with: "@ + t.text())), adv(toks, q), errs)
    }
}

/// Identifiers up to the end of the line, optionally separated by commas.
pub open spec fn input_names(toks: Seq<SPosToken>, p: int, acc: Seq<Seq<char>>) -> (Result<Seq<Seq<char>>, SParseError>, int)
    decreases rem(toks, p),
{
    if !at_end(toks, p) && cur(toks, p) != SToken::Newline {
        match cur(toks, p) {
            SToken::Identifier(name) => input_names(toks, skip_comma(toks, adv(toks, p)), acc.push(name)),
            _ => (Err(error_at(toks, p, "Expected identifier after INPUT"@)), p),
        }
    } else {
        (Ok(acc), p)
    }
}

/// `INPUT a, b`.
pub open spec fn parse_input(toks: Seq<SPosToken>, p: int) -> ExprOrStmt {
    let pos = cur_pos(toks, p);
    let (r, q) = input_names(toks, skip_nl(toks, adv(toks, p)), Seq::empty());
    match r {
        Err(e) => (Err(e), q),
        Ok(vars) => (Ok(located(SStmt::Input { variables: vars }, pos)), skip_nl(toks, q)),
    }
}

/// A statement-level rule that collects no errors: the statement or the
/// error, and the position reached.
pub type ExprOrStmt = (Result<Located<SStmt>, SParseError>, int);

/// Output items up to the end of the line: string literals and
/// expressions, optionally separated by commas.
pub open spec fn output_items(toks: Seq<SPosToken>, p: int, acc: Seq<SOutput>) -> (Result<Seq<SOutput>, SParseError>, int)
    decreases rem(toks, p),
{
    if !at_end(toks, p) && cur(toks, p) != SToken::Newline {
        match cur(toks, p) {
            SToken::StringLiteral(s) => output_items(toks, skip_comma(toks, adv(toks, p)), acc.push(SOutput::StringLiteral(s))),
            _ => {
                let (item, p1) = parse_expression(toks, p);
                match item {
                    Err(e) => (Err(e), p1),
                    Ok(x) => {
                        let p2 = skip_comma(toks, p1);
                        if fwd_strict(toks, p, p2) {
                            output_items(toks, p2, acc.push(SOutput::Expression(x)))
                        } else {
                            (Ok(acc.push(SOutput::Expression(x))), p2)
                        }
                    },
                }
            },
        }
    } else {
        (Ok(acc), p)
    }
}

/// `OUTPUT "text", expression ...`.
pub open spec fn parse_output(toks: Seq<SPosToken>, p: int) -> ExprOrStmt
{
    let pos = cur_pos(toks, p);
    let q = skip_nl(toks, adv(toks, p));
    let (r, q1) = output_items(toks, q, Seq::empty());
    match r {
        Err(e) => (Err(e), q1),
        Ok(values) => (Ok(located(SStmt::Output { values }, pos)), skip_nl(toks, q1)),
    }
}

/// `name = expression`.
pub open spec fn parse_assign(toks: Seq<SPosToken>, p: int) -> ExprOrStmt
{
    let pos = cur_pos(toks, p);
    match cur(toks, p) {
        SToken::Identifier(name) => {
            let q = skip_nl(toks, adv(toks, p));
            if cur(toks, q) != SToken::Assign {
                (Err(error_at(toks, q, "Expected = for assignment"@)), q)
            } else {
                let q1 = skip_nl(toks, adv(toks, q));
                let (value, q2) = parse_expression(toks, q1);
                match value {
                    Err(e) => (Err(e), q2),
                    Ok(x) => (Ok(located(SStmt::Assign { variable: name, expression: x }, pos)), skip_nl(toks, q2)),
                }
            }
        },
        _ => (Err(error_at(toks, p, "Expected identifier"@)), p),
    }
}

/// `name[index] = value`.
pub open spec fn parse_array_assign(toks: Seq<SPosToken>, p: int) -> ExprOrStmt
{
    let pos = cur_pos(toks, p);
    match cur(toks, p) {
        SToken::Identifier(name) => {
            let q = adv(toks, p);
            if cur(toks, q) != SToken::LeftBracket {
                (Err(error_at(toks, q, "Expected [ for array access"@)), q)
            } else {
                let (index, q1) = parse_expression(toks, adv(toks, q));
                match index {
                    Err(e) => (Err(e), q1),
                    Ok(i) => if cur(toks, q1) != SToken::RightBracket {
                        (Err(error_at(toks, q1, "Expected ] for array access"@)), q1)
                    } else if cur(toks, adv(toks, q1)) != SToken::Assign {
                        (Err(error_at(toks, adv(toks, q1), "Expected = for array assignment"@)), adv(toks, q1))
                    } else {
                        let (value, q3) = parse_expression(toks, adv(toks, adv(toks, q1)));
                        match value {
                            Err(e) => (Err(e), q3),
                            Ok(v) => (Ok(located(SStmt::ArrayAssign { name, index: i, value: v }, pos)), skip_nl(toks, q3)),
                        }
                    },
                }
            }
        },
        _ => (Err(error_at(toks, p, "Expected array name"@)), p),
    }
}

/// `IF condition THEN ... ELSEIF condition THEN ... ELSE ... ENDIF`
/// (`THEN` may be left out).
pub open spec fn parse_if(toks: Seq<SPosToken>, p: int, errs: Seq<SParseError>) -> StmtResult
    decreases rem(toks, p), 20nat,
{
    let pos = cur_pos(toks, p);
    let (cond, q1) = parse_expression(toks, adv(toks, p));
    match cond {
        Err(e) => (Err(e), q1, errs),
        Ok(c) => {
            let q2 = skip_nl(toks, q1);
            let q3 = if cur(toks, q2) == SToken::Then { adv(toks, q2) } else { q2 };
            let q4 = skip_nl(toks, q3);
            if !fwd_strict(toks, p, q4) {
                (Err(error_at(toks, q4, "Expected ENDIF"@)), q4, errs)
            } else {
                let branch_stop = seq![SToken::Else, SToken::ElseIf, SToken::EndIf];
                let (then_branch, q5, e5) = parse_block(toks, q4, errs, branch_stop);
                if !fwd_strict(toks, p, q5) {
                    (Err(error_at(toks, q5, "Expected ENDIF"@)), q5, e5)
                } else {
                    let (eib, q6, e6) = else_if_branches(toks, q5, e5, Seq::empty());
                    match eib {
                        Err(e) => (Err(e), q6, e6),
                        Ok(branches) => {
                            let (else_branch, q7, e7) = if cur(toks, q6) == SToken::Else && fwd_strict(toks, p, q6) {
                                proof {
                                    lemma_skip_nl(toks, adv(toks, q6));
                                }
                                parse_block(toks, skip_nl(toks, adv(toks, q6)), e6, seq![SToken::EndIf])
                            } else {
                                (Seq::empty(), q6, e6)
                            };
                            if cur(toks, q7) != SToken::EndIf {
                                (Err(error_at(toks, q7, "Expected ENDIF"@)), q7, e7)
                            } else {
                                (Ok(located(SStmt::If { condition: c, then_branch, else_if_branches: branches, else_branch }, pos)),
                                    skip_nl(toks, adv(toks, q7)), e7)
                            }
                        },
                    }
                }
            }
        },
    }
}

/// The `ELSEIF` branches of an `IF`.
pub open spec fn else_if_branches(toks: Seq<SPosToken>, p: int, errs: Seq<SParseError>, acc: Seq<(Located<SExpr>, Seq<Located<SStmt>>)>) -> (Result<Seq<(Located<SExpr>, Seq<Located<SStmt>>)>, SParseError>, int, Seq<SParseError>)
    decreases rem(toks, p), 20nat,
{
    if cur(toks, p) == SToken::ElseIf {
        let (cond, q1) = parse_expression(toks, adv(toks, p));
        match cond {
            Err(e) => (Err(e), q1, errs),
            Ok(c) => {
                let q2 = skip_nl(toks, q1);
                let q3 = if cur(toks, q2) == SToken::Then { adv(toks, q2) } else { q2 };
                let q4 = skip_nl(toks, q3);
                if !fwd_strict(toks, p, q4) {
                    (Ok(acc), q4, errs)
                } else {
                    let (body, q5, e5) = parse_block(toks, q4, errs, seq![SToken::Else, SToken::ElseIf, SToken::EndIf]);
                    if fwd_strict(toks, p, q5) {
                        else_if_branches(toks, q5, e5, acc.push((c, body)))
                    } else {
                        (Ok(acc.push((c, body))), q5, e5)
                    }
                }
            },
        }
    } else {
        (Ok(acc), p, errs)
    }
}

/// `FOR variable = start TO end ... ENDFOR`.
pub open spec fn parse_for(toks: Seq<SPosToken>, p: int, errs: Seq<SParseError>) -> StmtResult
    decreases rem(toks, p), 20nat,
{
    let pos = cur_pos(toks, p);
    let q = skip_nl(toks, adv(toks, p));
    proof {
        lemma_skip_nl(toks, adv(toks, p));
    }
    match cur(toks, q) {
        SToken::Identifier(variable) => {
            let q1 = skip_nl(toks, adv(toks, q));
            proof {
                lemma_skip_nl(toks, adv(toks, q));
            }
            if cur(toks, q1) != SToken::Assign {
                (Err(error_at(toks, q1, "Expected = in FOR loop"@)), q1, errs)
            } else {
                let q2 = skip_nl(toks, adv(toks, q1));
                proof {
                    lemma_skip_nl(toks, adv(toks, q1));
                }
                let (start, q3) = parse_expression(toks, q2);
                match start {
                    Err(e) => (Err(e), q3, errs),
                    Ok(s) => {
                        let q4 = skip_nl(toks, q3);
                        if cur(toks, q4) != SToken::To {
                            (Err(error_at(toks, q4, "Expected TO in FOR loop"@)), q4, errs)
                        } else {
                            {
                                let (end, q6) = parse_expression(toks, skip_nl(toks, adv(toks, q4)));
                                match end {
                                    Err(e) => (Err(e), q6, errs),
                                    Ok(en) => {
                                        let q7 = skip_nl(toks, q6);
                                        if !fwd_strict(toks, p, q7) {
                                            (Err(error_at(toks, q7, "Expected ENDFOR"@)), q7, errs)
                                        } else {
                                            let (body, q8, e8) = parse_block(toks, q7, errs, seq![SToken::EndFor]);
                                            if cur(toks, q8) != SToken::EndFor {
                                                (Err(error_at(toks, q8, "Expected ENDFOR"@)), q8, e8)
                                            } else {
                                                (Ok(located(SStmt::ForLoop { variable, start: s, end: en, body }, pos)),
                                                    skip_nl(toks, adv(toks, q8)), e8)
                                            }
                                        }
                                    },
                                }
                            }
                        }
                    },
                }
            }
        },
        _ => (Err(error_at(toks, q, "Expected loop variable"@)), q, errs),
    }
}

/// `WHILE condition ... ENDWHILE`.
pub open spec fn parse_while(toks: Seq<SPosToken>, p: int, errs: Seq<SParseError>) -> StmtResult
    decreases rem(toks, p), 20nat,
{
    let pos = cur_pos(toks, p);
    let q = skip_nl(toks, adv(toks, p));
    proof {
        lemma_skip_nl(toks, adv(toks, p));
    }
    let (cond, q1) = parse_expression(toks, q);
    match cond {
        Err(e) => (Err(e), q1, errs),
        Ok(c) => {
            let q2 = skip_nl(toks, q1);
            if !fwd_strict(toks, p, q2) {
                (Err(error_at(toks, q2, "Expected ENDWHILE"@)), q2, errs)
            } else {
                let (body, q3, e3) = parse_block(toks, q2, errs, seq![SToken::EndWhile]);
                if cur(toks, q3) != SToken::EndWhile {
                    (Err(error_at(toks, q3, "Expected ENDWHILE"@)), q3, e3)
                } else {
                    (Ok(located(SStmt::WhileLoop { condition: c, body }, pos)), skip_nl(toks, adv(toks, q3)), e3)
                }
            }
        },
    }
}

/// `DECLARE name[size]`, with a number literal for the size.
pub open spec fn parse_declare(toks: Seq<SPosToken>, p: int) -> ExprOrStmt {
    let pos = cur_pos(toks, p);
    let q = skip_nl(toks, adv(toks, p));
    match cur(toks, q) {
        SToken::Identifier(name) => {
            let q1 = skip_nl(toks, adv(toks, q));
            if cur(toks, q1) != SToken::LeftBracket {
                (Err(error_at(toks, q1, "Expected [ for array size"@)), q1)
            } else {
                let q2 = adv(toks, q1);
                match cur(toks, q2) {
                    SToken::Number(n) => {
                        let q3 = adv(toks, q2);
                        if cur(toks, q3) != SToken::RightBracket {
                            (Err(error_at(toks, q3, "Expected ] for array size"@)), q3)
                        } else {
                            (Ok(located(SStmt::DeclareArray { name, size: literal_size(n) as usize }, pos)),
                                skip_nl(toks, adv(toks, q3)))
                        }
                    },
                    _ => (Err(error_at(toks, q2, "Expected number for array size"@)), q2),
                }
            }
        },
        _ => (Err(error_at(toks, q, "Expected array name after DECLARE"@)), q),
    }
}

/// Parameter names separated by commas.
pub open spec fn parameter_names(toks: Seq<SPosToken>, p: int, acc: Seq<Seq<char>>) -> (Result<Seq<Seq<char>>, SParseError>, int)
    decreases rem(toks, p),
{
    match cur(toks, p) {
        SToken::Identifier(name) => {
            let q = adv(toks, p);
            if cur(toks, q) == SToken::Comma {
                parameter_names(toks, adv(toks, q), acc.push(name))
            } else {
                (Ok(acc.push(name)), q)
            }
        },
        _ => (Err(error_at(toks, p, "Expected parameter name"@)), p),
    }
}

/// `FUNCTION name(parameters) ... ENDFUNCTION`.
pub open spec fn parse_function(toks: Seq<SPosToken>, p: int, errs: Seq<SParseError>) -> StmtResult
    decreases rem(toks, p), 20nat,
{
    let pos = cur_pos(toks, p);
    let q = adv(toks, p);
    match cur(toks, q) {
        SToken::Identifier(name) => {
            let q1 = adv(toks, q);
            if cur(toks, q1) != SToken::LeftParen {
                (Err(error_at(toks, q1, "Expected ( after function name"@)), q1, errs)
            } else {
                let q2 = adv(toks, q1);
                let (params, q3) = if cur(toks, q2) != SToken::RightParen {
                    parameter_names(toks, q2, Seq::empty())
                } else {
                    (Ok(Seq::empty()), q2)
                };
                match params {
                    Err(e) => (Err(e), q3, errs),
                    Ok(parameters) => if cur(toks, q3) != SToken::RightParen {
                        (Err(error_at(toks, q3, "Expected , or ) in parameter list"@)), q3, errs)
                    } else {
                        let q4 = skip_nl(toks, adv(toks, q3));
                        if !fwd_strict(toks, p, q4) {
                            (Err(error_at(toks, q4, "Expected ENDFUNCTION"@)), q4, errs)
                        } else {
                            let (body, q5, e5) = parse_block(toks, q4, errs, seq![SToken::EndFunction]);
                            if cur(toks, q5) != SToken::EndFunction {
                                (Err(error_at(toks, q5, "Expected ENDFUNCTION"@)), q5, e5)
                            } else {
                                (Ok(located(SStmt::FunctionDeclaration { name, parameters, body }, pos)),
                                    skip_nl(toks, adv(toks, q5)), e5)
                            }
                        }
                    },
                }
            }
        },
        _ => (Err(error_at(toks, q, "Expected function name after FUNCTION"@)), q, errs),
    }
}

/// `RETURN` with an optional value.
pub open spec fn parse_return(toks: Seq<SPosToken>, p: int) -> ExprOrStmt
{
    let pos = cur_pos(toks, p);
    let q = adv(toks, p);
    if at_end(toks, q) || cur(toks, q) == SToken::Newline {
        (Ok(located(SStmt::Return { value: None }, pos)), skip_nl(toks, q))
    } else {
        let (value, q1) = parse_expression(toks, q);
        match value {
            Err(e) => (Err(e), q1),
            Ok(x) => (Ok(located(SStmt::Return { value: Some(x) }, pos)), skip_nl(toks, q1)),
        }
    }
}

/// `CONST name = value`, or `STATIC name = value` when `is_static`.
pub open spec fn parse_binding(toks: Seq<SPosToken>, p: int, is_static: bool) -> ExprOrStmt
{
    let pos = cur_pos(toks, p);
    let q = adv(toks, p);
    match cur(toks, q) {
        SToken::Identifier(name) => {
            let q1 = adv(toks, q);
            if cur(toks, q1) != SToken::Assign {
                (Err(error_at(toks, q1, if is_static { "Expected = after STATIC name"@ } else { "Expected = after CONST name"@ })), q1)
            } else {
                let (value, q2) = parse_expression(toks, adv(toks, q1));
                match value {
                    Err(e) => (Err(e), q2),
                    Ok(x) => (Ok(located(
                        if is_static {
                            SStmt::StaticDeclaration { name, expression: x }
                        } else {
                            SStmt::ConstDeclaration { name, expression: x }
                        },
                        pos,
                    )), skip_nl(toks, q2)),
                }
            }
        },
        _ => (Err(error_at(toks, q, if is_static { "Expected identifier after STATIC"@ } else { "Expected identifier after CONST"@ })), q),
    }
}

/// `PUB` before a `FUNCTION`, `DECLARE` or `CONST`.
pub open spec fn parse_public(toks: Seq<SPosToken>, p: int, errs: Seq<SParseError>) -> StmtResult
    decreases rem(toks, p), 21nat,
{
    let pos = cur_pos(toks, p);
    let q = adv(toks, p);
    let (inner, q1, e1) = if cur(toks, q) == SToken::Function {
        parse_function(toks, q, errs)
    } else if cur(toks, q) == SToken::Declare {
        let (r, q1) = parse_declare(toks, q);
        (r, q1, errs)
    } else if cur(toks, q) == SToken::Const {
        let (r, q1) = parse_binding(toks, q, false);
        (r, q1, errs)
    } else {
        (Err(error_at(toks, q, "PUB can only be used with FUNCTION, DECLARE, or CONST"@)), q, errs)
    };
    match inner {
        Err(e) => (Err(e), q1, e1),
        Ok(s) => (Ok(located(SStmt::Public(Box::new(s)), pos)), q1, e1),
    }
}

/// An expression used as a statement (a call).
pub open spec fn parse_expression_statement(toks: Seq<SPosToken>, p: int) -> ExprOrStmt
{
    let pos = cur_pos(toks, p);
    let (value, q) = parse_expression(toks, p);
    match value {
        Err(e) => (Err(e), q),
        Ok(x) => (Ok(located(SStmt::ExpressionStatement(x), pos)), skip_nl(toks, q)),
    }
}

/// Function names in brackets after a module name, optionally separated
/// by commas, up to the closing bracket (left unread).
pub open spec fn import_names(toks: Seq<SPosToken>, p: int, acc: Seq<Seq<char>>) -> (Result<Seq<Seq<char>>, SParseError>, int)
    decreases rem(toks, p),
{
    if cur(toks, p) == SToken::RightBracket {
        (Ok(acc), p)
    } else {
        match cur(toks, p) {
            SToken::Identifier(name) => import_names(toks, skip_comma(toks, adv(toks, p)), acc.push(name)),
            _ => (Err(error_at(toks, p, "Expected function name in import list"@)), p),
        }
    }
}

/// A module name with an optional bracketed list of function names.
pub open spec fn parse_module_import(toks: Seq<SPosToken>, p: int) -> (Result<SModuleImport, SParseError>, int) {
    match cur(toks, p) {
        SToken::Identifier(name) => {
            let q = adv(toks, p);
            if cur(toks, q) == SToken::LeftBracket {
                let (r, q1) = import_names(toks, adv(toks, q), Seq::empty());
                match r {
                    Err(e) => (Err(e), q1),
                    Ok(names) => (Ok(SModuleImport { name, functions: Some(names) }), adv(toks, q1)),
                }
            } else {
                (Ok(SModuleImport { name, functions: None }), q)
            }
        },
        _ => (Err(error_at(toks, p, "Expected module name after IMPORT"@)), p),
    }
}

/// Further modules of an `IMPORT`, after commas.
pub open spec fn more_modules(toks: Seq<SPosToken>, p: int, acc: Seq<SModuleImport>) -> (Result<Seq<SModuleImport>, SParseError>, int)
    decreases rem(toks, p),
{
    if cur(toks, p) == SToken::Comma {
        let (m, q) = parse_module_import(toks, adv(toks, p));
        match m {
            Err(e) => (Err(e), q),
            Ok(mi) => if fwd_strict(toks, p, q) {
                more_modules(toks, q, acc.push(mi))
            } else {
                (Ok(acc.push(mi)), q)
            },
        }
    } else {
        (Ok(acc), p)
    }
}

/// `IMPORT module, module[f, g]`.
pub open spec fn parse_import(toks: Seq<SPosToken>, p: int) -> ExprOrStmt {
    let pos = cur_pos(toks, p);
    let (first, q) = parse_module_import(toks, adv(toks, p));
    match first {
        Err(e) => (Err(e), q),
        Ok(m) => {
            let (rest, q1) = more_modules(toks, q, seq![m]);
            match rest {
                Err(e) => (Err(e), q1),
                Ok(modules) => (Ok(located(SStmt::Import { modules }, pos)), skip_nl(toks, q1)),
            }
        },
    }
}

/// The `IMPORT` lines before the program; a failing one is recorded and
/// skipped up to the next line (or `START`).
pub open spec fn parse_imports(toks: Seq<SPosToken>, p: int, errs: Seq<SParseError>) -> BlockResult
    decreases rem(toks, p),
{
    if cur(toks, p) == SToken::Import {
        let (r, q) = parse_import(toks, p);
        let (first, e1, q1) = match r {
            Ok(s) => (seq![s], errs, q),
            Err(e) => (Seq::empty(), errs.push(e), recover(toks, q, seq![SToken::Start])),
        };
        let q2 = skip_nl(toks, q1);
        if fwd_strict(toks, p, q2) {
            let (rest, q3, e3) = parse_imports(toks, q2, e1);
            (first + rest, q3, e3)
        } else {
            (first, q2, e1)
        }
    } else {
        (Seq::empty(), p, errs)
    }
}

/// A whole program: imports, then `START`, statements and `END`. A missing
/// `START` or `END` is only a warning.
pub open spec fn parse_program(toks: Seq<SPosToken>, p: int, errs: Seq<SParseError>) -> BlockResult {
    let p0 = skip_nl(toks, p);
    let (imports, p1, e1) = parse_imports(toks, p0, errs);
    let (p2, e2) = if cur(toks, p1) == SToken::Start {
        (skip_nl(toks, adv(toks, p1)), e1)
    } else {
        (p1, e1.push(warning_at(toks, p1, "Program should start with START"@)))
    };
    let (body, p3, e3) = parse_block(toks, p2, e2, seq![SToken::End]);
    let (p4, e4) = if cur(toks, p3) == SToken::End {
        (adv(toks, p3), e3)
    } else {
        (p3, e3.push(warning_at(toks, p3, "Program should end with END"@)))
    };
    (imports + body, p4, e4)
}

/// Each operator token is parsed to the operator it spells: the operator is
/// written back as the token's own text, bare or between two spaces. So a
/// comparison keeps its sense (`!=` and `==` never give the same operator),
/// and the one token read otherwise is a single `=` inside an expression,
/// which compares for equality.
pub proof fn lemma_level_operator_spelling(level: nat, t: SToken, op: Operator)
    requires
        level_operator(level, t) == Some(op),
    ensures
        (t == SToken::Assign && op == Operator::Equal) || operator_text(op) == t.text()
            || operator_text(op) == seq![' '] + t.text() + seq![' '],
{
    reveal_strlit("==");
    reveal_strlit(" == ");
    reveal_strlit("!=");
    reveal_strlit(" != ");
    reveal_strlit("<");
    reveal_strlit(" < ");
    reveal_strlit(">");
    reveal_strlit(" > ");
    reveal_strlit("<=");
    reveal_strlit(" <= ");
    reveal_strlit(">=");
    reveal_strlit(" >= ");
    reveal_strlit("+");
    reveal_strlit(" + ");
    reveal_strlit("-");
    reveal_strlit(" - ");
    reveal_strlit("*");
    reveal_strlit("/");
    reveal_strlit("%");
    reveal_strlit(" % ");
    reveal_strlit("^");
    reveal_strlit("AND");
    reveal_strlit(" AND ");
    reveal_strlit("OR");
    reveal_strlit(" OR ");
    match t {
        SToken::Eq => {
            assert(operator_text(op) =~= seq![' '] + t.text() + seq![' ']);
        },
        SToken::NotEqual => {
            assert(operator_text(op) =~= seq![' '] + t.text() + seq![' ']);
        },
        SToken::LessThan => {
            assert(operator_text(op) =~= seq![' '] + t.text() + seq![' ']);
        },
        SToken::GreaterThan => {
            assert(operator_text(op) =~= seq![' '] + t.text() + seq![' ']);
        },
        SToken::LessEqual => {
            assert(operator_text(op) =~= seq![' '] + t.text() + seq![' ']);
        },
        SToken::GreaterEqual => {
            assert(operator_text(op) =~= seq![' '] + t.text() + seq![' ']);
        },
        SToken::Plus => {
            assert(operator_text(op) =~= seq![' '] + t.text() + seq![' ']);
        },
        SToken::Minus => {
            assert(operator_text(op) =~= seq![' '] + t.text() + seq![' ']);
        },
        SToken::Star => {
            assert(operator_text(op) =~= t.text());
        },
        SToken::Slash => {
            assert(operator_text(op) =~= t.text());
        },
        SToken::Percent => {
            assert(operator_text(op) =~= seq![' '] + t.text() + seq![' ']);
        },
        SToken::Caret => {
            assert(operator_text(op) =~= t.text());
        },
        SToken::And => {
            assert(operator_text(op) =~= seq![' '] + t.text() + seq![' ']);
        },
        SToken::Or => {
            assert(operator_text(op) =~= seq![' '] + t.text() + seq![' ']);
        },
        _ => {},
    }
}

/// Every binary operator is read from some token other than a lone `=`,
/// and the formatter writes the operator as that token's text, bare or
/// between two spaces: what is written of an operator reads back as the
/// same operator.
pub proof fn lemma_operator_read_back(op: Operator)
    ensures
        exists|level: nat, t: SToken| #[trigger] level_operator(level, t) == Some(op) && t != SToken::Assign
            && (operator_text(op) == t.text() || operator_text(op) == seq![' '] + t.text() + seq![' ']),
{
    match op {
        Operator::Add => {
            lemma_level_operator_spelling(3nat, SToken::Plus, op);
        },
        Operator::Subtract => {
            lemma_level_operator_spelling(3nat, SToken::Minus, op);
        },
        Operator::Multiply => {
            lemma_level_operator_spelling(4nat, SToken::Star, op);
        },
        Operator::Divide => {
            lemma_level_operator_spelling(4nat, SToken::Slash, op);
        },
        Operator::Modulo => {
            lemma_level_operator_spelling(5nat, SToken::Percent, op);
        },
        Operator::Power => {
            lemma_level_operator_spelling(6nat, SToken::Caret, op);
        },
        Operator::Equal => {
            lemma_level_operator_spelling(2nat, SToken::Eq, op);
        },
        Operator::NotEqual => {
            lemma_level_operator_spelling(2nat, SToken::NotEqual, op);
        },
        Operator::LessThan => {
            lemma_level_operator_spelling(2nat, SToken::LessThan, op);
        },
        Operator::GreaterThan => {
            lemma_level_operator_spelling(2nat, SToken::GreaterThan, op);
        },
        Operator::LessEqual => {
            lemma_level_operator_spelling(2nat, SToken::LessEqual, op);
        },
        Operator::GreaterEqual => {
            lemma_level_operator_spelling(2nat, SToken::GreaterEqual, op);
        },
        Operator::And => {
            lemma_level_operator_spelling(1nat, SToken::And, op);
        },
        Operator::Or => {
            lemma_level_operator_spelling(0nat, SToken::Or, op);
        },
    }
}

} // verus!
