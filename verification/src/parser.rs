//! The parser: builds the syntax tree from positioned tokens, following the
//! grammar in `grammar`.
use vstd::prelude::*;
use vstd::string::StringExecFns;
use crate::ast::{make_array_literal, make_call, make_for, make_function, make_if, make_while, branches_view, exprs_view, import_view, imports_view, output_view, outputs_view,
    stmts_view, strings_view, view_expr, view_stmt, Expression, Located, ModuleImport, Operator,
    OutputValue, SExpr, SStmt, Spanned, Statement, UnaryOperator};
use crate::grammar::{adv, at_end, cur, cur_pos, else_if_branches, error_at, ident_then,
    import_names, input_names, level_operator, level_rank, level_tail, more_modules, operand_rank,
    output_items, parameter_names, parse_array_assign, parse_assign, parse_binding, parse_block,
    parse_declare, parse_expression, parse_expression_statement, parse_for, parse_function,
    parse_if, parse_import, parse_imports, parse_input, parse_level, parse_list,
    parse_module_import, parse_operand, parse_output, parse_primary, parse_program, parse_public,
    parse_return, parse_statement, parse_unary, parse_while, recover, rem, skip_nl, warning_at};
use crate::number::number_size;
use crate::text::push_decimal;
use crate::token::{PositionedToken, SPosToken, SToken, Token, tokens_view};

verus! {

#[derive(Debug, Clone, Copy, PartialEq, Eq, Structural)]
pub enum Severity {
    Error,
    Warning,
}

/// A problem found while parsing, with the line and column of the token
/// where it was found.
#[derive(Debug, Clone)]
pub struct ParseError {
    pub message: String,
    pub line: usize,
    pub column: usize,
    pub severity: Severity,
}

/// The mathematical value of a parse error.
pub struct SParseError {
    pub message: Seq<char>,
    pub line: usize,
    pub column: usize,
    pub severity: Severity,
}

impl View for ParseError {
    type V = SParseError;

    open spec fn view(&self) -> SParseError {
        SParseError { message: self.message@, line: self.line, column: self.column, severity: self.severity }
    }
}

pub open spec fn errors_view(v: Seq<ParseError>) -> Seq<SParseError> {
    v.map_values(|e: ParseError| e@)
}

/// `message (line L, column C)`.
pub open spec fn error_text(e: SParseError) -> Seq<char> {
    e.message + " (line "@ + crate::text::decimal(e.line as nat) + ", column "@ + crate::text::decimal(e.column as nat) + ")"@
}

impl ParseError {
    /// The printed form of the error (its `Display` form).
    pub fn to_text(&self) -> (r: String)
        ensures
            r@ == error_text(self@),
    {
        let mut r = self.message.clone();
        r.append(" (line ");
        push_decimal(&mut r, self.line);
        r.append(", column ");
        push_decimal(&mut r, self.column);
        r.append(")");
        r
    }
}

pub open spec fn expr_result(r: Result<Spanned<Expression>, ParseError>) -> Result<Located<SExpr>, SParseError> {
    match r {
        Ok(e) => Ok(view_expr(e)),
        Err(e) => Err(e@),
    }
}

pub open spec fn stmt_result(r: Result<Spanned<Statement>, ParseError>) -> Result<Located<SStmt>, SParseError> {
    match r {
        Ok(s) => Ok(view_stmt(s)),
        Err(e) => Err(e@),
    }
}

pub open spec fn plain_tokens(v: Seq<Token>) -> bool {
    forall|i: int| 0 <= i < v.len() ==> (#[trigger] v[i])@.is_plain()
}

pub open spec fn token_values(v: Seq<Token>) -> Seq<SToken> {
    v.map_values(|t: Token| t@)
}

/// Reads a program from its tokens.
pub struct Parser {
    tokens: Vec<PositionedToken>,
    position: usize,
    errors: Vec<ParseError>,
}

impl Parser {
    /// The tokens being read.
    pub closed spec fn toks(&self) -> Seq<SPosToken> {
        tokens_view(self.tokens@)
    }

    /// The index of the next token.
    pub closed spec fn pos(&self) -> int {
        self.position as int
    }

    /// The problems recorded so far.
    pub closed spec fn errs(&self) -> Seq<SParseError> {
        errors_view(self.errors@)
    }

    pub closed spec fn wf(&self) -> bool {
        self.position <= self.tokens.len()
    }

    /// The parser has moved forward from `old`, over the same tokens.
    closed spec fn moved_from(&self, old: &Parser) -> bool {
        &&& self.tokens == old.tokens
        &&& self.wf()
        &&& old.position <= self.position
    }

    /// A parser at the first token, with no problems recorded.
    pub fn new(tokens: Vec<PositionedToken>) -> (r: Self)
        ensures
            r.wf(),
            r.toks() == tokens_view(tokens@),
            r.pos() == 0,
            r.errs() == Seq::<SParseError>::empty(),
    {
        let r = Parser { tokens, position: 0, errors: Vec::new() };
        assert(r.errs() =~= Seq::<SParseError>::empty());
        r
    }

    /// Reads the whole program; gives the statements (imports first) and
    /// every problem found, and leaves no problems recorded.
    pub fn parse(&mut self) -> (r: (Vec<Spanned<Statement>>, Vec<ParseError>))
        requires
            old(self).wf(),
        ensures
            final(self).wf(),
            final(self).toks() == old(self).toks(),
            final(self).errs() == Seq::<SParseError>::empty(),
            (stmts_view(r.0@), final(self).pos(), errors_view(r.1@))
                == parse_program(old(self).toks(), old(self).pos(), old(self).errs()),
    {
        let ghost toks = self.toks();
        self.skip_newlines();
        let mut statements = self.parse_imports();
        let ghost after_imports = self.pos();
        if self.check(&Token::Start) {
            self.advance();
            self.skip_newlines();
        } else {
            self.push_warning_at_current("Program should start with START");
        }
        let stops = vec![Token::End];
        assert(token_values(stops@) =~= seq![SToken::End]);
        let mut body = self.parse_block_statements(stops.as_slice());
        let ghost imports_view = stmts_view(statements@);
        let ghost body_view = stmts_view(body@);
        statements.append(&mut body);
        assert(stmts_view(statements@) =~= imports_view + body_view);
        if self.check(&Token::End) {
            self.advance();
        } else {
            self.push_warning_at_current("Program should end with END");
        }
        let mut errors: Vec<ParseError> = Vec::new();
        std::mem::swap(&mut errors, &mut self.errors);
        assert(self.errs() =~= Seq::<SParseError>::empty());
        (statements, errors)
    }

    fn parse_imports(&mut self) -> (r: Vec<Spanned<Statement>>)
        requires
            old(self).wf(),
        ensures
            final(self).moved_from(old(self)),
            (stmts_view(r@), final(self).pos(), final(self).errs())
                == parse_imports(old(self).toks(), old(self).pos(), old(self).errs()),
    {
        let ghost toks = self.toks();
        let ghost start = parse_imports(toks, self.pos(), self.errs());
        let mut imports: Vec<Spanned<Statement>> = Vec::new();
        let stops = vec![Token::Start];
        assert(token_values(stops@) =~= seq![SToken::Start]);
        while self.check(&Token::Import)
            invariant
                self.moved_from(old(self)),
                toks == self.toks(),
                token_values(stops@) == seq![SToken::Start],
                plain_tokens(stops@),
                stmts_view(imports@) + parse_imports(toks, self.pos(), self.errs()).0 == start.0,
                parse_imports(toks, self.pos(), self.errs()).1 == start.1,
                parse_imports(toks, self.pos(), self.errs()).2 == start.2,
            decreases self.tokens.len() - self.position,
        {
            let ghost p = self.pos();
            let ghost e = self.errs();
            let ghost acc = stmts_view(imports@);
            match self.parse_import() {
                Ok(stmt) => {
                    imports.push(stmt);
                    assert(stmts_view(imports@) =~= acc + seq![view_stmt(stmt)]);
                },
                Err(err) => {
                    self.errors.push(err);
                    assert(self.errs() =~= e.push(err@));
                    self.recover_to_boundary(stops.as_slice());
                    assert(stmts_view(imports@) =~= acc + Seq::empty());
                },
            }
            self.skip_newlines();
            assert(stmts_view(imports@) + parse_imports(toks, self.pos(), self.errs()).0 =~= start.0);
        }
        assert(stmts_view(imports@) + Seq::empty() =~= stmts_view(imports@));
        imports
    }

    #[verifier::loop_isolation(false)]
    fn parse_import(&mut self) -> (r: Result<Spanned<Statement>, ParseError>)
        requires
            old(self).wf(),
            cur(old(self).toks(), old(self).pos()) == SToken::Import,
        ensures
            final(self).moved_from(old(self)),
            final(self).errors == old(self).errors,
            final(self).pos() > old(self).pos(),
            (stmt_result(r), final(self).pos()) == parse_import(old(self).toks(), old(self).pos()),
    {
        let ghost toks = self.toks();
        let (line, column) = self.current_pos();
        self.advance();
        let first = self.parse_module_import();
        let mut modules: Vec<ModuleImport> = Vec::new();
        match first {
            Err(e) => return Err(e),
            Ok(m) => {
                let ghost mv = import_view(m);
                modules.push(m);
                assert(imports_view(modules@) =~= seq![mv]);
            },
        }
        let ghost q = self.pos();
        let ghost start = more_modules(toks, q, imports_view(modules@));
        while self.check(&Token::Comma)
            invariant
                self.moved_from(old(self)),
                self.errors == old(self).errors,
                toks == self.toks(),
                self.pos() >= q,
                q > old(self).pos(),
                more_modules(toks, self.pos(), imports_view(modules@)) == start,
            decreases self.tokens.len() - self.position,
        {
            let ghost acc = imports_view(modules@);
            self.advance();
            match self.parse_module_import() {
                Err(e) => return Err(e),
                Ok(m) => {
                    modules.push(m);
                    assert(imports_view(modules@) =~= acc.push(import_view(m)));
                },
            }
        }
        self.skip_newlines();
        let r = Spanned { node: Statement::Import { modules }, line, column };
        Ok(r)
    }

    #[verifier::loop_isolation(false)]
    fn parse_module_import(&mut self) -> (r: Result<ModuleImport, ParseError>)
        requires
            old(self).wf(),
        ensures
            final(self).moved_from(old(self)),
            final(self).errors == old(self).errors,
            r is Ok ==> final(self).pos() > old(self).pos(),
            (match r { Ok(m) => Ok(import_view(m)), Err(e) => Err(e@) }, final(self).pos())
                == parse_module_import(old(self).toks(), old(self).pos()),
    {
        let ghost toks = self.toks();
        let name = match self.current_identifier() {
            Some(n) => n,
            None => return Err(self.error_at_current("Expected module name after IMPORT")),
        };
        self.advance();
        let functions = if self.check(&Token::LeftBracket) {
            self.advance();
            let mut names: Vec<String> = Vec::new();
            assert(strings_view(names@) =~= Seq::empty());
            let ghost q = self.pos();
            while !self.check(&Token::RightBracket)
                invariant
                    self.moved_from(old(self)),
                    self.errors == old(self).errors,
                    toks == self.toks(),
                    self.pos() >= q,
                    import_names(toks, self.pos(), strings_view(names@)) == import_names(toks, q, Seq::empty()),
                decreases self.tokens.len() - self.position,
            {
                match self.current_identifier() {
                    Some(func_name) => {
                        let ghost acc = strings_view(names@);
                        names.push(func_name);
                        assert(strings_view(names@) =~= acc.push(func_name@));
                        self.advance();
                        if self.check(&Token::Comma) {
                            self.advance();
                        }
                    },
                    None => return Err(self.error_at_current("Expected function name in import list")),
                }
            }
            assert(strings_view(Seq::<String>::empty()) =~= Seq::empty());
            self.advance();
            Some(names)
        } else {
            None
        };
        Ok(ModuleImport { name, functions })
    }

    fn parse_block_statements(&mut self, stops: &[Token]) -> (r: Vec<Spanned<Statement>>)
        requires
            old(self).wf(),
            plain_tokens(stops@),
        ensures
            final(self).moved_from(old(self)),
            (stmts_view(r@), final(self).pos(), final(self).errs())
                == parse_block(old(self).toks(), old(self).pos(), old(self).errs(), token_values(stops@)),
        decreases rem(old(self).toks(), old(self).pos()), 23nat,
    {
        let ghost toks = self.toks();
        let ghost sv = token_values(stops@);
        let ghost start = parse_block(toks, self.pos(), self.errs(), sv);
        let mut statements: Vec<Spanned<Statement>> = Vec::new();
        loop
            invariant_except_break
                self.moved_from(old(self)),
                toks == self.toks(),
                plain_tokens(stops@),
                sv == token_values(stops@),
                stmts_view(statements@) + parse_block(toks, self.pos(), self.errs(), sv).0 == start.0,
                parse_block(toks, self.pos(), self.errs(), sv).1 == start.1,
                parse_block(toks, self.pos(), self.errs(), sv).2 == start.2,
            ensures
                self.moved_from(old(self)),
                (stmts_view(statements@), self.pos(), self.errs()) == start,
            decreases self.tokens.len() - self.position,
        {
            let ghost p = self.pos();
            let ghost e = self.errs();
            let ghost acc = stmts_view(statements@);
            self.skip_newlines();
            if self.is_at_end() || self.at_any(stops) {
                assert(acc + Seq::empty() =~= acc);
                break;
            }
            match self.parse_statement() {
                Ok(stmt) => {
                    statements.push(stmt);
                    assert(stmts_view(statements@) =~= acc + seq![view_stmt(stmt)]);
                },
                Err(err) => {
                    let ghost e1 = self.errs();
                    self.errors.push(err);
                    assert(self.errs() =~= e1.push(err@));
                    self.recover_to_boundary(stops);
                    assert(stmts_view(statements@) =~= acc + Seq::empty());
                },
            }
            assert(stmts_view(statements@) + parse_block(toks, self.pos(), self.errs(), sv).0 =~= start.0);
        }
        statements
    }

    fn parse_statement(&mut self) -> (r: Result<Spanned<Statement>, ParseError>)
        requires
            old(self).wf(),
        ensures
            final(self).moved_from(old(self)),
            !at_end(old(self).toks(), skip_nl(old(self).toks(), old(self).pos())) ==> final(self).pos() > old(self).pos(),
            (stmt_result(r), final(self).pos(), final(self).errs())
                == parse_statement(old(self).toks(), old(self).pos(), old(self).errs()),
        decreases rem(old(self).toks(), old(self).pos()), 22nat,
    {
        self.skip_newlines();
        if self.is_at_end() {
            return Err(self.error_at_current("Unexpected end of file"));
        }
        if self.check(&Token::Input) {
            self.parse_input()
        } else if self.check(&Token::Output) {
            self.parse_output()
        } else if self.check(&Token::If) {
            self.parse_if()
        } else if self.check(&Token::For) {
            self.parse_for()
        } else if self.check(&Token::While) {
            self.parse_while()
        } else if self.check(&Token::Declare) {
            self.parse_declare()
        } else if self.check(&Token::Function) {
            self.parse_function_declaration()
        } else if self.check(&Token::Return) {
            self.parse_return()
        } else if self.check(&Token::Const) {
            self.parse_binding(false)
        } else if self.check(&Token::Static) {
            self.parse_binding(true)
        } else if self.check(&Token::Pub) {
            self.parse_public_declaration()
        } else if self.ident_then(&Token::Assign) {
            self.parse_assign()
        } else if self.ident_then(&Token::LeftBracket) {
            self.parse_array_assign()
        } else if self.ident_then(&Token::LeftParen) {
            self.parse_expression_statement()
        } else {
            let (line, column) = self.current_pos();
            let token = self.current();
            self.advance();
            let mut message = String::from_str("Unknown statement starting with: ");
            message.append(token.to_text().as_str());
            Err(ParseError { message, line, column, severity: Severity::Error })
        }
    }

    #[verifier::loop_isolation(false)]
    fn parse_input(&mut self) -> (r: Result<Spanned<Statement>, ParseError>)
        requires
            old(self).wf(),
        ensures
            final(self).moved_from(old(self)),
            final(self).errors == old(self).errors,
            cur(old(self).toks(), old(self).pos()) != SToken::EOF ==> final(self).pos() > old(self).pos(),
            (stmt_result(r), final(self).pos()) == parse_input(old(self).toks(), old(self).pos()),
    {
        let ghost toks = self.toks();
        let (line, column) = self.current_pos();
        self.advance();
        self.skip_newlines();
        let ghost q = self.pos();
        let mut variables: Vec<String> = Vec::new();
        assert(strings_view(variables@) =~= Seq::empty());
        while !self.is_at_end() && !self.check(&Token::Newline)
            invariant
                self.moved_from(old(self)),
                self.errors == old(self).errors,
                toks == self.toks(),
                self.pos() >= q,
                input_names(toks, self.pos(), strings_view(variables@)) == input_names(toks, q, Seq::empty()),
            decreases self.tokens.len() - self.position,
        {
            match self.current_identifier() {
                Some(name) => {
                    let ghost acc = strings_view(variables@);
                    variables.push(name);
                    assert(strings_view(variables@) =~= acc.push(name@));
                    self.advance();
                    if self.check(&Token::Comma) {
                        self.advance();
                    }
                },
                None => return Err(self.error_at_current("Expected identifier after INPUT")),
            }
        }
        assert(strings_view(Seq::<String>::empty()) =~= Seq::empty());
        self.skip_newlines();
        Ok(Spanned { node: Statement::Input { variables }, line, column })
    }

    #[verifier::loop_isolation(false)]
    fn parse_output(&mut self) -> (r: Result<Spanned<Statement>, ParseError>)
        requires
            old(self).wf(),
        ensures
            final(self).moved_from(old(self)),
            final(self).errors == old(self).errors,
            cur(old(self).toks(), old(self).pos()) != SToken::EOF ==> final(self).pos() > old(self).pos(),
            (stmt_result(r), final(self).pos()) == parse_output(old(self).toks(), old(self).pos()),
    {
        let ghost toks = self.toks();
        let (line, column) = self.current_pos();
        self.advance();
        self.skip_newlines();
        let ghost q = self.pos();
        let mut values: Vec<OutputValue> = Vec::new();
        assert(outputs_view(values@) =~= Seq::empty());
        while !self.is_at_end() && !self.check(&Token::Newline)
            invariant
                self.moved_from(old(self)),
                self.errors == old(self).errors,
                toks == self.toks(),
                self.pos() >= q,
                output_items(toks, self.pos(), outputs_view(values@)) == output_items(toks, q, Seq::empty()),
            decreases self.tokens.len() - self.position,
        {
            let ghost acc = outputs_view(values@);
            let value = match self.current_string_literal() {
                Some(s) => {
                    self.advance();
                    OutputValue::StringLiteral(s)
                },
                None => {
                    let expr = self.parse_expression();
                    match expr {
                        Err(e) => return Err(e),
                        Ok(x) => OutputValue::Expression(x),
                    }
                },
            };
            values.push(value);
            assert(outputs_view(values@) =~= acc.push(output_view(value)));
            if self.check(&Token::Comma) {
                self.advance();
            }
        }
        assert(outputs_view(Seq::<OutputValue>::empty()) =~= Seq::empty());
        self.skip_newlines();
        Ok(Spanned { node: Statement::Output { values }, line, column })
    }

    fn parse_assign(&mut self) -> (r: Result<Spanned<Statement>, ParseError>)
        requires
            old(self).wf(),
        ensures
            final(self).moved_from(old(self)),
            final(self).errors == old(self).errors,
            cur(old(self).toks(), old(self).pos()) is Identifier ==> final(self).pos() > old(self).pos(),
            (stmt_result(r), final(self).pos()) == parse_assign(old(self).toks(), old(self).pos()),
    {
        let (line, column) = self.current_pos();
        let variable = match self.current_identifier() {
            Some(n) => n,
            None => return Err(self.error_at_current("Expected identifier")),
        };
        self.advance();
        self.skip_newlines();
        if !self.check(&Token::Assign) {
            return Err(self.error_at_current("Expected = for assignment"));
        }
        self.advance();
        self.skip_newlines();
        let expression = match self.parse_expression() {
            Err(e) => return Err(e),
            Ok(x) => x,
        };
        self.skip_newlines();
        Ok(Spanned { node: Statement::Assign { variable, expression }, line, column })
    }

    fn parse_array_assign(&mut self) -> (r: Result<Spanned<Statement>, ParseError>)
        requires
            old(self).wf(),
        ensures
            final(self).moved_from(old(self)),
            final(self).errors == old(self).errors,
            cur(old(self).toks(), old(self).pos()) is Identifier ==> final(self).pos() > old(self).pos(),
            (stmt_result(r), final(self).pos()) == parse_array_assign(old(self).toks(), old(self).pos()),
    {
        let (line, column) = self.current_pos();
        let name = match self.current_identifier() {
            Some(n) => n,
            None => return Err(self.error_at_current("Expected array name")),
        };
        self.advance();
        if !self.check(&Token::LeftBracket) {
            return Err(self.error_at_current("Expected [ for array access"));
        }
        self.advance();
        let index = match self.parse_expression() {
            Err(e) => return Err(e),
            Ok(x) => x,
        };
        if !self.check(&Token::RightBracket) {
            return Err(self.error_at_current("Expected ] for array access"));
        }
        self.advance();
        if !self.check(&Token::Assign) {
            return Err(self.error_at_current("Expected = for array assignment"));
        }
        self.advance();
        let value = match self.parse_expression() {
            Err(e) => return Err(e),
            Ok(x) => x,
        };
        self.skip_newlines();
        Ok(Spanned {
            node: Statement::ArrayAssign { name, index: Box::new(index), value: Box::new(value) },
            line,
            column,
        })
    }

    #[verifier::loop_isolation(false)]
    #[verifier::spinoff_prover]
    #[verifier::rlimit(50)]
    fn parse_if(&mut self) -> (r: Result<Spanned<Statement>, ParseError>)
        requires
            old(self).wf(),
        ensures
            final(self).moved_from(old(self)),
            cur(old(self).toks(), old(self).pos()) != SToken::EOF ==> final(self).pos() > old(self).pos(),
            (stmt_result(r), final(self).pos(), final(self).errs())
                == parse_if(old(self).toks(), old(self).pos(), old(self).errs()),
        decreases rem(old(self).toks(), old(self).pos()), 20nat,
    {
        let entry: usize = self.position;
        let ghost toks = self.toks();
        let ghost p = self.pos();
        let (line, column) = self.current_pos();
        self.advance();
        let condition = match self.parse_expression() {
            Err(e) => return Err(e),
            Ok(x) => x,
        };
        self.skip_newlines();
        if self.check(&Token::Then) {
            self.advance();
        }
        self.skip_newlines();
        if self.position <= entry {
            return Err(self.error_at_current("Expected ENDIF"));
        }
        let branch_stop = vec![Token::Else, Token::ElseIf, Token::EndIf];
        assert(token_values(branch_stop@) =~= seq![SToken::Else, SToken::ElseIf, SToken::EndIf]);
        let then_branch = self.parse_block_statements(branch_stop.as_slice());
        if self.position <= entry {
            return Err(self.error_at_current("Expected ENDIF"));
        }
        let ghost q5 = self.pos();
        let ghost e5 = self.errs();
        let ghost eib = else_if_branches(toks, q5, e5, Seq::empty());
        let mut elifs: Vec<(Spanned<Expression>, Vec<Spanned<Statement>>)> = Vec::new();
        assert(branches_view(elifs@) =~= Seq::empty());
        while self.check(&Token::ElseIf)
            invariant
                self.moved_from(old(self)),
                toks == self.toks(),
                self.pos() >= q5,
                q5 > p,
                p == old(self).pos(),
                token_values(branch_stop@) == seq![SToken::Else, SToken::ElseIf, SToken::EndIf],
                plain_tokens(branch_stop@),
                else_if_branches(toks, self.pos(), self.errs(), branches_view(elifs@)) == eib,
            decreases self.tokens.len() - self.position,
        {
            let ghost acc = branches_view(elifs@);
            let ghost pe = self.pos();
            self.advance();
            let elseif_condition = match self.parse_expression() {
                Err(e) => return Err(e),
                Ok(x) => x,
            };
            self.skip_newlines();
            if self.check(&Token::Then) {
                self.advance();
            }
            self.skip_newlines();
            let elseif_body = self.parse_block_statements(branch_stop.as_slice());
            elifs.push((elseif_condition, elseif_body));
            assert(branches_view(elifs@) =~= acc.push((view_expr(elseif_condition), stmts_view(elseif_body@))));
        }
        let mut else_branch: Vec<Spanned<Statement>> = Vec::new();
        if self.check(&Token::Else) {
            self.advance();
            self.skip_newlines();
            let stops = vec![Token::EndIf];
            assert(token_values(stops@) =~= seq![SToken::EndIf]);
            else_branch = self.parse_block_statements(stops.as_slice());
        } else {
            assert(stmts_view(else_branch@) =~= Seq::empty());
        }
        if !self.check(&Token::EndIf) {
            return Err(self.error_at_current("Expected ENDIF"));
        }
        self.advance();
        self.skip_newlines();
        Ok(make_if(condition, then_branch, elifs, else_branch, line, column))
    }

    fn parse_for(&mut self) -> (r: Result<Spanned<Statement>, ParseError>)
        requires
            old(self).wf(),
        ensures
            final(self).moved_from(old(self)),
            cur(old(self).toks(), old(self).pos()) != SToken::EOF ==> final(self).pos() > old(self).pos(),
            (stmt_result(r), final(self).pos(), final(self).errs())
                == parse_for(old(self).toks(), old(self).pos(), old(self).errs()),
        decreases rem(old(self).toks(), old(self).pos()), 20nat,
    {
        let entry: usize = self.position;
        let (line, column) = self.current_pos();
        self.advance();
        self.skip_newlines();
        let variable = match self.current_identifier() {
            Some(n) => n,
            None => return Err(self.error_at_current("Expected loop variable")),
        };
        self.advance();
        self.skip_newlines();
        if !self.check(&Token::Assign) {
            return Err(self.error_at_current("Expected = in FOR loop"));
        }
        self.advance();
        self.skip_newlines();
        let start = match self.parse_expression() {
            Err(e) => return Err(e),
            Ok(x) => x,
        };
        self.skip_newlines();
        if !self.check(&Token::To) {
            return Err(self.error_at_current("Expected TO in FOR loop"));
        }
        self.advance();
        self.skip_newlines();
        let end = match self.parse_expression() {
            Err(e) => return Err(e),
            Ok(x) => x,
        };
        self.skip_newlines();
        if self.position <= entry {
            return Err(self.error_at_current("Expected ENDFOR"));
        }
        let stops = vec![Token::EndFor];
        assert(token_values(stops@) =~= seq![SToken::EndFor]);
        let body = self.parse_block_statements(stops.as_slice());
        if !self.check(&Token::EndFor) {
            return Err(self.error_at_current("Expected ENDFOR"));
        }
        self.advance();
        self.skip_newlines();
        Ok(make_for(variable, start, end, body, line, column))
    }

    fn parse_while(&mut self) -> (r: Result<Spanned<Statement>, ParseError>)
        requires
            old(self).wf(),
        ensures
            final(self).moved_from(old(self)),
            cur(old(self).toks(), old(self).pos()) != SToken::EOF ==> final(self).pos() > old(self).pos(),
            (stmt_result(r), final(self).pos(), final(self).errs())
                == parse_while(old(self).toks(), old(self).pos(), old(self).errs()),
        decreases rem(old(self).toks(), old(self).pos()), 20nat,
    {
        let entry: usize = self.position;
        let (line, column) = self.current_pos();
        self.advance();
        self.skip_newlines();
        let condition = match self.parse_expression() {
            Err(e) => return Err(e),
            Ok(x) => x,
        };
        self.skip_newlines();
        if self.position <= entry {
            return Err(self.error_at_current("Expected ENDWHILE"));
        }
        let stops = vec![Token::EndWhile];
        assert(token_values(stops@) =~= seq![SToken::EndWhile]);
        let body = self.parse_block_statements(stops.as_slice());
        if !self.check(&Token::EndWhile) {
            return Err(self.error_at_current("Expected ENDWHILE"));
        }
        self.advance();
        self.skip_newlines();
        Ok(make_while(condition, body, line, column))
    }

    fn parse_declare(&mut self) -> (r: Result<Spanned<Statement>, ParseError>)
        requires
            old(self).wf(),
        ensures
            final(self).moved_from(old(self)),
            final(self).errors == old(self).errors,
            cur(old(self).toks(), old(self).pos()) != SToken::EOF ==> final(self).pos() > old(self).pos(),
            (stmt_result(r), final(self).pos()) == parse_declare(old(self).toks(), old(self).pos()),
    {
        let (line, column) = self.current_pos();
        self.advance();
        self.skip_newlines();
        let name = match self.current_identifier() {
            Some(n) => n,
            None => return Err(self.error_at_current("Expected array name after DECLARE")),
        };
        self.advance();
        self.skip_newlines();
        if !self.check(&Token::LeftBracket) {
            return Err(self.error_at_current("Expected [ for array size"));
        }
        self.advance();
        let size = match self.current() {
            Token::Number(n) => number_size(n.as_str()),
            _ => return Err(self.error_at_current("Expected number for array size")),
        };
        self.advance();
        if !self.check(&Token::RightBracket) {
            return Err(self.error_at_current("Expected ] for array size"));
        }
        self.advance();
        self.skip_newlines();
        Ok(Spanned { node: Statement::DeclareArray { name, size }, line, column })
    }

    fn parse_function_declaration(&mut self) -> (r: Result<Spanned<Statement>, ParseError>)
        requires
            old(self).wf(),
        ensures
            final(self).moved_from(old(self)),
            cur(old(self).toks(), old(self).pos()) != SToken::EOF ==> final(self).pos() > old(self).pos(),
            (stmt_result(r), final(self).pos(), final(self).errs())
                == parse_function(old(self).toks(), old(self).pos(), old(self).errs()),
        decreases rem(old(self).toks(), old(self).pos()), 20nat,
    {
        let entry: usize = self.position;
        let ghost toks = self.toks();
        let (line, column) = self.current_pos();
        self.advance();
        let name = match self.current_identifier() {
            Some(n) => n,
            None => return Err(self.error_at_current("Expected function name after FUNCTION")),
        };
        self.advance();
        if !self.check(&Token::LeftParen) {
            return Err(self.error_at_current("Expected ( after function name"));
        }
        self.advance();
        let parameters: Vec<String> = if !self.check(&Token::RightParen) {
            match self.parse_parameter_names() {
                Err(e) => return Err(e),
                Ok(v) => v,
            }
        } else {
            let v: Vec<String> = Vec::new();
            assert(strings_view(v@) =~= Seq::empty());
            v
        };
        if !self.check(&Token::RightParen) {
            return Err(self.error_at_current("Expected , or ) in parameter list"));
        }
        self.advance();
        self.skip_newlines();
        if self.position <= entry {
            return Err(self.error_at_current("Expected ENDFUNCTION"));
        }
        let stops = vec![Token::EndFunction];
        assert(token_values(stops@) =~= seq![SToken::EndFunction]);
        let body = self.parse_block_statements(stops.as_slice());
        if !self.check(&Token::EndFunction) {
            return Err(self.error_at_current("Expected ENDFUNCTION"));
        }
        self.advance();
        self.skip_newlines();
        Ok(make_function(name, parameters, body, line, column))
    }

    /// Parameter names separated by commas (see `grammar::parameter_names`).
    fn parse_parameter_names(&mut self) -> (r: Result<Vec<String>, ParseError>)
        requires
            old(self).wf(),
        ensures
            final(self).moved_from(old(self)),
            final(self).errors == old(self).errors,
            (match r { Ok(v) => Ok(strings_view(v@)), Err(e) => Err(e@) }, final(self).pos())
                == parameter_names(old(self).toks(), old(self).pos(), Seq::empty()),
    {
        let ghost toks = self.toks();
        let mut parameters: Vec<String> = Vec::new();
        assert(strings_view(parameters@) =~= Seq::empty());
        loop
            invariant_except_break
                self.moved_from(old(self)),
                self.errors == old(self).errors,
                toks == self.toks(),
                parameter_names(toks, self.pos(), strings_view(parameters@))
                    == parameter_names(toks, old(self).pos(), Seq::empty()),
            ensures
                self.moved_from(old(self)),
                self.errors == old(self).errors,
                (Ok::<Seq<Seq<char>>, SParseError>(strings_view(parameters@)), self.pos())
                    == parameter_names(toks, old(self).pos(), Seq::empty()),
            decreases self.tokens.len() - self.position,
        {
            let ghost acc = strings_view(parameters@);
            match self.current_identifier() {
                Some(param) => {
                    parameters.push(param);
                    assert(strings_view(parameters@) =~= acc.push(param@));
                    self.advance();
                },
                None => return Err(self.error_at_current("Expected parameter name")),
            }
            if self.check(&Token::Comma) {
                self.advance();
            } else {
                break;
            }
        }
        Ok(parameters)
    }

    fn parse_return(&mut self) -> (r: Result<Spanned<Statement>, ParseError>)
        requires
            old(self).wf(),
        ensures
            final(self).moved_from(old(self)),
            final(self).errors == old(self).errors,
            cur(old(self).toks(), old(self).pos()) != SToken::EOF ==> final(self).pos() > old(self).pos(),
            (stmt_result(r), final(self).pos()) == parse_return(old(self).toks(), old(self).pos()),
    {
        let (line, column) = self.current_pos();
        self.advance();
        if self.is_at_end() || self.check(&Token::Newline) {
            self.skip_newlines();
            return Ok(Spanned { node: Statement::Return { value: None }, line, column });
        }
        let value = match self.parse_expression() {
            Err(e) => return Err(e),
            Ok(x) => x,
        };
        self.skip_newlines();
        Ok(Spanned { node: Statement::Return { value: Some(value) }, line, column })
    }

    /// `CONST name = value`, or `STATIC name = value` when `is_static`.
    fn parse_binding(&mut self, is_static: bool) -> (r: Result<Spanned<Statement>, ParseError>)
        requires
            old(self).wf(),
        ensures
            final(self).moved_from(old(self)),
            final(self).errors == old(self).errors,
            cur(old(self).toks(), old(self).pos()) != SToken::EOF ==> final(self).pos() > old(self).pos(),
            (stmt_result(r), final(self).pos()) == parse_binding(old(self).toks(), old(self).pos(), is_static),
    {
        let (line, column) = self.current_pos();
        self.advance();
        let name = match self.current_identifier() {
            Some(n) => n,
            None => return Err(self.error_at_current(
                if is_static { "Expected identifier after STATIC" } else { "Expected identifier after CONST" },
            )),
        };
        self.advance();
        if !self.check(&Token::Assign) {
            return Err(self.error_at_current(
                if is_static { "Expected = after STATIC name" } else { "Expected = after CONST name" },
            ));
        }
        self.advance();
        let expression = match self.parse_expression() {
            Err(e) => return Err(e),
            Ok(x) => x,
        };
        self.skip_newlines();
        let node = if is_static {
            Statement::StaticDeclaration { name, expression }
        } else {
            Statement::ConstDeclaration { name, expression }
        };
        Ok(Spanned { node, line, column })
    }

    fn parse_public_declaration(&mut self) -> (r: Result<Spanned<Statement>, ParseError>)
        requires
            old(self).wf(),
        ensures
            final(self).moved_from(old(self)),
            cur(old(self).toks(), old(self).pos()) != SToken::EOF ==> final(self).pos() > old(self).pos(),
            (stmt_result(r), final(self).pos(), final(self).errs())
                == parse_public(old(self).toks(), old(self).pos(), old(self).errs()),
        decreases rem(old(self).toks(), old(self).pos()), 21nat,
    {
        let (line, column) = self.current_pos();
        self.advance();
        let inner = if self.check(&Token::Function) {
            self.parse_function_declaration()
        } else if self.check(&Token::Declare) {
            self.parse_declare()
        } else if self.check(&Token::Const) {
            self.parse_binding(false)
        } else {
            return Err(self.error_at_current("PUB can only be used with FUNCTION, DECLARE, or CONST"));
        };
        match inner {
            Err(e) => Err(e),
            Ok(s) => Ok(Spanned { node: Statement::Public(Box::new(s)), line, column }),
        }
    }

    fn parse_expression_statement(&mut self) -> (r: Result<Spanned<Statement>, ParseError>)
        requires
            old(self).wf(),
        ensures
            final(self).moved_from(old(self)),
            final(self).errors == old(self).errors,
            cur(old(self).toks(), old(self).pos()) is Identifier ==> final(self).pos() > old(self).pos(),
            (stmt_result(r), final(self).pos()) == parse_expression_statement(old(self).toks(), old(self).pos()),
    {
        let (line, column) = self.current_pos();
        let expr = match self.parse_expression() {
            Err(e) => return Err(e),
            Ok(x) => x,
        };
        self.skip_newlines();
        Ok(Spanned { node: Statement::ExpressionStatement(expr), line, column })
    }

    // -----------------------------------------------------------------
    // Expressions

    fn parse_expression(&mut self) -> (r: Result<Spanned<Expression>, ParseError>)
        requires
            old(self).wf(),
        ensures
            final(self).moved_from(old(self)),
            final(self).errors == old(self).errors,
            (r is Ok || cur(old(self).toks(), old(self).pos()) is Identifier) ==> final(self).pos() > old(self).pos(),
            (expr_result(r), final(self).pos()) == parse_expression(old(self).toks(), old(self).pos()),
        decreases rem(old(self).toks(), old(self).pos()), 16nat,
    {
        self.parse_level(0)
    }

    /// One precedence level (see `grammar::parse_level`).
    fn parse_level(&mut self, level: u8) -> (r: Result<Spanned<Expression>, ParseError>)
        requires
            old(self).wf(),
        ensures
            final(self).moved_from(old(self)),
            final(self).errors == old(self).errors,
            (r is Ok || cur(old(self).toks(), old(self).pos()) is Identifier) ==> final(self).pos() > old(self).pos(),
            (expr_result(r), final(self).pos()) == parse_level(old(self).toks(), old(self).pos(), level as nat),
        decreases rem(old(self).toks(), old(self).pos()), level_rank(level as nat),
    {
        let ghost toks = self.toks();
        if level > 6 {
            return self.parse_unary();
        }
        let (line, column) = self.current_pos();
        let mut left = match self.parse_operand(level) {
            Err(e) => return Err(e),
            Ok(x) => x,
        };
        let ghost p1 = self.pos();
        let ghost start = level_tail(toks, p1, level as nat, view_expr(left), (line, column));
        loop
            invariant_except_break
                self.moved_from(old(self)),
                self.errors == old(self).errors,
                toks == self.toks(),
                self.pos() >= p1,
                p1 > old(self).pos(),
                level <= 6,
                level_tail(toks, self.pos(), level as nat, view_expr(left), (line, column)) == start,
                parse_level(toks, old(self).pos(), level as nat) == start,
            ensures
                self.moved_from(old(self)),
                self.errors == old(self).errors,
                self.pos() > old(self).pos(),
                parse_level(toks, old(self).pos(), level as nat) == start,
                (Ok::<Located<SExpr>, SParseError>(view_expr(left)), self.pos()) == start,
            decreases self.tokens.len() - self.position,
        {
            let operator = match self.level_operator(level) {
                None => break,
                Some(op) => op,
            };
            self.advance();
            let right = match self.parse_operand(level) {
                Err(e) => return Err(e),
                Ok(x) => x,
            };
            left = Spanned {
                node: Expression::BinaryOp { left: Box::new(left), operator, right: Box::new(right) },
                line,
                column,
            };
        }
        Ok(left)
    }

    fn parse_operand(&mut self, level: u8) -> (r: Result<Spanned<Expression>, ParseError>)
        requires
            old(self).wf(),
        ensures
            final(self).moved_from(old(self)),
            final(self).errors == old(self).errors,
            (r is Ok || cur(old(self).toks(), old(self).pos()) is Identifier) ==> final(self).pos() > old(self).pos(),
            (expr_result(r), final(self).pos()) == parse_operand(old(self).toks(), old(self).pos(), level as nat),
        decreases rem(old(self).toks(), old(self).pos()), operand_rank(level as nat),
    {
        if level >= 6 {
            self.parse_unary()
        } else {
            self.parse_level(level + 1)
        }
    }

    /// The operator the current token stands for at a precedence level.
    fn level_operator(&self, level: u8) -> (r: Option<Operator>)
        requires
            self.wf(),
        ensures
            r == level_operator(level as nat, cur(self.toks(), self.pos())),
    {
        let t = self.current();
        if level == 0 {
            match t {
                Token::Or => Some(Operator::Or),
                _ => None,
            }
        } else if level == 1 {
            match t {
                Token::And => Some(Operator::And),
                _ => None,
            }
        } else if level == 2 {
            match t {
                Token::Eq => Some(Operator::Equal),
                Token::NotEqual => Some(Operator::NotEqual),
                Token::Assign => Some(Operator::Equal),
                Token::LessThan => Some(Operator::LessThan),
                Token::GreaterThan => Some(Operator::GreaterThan),
                Token::LessEqual => Some(Operator::LessEqual),
                Token::GreaterEqual => Some(Operator::GreaterEqual),
                _ => None,
            }
        } else if level == 3 {
            match t {
                Token::Plus => Some(Operator::Add),
                Token::Minus => Some(Operator::Subtract),
                _ => None,
            }
        } else if level == 4 {
            match t {
                Token::Star => Some(Operator::Multiply),
                Token::Slash => Some(Operator::Divide),
                _ => None,
            }
        } else if level == 5 {
            match t {
                Token::Percent => Some(Operator::Modulo),
                _ => None,
            }
        } else if level == 6 {
            match t {
                Token::Caret => Some(Operator::Power),
                _ => None,
            }
        } else {
            None
        }
    }

    fn parse_unary(&mut self) -> (r: Result<Spanned<Expression>, ParseError>)
        requires
            old(self).wf(),
        ensures
            final(self).moved_from(old(self)),
            final(self).errors == old(self).errors,
            (r is Ok || cur(old(self).toks(), old(self).pos()) is Identifier) ==> final(self).pos() > old(self).pos(),
            (expr_result(r), final(self).pos()) == parse_unary(old(self).toks(), old(self).pos()),
        decreases rem(old(self).toks(), old(self).pos()), 1nat,
    {
        let (line, column) = self.current_pos();
        if self.check(&Token::Minus) || self.check(&Token::Not) {
            let operator = if self.check(&Token::Minus) { UnaryOperator::Negate } else { UnaryOperator::Not };
            self.advance();
            let expr = match self.parse_unary() {
                Err(e) => return Err(e),
                Ok(x) => x,
            };
            return Ok(Spanned { node: Expression::UnaryOp { operator, expr: Box::new(expr) }, line, column });
        }
        self.parse_primary()
    }

    /// Expressions up to `close`, optionally separated by commas; `close`
    /// is left unread.
    #[verifier::loop_isolation(false)]
    fn parse_list(&mut self, close: &Token) -> (r: Result<Vec<Spanned<Expression>>, ParseError>)
        requires
            old(self).wf(),
            close@.is_plain(),
        ensures
            final(self).moved_from(old(self)),
            final(self).errors == old(self).errors,
            (match r { Ok(v) => Ok(exprs_view(v@)), Err(e) => Err(e@) }, final(self).pos())
                == parse_list(old(self).toks(), old(self).pos(), close@, Seq::empty()),
        decreases rem(old(self).toks(), old(self).pos()), 17nat,
    {
        let ghost toks = self.toks();
        let mut items: Vec<Spanned<Expression>> = Vec::new();
        assert(exprs_view(items@) =~= Seq::empty());
        loop
            invariant
                self.moved_from(old(self)),
                self.errors == old(self).errors,
                toks == self.toks(),
                close@.is_plain(),
                parse_list(toks, self.pos(), close@, exprs_view(items@)) == parse_list(toks, old(self).pos(), close@, Seq::empty()),
            decreases self.tokens.len() - self.position,
        {
            if self.check(close) {
                return Ok(items);
            }
            let ghost acc = exprs_view(items@);
            let item = match self.parse_expression() {
                Err(e) => return Err(e),
                Ok(x) => x,
            };
            items.push(item);
            assert(exprs_view(items@) =~= acc.push(view_expr(item)));
            if self.check(&Token::Comma) {
                self.advance();
            }
        }
    }

    fn parse_primary(&mut self) -> (r: Result<Spanned<Expression>, ParseError>)
        requires
            old(self).wf(),
        ensures
            final(self).moved_from(old(self)),
            final(self).errors == old(self).errors,
            (r is Ok || cur(old(self).toks(), old(self).pos()) is Identifier) ==> final(self).pos() > old(self).pos(),
            (expr_result(r), final(self).pos()) == parse_primary(old(self).toks(), old(self).pos()),
        decreases rem(old(self).toks(), old(self).pos()), 0nat,
    {
        self.skip_newlines();
        let (line, column) = self.current_pos();
        match self.current() {
            Token::Number(n) => {
                self.advance();
                Ok(Spanned { node: Expression::Number(n), line, column })
            },
            Token::StringLiteral(s) => {
                self.advance();
                Ok(Spanned { node: Expression::String(s), line, column })
            },
            Token::Boolean(b) => {
                self.advance();
                Ok(Spanned { node: Expression::Boolean(b), line, column })
            },
            Token::LeftBracket => {
                self.advance();
                let elements = match self.parse_list(&Token::RightBracket) {
                    Err(e) => return Err(e),
                    Ok(v) => v,
                };
                self.advance();
                Ok(make_array_literal(elements, line, column))
            },
            Token::LeftParen => {
                self.advance();
                let expr = match self.parse_expression() {
                    Err(e) => return Err(e),
                    Ok(x) => x,
                };
                if !self.check(&Token::RightParen) {
                    return Err(self.error_at_current("Expected )"));
                }
                self.advance();
                Ok(expr)
            },
            Token::Identifier(name) => {
                self.advance();
                if self.check(&Token::LeftBracket) {
                    self.advance();
                    let index = match self.parse_expression() {
                        Err(e) => return Err(e),
                        Ok(x) => x,
                    };
                    if !self.check(&Token::RightBracket) {
                        return Err(self.error_at_current("Expected ]"));
                    }
                    self.advance();
                    Ok(Spanned { node: Expression::ArrayAccess { name, index: Box::new(index) }, line, column })
                } else if self.check(&Token::LeftParen) {
                    self.advance();
                    let arguments = match self.parse_list(&Token::RightParen) {
                        Err(e) => return Err(e),
                        Ok(v) => v,
                    };
                    self.advance();
                    Ok(make_call(name, arguments, line, column))
                } else {
                    Ok(Spanned { node: Expression::Identifier(name), line, column })
                }
            },
            token => {
                let mut message = String::from_str("Unexpected token: ");
                message.append(token.to_text().as_str());
                Err(self.error_at_current(message.as_str()))
            },
        }
    }

    // -----------------------------------------------------------------
    // Token access

    /// A copy of the current token (`EOF` past the end).
    fn current(&self) -> (t: Token)
        requires
            self.wf(),
        ensures
            t@ == cur(self.toks(), self.pos()),
    {
        if self.position < self.tokens.len() {
            self.tokens[self.position].token.duplicate()
        } else {
            Token::EOF
        }
    }

    /// The name of the current token when it is an identifier.
    fn current_identifier(&self) -> (r: Option<String>)
        requires
            self.wf(),
        ensures
            match cur(self.toks(), self.pos()) {
                SToken::Identifier(s) => r is Some && r->0@ == s,
                _ => r is None,
            },
    {
        if self.position < self.tokens.len() {
            match &self.tokens[self.position].token {
                Token::Identifier(s) => Some(s.clone()),
                _ => None,
            }
        } else {
            None
        }
    }

    /// The text of the current token when it is a string literal.
    fn current_string_literal(&self) -> (r: Option<String>)
        requires
            self.wf(),
        ensures
            match cur(self.toks(), self.pos()) {
                SToken::StringLiteral(s) => r is Some && r->0@ == s,
                _ => r is None,
            },
    {
        if self.position < self.tokens.len() {
            match &self.tokens[self.position].token {
                Token::StringLiteral(s) => Some(s.clone()),
                _ => None,
            }
        } else {
            None
        }
    }

    fn current_pos(&self) -> (r: (usize, usize))
        requires
            self.wf(),
        ensures
            r == cur_pos(self.toks(), self.pos()),
    {
        if self.position < self.tokens.len() {
            let t = &self.tokens[self.position];
            (t.line, t.column)
        } else if self.tokens.len() > 0 {
            let t = &self.tokens[self.tokens.len() - 1];
            (t.line, t.column)
        } else {
            (1, 1)
        }
    }

    fn error_at_current(&self, message: &str) -> (e: ParseError)
        requires
            self.wf(),
        ensures
            e@ == error_at(self.toks(), self.pos(), message@),
    {
        let (line, column) = self.current_pos();
        ParseError { message: String::from_str(message), line, column, severity: Severity::Error }
    }

    fn warning_at_current(&self, message: &str) -> (e: ParseError)
        requires
            self.wf(),
        ensures
            e@ == warning_at(self.toks(), self.pos(), message@),
    {
        let (line, column) = self.current_pos();
        ParseError { message: String::from_str(message), line, column, severity: Severity::Warning }
    }

    fn push_warning_at_current(&mut self, message: &str)
        requires
            old(self).wf(),
        ensures
            final(self).tokens == old(self).tokens,
            final(self).position == old(self).position,
            final(self).errs() == old(self).errs().push(warning_at(old(self).toks(), old(self).pos(), message@)),
    {
        let warn = self.warning_at_current(message);
        self.errors.push(warn);
        assert(self.errs() =~= old(self).errs().push(warn@));
    }

    fn advance(&mut self)
        requires
            old(self).wf(),
        ensures
            final(self).tokens == old(self).tokens,
            final(self).errors == old(self).errors,
            final(self).wf(),
            final(self).pos() == adv(old(self).toks(), old(self).pos()),
    {
        if self.position < self.tokens.len() {
            self.position = self.position + 1;
        }
    }

    /// Whether the current token is `t`, a token that carries no text.
    fn check(&self, t: &Token) -> (r: bool)
        requires
            self.wf(),
            t@.is_plain(),
        ensures
            r == (cur(self.toks(), self.pos()) == t@),
    {
        if self.position < self.tokens.len() {
            self.tokens[self.position].token.is(t)
        } else {
            let eof = Token::EOF;
            eof.is(t)
        }
    }

    fn is_at_end(&self) -> (r: bool)
        requires
            self.wf(),
        ensures
            r == at_end(self.toks(), self.pos()),
    {
        self.position >= self.tokens.len() || self.check(&Token::EOF)
    }

    fn skip_newlines(&mut self)
        requires
            old(self).wf(),
        ensures
            final(self).tokens == old(self).tokens,
            final(self).errors == old(self).errors,
            final(self).wf(),
            final(self).pos() == skip_nl(old(self).toks(), old(self).pos()),
            final(self).pos() >= old(self).pos(),
    {
        while self.check(&Token::Newline)
            invariant
                self.tokens == old(self).tokens,
                self.errors == old(self).errors,
                self.wf(),
                self.pos() >= old(self).pos(),
                skip_nl(self.toks(), self.pos()) == skip_nl(old(self).toks(), old(self).pos()),
            decreases self.tokens.len() - self.position,
        {
            self.advance();
        }
    }

    /// Whether the current token is one of `tokens`.
    fn at_any(&self, tokens: &[Token]) -> (r: bool)
        requires
            self.wf(),
            plain_tokens(tokens@),
        ensures
            r == token_values(tokens@).contains(cur(self.toks(), self.pos())),
    {
        let mut i: usize = 0;
        while i < tokens.len()
            invariant
                self.wf(),
                plain_tokens(tokens@),
                i <= tokens.len(),
                forall|k: int| 0 <= k < i ==> token_values(tokens@)[k] != cur(self.toks(), self.pos()),
            decreases tokens.len() - i,
        {
            if self.check(&tokens[i]) {
                assert(token_values(tokens@)[i as int] == cur(self.toks(), self.pos()));
                return true;
            }
            i = i + 1;
        }
        false
    }

    fn recover_to_boundary(&mut self, stops: &[Token])
        requires
            old(self).wf(),
            plain_tokens(stops@),
        ensures
            final(self).tokens == old(self).tokens,
            final(self).errors == old(self).errors,
            final(self).wf(),
            final(self).pos() == recover(old(self).toks(), old(self).pos(), token_values(stops@)),
            final(self).pos() >= old(self).pos(),
    {
        while !self.is_at_end() && !self.check(&Token::Newline) && !self.at_any(stops)
            invariant
                self.tokens == old(self).tokens,
                self.errors == old(self).errors,
                self.wf(),
                self.pos() >= old(self).pos(),
                plain_tokens(stops@),
                recover(self.toks(), self.pos(), token_values(stops@)) == recover(old(self).toks(), old(self).pos(), token_values(stops@)),
            decreases self.tokens.len() - self.position,
        {
            self.advance();
        }
        self.skip_newlines();
    }

    /// Whether the current token is an identifier followed by `t`.
    fn ident_then(&self, t: &Token) -> (r: bool)
        requires
            self.wf(),
            t@.is_plain(),
        ensures
            r == ident_then(self.toks(), self.pos(), t@),
    {
        if self.position < self.tokens.len() && self.tokens.len() - self.position > 1 {
            match &self.tokens[self.position].token {
                Token::Identifier(_) => self.tokens[self.position + 1].token.is(t),
                _ => false,
            }
        } else {
            false
        }
    }
}

} // verus!
