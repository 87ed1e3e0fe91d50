//! The formatter: prints a program in its canonical layout, imports first,
//! then the body between `START` and `END`, one statement per line and
//! nested blocks indented one level deeper.
use vstd::prelude::*;
use vstd::string::StringExecFns;
use crate::ast::{
    branches_view, exprs_view, import_view, imports_view, output_view, outputs_view, stmts_view, strings_view,
    view_expr, view_stmt, Expression, Located, ModuleImport, Operator, OutputValue, SExpr,
    SModuleImport, SOutput, SStmt, Spanned, Statement, UnaryOperator,
};
use crate::grammar::parse_program;
use crate::lexer::{tokenize_spec, Lexer};
use crate::number::{display_number, find_char, number_display};
use crate::parser::Parser;
use crate::text::{chars_of, decimal, has_infix, has_prefix, join, join_strings, push_char, push_decimal, trim_start};
use crate::unicode::{is_whitespace, unicode_whitespace};

verus! {

// ---------------------------------------------------------------------
// The layout, as text.

pub open spec fn spaces(n: nat) -> Seq<char> {
    Seq::new(n, |i: int| ' ')
}

/// The width of the indentation at a nesting level, `level * size` spaces
/// (capped at the largest size a string can hold).
pub open spec fn indent_width(level: nat, size: nat) -> nat {
    if level * size <= usize::MAX {
        level * size
    } else {
        usize::MAX as nat
    }
}

/// The level of a nested block (the count stops at the largest `usize`).
pub open spec fn next_level(level: nat) -> nat {
    if level < usize::MAX {
        level + 1
    } else {
        level
    }
}

pub open spec fn quoted(s: Seq<char>) -> Seq<char> {
    seq!['"'] + s + seq!['"']
}

/// How a binary operator is written between its operands.
pub open spec fn operator_text(op: Operator) -> Seq<char> {
    match op {
        Operator::Add => " + "@,
        Operator::Subtract => " - "@,
        Operator::Multiply => "*"@,
        Operator::Divide => "/"@,
        Operator::Modulo => " % "@,
        Operator::Power => "^"@,
        Operator::Equal => " == "@,
        Operator::NotEqual => " != "@,
        Operator::LessThan => " < "@,
        Operator::GreaterThan => " > "@,
        Operator::LessEqual => " <= "@,
        Operator::GreaterEqual => " >= "@,
        Operator::And => " AND "@,
        Operator::Or => " OR "@,
    }
}

/// An expression, as the formatter writes it.
pub open spec fn fmt_expr(e: Located<SExpr>) -> Seq<char>
    decreases e,
{
    match e.node {
        SExpr::Number(n) => number_display(n),
        SExpr::String(s) => quoted(s),
        SExpr::Boolean(b) => if b { "TRUE"@ } else { "FALSE"@ },
        SExpr::Identifier(name) => name,
        SExpr::ArrayAccess { name, index } => name + "["@ + fmt_expr(*index) + "]"@,
        SExpr::ArrayLiteral(xs) => "["@ + join(fmt_exprs(xs), ", "@) + "]"@,
        SExpr::FunctionCall { name, arguments } => name + "("@ + join(fmt_exprs(arguments), ", "@) + ")"@,
        SExpr::BinaryOp { left, operator, right } => fmt_expr(*left) + operator_text(operator) + fmt_expr(*right),
        SExpr::UnaryOp { operator, expr } => match operator {
            UnaryOperator::Negate => "-"@ + fmt_expr(*expr),
            UnaryOperator::Not => "NOT "@ + fmt_expr(*expr),
        },
    }
}

/// Each expression of a list, as written.
pub open spec fn fmt_exprs(xs: Seq<Located<SExpr>>) -> Seq<Seq<char>>
    decreases xs,
{
    if xs.len() == 0 {
        Seq::empty()
    } else {
        fmt_exprs(xs.subrange(0, xs.len() - 1)).push(fmt_expr(xs[xs.len() - 1]))
    }
}

/// `name` or `name[f, g]`.
pub open spec fn module_text(m: SModuleImport) -> Seq<char> {
    match m.functions {
        Some(fs) => m.name + "["@ + join(fs, ", "@) + "]"@,
        None => m.name,
    }
}

pub open spec fn output_text(o: SOutput) -> Seq<char> {
    match o {
        SOutput::Expression(e) => fmt_expr(e),
        SOutput::StringLiteral(s) => quoted(s),
    }
}

/// A statement at a nesting level, as the formatter writes it: its lines,
/// each ended by a newline.
pub open spec fn fmt_stmt(s: Located<SStmt>, level: nat, size: nat) -> Seq<char>
    decreases s,
{
    let ind = spaces(indent_width(level, size));
    let deeper = next_level(level);
    match s.node {
        SStmt::Import { modules } => ind + "IMPORT "@ + join(modules.map_values(|m: SModuleImport| module_text(m)), ", "@) + "\n"@,
        SStmt::Assign { variable, expression } => ind + variable + " = "@ + fmt_expr(expression) + "\n"@,
        SStmt::Input { variables } => ind + "INPUT "@ + join(variables, ", "@) + "\n"@,
        SStmt::Output { values } => ind + "OUTPUT "@ + join(values.map_values(|o: SOutput| output_text(o)), " "@) + "\n"@,
        SStmt::FunctionDeclaration { name, parameters, body } => ind + "FUNCTION "@ + name + "("@ + join(parameters, ", "@)
            + ")\n"@ + fmt_block(body, deeper, size) + ind + "ENDFUNCTION\n"@,
        SStmt::ConstDeclaration { name, expression } => ind + "CONST "@ + name + " = "@ + fmt_expr(expression) + "\n"@,
        SStmt::Return { value } => match value {
            Some(x) => ind + "RETURN "@ + fmt_expr(x) + "\n"@,
            None => ind + "RETURN\n"@,
        },
        SStmt::StaticDeclaration { name, expression } => ind + "STATIC "@ + name + " = "@ + fmt_expr(expression) + "\n"@,
        SStmt::ExpressionStatement(x) => ind + fmt_expr(x) + "\n"@,
        SStmt::Public(inner) => {
            let w = fmt_stmt(*inner, level, size);
            let k = find_char(w, '\n', 0);
            ind + "PUB "@ + trim_start(w.take(k)) + w.skip(k)
        },
        SStmt::If { condition, then_branch, else_if_branches, else_branch } => ind + "IF "@ + fmt_expr(condition) + " THEN\n"@
            + fmt_block(then_branch, deeper, size) + fmt_elifs(else_if_branches, level, size)
            + (if else_branch.len() > 0 { ind + "ELSE\n"@ + fmt_block(else_branch, deeper, size) } else { Seq::empty() })
            + ind + "ENDIF\n"@,
        SStmt::ForLoop { variable, start, end, body } => ind + "FOR "@ + variable + " = "@ + fmt_expr(start) + " TO "@
            + fmt_expr(end) + "\n"@ + fmt_block(body, deeper, size) + ind + "ENDFOR\n"@,
        SStmt::WhileLoop { condition, body } => ind + "WHILE "@ + fmt_expr(condition) + "\n"@ + fmt_block(body, deeper, size)
            + ind + "ENDWHILE\n"@,
        SStmt::DeclareArray { name, size: n } => ind + "DECLARE "@ + name + "["@ + decimal(n as nat) + "]\n"@,
        SStmt::ArrayAssign { name, index, value } => ind + name + "["@ + fmt_expr(index) + "] = "@ + fmt_expr(value) + "\n"@,
    }
}

/// The statements of a block, one after the other.
pub open spec fn fmt_block(ss: Seq<Located<SStmt>>, level: nat, size: nat) -> Seq<char>
    decreases ss,
{
    if ss.len() == 0 {
        Seq::empty()
    } else {
        fmt_block(ss.subrange(0, ss.len() - 1), level, size) + fmt_stmt(ss[ss.len() - 1], level, size)
    }
}

/// The `ELSEIF` branches of an `IF` at a nesting level.
pub open spec fn fmt_elifs(bs: Seq<(Located<SExpr>, Seq<Located<SStmt>>)>, level: nat, size: nat) -> Seq<char>
    decreases bs,
{
    if bs.len() == 0 {
        Seq::empty()
    } else {
        fmt_elifs(bs.subrange(0, bs.len() - 1), level, size) + spaces(indent_width(level, size)) + "ELSEIF "@
            + fmt_expr(bs[bs.len() - 1].0) + " THEN\n"@ + fmt_block(bs[bs.len() - 1].1, next_level(level), size)
    }
}

pub open spec fn is_import(s: Located<SStmt>) -> bool {
    s.node is Import
}

/// The imports of a program, in order.
pub open spec fn imports_of(ss: Seq<Located<SStmt>>) -> Seq<Located<SStmt>> {
    ss.filter(|s: Located<SStmt>| is_import(s))
}

/// The statements of a program other than its imports, in order.
pub open spec fn body_of(ss: Seq<Located<SStmt>>) -> Seq<Located<SStmt>> {
    ss.filter(|s: Located<SStmt>| !is_import(s))
}

/// The body statements, each but the first preceded by an empty line.
pub open spec fn fmt_spaced(ss: Seq<Located<SStmt>>, level: nat, size: nat) -> Seq<char>
    decreases ss.len(),
{
    if ss.len() == 0 {
        Seq::empty()
    } else if ss.len() == 1 {
        fmt_stmt(ss[0], level, size)
    } else {
        fmt_spaced(ss.drop_last(), level, size) + "\n"@ + fmt_stmt(ss.last(), level, size)
    }
}

/// A whole program, as the formatter writes it: the imports, an empty line
/// after them when there are any, then `START`, the other statements one
/// level deeper and separated by empty lines, and `END`.
pub open spec fn format_text(source: Seq<char>, level: nat, size: nat) -> Seq<char> {
    let stmts = parse_program(tokenize_spec(source), 0, Seq::empty()).0;
    let imports = imports_of(stmts);
    let body = body_of(stmts);
    fmt_block(imports, level, size) + (if imports.len() > 0 { "\n"@ } else { Seq::empty() }) + "START\n"@
        + fmt_spaced(body, next_level(level), size) + "END\n"@
}

// ---------------------------------------------------------------------
// The formatter.

/// Writes programs in the canonical layout into an output buffer.
pub struct Formatter {
    indent_level: usize,
    indent_size: usize,
    output: String,
}

impl Formatter {
    /// The current nesting level.
    pub closed spec fn level(&self) -> nat {
        self.indent_level as nat
    }

    /// Spaces per nesting level.
    pub closed spec fn size(&self) -> nat {
        self.indent_size as nat
    }

    /// Everything written so far.
    pub closed spec fn text(&self) -> Seq<char> {
        self.output@
    }

    /// A formatter at level 0, indenting by four spaces, with nothing
    /// written.
    pub fn new() -> (r: Self)
        ensures
            r.level() == 0,
            r.size() == 4,
            r.text() == Seq::<char>::empty(),
    {
        Formatter { indent_level: 0, indent_size: 4, output: String::new() }
    }

    /// Formats a program: appends its canonical layout to the output and
    /// returns everything written so far. Parse errors are not reported;
    /// what the parser recovered is formatted.
    pub fn format(&mut self, source: &str) -> (r: Result<String, String>)
        requires
            source@.len() < usize::MAX,
        ensures
            final(self).level() == old(self).level(),
            final(self).size() == old(self).size(),
            final(self).text() == old(self).text() + format_text(source@, old(self).level(), old(self).size()),
            r matches Ok(s) && s@ == final(self).text(),
    {
        let mut lexer = Lexer::new(String::from_str(source));
        let tokens = lexer.tokenize();
        let mut parser = Parser::new(tokens);
        let (ast, _errors) = parser.parse();
        let ghost stmts = stmts_view(ast@);
        let ghost base = self.output@;
        let ghost level = self.level();
        let ghost size = self.size();
        let ghost imports = imports_of(stmts);
        let ghost body = body_of(stmts);
        // imports first
        let mut n_imports: usize = 0;
        let mut i: usize = 0;
        while i < ast.len()
            invariant
                i <= ast.len(),
                stmts == stmts_view(ast@),
                self.level() == level,
                self.size() == size,
                n_imports == imports_of(stmts.subrange(0, i as int)).len(),
                self.output@ == base + fmt_block(imports_of(stmts.subrange(0, i as int)), level, size),
            decreases ast.len() - i,
        {
            let ghost before = stmts.subrange(0, i as int);
            proof {
                reveal(Seq::filter);
            }
            assert(stmts.subrange(0, i + 1).drop_last() =~= before);
            let is_imp = match &ast[i].node {
                Statement::Import { .. } => true,
                _ => false,
            };
            if is_imp {
                let ghost done = imports_of(before);
                self.format_statement(&ast[i]);
                n_imports = n_imports + 1;
                assert(done.push(stmts[i as int]).subrange(0, done.len() as int) =~= done);
            }
            i = i + 1;
        }
        assert(stmts.subrange(0, ast.len() as int) =~= stmts);
        if n_imports > 0 {
            self.output.append("\n");
        }
        self.output.append("START\n");
        let ghost head = self.output@;
        let saved = self.indent_level;
        self.indent_level = if saved < usize::MAX { saved + 1 } else { saved };
        let mut n_body: usize = 0;
        let mut j: usize = 0;
        while j < ast.len()
            invariant
                j <= ast.len(),
                stmts == stmts_view(ast@),
                self.level() == next_level(level),
                self.size() == size,
                saved == level,
                n_body == body_of(stmts.subrange(0, j as int)).len(),
                self.output@ == head + fmt_spaced(body_of(stmts.subrange(0, j as int)), next_level(level), size),
            decreases ast.len() - j,
        {
            let ghost before = stmts.subrange(0, j as int);
            proof {
                reveal(Seq::filter);
            }
            assert(stmts.subrange(0, j + 1).drop_last() =~= before);
            let is_imp = match &ast[j].node {
                Statement::Import { .. } => true,
                _ => false,
            };
            if !is_imp {
                let ghost done = body_of(before);
                if n_body > 0 {
                    self.output.append("\n");
                }
                self.format_statement(&ast[j]);
                n_body = n_body + 1;
                assert(done.push(stmts[j as int]).drop_last() =~= done);
            }
            j = j + 1;
        }
        self.indent_level = saved;
        self.output.append("END\n");
        proof {
            assert(stmts.subrange(0, ast.len() as int) =~= stmts);
            assert(self.output@ =~= base + format_text(source@, level, size));
        }
        Ok(self.output.clone())
    }

    /// The indentation of the current level.
    fn indent(&self) -> (r: String)
        ensures
            r@ == spaces(indent_width(self.level(), self.size())),
    {
        let n: usize = match self.indent_level.checked_mul(self.indent_size) {
            Some(w) => w,
            None => usize::MAX,
        };
        let mut r = String::new();
        let mut i: usize = 0;
        while i < n
            invariant
                i <= n,
                r@ == spaces(i as nat),
            decreases n - i,
        {
            push_char(&mut r, ' ');
            i = i + 1;
            assert(r@ =~= spaces(i as nat));
        }
        r
    }

    /// Writes one statement at the current level.
    fn format_statement(&mut self, stmt: &Spanned<Statement>)
        ensures
            final(self).level() == old(self).level(),
            final(self).size() == old(self).size(),
            final(self).text() == old(self).text() + fmt_stmt(view_stmt(*stmt), old(self).level(), old(self).size()),
        decreases view_stmt(*stmt), 1nat,
    {
        match &stmt.node {
            Statement::If { .. } => self.format_if(stmt),
            Statement::ForLoop { .. } => self.format_for(stmt),
            Statement::WhileLoop { .. } => self.format_while(stmt),
            Statement::FunctionDeclaration { .. } => self.format_function(stmt),
            Statement::Public(_) => self.format_public(stmt),
            _ => self.format_line(stmt),
        }
    }

    /// Writes a statement that takes one line and holds no block.
    fn format_line(&mut self, stmt: &Spanned<Statement>)
        requires
            !(stmt.node is If || stmt.node is ForLoop || stmt.node is WhileLoop
                || stmt.node is FunctionDeclaration || stmt.node is Public),
        ensures
            final(self).level() == old(self).level(),
            final(self).size() == old(self).size(),
            final(self).text() == old(self).text() + fmt_stmt(view_stmt(*stmt), old(self).level(), old(self).size()),
    {
        let ghost v = view_stmt(*stmt);
        let ghost base = self.output@;
        let ghost level = self.level();
        let ghost size = self.size();
        let ind = self.indent();
        match &stmt.node {
            Statement::Import { modules } => {
                let mut parts: Vec<String> = Vec::new();
                let mut i: usize = 0;
                while i < modules.len()
                    invariant
                        i <= modules.len(),
                        parts@.len() == i,
                        forall|k: int| 0 <= k < i ==> (#[trigger] parts@[k])@ == module_text(import_view(modules@[k])),
                    decreases modules.len() - i,
                {
                    parts.push(module_part(&modules[i]));
                    i = i + 1;
                }
                let joined = join_strings(&parts, ", ");
                assert(parts@.map_values(|p: String| p@) =~= imports_view(modules@).map_values(|m: SModuleImport| module_text(m)));
                self.output.append(ind.as_str());
                self.output.append("IMPORT ");
                self.output.append(joined.as_str());
                self.output.append("\n");
            },
            Statement::Assign { variable, expression } => {
                let e = format_expression(expression);
                self.output.append(ind.as_str());
                self.output.append(variable.as_str());
                self.output.append(" = ");
                self.output.append(e.as_str());
                self.output.append("\n");
            },
            Statement::Input { variables } => {
                let joined = join_strings(variables, ", ");
                assert(variables@.map_values(|p: String| p@) =~= strings_view(variables@));
                self.output.append(ind.as_str());
                self.output.append("INPUT ");
                self.output.append(joined.as_str());
                self.output.append("\n");
            },
            Statement::Output { values } => {
                let mut parts: Vec<String> = Vec::new();
                let mut i: usize = 0;
                while i < values.len()
                    invariant
                        i <= values.len(),
                        parts@.len() == i,
                        forall|k: int| 0 <= k < i ==> (#[trigger] parts@[k])@ == output_text(output_view(values@[k])),
                    decreases values.len() - i,
                {
                    let part = match &values[i] {
                        OutputValue::Expression(e) => format_expression(e),
                        OutputValue::StringLiteral(s) => quote(s.as_str()),
                    };
                    parts.push(part);
                    i = i + 1;
                }
                let joined = join_strings(&parts, " ");
                assert(parts@.map_values(|p: String| p@) =~= outputs_view(values@).map_values(|o: SOutput| output_text(o)));
                self.output.append(ind.as_str());
                self.output.append("OUTPUT ");
                self.output.append(joined.as_str());
                self.output.append("\n");
            },
            Statement::ConstDeclaration { name, expression } => {
                let e = format_expression(expression);
                self.output.append(ind.as_str());
                self.output.append("CONST ");
                self.output.append(name.as_str());
                self.output.append(" = ");
                self.output.append(e.as_str());
                self.output.append("\n");
            },
            Statement::Return { value } => {
                match value {
                    Some(x) => {
                        let e = format_expression(x);
                        self.output.append(ind.as_str());
                        self.output.append("RETURN ");
                        self.output.append(e.as_str());
                        self.output.append("\n");
                    },
                    None => {
                        self.output.append(ind.as_str());
                        self.output.append("RETURN\n");
                    },
                }
            },
            Statement::StaticDeclaration { name, expression } => {
                let e = format_expression(expression);
                self.output.append(ind.as_str());
                self.output.append("STATIC ");
                self.output.append(name.as_str());
                self.output.append(" = ");
                self.output.append(e.as_str());
                self.output.append("\n");
            },
            Statement::ExpressionStatement(x) => {
                let e = format_expression(x);
                self.output.append(ind.as_str());
                self.output.append(e.as_str());
                self.output.append("\n");
            },
            Statement::DeclareArray { name, size: n } => {
                self.output.append(ind.as_str());
                self.output.append("DECLARE ");
                self.output.append(name.as_str());
                self.output.append("[");
                push_decimal(&mut self.output, *n);
                self.output.append("]\n");
            },
            Statement::ArrayAssign { name, index, value } => {
                let i = format_expression(index);
                let x = format_expression(value);
                self.output.append(ind.as_str());
                self.output.append(name.as_str());
                self.output.append("[");
                self.output.append(i.as_str());
                self.output.append("] = ");
                self.output.append(x.as_str());
                self.output.append("\n");
            },
            _ => {},
        }
        assert(self.output@ =~= base + fmt_stmt(v, level, size));
    }

    /// Writes an `IF` statement with its branches.
    fn format_if(&mut self, stmt: &Spanned<Statement>)
        requires
            stmt.node is If,
        ensures
            final(self).level() == old(self).level(),
            final(self).size() == old(self).size(),
            final(self).text() == old(self).text() + fmt_stmt(view_stmt(*stmt), old(self).level(), old(self).size()),
        decreases view_stmt(*stmt), 0nat,
    {
        let ghost v = view_stmt(*stmt);
        let ghost base = self.output@;
        let ghost level = self.level();
        let ghost size = self.size();
        let ind = self.indent();
        match &stmt.node {
            Statement::If { condition, then_branch, else_if_branches, else_branch } => {
                let c = format_expression(condition);
                self.output.append(ind.as_str());
                self.output.append("IF ");
                self.output.append(c.as_str());
                self.output.append(" THEN\n");
                assert(v.node->then_branch =~= stmts_view(then_branch@));
                self.format_body(then_branch);
                proof {
                    let vb = else_if_branches@;
                    assert forall|i: int| 0 <= i < vb.len() implies (v.node->else_if_branches)[i] == branches_view(vb)[i] by {
                        assert((v.node->else_if_branches)[i].1 =~= stmts_view(vb[i].1@));
                    }
                    assert(v.node->else_if_branches =~= branches_view(vb));
                }
                self.format_elifs(else_if_branches);
                if else_branch.len() > 0 {
                    self.output.append(ind.as_str());
                    self.output.append("ELSE\n");
                    assert(v.node->else_branch =~= stmts_view(else_branch@));
                    self.format_body(else_branch);
                } else {
                    assert(v.node->else_branch.len() == 0);
                }
                self.output.append(ind.as_str());
                self.output.append("ENDIF\n");
            },
            _ => {},
        }
        assert(self.output@ =~= base + fmt_stmt(v, level, size));
    }

    /// Writes the `ELSEIF` branches of an `IF` at the current level.
    fn format_elifs(&mut self, branches: &Vec<(Spanned<Expression>, Vec<Spanned<Statement>>)>)
        ensures
            final(self).level() == old(self).level(),
            final(self).size() == old(self).size(),
            final(self).text() == old(self).text() + fmt_elifs(branches_view(branches@), old(self).level(), old(self).size()),
        decreases branches_view(branches@), 2nat,
    {
        let ghost base = self.output@;
        let ghost bs = branches_view(branches@);
        let ghost level = self.level();
        let ghost size = self.size();
        let ind = self.indent();
        let mut i: usize = 0;
        while i < branches.len()
            invariant
                i <= branches.len(),
                bs == branches_view(branches@),
                self.level() == level,
                self.size() == size,
                ind@ == spaces(indent_width(level, size)),
                self.output@ == base + fmt_elifs(bs.subrange(0, i as int), level, size),
            decreases branches.len() - i,
        {
            let (cond, branch) = &branches[i];
            let c = format_expression(cond);
            self.output.append(ind.as_str());
            self.output.append("ELSEIF ");
            self.output.append(c.as_str());
            self.output.append(" THEN\n");
            assert(bs[i as int].1 == stmts_view(branch@));
            self.format_body(branch);
            assert(bs.subrange(0, i + 1).subrange(0, i as int) =~= bs.subrange(0, i as int));
            assert(self.output@ =~= base + fmt_elifs(bs.subrange(0, i + 1), level, size));
            i = i + 1;
        }
        assert(bs.subrange(0, branches.len() as int) =~= bs);
    }

    /// Writes a `FOR` loop.
    fn format_for(&mut self, stmt: &Spanned<Statement>)
        requires
            stmt.node is ForLoop,
        ensures
            final(self).level() == old(self).level(),
            final(self).size() == old(self).size(),
            final(self).text() == old(self).text() + fmt_stmt(view_stmt(*stmt), old(self).level(), old(self).size()),
        decreases view_stmt(*stmt), 0nat,
    {
        let ghost v = view_stmt(*stmt);
        let ghost base = self.output@;
        let ghost level = self.level();
        let ghost size = self.size();
        let ind = self.indent();
        match &stmt.node {
            Statement::ForLoop { variable, start, end, body } => {
                let s = format_expression(start);
                let e = format_expression(end);
                self.output.append(ind.as_str());
                self.output.append("FOR ");
                self.output.append(variable.as_str());
                self.output.append(" = ");
                self.output.append(s.as_str());
                self.output.append(" TO ");
                self.output.append(e.as_str());
                self.output.append("\n");
                assert(v.node->ForLoop_body =~= stmts_view(body@));
                self.format_body(body);
                self.output.append(ind.as_str());
                self.output.append("ENDFOR\n");
            },
            _ => {},
        }
        assert(self.output@ =~= base + fmt_stmt(v, level, size));
    }

    /// Writes a `WHILE` loop.
    fn format_while(&mut self, stmt: &Spanned<Statement>)
        requires
            stmt.node is WhileLoop,
        ensures
            final(self).level() == old(self).level(),
            final(self).size() == old(self).size(),
            final(self).text() == old(self).text() + fmt_stmt(view_stmt(*stmt), old(self).level(), old(self).size()),
        decreases view_stmt(*stmt), 0nat,
    {
        let ghost v = view_stmt(*stmt);
        let ghost base = self.output@;
        let ghost level = self.level();
        let ghost size = self.size();
        let ind = self.indent();
        match &stmt.node {
            Statement::WhileLoop { condition, body } => {
                let c = format_expression(condition);
                self.output.append(ind.as_str());
                self.output.append("WHILE ");
                self.output.append(c.as_str());
                self.output.append("\n");
                assert(v.node->WhileLoop_body =~= stmts_view(body@));
                self.format_body(body);
                self.output.append(ind.as_str());
                self.output.append("ENDWHILE\n");
            },
            _ => {},
        }
        assert(self.output@ =~= base + fmt_stmt(v, level, size));
    }

    /// Writes a function declaration.
    fn format_function(&mut self, stmt: &Spanned<Statement>)
        requires
            stmt.node is FunctionDeclaration,
        ensures
            final(self).level() == old(self).level(),
            final(self).size() == old(self).size(),
            final(self).text() == old(self).text() + fmt_stmt(view_stmt(*stmt), old(self).level(), old(self).size()),
        decreases view_stmt(*stmt), 0nat,
    {
        let ghost v = view_stmt(*stmt);
        let ghost base = self.output@;
        let ghost level = self.level();
        let ghost size = self.size();
        let ind = self.indent();
        match &stmt.node {
            Statement::FunctionDeclaration { name, parameters, body } => {
                let params = join_strings(parameters, ", ");
                assert(parameters@.map_values(|p: String| p@) =~= strings_view(parameters@));
                self.output.append(ind.as_str());
                self.output.append("FUNCTION ");
                self.output.append(name.as_str());
                self.output.append("(");
                self.output.append(params.as_str());
                self.output.append(")\n");
                assert(v.node->FunctionDeclaration_body =~= stmts_view(body@));
                self.format_body(body);
                self.output.append(ind.as_str());
                self.output.append("ENDFUNCTION\n");
            },
            _ => {},
        }
        assert(self.output@ =~= base + fmt_stmt(v, level, size));
    }

    /// Writes a `PUB` declaration: `PUB` on the line of the inner
    /// statement's keyword, the rest of its lines unchanged.
    fn format_public(&mut self, stmt: &Spanned<Statement>)
        requires
            stmt.node is Public,
        ensures
            final(self).level() == old(self).level(),
            final(self).size() == old(self).size(),
            final(self).text() == old(self).text() + fmt_stmt(view_stmt(*stmt), old(self).level(), old(self).size()),
        decreases view_stmt(*stmt), 0nat,
    {
        let ghost v = view_stmt(*stmt);
        let ghost base = self.output@;
        let ghost level = self.level();
        let ghost size = self.size();
        let ind = self.indent();
        match &stmt.node {
            Statement::Public(inner) => {
                assert(*v.node->Public_0 == view_stmt(**inner));
                let mut kept = String::new();
                std::mem::swap(&mut kept, &mut self.output);
                self.format_statement(&**inner);
                let mut written = String::new();
                std::mem::swap(&mut written, &mut self.output);
                self.output = kept;
                assert(written@ =~= fmt_stmt(view_stmt(**inner), level, size));
                let line = public_tail(written.as_str());
                self.output.append(ind.as_str());
                self.output.append("PUB ");
                self.output.append(line.as_str());
            },
            _ => {},
        }
        assert(self.output@ =~= base + fmt_stmt(v, level, size));
    }

    /// Writes the statements of a block one level deeper.
    fn format_body(&mut self, body: &Vec<Spanned<Statement>>)
        ensures
            final(self).level() == old(self).level(),
            final(self).size() == old(self).size(),
            final(self).text() == old(self).text() + fmt_block(stmts_view(body@), next_level(old(self).level()), old(self).size()),
        decreases stmts_view(body@), 2nat,
    {
        let ghost base = self.output@;
        let ghost vb = stmts_view(body@);
        let saved = self.indent_level;
        self.indent_level = if saved < usize::MAX { saved + 1 } else { saved };
        let mut i: usize = 0;
        while i < body.len()
            invariant
                i <= body.len(),
                vb == stmts_view(body@),
                self.level() == next_level(saved as nat),
                self.size() == old(self).size(),
                saved == old(self).indent_level,
                self.output@ == base + fmt_block(vb.subrange(0, i as int), next_level(saved as nat), old(self).size()),
            decreases body.len() - i,
        {
            assert(vb[i as int] == view_stmt(body@[i as int]));
            self.format_statement(&body[i]);
            assert(vb.subrange(0, i + 1).subrange(0, i as int) =~= vb.subrange(0, i as int));
            i = i + 1;
        }
        assert(vb.subrange(0, body.len() as int) =~= vb);
        self.indent_level = saved;
    }
}

/// An expression as the formatter writes it.
fn format_expression(expr: &Spanned<Expression>) -> (r: String)
    ensures
        r@ == fmt_expr(view_expr(*expr)),
    decreases view_expr(*expr),
{
    let ghost v = view_expr(*expr);
    match &expr.node {
        Expression::Number(n) => display_number(n.as_str()),
        Expression::String(s) => quote(s.as_str()),
        Expression::Boolean(b) => if *b { String::from_str("TRUE") } else { String::from_str("FALSE") },
        Expression::Identifier(name) => name.clone(),
        Expression::ArrayAccess { name, index } => {
            assert(*v.node->index == view_expr(**index));
            let i = format_expression(index);
            let mut r = name.clone();
            r.append("[");
            r.append(i.as_str());
            r.append("]");
            r
        },
        Expression::ArrayLiteral(elements) => {
            assert(v.node->ArrayLiteral_0 =~= exprs_view(elements@));
            let parts = format_expressions(elements);
            let joined = join_strings(&parts, ", ");
            assert(parts@.map_values(|p: String| p@) =~= strings_view(parts@));
            let mut r = String::from_str("[");
            r.append(joined.as_str());
            r.append("]");
            r
        },
        Expression::FunctionCall { name, arguments } => {
            assert(v.node->arguments =~= exprs_view(arguments@));
            let parts = format_expressions(arguments);
            let joined = join_strings(&parts, ", ");
            assert(parts@.map_values(|p: String| p@) =~= strings_view(parts@));
            let mut r = name.clone();
            r.append("(");
            r.append(joined.as_str());
            r.append(")");
            r
        },
        Expression::BinaryOp { left, operator, right } => {
            assert(*v.node->left == view_expr(**left));
            assert(*v.node->right == view_expr(**right));
            let mut r = format_expression(left);
            let b = format_expression(right);
            r.append(operator_str(*operator));
            r.append(b.as_str());
            r
        },
        Expression::UnaryOp { operator, expr: inner } => {
            assert(*v.node->expr == view_expr(**inner));
            let x = format_expression(inner);
            let mut r = match operator {
                UnaryOperator::Negate => String::from_str("-"),
                UnaryOperator::Not => String::from_str("NOT "),
            };
            r.append(x.as_str());
            r
        },
    }
}

/// Each expression of a list, as written.
fn format_expressions(xs: &Vec<Spanned<Expression>>) -> (r: Vec<String>)
    ensures
        strings_view(r@) == fmt_exprs(exprs_view(xs@)),
    decreases exprs_view(xs@),
{
    let ghost vx = exprs_view(xs@);
    let mut r: Vec<String> = Vec::new();
    let mut i: usize = 0;
    while i < xs.len()
        invariant
            i <= xs.len(),
            vx == exprs_view(xs@),
            strings_view(r@) == fmt_exprs(vx.subrange(0, i as int)),
        decreases xs.len() - i,
    {
        assert(vx[i as int] == view_expr(xs@[i as int]));
        let ghost before = strings_view(r@);
        let s = format_expression(&xs[i]);
        r.push(s);
        assert(vx.subrange(0, i + 1).subrange(0, i as int) =~= vx.subrange(0, i as int));
        assert(strings_view(r@) =~= before.push(s@));
        i = i + 1;
    }
    assert(vx.subrange(0, xs.len() as int) =~= vx);
    r
}

fn operator_str(op: Operator) -> (r: &'static str)
    ensures
        r@ == operator_text(op),
{
    match op {
        Operator::Add => " + ",
        Operator::Subtract => " - ",
        Operator::Multiply => "*",
        Operator::Divide => "/",
        Operator::Modulo => " % ",
        Operator::Power => "^",
        Operator::Equal => " == ",
        Operator::NotEqual => " != ",
        Operator::LessThan => " < ",
        Operator::GreaterThan => " > ",
        Operator::LessEqual => " <= ",
        Operator::GreaterEqual => " >= ",
        Operator::And => " AND ",
        Operator::Or => " OR ",
    }
}

/// `"s"`.
fn quote(s: &str) -> (r: String)
    ensures
        r@ == quoted(s@),
{
    let mut r = String::new();
    push_char(&mut r, '"');
    r.append(s);
    push_char(&mut r, '"');
    r
}

/// `name` or `name[f, g]`.
fn module_part(m: &ModuleImport) -> (r: String)
    ensures
        r@ == module_text(import_view(*m)),
{
    match &m.functions {
        Some(fs) => {
            let joined = join_strings(fs, ", ");
            assert(fs@.map_values(|p: String| p@) =~= strings_view(fs@));
            let mut r = m.name.clone();
            r.append("[");
            r.append(joined.as_str());
            r.append("]");
            r
        },
        None => m.name.clone(),
    }
}

/// The text of a `PUB` statement after `PUB `: the inner statement's text
/// with the leading white space of its first line removed.
fn public_tail(w: &str) -> (r: String)
    ensures
        r@ == trim_start(w@.take(find_char(w@, '\n', 0))) + w@.skip(find_char(w@, '\n', 0)),
{
    let v = chars_of(w);
    let mut k: usize = 0;
    while k < v.len() && v[k] != '\n'
        invariant
            k <= v.len(),
            v@ == w@,
            find_char(v@, '\n', k as int) == find_char(v@, '\n', 0),
        decreases v.len() - k,
    {
        k = k + 1;
    }
    let ghost first = v@.take(k as int);
    let mut a: usize = 0;
    assert(first.subrange(0, first.len() as int) =~= first);
    while a < k && is_whitespace(v[a])
        invariant
            a <= k <= v.len(),
            first == v@.take(k as int),
            trim_start(first.subrange(a as int, k as int)) == trim_start(first),
        decreases k - a,
    {
        assert(first.subrange(a as int, k as int).subrange(1, (k - a) as int) =~= first.subrange(a + 1, k as int));
        a = a + 1;
    }
    let mut r = String::new();
    let mut m: usize = a;
    while m < v.len()
        invariant
            a <= k <= v.len(),
            a <= m <= v.len(),
            r@ == v@.subrange(a as int, m as int),
        decreases v.len() - m,
    {
        push_char(&mut r, v[m]);
        m = m + 1;
        assert(r@ =~= v@.subrange(a as int, m as int));
    }
    proof {
        assert(trim_start(first.subrange(a as int, k as int)) == first.subrange(a as int, k as int));
        assert(v@.subrange(a as int, v.len() as int) =~= first.subrange(a as int, k as int) + v@.skip(k as int));
    }
    r
}

// ---------------------------------------------------------------------
// What the layout keeps of a program.

proof fn lemma_infix_mid(a: Seq<char>, p: Seq<char>, b: Seq<char>)
    ensures
        has_infix(a + p + b, p),
{
    assert((a + p + b).subrange(a.len() as int, (a.len() + p.len()) as int) =~= p);
}

proof fn lemma_infix_trans(s: Seq<char>, m: Seq<char>, p: Seq<char>)
    requires
        has_infix(s, m),
        has_infix(m, p),
    ensures
        has_infix(s, p),
{
    let i = choose|i: int| 0 <= i && i + m.len() <= s.len() && #[trigger] s.subrange(i, i + m.len()) == m;
    let j = choose|j: int| 0 <= j && j + p.len() <= m.len() && #[trigger] m.subrange(j, j + p.len()) == p;
    assert(s.subrange(i + j, i + j + p.len()) =~= m.subrange(j, j + p.len()));
}

/// Every statement of a block is written, at the block's level, in the
/// block's text.
pub proof fn lemma_block_writes_each(ss: Seq<Located<SStmt>>, i: int, level: nat, size: nat)
    requires
        0 <= i < ss.len(),
    ensures
        has_infix(fmt_block(ss, level, size), fmt_stmt(ss[i], level, size)),
    decreases ss.len(),
{
    let init = ss.subrange(0, ss.len() - 1);
    let last = fmt_stmt(ss[ss.len() - 1], level, size);
    if i < ss.len() - 1 {
        assert(init[i] == ss[i]);
        lemma_block_writes_each(init, i, level, size);
        lemma_infix_mid(Seq::empty(), fmt_block(init, level, size), last);
        assert(Seq::<char>::empty() + fmt_block(init, level, size) + last =~= fmt_block(ss, level, size));
        lemma_infix_trans(fmt_block(ss, level, size), fmt_block(init, level, size), fmt_stmt(ss[i], level, size));
    } else {
        lemma_infix_mid(fmt_block(init, level, size), last, Seq::empty());
        assert(fmt_block(init, level, size) + last + Seq::<char>::empty() =~= fmt_block(ss, level, size));
    }
}

/// Every body statement of a program is written, one level deeper than
/// `START`, in the program's layout.
pub proof fn lemma_program_writes_each(source: Seq<char>, level: nat, size: nat, i: int)
    requires
        0 <= i < body_of(parse_program(tokenize_spec(source), 0, Seq::empty()).0).len(),
    ensures
        has_infix(
            format_text(source, level, size),
            fmt_stmt(body_of(parse_program(tokenize_spec(source), 0, Seq::empty()).0)[i], next_level(level), size),
        ),
{
    let stmts = parse_program(tokenize_spec(source), 0, Seq::empty()).0;
    let imports = imports_of(stmts);
    let body = body_of(stmts);
    let deeper = next_level(level);
    lemma_spaced_writes_each(body, i, deeper, size);
    let head = fmt_block(imports, level, size) + (if imports.len() > 0 { "\n"@ } else { Seq::empty() }) + "START\n"@;
    lemma_infix_mid(head, fmt_spaced(body, deeper, size), "END\n"@);
    lemma_infix_trans(format_text(source, level, size), fmt_spaced(body, deeper, size), fmt_stmt(body[i], deeper, size));
}

proof fn lemma_spaced_writes_each(ss: Seq<Located<SStmt>>, i: int, level: nat, size: nat)
    requires
        0 <= i < ss.len(),
    ensures
        has_infix(fmt_spaced(ss, level, size), fmt_stmt(ss[i], level, size)),
    decreases ss.len(),
{
    let w = fmt_stmt(ss[i], level, size);
    if ss.len() == 1 {
        lemma_infix_mid(Seq::empty(), w, Seq::empty());
        assert(Seq::<char>::empty() + w + Seq::<char>::empty() =~= w);
    } else {
        let init = ss.drop_last();
        let last = fmt_stmt(ss.last(), level, size);
        if i < ss.len() - 1 {
            assert(init[i] == ss[i]);
            lemma_spaced_writes_each(init, i, level, size);
            lemma_infix_mid(Seq::empty(), fmt_spaced(init, level, size), "\n"@ + last);
            assert(Seq::<char>::empty() + fmt_spaced(init, level, size) + ("\n"@ + last) =~= fmt_spaced(ss, level, size));
            lemma_infix_trans(fmt_spaced(ss, level, size), fmt_spaced(init, level, size), w);
        } else {
            lemma_infix_mid(fmt_spaced(init, level, size) + "\n"@, last, Seq::empty());
            assert(fmt_spaced(init, level, size) + "\n"@ + last + Seq::<char>::empty() =~= fmt_spaced(ss, level, size));
        }
    }
}

/// Every `ELSEIF` branch is written: its condition after `ELSEIF` at the
/// `IF`'s level, then its statements one level deeper.
proof fn lemma_elifs_write_each(bs: Seq<(Located<SExpr>, Seq<Located<SStmt>>)>, j: int, level: nat, size: nat)
    requires
        0 <= j < bs.len(),
    ensures
        has_infix(
            fmt_elifs(bs, level, size),
            spaces(indent_width(level, size)) + "ELSEIF "@ + fmt_expr(bs[j].0) + " THEN\n"@
                + fmt_block(bs[j].1, next_level(level), size),
        ),
    decreases bs.len(),
{
    let init = bs.subrange(0, bs.len() - 1);
    let b = bs[bs.len() - 1];
    let last = spaces(indent_width(level, size)) + "ELSEIF "@ + fmt_expr(b.0) + " THEN\n"@
        + fmt_block(b.1, next_level(level), size);
    assert(fmt_elifs(bs, level, size) =~= fmt_elifs(init, level, size) + last);
    if j < bs.len() - 1 {
        assert(init[j] == bs[j]);
        lemma_elifs_write_each(init, j, level, size);
        lemma_infix_mid(Seq::empty(), fmt_elifs(init, level, size), last);
        assert(Seq::<char>::empty() + fmt_elifs(init, level, size) + last =~= fmt_elifs(bs, level, size));
        let bj = bs[j];
        lemma_infix_trans(
            fmt_elifs(bs, level, size),
            fmt_elifs(init, level, size),
            spaces(indent_width(level, size)) + "ELSEIF "@ + fmt_expr(bj.0) + " THEN\n"@
                + fmt_block(bj.1, next_level(level), size),
        );
    } else {
        lemma_infix_mid(fmt_elifs(init, level, size), last, Seq::empty());
        assert(fmt_elifs(init, level, size) + last + Seq::<char>::empty() =~= fmt_elifs(bs, level, size));
    }
}

/// An `IF` keeps all of its branches: its condition and `THEN` block come
/// first, each `ELSEIF` branch is written with its condition and block,
/// and an `ELSE` branch with statements is written under `ELSE`, right
/// before the closing `ENDIF`.
pub proof fn lemma_if_writes_branches(s: Located<SStmt>, level: nat, size: nat)
    requires
        s.node is If,
    ensures
        has_prefix(
            fmt_stmt(s, level, size),
            spaces(indent_width(level, size)) + "IF "@ + fmt_expr(s.node->If_condition) + " THEN\n"@
                + fmt_block(s.node->If_then_branch, next_level(level), size),
        ),
        forall|j: int| 0 <= j < s.node->If_else_if_branches.len() ==> has_infix(
            fmt_stmt(s, level, size),
            spaces(indent_width(level, size)) + "ELSEIF "@ + fmt_expr(#[trigger] s.node->If_else_if_branches[j].0)
                + " THEN\n"@ + fmt_block(s.node->If_else_if_branches[j].1, next_level(level), size),
        ),
        s.node->If_else_branch.len() > 0 ==> fmt_stmt(s, level, size).len() >= (spaces(indent_width(level, size))
            + "ELSE\n"@ + fmt_block(s.node->If_else_branch, next_level(level), size) + spaces(indent_width(level, size))
            + "ENDIF\n"@).len() && fmt_stmt(s, level, size).skip(fmt_stmt(s, level, size).len() - (spaces(
            indent_width(level, size)) + "ELSE\n"@ + fmt_block(s.node->If_else_branch, next_level(level), size)
            + spaces(indent_width(level, size)) + "ENDIF\n"@).len()) == spaces(indent_width(level, size)) + "ELSE\n"@
            + fmt_block(s.node->If_else_branch, next_level(level), size) + spaces(indent_width(level, size))
            + "ENDIF\n"@,
{
    let ind = spaces(indent_width(level, size));
    let deeper = next_level(level);
    let w = fmt_stmt(s, level, size);
    match s.node {
        SStmt::If { condition, then_branch, else_if_branches, else_branch } => {
            let head = ind + "IF "@ + fmt_expr(condition) + " THEN\n"@ + fmt_block(then_branch, deeper, size);
            let elifs = fmt_elifs(else_if_branches, level, size);
            let tail = (if else_branch.len() > 0 { ind + "ELSE\n"@ + fmt_block(else_branch, deeper, size) } else {
                Seq::empty()
            }) + ind + "ENDIF\n"@;
            assert(w =~= head + (elifs + tail));
            assert(w.take(head.len() as int) =~= head);
            assert forall|j: int| 0 <= j < else_if_branches.len() implies has_infix(
                w,
                ind + "ELSEIF "@ + fmt_expr(#[trigger] else_if_branches[j].0) + " THEN\n"@
                    + fmt_block(else_if_branches[j].1, deeper, size),
            ) by {
                lemma_elifs_write_each(else_if_branches, j, level, size);
                lemma_infix_mid(head, elifs, tail);
                assert(head + elifs + tail =~= w);
                let bj = else_if_branches[j];
                lemma_infix_trans(w, elifs, ind + "ELSEIF "@ + fmt_expr(bj.0) + " THEN\n"@ + fmt_block(bj.1, deeper, size));
            }
            if else_branch.len() > 0 {
                let last = ind + "ELSE\n"@ + fmt_block(else_branch, deeper, size) + ind + "ENDIF\n"@;
                assert(w =~= (head + elifs) + last);
                assert(w.skip(w.len() - last.len()) =~= last);
            }
        },
        _ => {},
    }
}

proof fn lemma_infix_tail(h: Seq<char>, b: Seq<char>, c: Seq<char>, d: Seq<char>)
    ensures
        has_infix(h + b + c + d, b + c + d),
{
    let w = h + b + c + d;
    let t = b + c + d;
    assert(w.len() == h.len() + t.len());
    assert forall|k: int| 0 <= k < t.len() implies #[trigger] w.subrange(h.len() as int, w.len() as int)[k] == t[k] by {
        if k < b.len() {
            assert(t[k] == b[k]);
        } else if k < b.len() + c.len() {
            assert(t[k] == c[k - b.len()]);
        } else {
            assert(t[k] == d[k - b.len() - c.len()]);
        }
    }
    assert(w.subrange(h.len() as int, w.len() as int) =~= t);
}

/// The body of a `FOR` loop is written one level deeper, right before the
/// `ENDFOR` line.
pub proof fn lemma_for_body_written(s: Located<SStmt>, level: nat, size: nat)
    requires
        s.node is ForLoop,
    ensures
        has_infix(
            fmt_stmt(s, level, size),
            fmt_block(s.node->ForLoop_body, next_level(level), size) + spaces(indent_width(level, size)) + "ENDFOR\n"@,
        ),
{
    let ind = spaces(indent_width(level, size));
    let w = fmt_stmt(s, level, size);
    let variable = s.node->ForLoop_variable;
    let start = s.node->ForLoop_start;
    let end = s.node->ForLoop_end;
    let body = s.node->ForLoop_body;
    let head = ind + "FOR "@ + variable + " = "@ + fmt_expr(start) + " TO "@ + fmt_expr(end) + "\n"@;
    let blk = fmt_block(body, next_level(level), size);
    assert(w == head + blk + ind + "ENDFOR\n"@);
    lemma_infix_tail(head, blk, ind, "ENDFOR\n"@);
}

/// The body of a `WHILE` loop is written one level deeper, right before the
/// `ENDWHILE` line.
pub proof fn lemma_while_body_written(s: Located<SStmt>, level: nat, size: nat)
    requires
        s.node is WhileLoop,
    ensures
        has_infix(
            fmt_stmt(s, level, size),
            fmt_block(s.node->WhileLoop_body, next_level(level), size) + spaces(indent_width(level, size))
                + "ENDWHILE\n"@,
        ),
{
    let ind = spaces(indent_width(level, size));
    let w = fmt_stmt(s, level, size);
    let condition = s.node->WhileLoop_condition;
    let body = s.node->WhileLoop_body;
    let head = ind + "WHILE "@ + fmt_expr(condition) + "\n"@;
    let blk = fmt_block(body, next_level(level), size);
    assert(w == head + blk + ind + "ENDWHILE\n"@);
    lemma_infix_tail(head, blk, ind, "ENDWHILE\n"@);
}

/// The body of a function is written one level deeper, right before the
/// `ENDFUNCTION` line.
pub proof fn lemma_function_body_written(s: Located<SStmt>, level: nat, size: nat)
    requires
        s.node is FunctionDeclaration,
    ensures
        has_infix(
            fmt_stmt(s, level, size),
            fmt_block(s.node->FunctionDeclaration_body, next_level(level), size) + spaces(indent_width(level, size))
                + "ENDFUNCTION\n"@,
        ),
{
    let ind = spaces(indent_width(level, size));
    let w = fmt_stmt(s, level, size);
    let name = s.node->FunctionDeclaration_name;
    let parameters = s.node->FunctionDeclaration_parameters;
    let body = s.node->FunctionDeclaration_body;
    let head = ind + "FUNCTION "@ + name + "("@ + join(parameters, ", "@) + ")\n"@;
    let blk = fmt_block(body, next_level(level), size);
    assert(w == head + blk + ind + "ENDFUNCTION\n"@);
    lemma_infix_tail(head, blk, ind, "ENDFUNCTION\n"@);
}

} // verus!
