//! The syntax tree the parser builds, and its mathematical mirror.
use vstd::prelude::*;

verus! {

/// A node together with the line and column where it starts.
#[derive(Debug, Clone, PartialEq)]
pub struct Spanned<T> {
    pub node: T,
    pub line: usize,
    pub column: usize,
}

impl<T> Spanned<T> {
    pub fn new(node: T, line: usize, column: usize) -> (r: Self)
        ensures
            r.node == node,
            r.line == line,
            r.column == column,
    {
        Spanned { node, line, column }
    }
}

#[derive(Debug)]
pub enum Statement {
    Assign { variable: String, expression: Spanned<Expression> },
    Input { variables: Vec<String> },
    Output { values: Vec<OutputValue> },
    If {
        condition: Spanned<Expression>,
        then_branch: Vec<Spanned<Statement>>,
        else_if_branches: Vec<(Spanned<Expression>, Vec<Spanned<Statement>>)>,
        else_branch: Vec<Spanned<Statement>>,
    },
    ForLoop {
        variable: String,
        start: Spanned<Expression>,
        end: Spanned<Expression>,
        body: Vec<Spanned<Statement>>,
    },
    WhileLoop { condition: Spanned<Expression>, body: Vec<Spanned<Statement>> },
    DeclareArray { name: String, size: usize },
    ArrayAssign { name: String, index: Box<Spanned<Expression>>, value: Box<Spanned<Expression>> },
    FunctionDeclaration { name: String, parameters: Vec<String>, body: Vec<Spanned<Statement>> },
    Return { value: Option<Spanned<Expression>> },
    Import { modules: Vec<ModuleImport> },
    ConstDeclaration { name: String, expression: Spanned<Expression> },
    StaticDeclaration { name: String, expression: Spanned<Expression> },
    ExpressionStatement(Spanned<Expression>),
    Public(Box<Spanned<Statement>>),
}

/// An expression. A number is kept as the literal that was written.
#[derive(Debug, PartialEq)]
pub enum Expression {
    Number(String),
    String(String),
    Boolean(bool),
    Identifier(String),
    ArrayAccess { name: String, index: Box<Spanned<Expression>> },
    ArrayLiteral(Vec<Spanned<Expression>>),
    FunctionCall { name: String, arguments: Vec<Spanned<Expression>> },
    BinaryOp { left: Box<Spanned<Expression>>, operator: Operator, right: Box<Spanned<Expression>> },
    UnaryOp { operator: UnaryOperator, expr: Box<Spanned<Expression>> },
}

#[derive(Debug, Clone, Copy, PartialEq, Eq, Structural)]
pub enum Operator {
    Add,
    Subtract,
    Multiply,
    Divide,
    Modulo,
    Power,
    Equal,
    NotEqual,
    LessThan,
    GreaterThan,
    LessEqual,
    GreaterEqual,
    And,
    Or,
}

#[derive(Debug, Clone, Copy, PartialEq, Eq, Structural)]
pub enum UnaryOperator {
    Negate,
    Not,
}

#[derive(Debug)]
pub enum OutputValue {
    Expression(Spanned<Expression>),
    StringLiteral(String),
}

#[derive(Debug, Clone)]
pub struct ModuleImport {
    pub name: String,
    pub functions: Option<Vec<String>>,
}

// ---------------------------------------------------------------------
// Mathematical mirror of the tree: text as character sequences, lists as
// sequences.

/// A value together with its line and column.
pub struct Located<T> {
    pub node: T,
    pub line: usize,
    pub column: usize,
}

pub enum SExpr {
    Number(Seq<char>),
    String(Seq<char>),
    Boolean(bool),
    Identifier(Seq<char>),
    ArrayAccess { name: Seq<char>, index: Box<Located<SExpr>> },
    ArrayLiteral(Seq<Located<SExpr>>),
    FunctionCall { name: Seq<char>, arguments: Seq<Located<SExpr>> },
    BinaryOp { left: Box<Located<SExpr>>, operator: Operator, right: Box<Located<SExpr>> },
    UnaryOp { operator: UnaryOperator, expr: Box<Located<SExpr>> },
}

pub enum SOutput {
    Expression(Located<SExpr>),
    StringLiteral(Seq<char>),
}

pub struct SModuleImport {
    pub name: Seq<char>,
    pub functions: Option<Seq<Seq<char>>>,
}

pub enum SStmt {
    Assign { variable: Seq<char>, expression: Located<SExpr> },
    Input { variables: Seq<Seq<char>> },
    Output { values: Seq<SOutput> },
    If {
        condition: Located<SExpr>,
        then_branch: Seq<Located<SStmt>>,
        else_if_branches: Seq<(Located<SExpr>, Seq<Located<SStmt>>)>,
        else_branch: Seq<Located<SStmt>>,
    },
    ForLoop { variable: Seq<char>, start: Located<SExpr>, end: Located<SExpr>, body: Seq<Located<SStmt>> },
    WhileLoop { condition: Located<SExpr>, body: Seq<Located<SStmt>> },
    DeclareArray { name: Seq<char>, size: usize },
    ArrayAssign { name: Seq<char>, index: Located<SExpr>, value: Located<SExpr> },
    FunctionDeclaration { name: Seq<char>, parameters: Seq<Seq<char>>, body: Seq<Located<SStmt>> },
    Return { value: Option<Located<SExpr>> },
    Import { modules: Seq<SModuleImport> },
    ConstDeclaration { name: Seq<char>, expression: Located<SExpr> },
    StaticDeclaration { name: Seq<char>, expression: Located<SExpr> },
    ExpressionStatement(Located<SExpr>),
    Public(Box<Located<SStmt>>),
}

pub open spec fn placeholder_expr() -> Located<SExpr> {
    Located { node: SExpr::Boolean(false), line: 0, column: 0 }
}

pub open spec fn placeholder_stmt() -> Located<SStmt> {
    Located { node: SStmt::Input { variables: Seq::empty() }, line: 0, column: 0 }
}

/// The texts of a list of strings.
pub open spec fn strings_view(v: Seq<String>) -> Seq<Seq<char>> {
    v.map_values(|s: String| s@)
}

/// The mirror of an expression.
pub open spec fn view_expr(e: Spanned<Expression>) -> Located<SExpr>
    decreases e,
{
    Located {
        node: match e.node {
            Expression::Number(s) => SExpr::Number(s@),
            Expression::String(s) => SExpr::String(s@),
            Expression::Boolean(b) => SExpr::Boolean(b),
            Expression::Identifier(s) => SExpr::Identifier(s@),
            Expression::ArrayAccess { name, index } => SExpr::ArrayAccess {
                name: name@,
                index: Box::new(view_expr(*index)),
            },
            Expression::ArrayLiteral(v) => SExpr::ArrayLiteral(
                Seq::new(
                    v.len() as nat,
                    |i: int|
                        if 0 <= i < v.len() {
                            proof {
                                vstd::std_specs::vec::axiom_vec_index_decreases(v, i);
                            }
                            view_expr(v[i])
                        } else {
                            placeholder_expr()
                        },
                ),
            ),
            Expression::FunctionCall { name, arguments } => SExpr::FunctionCall {
                name: name@,
                arguments: Seq::new(
                    arguments.len() as nat,
                    |i: int|
                        if 0 <= i < arguments.len() {
                            proof {
                                vstd::std_specs::vec::axiom_vec_index_decreases(arguments, i);
                            }
                            view_expr(arguments[i])
                        } else {
                            placeholder_expr()
                        },
                ),
            },
            Expression::BinaryOp { left, operator, right } => SExpr::BinaryOp {
                left: Box::new(view_expr(*left)),
                operator,
                right: Box::new(view_expr(*right)),
            },
            Expression::UnaryOp { operator, expr } => SExpr::UnaryOp {
                operator,
                expr: Box::new(view_expr(*expr)),
            },
        },
        line: e.line,
        column: e.column,
    }
}

/// The mirrors of a list of expressions.
pub open spec fn exprs_view(v: Seq<Spanned<Expression>>) -> Seq<Located<SExpr>> {
    Seq::new(v.len() as nat, |i: int| view_expr(v[i]))
}

pub open spec fn output_view(o: OutputValue) -> SOutput {
    match o {
        OutputValue::Expression(e) => SOutput::Expression(view_expr(e)),
        OutputValue::StringLiteral(s) => SOutput::StringLiteral(s@),
    }
}

pub open spec fn outputs_view(v: Seq<OutputValue>) -> Seq<SOutput> {
    v.map_values(|o: OutputValue| output_view(o))
}

pub open spec fn import_view(m: ModuleImport) -> SModuleImport {
    SModuleImport {
        name: m.name@,
        functions: match m.functions {
            Some(f) => Some(strings_view(f@)),
            None => None,
        },
    }
}

pub open spec fn imports_view(v: Seq<ModuleImport>) -> Seq<SModuleImport> {
    v.map_values(|m: ModuleImport| import_view(m))
}

/// The mirror of a statement.
pub open spec fn view_stmt(s: Spanned<Statement>) -> Located<SStmt>
    decreases s,
{
    Located {
        node: match s.node {
            Statement::Assign { variable, expression } => SStmt::Assign {
                variable: variable@,
                expression: view_expr(expression),
            },
            Statement::Input { variables } => SStmt::Input { variables: strings_view(variables@) },
            Statement::Output { values } => SStmt::Output { values: outputs_view(values@) },
            Statement::If { condition, then_branch, else_if_branches, else_branch } => SStmt::If {
                condition: view_expr(condition),
                then_branch: Seq::new(
                    then_branch.len() as nat,
                    |i: int|
                        if 0 <= i < then_branch.len() {
                            proof {
                                vstd::std_specs::vec::axiom_vec_index_decreases(then_branch, i);
                            }
                            view_stmt(then_branch[i])
                        } else {
                            placeholder_stmt()
                        },
                ),
                else_if_branches: Seq::new(
                    else_if_branches.len() as nat,
                    |i: int|
                        if 0 <= i < else_if_branches.len() {
                            proof {
                                vstd::std_specs::vec::axiom_vec_index_decreases(else_if_branches, i);
                            }
                            let body = else_if_branches[i].1;
                            (
                                view_expr(else_if_branches[i].0),
                                Seq::new(
                                    body.len() as nat,
                                    |j: int|
                                        if 0 <= j < body.len() {
                                            proof {
                                                vstd::std_specs::vec::axiom_vec_index_decreases(body, j);
                                            }
                                            view_stmt(body[j])
                                        } else {
                                            placeholder_stmt()
                                        },
                                ),
                            )
                        } else {
                            (placeholder_expr(), Seq::empty())
                        },
                ),
                else_branch: Seq::new(
                    else_branch.len() as nat,
                    |i: int|
                        if 0 <= i < else_branch.len() {
                            proof {
                                vstd::std_specs::vec::axiom_vec_index_decreases(else_branch, i);
                            }
                            view_stmt(else_branch[i])
                        } else {
                            placeholder_stmt()
                        },
                ),
            },
            Statement::ForLoop { variable, start, end, body } => SStmt::ForLoop {
                variable: variable@,
                start: view_expr(start),
                end: view_expr(end),
                body: Seq::new(
                    body.len() as nat,
                    |i: int|
                        if 0 <= i < body.len() {
                            proof {
                                vstd::std_specs::vec::axiom_vec_index_decreases(body, i);
                            }
                            view_stmt(body[i])
                        } else {
                            placeholder_stmt()
                        },
                ),
            },
            Statement::WhileLoop { condition, body } => SStmt::WhileLoop {
                condition: view_expr(condition),
                body: Seq::new(
                    body.len() as nat,
                    |i: int|
                        if 0 <= i < body.len() {
                            proof {
                                vstd::std_specs::vec::axiom_vec_index_decreases(body, i);
                            }
                            view_stmt(body[i])
                        } else {
                            placeholder_stmt()
                        },
                ),
            },
            Statement::DeclareArray { name, size } => SStmt::DeclareArray { name: name@, size },
            Statement::ArrayAssign { name, index, value } => SStmt::ArrayAssign {
                name: name@,
                index: view_expr(*index),
                value: view_expr(*value),
            },
            Statement::FunctionDeclaration { name, parameters, body } => SStmt::FunctionDeclaration {
                name: name@,
                parameters: strings_view(parameters@),
                body: Seq::new(
                    body.len() as nat,
                    |i: int|
                        if 0 <= i < body.len() {
                            proof {
                                vstd::std_specs::vec::axiom_vec_index_decreases(body, i);
                            }
                            view_stmt(body[i])
                        } else {
                            placeholder_stmt()
                        },
                ),
            },
            Statement::Return { value } => SStmt::Return {
                value: match value {
                    Some(e) => Some(view_expr(e)),
                    None => None,
                },
            },
            Statement::Import { modules } => SStmt::Import { modules: imports_view(modules@) },
            Statement::ConstDeclaration { name, expression } => SStmt::ConstDeclaration {
                name: name@,
                expression: view_expr(expression),
            },
            Statement::StaticDeclaration { name, expression } => SStmt::StaticDeclaration {
                name: name@,
                expression: view_expr(expression),
            },
            Statement::ExpressionStatement(e) => SStmt::ExpressionStatement(view_expr(e)),
            Statement::Public(inner) => SStmt::Public(Box::new(view_stmt(*inner))),
        },
        line: s.line,
        column: s.column,
    }
}

/// The mirrors of a list of statements.
pub open spec fn stmts_view(v: Seq<Spanned<Statement>>) -> Seq<Located<SStmt>> {
    Seq::new(v.len() as nat, |i: int| view_stmt(v[i]))
}

/// The mirrors of a list of `ELSEIF` branches.
pub open spec fn branches_view(v: Seq<(Spanned<Expression>, Vec<Spanned<Statement>>)>) -> Seq<(Located<SExpr>, Seq<Located<SStmt>>)> {
    Seq::new(v.len() as nat, |i: int| (view_expr(v[i].0), stmts_view(v[i].1@)))
}

// ---------------------------------------------------------------------
// Constructors of the nodes that hold lists, with their mirrors.

/// An `IF` statement.
pub fn make_if(
    condition: Spanned<Expression>,
    then_branch: Vec<Spanned<Statement>>,
    else_if_branches: Vec<(Spanned<Expression>, Vec<Spanned<Statement>>)>,
    else_branch: Vec<Spanned<Statement>>,
    line: usize,
    column: usize,
) -> (r: Spanned<Statement>)
    ensures
        view_stmt(r) == (Located {
            node: SStmt::If {
                condition: view_expr(condition),
                then_branch: stmts_view(then_branch@),
                else_if_branches: branches_view(else_if_branches@),
                else_branch: stmts_view(else_branch@),
            },
            line,
            column,
        }),
{
    let ghost tb = stmts_view(then_branch@);
    let ghost eib = branches_view(else_if_branches@);
    let ghost eb = stmts_view(else_branch@);
    let ghost vb = else_if_branches@;
    let r = Spanned { node: Statement::If { condition, then_branch, else_if_branches, else_branch }, line, column };
    proof {
        let v = view_stmt(r);
        assert(v.node->then_branch =~= tb);
        assert(v.node->else_branch =~= eb);
        assert forall|i: int| 0 <= i < vb.len() implies (v.node->else_if_branches)[i] == eib[i] by {
            assert((v.node->else_if_branches)[i].1 =~= stmts_view(vb[i].1@));
        }
        assert(v.node->else_if_branches =~= eib);
    }
    r
}

/// A `FOR` loop.
pub fn make_for(
    variable: String,
    start: Spanned<Expression>,
    end: Spanned<Expression>,
    body: Vec<Spanned<Statement>>,
    line: usize,
    column: usize,
) -> (r: Spanned<Statement>)
    ensures
        view_stmt(r) == (Located {
            node: SStmt::ForLoop {
                variable: variable@,
                start: view_expr(start),
                end: view_expr(end),
                body: stmts_view(body@),
            },
            line,
            column,
        }),
{
    let ghost b = stmts_view(body@);
    let r = Spanned { node: Statement::ForLoop { variable, start, end, body }, line, column };
    proof {
        assert(view_stmt(r).node->ForLoop_body =~= b);
    }
    r
}

/// A `WHILE` loop.
pub fn make_while(condition: Spanned<Expression>, body: Vec<Spanned<Statement>>, line: usize, column: usize) -> (r: Spanned<Statement>)
    ensures
        view_stmt(r) == (Located {
            node: SStmt::WhileLoop { condition: view_expr(condition), body: stmts_view(body@) },
            line,
            column,
        }),
{
    let ghost b = stmts_view(body@);
    let r = Spanned { node: Statement::WhileLoop { condition, body }, line, column };
    proof {
        assert(view_stmt(r).node->WhileLoop_body =~= b);
    }
    r
}

/// A function declaration.
pub fn make_function(
    name: String,
    parameters: Vec<String>,
    body: Vec<Spanned<Statement>>,
    line: usize,
    column: usize,
) -> (r: Spanned<Statement>)
    ensures
        view_stmt(r) == (Located {
            node: SStmt::FunctionDeclaration {
                name: name@,
                parameters: strings_view(parameters@),
                body: stmts_view(body@),
            },
            line,
            column,
        }),
{
    let ghost b = stmts_view(body@);
    let r = Spanned { node: Statement::FunctionDeclaration { name, parameters, body }, line, column };
    proof {
        assert(view_stmt(r).node->FunctionDeclaration_body =~= b);
    }
    r
}

/// An array literal.
pub fn make_array_literal(elements: Vec<Spanned<Expression>>, line: usize, column: usize) -> (r: Spanned<Expression>)
    ensures
        view_expr(r) == (Located { node: SExpr::ArrayLiteral(exprs_view(elements@)), line, column }),
{
    let ghost xs = exprs_view(elements@);
    let r = Spanned { node: Expression::ArrayLiteral(elements), line, column };
    proof {
        assert(view_expr(r).node->ArrayLiteral_0 =~= xs);
    }
    r
}

/// A function call.
pub fn make_call(name: String, arguments: Vec<Spanned<Expression>>, line: usize, column: usize) -> (r: Spanned<Expression>)
    ensures
        view_expr(r) == (Located {
            node: SExpr::FunctionCall { name: name@, arguments: exprs_view(arguments@) },
            line,
            column,
        }),
{
    let ghost xs = exprs_view(arguments@);
    let r = Spanned { node: Expression::FunctionCall { name, arguments }, line, column };
    proof {
        assert(view_expr(r).node->arguments =~= xs);
    }
    r
}

} // verus!
