//! The symbols a program declares: variables, arrays, constants, statics,
//! functions with their parameters, and imported functions.
use vstd::prelude::*;
use crate::ast::{
    branches_view, import_view, imports_view, stmts_view, strings_view, view_stmt, Located,
    ModuleImport, SExpr, SModuleImport, SStmt, Spanned, Statement,
};

verus! {

#[derive(Debug, Clone, PartialEq)]
pub enum SymbolKind {
    Variable,
    Array { size: usize },
    Const,
    Static,
    Function { parameters: Vec<String> },
    Import { module: String },
}

/// A declared name. Statements carry no position of their own here, so the
/// line and column are 0.
#[derive(Debug, Clone)]
pub struct Symbol {
    pub name: String,
    pub kind: SymbolKind,
    pub line: usize,
    pub column: usize,
}

pub enum SSymbolKind {
    Variable,
    Array { size: usize },
    Const,
    Static,
    Function { parameters: Seq<Seq<char>> },
    Import { module: Seq<char> },
}

pub struct SSymbol {
    pub name: Seq<char>,
    pub kind: SSymbolKind,
    pub line: usize,
    pub column: usize,
}

impl View for SymbolKind {
    type V = SSymbolKind;

    open spec fn view(&self) -> SSymbolKind {
        match self {
            SymbolKind::Variable => SSymbolKind::Variable,
            SymbolKind::Array { size } => SSymbolKind::Array { size: *size },
            SymbolKind::Const => SSymbolKind::Const,
            SymbolKind::Static => SSymbolKind::Static,
            SymbolKind::Function { parameters } => SSymbolKind::Function { parameters: strings_view(parameters@) },
            SymbolKind::Import { module } => SSymbolKind::Import { module: module@ },
        }
    }
}

impl View for Symbol {
    type V = SSymbol;

    open spec fn view(&self) -> SSymbol {
        SSymbol { name: self.name@, kind: self.kind@, line: self.line, column: self.column }
    }
}

pub open spec fn symbols_view(v: Seq<Symbol>) -> Seq<SSymbol> {
    v.map_values(|s: Symbol| s@)
}

/// A symbol at position (0, 0).
pub open spec fn sym(name: Seq<char>, kind: SSymbolKind) -> SSymbol {
    SSymbol { name, kind, line: 0, column: 0 }
}

/// Variables, one for each name.
pub open spec fn variables(names: Seq<Seq<char>>) -> Seq<SSymbol> {
    names.map_values(|n: Seq<char>| sym(n, SSymbolKind::Variable))
}

/// The functions imported by name from the modules, module by module; a
/// module imported whole gives none.
pub open spec fn imported(modules: Seq<SModuleImport>) -> Seq<SSymbol>
    decreases modules.len(),
{
    if modules.len() == 0 {
        Seq::empty()
    } else {
        let m = modules.last();
        imported(modules.drop_last()) + match m.functions {
            Some(names) => names.map_values(|n: Seq<char>| sym(n, SSymbolKind::Import { module: m.name })),
            None => Seq::empty(),
        }
    }
}

/// The symbols a statement declares, nested blocks included; `PUB` is
/// looked through once.
pub open spec fn syms_stmt(s: Located<SStmt>) -> Seq<SSymbol>
    decreases s,
{
    let t = match s.node {
        SStmt::Public(inner) => *inner,
        _ => s,
    };
    match t.node {
        SStmt::Assign { variable, .. } => seq![sym(variable, SSymbolKind::Variable)],
        SStmt::Input { variables: names } => variables(names),
        SStmt::DeclareArray { name, size } => seq![sym(name, SSymbolKind::Array { size })],
        SStmt::ConstDeclaration { name, .. } => seq![sym(name, SSymbolKind::Const)],
        SStmt::StaticDeclaration { name, .. } => seq![sym(name, SSymbolKind::Static)],
        SStmt::FunctionDeclaration { name, parameters, body } => seq![sym(name, SSymbolKind::Function { parameters })]
            + variables(parameters) + syms_block(body),
        SStmt::Import { modules } => imported(modules),
        SStmt::ForLoop { variable, body, .. } => seq![sym(variable, SSymbolKind::Variable)] + syms_block(body),
        SStmt::WhileLoop { body, .. } => syms_block(body),
        SStmt::If { then_branch, else_if_branches, else_branch, .. } => syms_block(then_branch)
            + syms_branches(else_if_branches) + syms_block(else_branch),
        _ => Seq::empty(),
    }
}

/// The symbols of the statements of a block, in order.
pub open spec fn syms_block(ss: Seq<Located<SStmt>>) -> Seq<SSymbol>
    decreases ss,
{
    if ss.len() == 0 {
        Seq::empty()
    } else {
        syms_block(ss.subrange(0, ss.len() - 1)) + syms_stmt(ss[ss.len() - 1])
    }
}

/// The symbols of the `ELSEIF` branches, in order.
pub open spec fn syms_branches(bs: Seq<(Located<SExpr>, Seq<Located<SStmt>>)>) -> Seq<SSymbol>
    decreases bs,
{
    if bs.len() == 0 {
        Seq::empty()
    } else {
        syms_branches(bs.subrange(0, bs.len() - 1)) + syms_block(bs[bs.len() - 1].1)
    }
}

/// Every symbol declared in the statements and in their nested blocks
/// (`IF`, `FOR`, `WHILE` and function bodies), in order.
pub fn collect_symbols(statements: &[Spanned<Statement>]) -> (r: Vec<Symbol>)
    ensures
        symbols_view(r@) == syms_block(stmts_view(statements@)),
{
    let mut symbols: Vec<Symbol> = Vec::new();
    walk(statements, &mut symbols, None);
    assert(symbols_view(symbols@) =~= syms_block(stmts_view(statements@)));
    symbols
}

/// Appends the symbols of the statements to `symbols`. `current_function`
/// names the function whose body is walked, if any.
fn walk(statements: &[Spanned<Statement>], symbols: &mut Vec<Symbol>, current_function: Option<&str>)
    ensures
        symbols_view(final(symbols)@) == symbols_view(old(symbols)@) + syms_block(stmts_view(statements@)),
    decreases stmts_view(statements@), 1nat,
{
    let ghost vs = stmts_view(statements@);
    let mut i: usize = 0;
    while i < statements.len()
        invariant
            i <= statements.len(),
            vs == stmts_view(statements@),
            symbols_view(symbols@) == symbols_view(old(symbols)@) + syms_block(vs.subrange(0, i as int)),
        decreases statements.len() - i,
    {
        assert(vs[i as int] == view_stmt(statements@[i as int]));
        let ghost before = symbols_view(symbols@);
        walk_statement(&statements[i], symbols, current_function);
        assert(vs.subrange(0, i + 1).subrange(0, i as int) =~= vs.subrange(0, i as int));
        assert(symbols_view(symbols@) =~= symbols_view(old(symbols)@) + syms_block(vs.subrange(0, i + 1)));
        i = i + 1;
    }
    assert(vs.subrange(0, statements.len() as int) =~= vs);
}

/// Appends a variable symbol for each name.
fn push_variables(names: &Vec<String>, symbols: &mut Vec<Symbol>)
    ensures
        symbols_view(final(symbols)@) == symbols_view(old(symbols)@) + variables(strings_view(names@)),
{
    let mut i: usize = 0;
    while i < names.len()
        invariant
            i <= names.len(),
            symbols_view(symbols@) == symbols_view(old(symbols)@) + variables(strings_view(names@.subrange(0, i as int))),
        decreases names.len() - i,
    {
        let ghost before = symbols_view(symbols@);
        symbols.push(Symbol { name: names[i].clone(), kind: SymbolKind::Variable, line: 0, column: 0 });
        assert(symbols_view(symbols@) =~= before.push(sym(names@[i as int]@, SSymbolKind::Variable)));
        assert(variables(strings_view(names@.subrange(0, i + 1))) =~= variables(strings_view(names@.subrange(0, i as int))).push(sym(names@[i as int]@, SSymbolKind::Variable)));
        assert(symbols_view(symbols@) =~= symbols_view(old(symbols)@) + variables(strings_view(names@.subrange(0, i + 1))));
        i = i + 1;
    }
    assert(names@.subrange(0, names.len() as int) =~= names@);
}

/// Appends the functions imported by name from the modules.
fn push_imports(modules: &Vec<ModuleImport>, symbols: &mut Vec<Symbol>)
    ensures
        symbols_view(final(symbols)@) == symbols_view(old(symbols)@) + imported(imports_view(modules@)),
{
    let mut i: usize = 0;
    while i < modules.len()
        invariant
            i <= modules.len(),
            symbols_view(symbols@) == symbols_view(old(symbols)@) + imported(imports_view(modules@.subrange(0, i as int))),
        decreases modules.len() - i,
    {
        let ghost before = symbols_view(symbols@);
        let m = &modules[i];
        assert(imports_view(modules@.subrange(0, i + 1)).drop_last() =~= imports_view(modules@.subrange(0, i as int)));
        assert(imports_view(modules@.subrange(0, i + 1)).last() == import_view(*m));
        match &m.functions {
            Some(names) => {
                let ghost mname = m.name@;
                let mut k: usize = 0;
                while k < names.len()
                    invariant
                        k <= names.len(),
                        mname == m.name@,
                        symbols_view(symbols@) == before + strings_view(names@.subrange(0, k as int)).map_values(
                            |n: Seq<char>| sym(n, SSymbolKind::Import { module: mname }),
                        ),
                    decreases names.len() - k,
                {
                    let ghost mid = symbols_view(symbols@);
                    symbols.push(Symbol {
                        name: names[k].clone(),
                        kind: SymbolKind::Import { module: m.name.clone() },
                        line: 0,
                        column: 0,
                    });
                    assert(symbols_view(symbols@) =~= mid.push(sym(names@[k as int]@, SSymbolKind::Import { module: mname })));
                    assert(strings_view(names@.subrange(0, k + 1)) =~= strings_view(names@.subrange(0, k as int)).push(names@[k as int]@));
                    assert(symbols_view(symbols@) =~= before + strings_view(names@.subrange(0, k + 1)).map_values(
                        |n: Seq<char>| sym(n, SSymbolKind::Import { module: mname }),
                    ));
                    k = k + 1;
                }
                assert(names@.subrange(0, names.len() as int) =~= names@);
            },
            None => {
                assert(symbols_view(symbols@) =~= before + Seq::<SSymbol>::empty());
            },
        }
        i = i + 1;
    }
    assert(modules@.subrange(0, modules.len() as int) =~= modules@);
}

/// Appends the symbols of one statement, looking through `PUB` once.
fn walk_statement(stmt: &Spanned<Statement>, symbols: &mut Vec<Symbol>, current_function: Option<&str>)
    ensures
        symbols_view(final(symbols)@) == symbols_view(old(symbols)@) + syms_stmt(view_stmt(*stmt)),
    decreases view_stmt(*stmt), 0nat,
{
    let ghost v = view_stmt(*stmt);
    let ghost base = symbols_view(symbols@);
    let t = unwrap_public(stmt);
    let ghost vt = view_stmt(*t);
    proof {
        if stmt.node is Public {
            assert(*v.node->Public_0 == view_stmt(*stmt.node->Public_0));
        }
    }
    match &t.node {
        Statement::Assign { variable, .. } => {
            symbols.push(Symbol { name: variable.clone(), kind: SymbolKind::Variable, line: 0, column: 0 });
        },
        Statement::Input { variables: names } => {
            push_variables(names, symbols);
        },
        Statement::DeclareArray { name, size } => {
            symbols.push(Symbol { name: name.clone(), kind: SymbolKind::Array { size: *size }, line: 0, column: 0 });
        },
        Statement::ConstDeclaration { name, .. } => {
            symbols.push(Symbol { name: name.clone(), kind: SymbolKind::Const, line: 0, column: 0 });
        },
        Statement::StaticDeclaration { name, .. } => {
            symbols.push(Symbol { name: name.clone(), kind: SymbolKind::Static, line: 0, column: 0 });
        },
        Statement::FunctionDeclaration { name, parameters, body } => {
            symbols.push(Symbol {
                name: name.clone(),
                kind: SymbolKind::Function { parameters: clone_strings(parameters) },
                line: 0,
                column: 0,
            });
            push_variables(parameters, symbols);
            assert(vt.node->FunctionDeclaration_body =~= stmts_view(body@));
            walk(body.as_slice(), symbols, Some(name.as_str()));
        },
        Statement::Import { modules } => {
            push_imports(modules, symbols);
        },
        Statement::ForLoop { variable, body, .. } => {
            symbols.push(Symbol { name: variable.clone(), kind: SymbolKind::Variable, line: 0, column: 0 });
            assert(vt.node->ForLoop_body =~= stmts_view(body@));
            walk(body.as_slice(), symbols, current_function);
        },
        Statement::WhileLoop { body, .. } => {
            assert(vt.node->WhileLoop_body =~= stmts_view(body@));
            walk(body.as_slice(), symbols, current_function);
        },
        Statement::If { then_branch, else_if_branches, else_branch, .. } => {
            assert(vt.node->then_branch =~= stmts_view(then_branch@));
            walk(then_branch.as_slice(), symbols, current_function);
            proof {
                let vb = else_if_branches@;
                assert forall|k: int| 0 <= k < vb.len() implies (vt.node->else_if_branches)[k] == branches_view(vb)[k] by {
                    assert((vt.node->else_if_branches)[k].1 =~= stmts_view(vb[k].1@));
                }
                assert(vt.node->else_if_branches =~= branches_view(vb));
            }
            walk_branches(else_if_branches, symbols, current_function);
            assert(vt.node->else_branch =~= stmts_view(else_branch@));
            walk(else_branch.as_slice(), symbols, current_function);
        },
        _ => {},
    }
    assert(symbols_view(symbols@) =~= base + syms_stmt(v));
}

/// Appends the symbols of the `ELSEIF` branches.
fn walk_branches(
    branches: &Vec<(Spanned<crate::ast::Expression>, Vec<Spanned<Statement>>)>,
    symbols: &mut Vec<Symbol>,
    current_function: Option<&str>,
)
    ensures
        symbols_view(final(symbols)@) == symbols_view(old(symbols)@) + syms_branches(branches_view(branches@)),
    decreases branches_view(branches@), 1nat,
{
    let ghost bs = branches_view(branches@);
    let mut i: usize = 0;
    while i < branches.len()
        invariant
            i <= branches.len(),
            bs == branches_view(branches@),
            symbols_view(symbols@) == symbols_view(old(symbols)@) + syms_branches(bs.subrange(0, i as int)),
        decreases branches.len() - i,
    {
        let (_, branch) = &branches[i];
        assert(bs[i as int].1 == stmts_view(branch@));
        walk(branch.as_slice(), symbols, current_function);
        assert(bs.subrange(0, i + 1).subrange(0, i as int) =~= bs.subrange(0, i as int));
        assert(symbols_view(symbols@) =~= symbols_view(old(symbols)@) + syms_branches(bs.subrange(0, i + 1)));
        i = i + 1;
    }
    assert(bs.subrange(0, branches.len() as int) =~= bs);
}

/// The statement inside a `PUB`, or the statement itself.
pub fn unwrap_public(stmt: &Spanned<Statement>) -> (r: &Spanned<Statement>)
    ensures
        r == (match stmt.node {
            Statement::Public(inner) => *inner,
            _ => *stmt,
        }),
{
    match &stmt.node {
        Statement::Public(inner) => inner,
        _ => stmt,
    }
}

/// A copy of a list of strings.
pub(crate) fn clone_strings(v: &Vec<String>) -> (r: Vec<String>)
    ensures
        r@ == v@,
{
    let mut r: Vec<String> = Vec::new();
    let mut i: usize = 0;
    while i < v.len()
        invariant
            i <= v.len(),
            r@ == v@.subrange(0, i as int),
        decreases v.len() - i,
    {
        r.push(v[i].clone());
        assert(r@ =~= v@.subrange(0, i + 1));
        i = i + 1;
    }
    assert(v@.subrange(0, v.len() as int) =~= v@);
    r
}

/// Whether a statement declares `name` with `kind`, itself or in any block
/// nested inside it (the branches of `IF`, the bodies of `FOR`, `WHILE` and
/// `FUNCTION`): an assignment, an `INPUT`, a `FOR` loop's counter or a
/// function's parameter makes a variable; `DECLARE`, `CONST`, `STATIC` and
/// `FUNCTION` make what they say; a function imported by name from a
/// module is an import of that module. A `PUB` statement declares what its inner
/// statement does.
pub open spec fn declares(s: Located<SStmt>, name: Seq<char>, kind: SSymbolKind) -> bool
    decreases s,
{
    let t = match s.node {
        SStmt::Public(inner) => *inner,
        _ => s,
    };
    let variable_kind = kind == SSymbolKind::Variable;
    match t.node {
        SStmt::Assign { variable, .. } => variable_kind && variable == name,
        SStmt::Input { variables } => variable_kind && variables.contains(name),
        SStmt::DeclareArray { name: n, size } => n == name && kind == (SSymbolKind::Array { size }),
        SStmt::ConstDeclaration { name: n, .. } => n == name && kind == SSymbolKind::Const,
        SStmt::StaticDeclaration { name: n, .. } => n == name && kind == SSymbolKind::Static,
        SStmt::FunctionDeclaration { name: n, parameters, body } =>
            (n == name && kind == (SSymbolKind::Function { parameters }))
            || (variable_kind && parameters.contains(name))
            || exists|i: int| 0 <= i < body.len() && declares(body[i], name, kind),
        SStmt::ForLoop { variable, body, .. } =>
            (variable_kind && variable == name)
            || exists|i: int| 0 <= i < body.len() && declares(body[i], name, kind),
        SStmt::WhileLoop { body, .. } => exists|i: int| 0 <= i < body.len() && declares(body[i], name, kind),
        SStmt::Import { modules } => exists|k: int| 0 <= k < modules.len() && match (#[trigger] modules[k]).functions {
            Some(fs) => fs.contains(name) && kind == (SSymbolKind::Import { module: modules[k].name }),
            None => false,
        },
        SStmt::If { then_branch, else_if_branches, else_branch, .. } =>
            (exists|i: int| 0 <= i < then_branch.len() && declares(then_branch[i], name, kind))
            || (exists|j: int, i: int| 0 <= j < else_if_branches.len() && 0 <= i < else_if_branches[j].1.len()
                && declares(else_if_branches[j].1[i], name, kind))
            || (exists|i: int| 0 <= i < else_branch.len() && declares(else_branch[i], name, kind)),
        _ => false,
    }
}

/// Every declaration anywhere in a program's statement tree, however deeply
/// nested in `IF`, `ELSEIF`, `ELSE`, `FOR`, `WHILE` or function bodies,
/// gives its symbol: a name assigned inside a loop is a variable of the
/// program.
pub proof fn lemma_declarations_collected(ss: Seq<Located<SStmt>>, i: int, name: Seq<char>, kind: SSymbolKind)
    requires
        0 <= i < ss.len(),
        declares(ss[i], name, kind),
    ensures
        syms_block(ss).contains(sym(name, kind)),
    decreases ss, 0nat,
{
    lemma_stmt_declaration_collected(ss[i], name, kind);
    lemma_block_holds_stmt(ss, i, sym(name, kind));
}

/// What a statement of a block gives is among what the block gives.
proof fn lemma_block_holds_stmt(ss: Seq<Located<SStmt>>, i: int, x: SSymbol)
    requires
        0 <= i < ss.len(),
        syms_stmt(ss[i]).contains(x),
    ensures
        syms_block(ss).contains(x),
    decreases ss.len(),
{
    let init = ss.subrange(0, ss.len() - 1);
    if i < ss.len() - 1 {
        assert(init[i] == ss[i]);
        lemma_block_holds_stmt(init, i, x);
        lemma_contains_left(syms_block(init), syms_stmt(ss[ss.len() - 1]), x);
    } else {
        lemma_contains_right(syms_block(init), syms_stmt(ss[ss.len() - 1]), x);
    }
}

/// What a block of an `ELSEIF` branch gives is among what the branches give.
proof fn lemma_branches_hold_block(bs: Seq<(Located<SExpr>, Seq<Located<SStmt>>)>, j: int, x: SSymbol)
    requires
        0 <= j < bs.len(),
        syms_block(bs[j].1).contains(x),
    ensures
        syms_branches(bs).contains(x),
    decreases bs.len(),
{
    let init = bs.subrange(0, bs.len() - 1);
    if j < bs.len() - 1 {
        assert(init[j] == bs[j]);
        lemma_branches_hold_block(init, j, x);
        lemma_contains_left(syms_branches(init), syms_block(bs[bs.len() - 1].1), x);
    } else {
        lemma_contains_right(syms_branches(init), syms_block(bs[bs.len() - 1].1), x);
    }
}

proof fn lemma_contains_left(a: Seq<SSymbol>, b: Seq<SSymbol>, x: SSymbol)
    requires
        a.contains(x),
    ensures
        (a + b).contains(x),
{
    let k = choose|k: int| 0 <= k < a.len() && a[k] == x;
    assert((a + b)[k] == x);
}

proof fn lemma_contains_right(a: Seq<SSymbol>, b: Seq<SSymbol>, x: SSymbol)
    requires
        b.contains(x),
    ensures
        (a + b).contains(x),
{
    let k = choose|k: int| 0 <= k < b.len() && b[k] == x;
    assert((a + b)[a.len() + k] == x);
}

/// A function imported by name from a module has its import symbol.
proof fn lemma_imported_holds(modules: Seq<SModuleImport>, k: int, name: Seq<char>)
    requires
        0 <= k < modules.len(),
        modules[k].functions matches Some(fs) && fs.contains(name),
    ensures
        imported(modules).contains(sym(name, SSymbolKind::Import { module: modules[k].name })),
    decreases modules.len(),
{
    let x = sym(name, SSymbolKind::Import { module: modules[k].name });
    let init = modules.drop_last();
    let m = modules.last();
    let tail = match m.functions {
        Some(names) => names.map_values(|n: Seq<char>| sym(n, SSymbolKind::Import { module: m.name })),
        None => Seq::empty(),
    };
    if k < modules.len() - 1 {
        assert(init[k] == modules[k]);
        lemma_imported_holds(init, k, name);
        lemma_contains_left(imported(init), tail, x);
    } else {
        let fs = m.functions->0;
        let j = choose|j: int| 0 <= j < fs.len() && fs[j] == name;
        assert(tail[j] == x);
        lemma_contains_right(imported(init), tail, x);
    }
}

/// A name among `names` has its variable.
proof fn lemma_variables_hold(names: Seq<Seq<char>>, name: Seq<char>)
    requires
        names.contains(name),
    ensures
        variables(names).contains(sym(name, SSymbolKind::Variable)),
{
    let k = choose|k: int| 0 <= k < names.len() && names[k] == name;
    assert(variables(names)[k] == sym(name, SSymbolKind::Variable));
}

proof fn lemma_stmt_declaration_collected(s: Located<SStmt>, name: Seq<char>, kind: SSymbolKind)
    requires
        declares(s, name, kind),
    ensures
        syms_stmt(s).contains(sym(name, kind)),
    decreases s,
{
    let x = sym(name, kind);
    let t = match s.node {
        SStmt::Public(inner) => *inner,
        _ => s,
    };
    match t.node {
        SStmt::Assign { variable, .. } => {
            assert(syms_stmt(s)[0] == x);
        },
        SStmt::Input { variables: names } => {
            lemma_variables_hold(names, name);
        },
        SStmt::DeclareArray { .. } => {
            assert(syms_stmt(s)[0] == x);
        },
        SStmt::ConstDeclaration { .. } => {
            assert(syms_stmt(s)[0] == x);
        },
        SStmt::StaticDeclaration { .. } => {
            assert(syms_stmt(s)[0] == x);
        },
        SStmt::FunctionDeclaration { name: n, parameters, body } => {
            let head = seq![sym(n, SSymbolKind::Function { parameters })];
            if n == name && kind == (SSymbolKind::Function { parameters }) {
                lemma_contains_left(head, variables(parameters), x);
                assert(head[0] == x);
            } else if kind == SSymbolKind::Variable && parameters.contains(name) {
                lemma_variables_hold(parameters, name);
                lemma_contains_right(head, variables(parameters), x);
            } else {
                let i = choose|i: int| 0 <= i < body.len() && declares(body[i], name, kind);
                lemma_declarations_collected(body, i, name, kind);
            }
            if !(kind == SSymbolKind::Variable && parameters.contains(name)) && !(n == name && kind == (SSymbolKind::Function { parameters })) {
                lemma_contains_right(head + variables(parameters), syms_block(body), x);
            } else {
                lemma_contains_left(head + variables(parameters), syms_block(body), x);
            }
        },
        SStmt::ForLoop { variable, body, .. } => {
            let head = seq![sym(variable, SSymbolKind::Variable)];
            if kind == SSymbolKind::Variable && variable == name {
                assert(head[0] == x);
                lemma_contains_left(head, syms_block(body), x);
            } else {
                let i = choose|i: int| 0 <= i < body.len() && declares(body[i], name, kind);
                lemma_declarations_collected(body, i, name, kind);
                lemma_contains_right(head, syms_block(body), x);
            }
        },
        SStmt::WhileLoop { body, .. } => {
            let i = choose|i: int| 0 <= i < body.len() && declares(body[i], name, kind);
            lemma_declarations_collected(body, i, name, kind);
        },
        SStmt::Import { modules } => {
            let k = choose|k: int| 0 <= k < modules.len() && match (#[trigger] modules[k]).functions {
                Some(fs) => fs.contains(name) && kind == (SSymbolKind::Import { module: modules[k].name }),
                None => false,
            };
            lemma_imported_holds(modules, k, name);
        },
        SStmt::If { then_branch, else_if_branches, else_branch, .. } => {
            let a = syms_block(then_branch);
            let b = syms_branches(else_if_branches);
            let c = syms_block(else_branch);
            if exists|i: int| 0 <= i < then_branch.len() && declares(then_branch[i], name, kind) {
                let i = choose|i: int| 0 <= i < then_branch.len() && declares(then_branch[i], name, kind);
                lemma_declarations_collected(then_branch, i, name, kind);
                lemma_contains_left(a, b, x);
                lemma_contains_left(a + b, c, x);
            } else if exists|j: int, i: int| 0 <= j < else_if_branches.len() && 0 <= i < else_if_branches[j].1.len()
                && declares(else_if_branches[j].1[i], name, kind) {
                let (j, i) = choose|j: int, i: int| 0 <= j < else_if_branches.len() && 0 <= i < else_if_branches[j].1.len()
                    && declares(else_if_branches[j].1[i], name, kind);
                lemma_declarations_collected(else_if_branches[j].1, i, name, kind);
                lemma_branches_hold_block(else_if_branches, j, x);
                lemma_contains_right(a, b, x);
                lemma_contains_left(a + b, c, x);
            } else {
                let i = choose|i: int| 0 <= i < else_branch.len() && declares(else_branch[i], name, kind);
                lemma_declarations_collected(else_branch, i, name, kind);
                lemma_contains_right(a + b, c, x);
            }
        },
        _ => {},
    }
}

} // verus!
