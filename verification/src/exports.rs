//! What a program file offers to its sibling files: its `PUB` declarations.
use vstd::prelude::*;
use vstd::string::StringExecFns;
use crate::ast::{stmts_view, strings_view, view_stmt, Located, SStmt, Spanned, Statement};
use crate::checker::{Diagnostic, SDiagnostic};
use crate::parser::Severity;
use crate::symbols::clone_strings;
use crate::text::{decimal, push_decimal, str_eq};

verus! {

/// A declaration a file exports with `PUB`.
#[derive(Debug, Clone)]
pub enum Export {
    Function { name: String, parameters: Vec<String> },
    Const { name: String },
    Array { name: String, size: usize },
}

/// The exported name.
pub open spec fn export_name_of(e: Export) -> Seq<char> {
    match e {
        Export::Function { name, .. } => name@,
        Export::Const { name } => name@,
        Export::Array { name, .. } => name@,
    }
}

/// The name an export is known by.
pub fn export_name(export: &Export) -> (r: String)
    ensures
        r@ == export_name_of(*export),
{
    match export {
        Export::Function { name, .. } => name.clone(),
        Export::Const { name } => name.clone(),
        Export::Array { name, .. } => name.clone(),
    }
}

/// Whether the program holds a `PUB` declaration at its top level.
pub fn has_pub_exports(ast: &[Spanned<Statement>]) -> (r: bool)
    ensures
        r == exists|i: int| 0 <= i < ast@.len() && (#[trigger] stmts_view(ast@)[i]).node is Public,
{
    let ghost v = stmts_view(ast@);
    let mut i: usize = 0;
    while i < ast.len()
        invariant
            i <= ast.len(),
            v == stmts_view(ast@),
            forall|k: int| 0 <= k < i ==> !((#[trigger] v[k]).node is Public),
        decreases ast.len() - i,
    {
        assert(v[i as int] == view_stmt(ast@[i as int]));
        match &ast[i].node {
            Statement::Public(_) => {
                return true;
            },
            _ => {},
        }
        i = i + 1;
    }
    false
}

/// The message for a name exported by more than one sibling file.
pub open spec fn ambiguous_message(name: Seq<char>) -> Seq<char> {
    "Ambiguous PUB export: '"@ + name + "' is declared in more than one sibling file"@
}

/// The names of the exports, in order.
pub open spec fn export_names(exports: Seq<Export>) -> Seq<Seq<char>> {
    exports.map_values(|e: Export| export_name_of(e))
}

/// The index of the first export whose name is already in `seen` or among
/// the exports before it, or the number of exports when there is none.
pub open spec fn first_clash(seen: Seq<Seq<char>>, names: Seq<Seq<char>>) -> int
    decreases names.len(),
{
    if names.len() == 0 {
        0
    } else if seen.contains(names[0]) {
        0
    } else {
        1 + first_clash(seen.push(names[0]), names.subrange(1, names.len() as int))
    }
}

proof fn lemma_first_clash_bounds(seen: Seq<Seq<char>>, names: Seq<Seq<char>>)
    ensures
        0 <= first_clash(seen, names) <= names.len(),
    decreases names.len(),
{
    if names.len() > 0 && !seen.contains(names[0]) {
        lemma_first_clash_bounds(seen.push(names[0]), names.subrange(1, names.len() as int));
    }
}

/// Whether `name` is among `names`.
fn names_contain(names: &Vec<String>, name: &str) -> (r: bool)
    ensures
        r == names@.map_values(|s: String| s@).contains(name@),
{
    let ghost v = names@.map_values(|s: String| s@);
    let mut j: usize = 0;
    while j < names.len()
        invariant
            j <= names.len(),
            v == names@.map_values(|s: String| s@),
            forall|k: int| 0 <= k < j ==> (#[trigger] v[k]) != name@,
        decreases names.len() - j,
    {
        if str_eq(names[j].as_str(), name) {
            assert(v[j as int] == name@);
            return true;
        }
        j = j + 1;
    }
    false
}

/// Adds the names of a file's exports to the names seen so far; fails on
/// the first name that is already there.
pub fn record_exports(seen: &mut Vec<String>, exports: &[Export]) -> (r: Result<(), String>)
    ensures
        ({
            let names = export_names(exports@);
            let old_seen = old(seen)@.map_values(|s: String| s@);
            let k = first_clash(old_seen, names);
            &&& 0 <= k <= names.len()
            &&& final(seen)@.map_values(|s: String| s@) == old_seen + names.take(k)
            &&& match r {
                Ok(_) => k == names.len(),
                Err(m) => k < names.len() && m@ == ambiguous_message(names[k]),
            }
        }),
{
    let ghost names = export_names(exports@);
    let ghost old_seen = seen@.map_values(|s: String| s@);
    let mut i: usize = 0;
    proof {
        lemma_first_clash_bounds(old_seen, names);
    }
    assert(names.skip(0) =~= names);
    assert(names.take(0) =~= Seq::<Seq<char>>::empty());
    assert(old_seen + names.take(0) =~= old_seen);
    while i < exports.len()
        invariant
            i <= exports.len(),
            names == export_names(exports@),
            0 <= i <= first_clash(old_seen, names) <= names.len(),
            first_clash(old_seen, names) == i + first_clash(seen@.map_values(|s: String| s@), names.skip(i as int)),
            seen@.map_values(|s: String| s@) == old_seen + names.take(i as int),
            old_seen == old(seen)@.map_values(|s: String| s@),
        decreases exports.len() - i,
    {
        let ghost cur = seen@.map_values(|s: String| s@);
        let name = export_name(&exports[i]);
        assert(names[i as int] == name@);
        assert(names.skip(i as int)[0] == name@);
        if names_contain(seen, name.as_str()) {
            let mut m = String::from_str("Ambiguous PUB export: '");
            m.append(name.as_str());
            m.append("' is declared in more than one sibling file");
            assert(names.skip(i as int).len() > 0);
            assert(first_clash(cur, names.skip(i as int)) == 0);
            return Err(m);
        }
        assert(!cur.contains(name@));
        proof {
            lemma_first_clash_bounds(cur.push(name@), names.skip(i + 1));
        }
        assert(names.skip(i as int).subrange(1, names.skip(i as int).len() as int) =~= names.skip(i + 1));
        seen.push(name);
        assert(seen@.map_values(|s: String| s@) =~= cur.push(name@));
        assert(old_seen + names.take(i + 1) =~= (old_seen + names.take(i as int)).push(names[i as int]));
        i = i + 1;
    }
    assert(names.skip(exports.len() as int) =~= Seq::<Seq<char>>::empty());
    assert(first_clash(seen@.map_values(|s: String| s@), names.skip(exports.len() as int)) == 0);
    assert(names.take(exports.len() as int) =~= names);
    Ok(())
}

/// The mirror of an export.
pub enum SExport {
    Function { name: Seq<char>, parameters: Seq<Seq<char>> },
    Const { name: Seq<char> },
    Array { name: Seq<char>, size: usize },
}

impl View for Export {
    type V = SExport;

    open spec fn view(&self) -> SExport {
        match self {
            Export::Function { name, parameters } => SExport::Function {
                name: name@,
                parameters: strings_view(parameters@),
            },
            Export::Const { name } => SExport::Const { name: name@ },
            Export::Array { name, size } => SExport::Array { name: name@, size: *size },
        }
    }
}

pub open spec fn exports_view(v: Seq<Export>) -> Seq<SExport> {
    v.map_values(|e: Export| e@)
}

/// What a top-level statement exports: a function, array or constant
/// declared with `PUB`.
pub open spec fn export_of(s: SStmt) -> Option<SExport> {
    match s {
        SStmt::Public(inner) => match inner.node {
            SStmt::FunctionDeclaration { name, parameters, .. } => Some(SExport::Function { name, parameters }),
            SStmt::DeclareArray { name, size } => Some(SExport::Array { name, size }),
            SStmt::ConstDeclaration { name, .. } => Some(SExport::Const { name }),
            _ => None,
        },
        _ => None,
    }
}

/// The exports of a program, in the order of its top-level statements.
pub open spec fn exports_of(stmts: Seq<Located<SStmt>>) -> Seq<SExport>
    decreases stmts.len(),
{
    if stmts.len() == 0 {
        Seq::empty()
    } else {
        exports_of(stmts.drop_last()) + match export_of(stmts.last().node) {
            Some(e) => seq![e],
            None => Seq::empty(),
        }
    }
}

/// The declarations a program exports with `PUB`, in order.
pub fn collect_exports(ast: &[Spanned<Statement>]) -> (r: Vec<Export>)
    ensures
        exports_view(r@) == exports_of(stmts_view(ast@)),
{
    let ghost v = stmts_view(ast@);
    let mut r: Vec<Export> = Vec::new();
    let mut i: usize = 0;
    assert(v.take(0) =~= Seq::<Located<SStmt>>::empty());
    assert(exports_view(r@) =~= Seq::<SExport>::empty());
    while i < ast.len()
        invariant
            i <= ast.len(),
            v == stmts_view(ast@),
            exports_view(r@) == exports_of(v.take(i as int)),
        decreases ast.len() - i,
    {
        assert(v.take(i + 1).drop_last() =~= v.take(i as int));
        assert(v.take(i + 1).last() == view_stmt(ast@[i as int]));
        let ghost before = exports_view(r@);
        match &ast[i].node {
            Statement::Public(inner) => {
                let ghost iv = view_stmt(**inner);
                assert(v[i as int].node == SStmt::Public(Box::new(iv)));
                match &inner.node {
                    Statement::FunctionDeclaration { name, parameters, .. } => {
                        let e = Export::Function { name: name.clone(), parameters: clone_strings(parameters) };
                        assert(export_of(v[i as int].node) == Some(e@));
                        r.push(e);
                        assert(exports_view(r@) =~= before.push(e@));
                    },
                    Statement::DeclareArray { name, size } => {
                        let e = Export::Array { name: name.clone(), size: *size };
                        assert(export_of(v[i as int].node) == Some(e@));
                        r.push(e);
                        assert(exports_view(r@) =~= before.push(e@));
                    },
                    Statement::ConstDeclaration { name, .. } => {
                        let e = Export::Const { name: name.clone() };
                        assert(export_of(v[i as int].node) == Some(e@));
                        r.push(e);
                        assert(exports_view(r@) =~= before.push(e@));
                    },
                    _ => {
                        assert(before + Seq::<SExport>::empty() =~= before);
                    },
                }
            },
            _ => {
                assert(before + Seq::<SExport>::empty() =~= before);
            },
        }
        i = i + 1;
    }
    assert(v.take(ast.len() as int) =~= v);
    r
}

pub open spec fn diags_view(v: Seq<Diagnostic>) -> Seq<SDiagnostic> {
    v.map_values(|d: Diagnostic| d@)
}

/// The lines that list a file's syntax errors, one per error diagnostic.
pub open spec fn error_lines(ds: Seq<SDiagnostic>) -> Seq<char>
    decreases ds.len(),
{
    if ds.len() == 0 {
        Seq::empty()
    } else {
        let d = ds.last();
        error_lines(ds.drop_last()) + if d.severity == Severity::Error {
            "  error at line "@ + decimal(d.line as nat) + ", column "@ + decimal(d.column as nat) + ": "@ + d.message + "\n"@
        } else {
            Seq::empty()
        }
    }
}

/// Whether any of the diagnostics is an error.
pub open spec fn has_error(ds: Seq<SDiagnostic>) -> bool {
    exists|i: int| 0 <= i < ds.len() && (#[trigger] ds[i]).severity == Severity::Error
}

/// Why a sibling file cannot be loaded: its syntax errors, when it has any.
pub fn sibling_error_message(path: &str, diagnostics: &[Diagnostic]) -> (r: Option<String>)
    ensures
        match r {
            Some(m) => has_error(diags_view(diagnostics@)) && m@ == "Cannot load sibling module "@ + path@
                + ": syntax errors found\n"@ + error_lines(diags_view(diagnostics@)),
            None => !has_error(diags_view(diagnostics@)),
        },
{
    let ghost dv = diags_view(diagnostics@);
    let mut any = false;
    let mut lines = String::new();
    let mut i: usize = 0;
    assert(dv.take(0) =~= Seq::<SDiagnostic>::empty());
    while i < diagnostics.len()
        invariant
            i <= diagnostics.len(),
            dv == diags_view(diagnostics@),
            lines@ == error_lines(dv.take(i as int)),
            any == exists|k: int| 0 <= k < i && (#[trigger] dv[k]).severity == Severity::Error,
        decreases diagnostics.len() - i,
    {
        assert(dv.take(i + 1).drop_last() =~= dv.take(i as int));
        assert(dv.take(i + 1).last() == dv[i as int]);
        assert(dv[i as int] == diagnostics@[i as int]@);
        let d = &diagnostics[i];
        match d.severity {
            Severity::Error => {
                any = true;
                lines.append("  error at line ");
                push_decimal(&mut lines, d.line);
                lines.append(", column ");
                push_decimal(&mut lines, d.column);
                lines.append(": ");
                lines.append(d.message.as_str());
                lines.append("\n");
            },
            Severity::Warning => {},
        }
        i = i + 1;
    }
    assert(dv.take(diagnostics.len() as int) =~= dv);
    if any {
        let mut m = String::from_str("Cannot load sibling module ");
        m.append(path);
        m.append(": syntax errors found\n");
        m.append(lines.as_str());
        Some(m)
    } else {
        None
    }
}

} // verus!
