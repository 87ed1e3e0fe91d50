//! The editor's knowledge of the language itself — keywords, built-in
//! functions and the functions of each module — and the completion list it
//! builds from that knowledge and the symbols of the open document.
use vstd::prelude::*;
use vstd::string::StringExecFns;
use crate::editor::{completion_detail, completion_detail_text, completion_insert, completion_insert_text, syms_view};
use crate::symbols::{SSymbol, SSymbolKind, Symbol, SymbolKind};
use crate::text::str_eq;

verus! {

/// What the editor knows of a keyword or a function: a one-line
/// description, a longer explanation and an example.
#[derive(Debug, Clone)]
pub struct SymbolInfo {
    pub description: String,
    pub detail: String,
    pub example: String,
}

/// What the editor knows of a module: its description, a longer
/// explanation and its functions.
#[derive(Debug, Clone)]
pub struct ModuleInfo {
    pub description: String,
    pub detail: String,
    pub functions: Vec<(String, SymbolInfo)>,
}

/// The keywords, modules and built-in functions the editor knows, each
/// under its name.
#[derive(Debug, Clone)]
pub struct Definitions {
    pub keywords: Vec<(String, SymbolInfo)>,
    pub modules: Vec<(String, ModuleInfo)>,
    pub builtins: Vec<(String, SymbolInfo)>,
}

pub struct SInfo {
    pub description: Seq<char>,
    pub detail: Seq<char>,
    pub example: Seq<char>,
}

pub struct SModuleInfo {
    pub description: Seq<char>,
    pub detail: Seq<char>,
    pub functions: Seq<(Seq<char>, SInfo)>,
}

pub struct SDefinitions {
    pub keywords: Seq<(Seq<char>, SInfo)>,
    pub modules: Seq<(Seq<char>, SModuleInfo)>,
    pub builtins: Seq<(Seq<char>, SInfo)>,
}

impl View for SymbolInfo {
    type V = SInfo;

    open spec fn view(&self) -> SInfo {
        SInfo { description: self.description@, detail: self.detail@, example: self.example@ }
    }
}

pub open spec fn infos_view(v: Seq<(String, SymbolInfo)>) -> Seq<(Seq<char>, SInfo)> {
    v.map_values(|e: (String, SymbolInfo)| (e.0@, e.1@))
}

impl View for ModuleInfo {
    type V = SModuleInfo;

    open spec fn view(&self) -> SModuleInfo {
        SModuleInfo {
            description: self.description@,
            detail: self.detail@,
            functions: infos_view(self.functions@),
        }
    }
}

pub open spec fn modules_view(v: Seq<(String, ModuleInfo)>) -> Seq<(Seq<char>, SModuleInfo)> {
    v.map_values(|e: (String, ModuleInfo)| (e.0@, e.1@))
}

impl View for Definitions {
    type V = SDefinitions;

    open spec fn view(&self) -> SDefinitions {
        SDefinitions {
            keywords: infos_view(self.keywords@),
            modules: modules_view(self.modules@),
            builtins: infos_view(self.builtins@),
        }
    }
}

/// How a completion item presents itself.
#[derive(Debug, Clone, Copy, PartialEq, Eq, Structural)]
pub enum CompletionKind {
    Keyword,
    Function,
    Variable,
    Constant,
}

/// An item of the completion list: the text offered, its kind, a short
/// detail, documentation for the language's own names, and the snippet a
/// document symbol inserts.
#[derive(Debug, Clone)]
pub struct CompletionEntry {
    pub label: String,
    pub kind: CompletionKind,
    pub detail: String,
    pub documentation: Option<String>,
    pub insert_text: Option<String>,
}

pub struct SEntry {
    pub label: Seq<char>,
    pub kind: CompletionKind,
    pub detail: Seq<char>,
    pub documentation: Option<Seq<char>>,
    pub insert_text: Option<Seq<char>>,
}

pub open spec fn opt_view(o: Option<String>) -> Option<Seq<char>> {
    match o {
        Some(s) => Some(s@),
        None => None,
    }
}

impl View for CompletionEntry {
    type V = SEntry;

    open spec fn view(&self) -> SEntry {
        SEntry {
            label: self.label@,
            kind: self.kind,
            detail: self.detail@,
            documentation: opt_view(self.documentation),
            insert_text: opt_view(self.insert_text),
        }
    }
}

pub open spec fn entries_view(v: Seq<CompletionEntry>) -> Seq<SEntry> {
    v.map_values(|e: CompletionEntry| e@)
}

/// The documentation shown for a keyword or function: its explanation and
/// its example as a code block.
pub open spec fn info_documentation(info: SInfo) -> Seq<char> {
    info.detail + "\n\n```psy\n"@ + info.example + "\n```"@
}

/// The completion item for a keyword or a built-in function.
pub open spec fn static_entry(name: Seq<char>, info: SInfo, kind: CompletionKind) -> SEntry {
    SEntry {
        label: name,
        kind,
        detail: info.description,
        documentation: Some(info_documentation(info)),
        insert_text: None,
    }
}

pub open spec fn static_entries(v: Seq<(Seq<char>, SInfo)>, kind: CompletionKind) -> Seq<SEntry> {
    v.map_values(|e: (Seq<char>, SInfo)| static_entry(e.0, e.1, kind))
}

/// Whether the document imports a function of this name.
pub open spec fn imported(symbols: Seq<SSymbol>, name: Seq<char>) -> bool {
    exists|i: int| 0 <= i < symbols.len() && (#[trigger] symbols[i]).kind is Import && symbols[i].name == name
}

/// The completion item for a function of a module.
pub open spec fn module_function_entry(module: Seq<char>, name: Seq<char>, info: SInfo) -> SEntry {
    SEntry {
        label: name,
        kind: CompletionKind::Function,
        detail: info.description + " (from "@ + module + ")"@,
        documentation: Some(info_documentation(info)),
        insert_text: None,
    }
}

/// The items for the functions of one module that the document imports.
pub open spec fn module_entries(module: Seq<char>, fs: Seq<(Seq<char>, SInfo)>, symbols: Seq<SSymbol>) -> Seq<SEntry>
    decreases fs.len(),
{
    if fs.len() == 0 {
        Seq::empty()
    } else {
        module_entries(module, fs.drop_last(), symbols) + if imported(symbols, fs.last().0) {
            seq![module_function_entry(module, fs.last().0, fs.last().1)]
        } else {
            Seq::empty()
        }
    }
}

/// The items for the imported functions of all modules, module by module.
pub open spec fn modules_entries(ms: Seq<(Seq<char>, SModuleInfo)>, symbols: Seq<SSymbol>) -> Seq<SEntry>
    decreases ms.len(),
{
    if ms.len() == 0 {
        Seq::empty()
    } else {
        modules_entries(ms.drop_last(), symbols) + module_entries(ms.last().0, ms.last().1.functions, symbols)
    }
}

/// How a document symbol presents itself.
pub open spec fn symbol_completion_kind(k: SSymbolKind) -> CompletionKind {
    match k {
        SSymbolKind::Function { .. } => CompletionKind::Function,
        SSymbolKind::Import { .. } => CompletionKind::Function,
        SSymbolKind::Const => CompletionKind::Constant,
        _ => CompletionKind::Variable,
    }
}

/// The completion item for a symbol of the document.
pub open spec fn symbol_entry(s: SSymbol) -> SEntry {
    SEntry {
        label: s.name,
        kind: symbol_completion_kind(s.kind),
        detail: completion_detail_text(s.kind),
        documentation: None,
        insert_text: Some(completion_insert(s)),
    }
}

/// The items of the language's own names, in order: keywords, built-in
/// functions, then the imported functions of modules.
pub open spec fn static_candidates(defs: SDefinitions, symbols: Seq<SSymbol>) -> Seq<SEntry> {
    static_entries(defs.keywords, CompletionKind::Keyword) + static_entries(defs.builtins, CompletionKind::Function)
        + modules_entries(defs.modules, symbols)
}

/// The names of the document's symbols.
pub open spec fn symbol_names(symbols: Seq<SSymbol>) -> Seq<Seq<char>> {
    symbols.map_values(|s: SSymbol| s.name)
}

/// The items whose label is none of `ls`, in their order.
pub open spec fn without_labels(es: Seq<SEntry>, ls: Seq<Seq<char>>) -> Seq<SEntry>
    decreases es.len(),
{
    if es.len() == 0 {
        Seq::empty()
    } else {
        without_labels(es.drop_last(), ls) + if ls.contains(es.last().label) {
            Seq::empty()
        } else {
            seq![es.last()]
        }
    }
}

/// Every candidate item, in order: the items of keywords, built-in
/// functions and imported module functions that no symbol of the document
/// is named like, then the document's symbols. A document's own symbol
/// overrides a name of the language.
pub open spec fn candidate_entries(defs: SDefinitions, symbols: Seq<SSymbol>) -> Seq<SEntry> {
    without_labels(static_candidates(defs, symbols), symbol_names(symbols)) + symbols.map_values(
        |s: SSymbol| symbol_entry(s),
    )
}

pub open spec fn labels(es: Seq<SEntry>) -> Seq<Seq<char>> {
    es.map_values(|e: SEntry| e.label)
}

/// The items with the first of each label kept and the later ones dropped.
pub open spec fn first_by_label(es: Seq<SEntry>) -> Seq<SEntry>
    decreases es.len(),
{
    if es.len() == 0 {
        Seq::empty()
    } else {
        let kept = first_by_label(es.drop_last());
        if labels(kept).contains(es.last().label) {
            kept
        } else {
            kept.push(es.last())
        }
    }
}

/// The completion list: keywords, built-in functions, the functions of
/// modules that the document imports, and the document's own symbols. A
/// label given by a symbol of the document is offered with that symbol's
/// item (the first symbol of that name); any other label with its first
/// item. The items keep their order.
pub open spec fn completion_list(defs: SDefinitions, symbols: Seq<SSymbol>) -> Seq<SEntry> {
    first_by_label(candidate_entries(defs, symbols))
}


/// The documentation of a keyword or function.
fn documentation_of(info: &SymbolInfo) -> (r: String)
    ensures
        r@ == info_documentation(info@),
{
    let mut r = info.detail.clone();
    r.append("\n\n```psy\n");
    r.append(info.example.as_str());
    r.append("\n```");
    r
}

/// Appends the items of a list of keywords or built-in functions.
fn push_static_entries(out: &mut Vec<CompletionEntry>, v: &Vec<(String, SymbolInfo)>, kind: CompletionKind)
    ensures
        entries_view(final(out)@) == entries_view(old(out)@) + static_entries(infos_view(v@), kind),
{
    let ghost start = entries_view(out@);
    let ghost all = static_entries(infos_view(v@), kind);
    let mut i: usize = 0;
    assert(start + all.take(0) =~= start);
    while i < v.len()
        invariant
            i <= v.len(),
            all == static_entries(infos_view(v@), kind),
            entries_view(out@) == start + all.take(i as int),
        decreases v.len() - i,
    {
        let e = CompletionEntry {
            label: v[i].0.clone(),
            kind,
            detail: v[i].1.description.clone(),
            documentation: Some(documentation_of(&v[i].1)),
            insert_text: None,
        };
        assert(e@ == all[i as int]);
        let ghost before = entries_view(out@);
        out.push(e);
        assert(entries_view(out@) =~= before.push(all[i as int]));
        assert(start + all.take(i + 1) =~= (start + all.take(i as int)).push(all[i as int]));
        i = i + 1;
    }
    assert(all.take(v.len() as int) =~= all);
}

/// Whether the document imports a function of this name.
fn is_imported(symbols: &[Symbol], name: &str) -> (r: bool)
    ensures
        r == imported(syms_view(symbols@), name@),
{
    let ghost sv = syms_view(symbols@);
    let mut i: usize = 0;
    while i < symbols.len()
        invariant
            i <= symbols.len(),
            sv == syms_view(symbols@),
            forall|k: int| 0 <= k < i ==> !((#[trigger] sv[k]).kind is Import && sv[k].name == name@),
        decreases symbols.len() - i,
    {
        assert(sv[i as int] == symbols@[i as int]@);
        match &symbols[i].kind {
            SymbolKind::Import { .. } => {
                if str_eq(symbols[i].name.as_str(), name) {
                    return true;
                }
            },
            _ => {},
        }
        i = i + 1;
    }
    false
}

/// Appends the items of the imported functions of one module.
fn push_module_entries(out: &mut Vec<CompletionEntry>, module: &String, fs: &Vec<(String, SymbolInfo)>, symbols: &[Symbol])
    ensures
        entries_view(final(out)@) == entries_view(old(out)@) + module_entries(module@, infos_view(fs@), syms_view(symbols@)),
{
    let ghost start = entries_view(out@);
    let ghost fv = infos_view(fs@);
    let ghost sv = syms_view(symbols@);
    let mut i: usize = 0;
    assert(fv.take(0) =~= Seq::<(Seq<char>, SInfo)>::empty());
    assert(start + module_entries(module@, fv.take(0), sv) =~= start);
    while i < fs.len()
        invariant
            i <= fs.len(),
            fv == infos_view(fs@),
            sv == syms_view(symbols@),
            entries_view(out@) == start + module_entries(module@, fv.take(i as int), sv),
        decreases fs.len() - i,
    {
        let ghost before = entries_view(out@);
        assert(fv.take(i + 1).drop_last() =~= fv.take(i as int));
        assert(fv.take(i + 1).last() == fv[i as int]);
        if is_imported(symbols, fs[i].0.as_str()) {
            let mut detail = fs[i].1.description.clone();
            detail.append(" (from ");
            detail.append(module.as_str());
            detail.append(")");
            let e = CompletionEntry {
                label: fs[i].0.clone(),
                kind: CompletionKind::Function,
                detail,
                documentation: Some(documentation_of(&fs[i].1)),
                insert_text: None,
            };
            assert(e@ == module_function_entry(module@, fv[i as int].0, fv[i as int].1));
            out.push(e);
            assert(entries_view(out@) =~= before.push(e@));
        }
        assert(entries_view(out@) =~= start + module_entries(module@, fv.take(i + 1), sv));
        i = i + 1;
    }
    assert(fv.take(fs.len() as int) =~= fv);
}

/// Appends the items of the imported functions of all modules.
fn push_modules_entries(out: &mut Vec<CompletionEntry>, ms: &Vec<(String, ModuleInfo)>, symbols: &[Symbol])
    ensures
        entries_view(final(out)@) == entries_view(old(out)@) + modules_entries(modules_view(ms@), syms_view(symbols@)),
{
    let ghost start = entries_view(out@);
    let ghost mv = modules_view(ms@);
    let ghost sv = syms_view(symbols@);
    let mut i: usize = 0;
    assert(mv.take(0) =~= Seq::<(Seq<char>, SModuleInfo)>::empty());
    assert(start + modules_entries(mv.take(0), sv) =~= start);
    while i < ms.len()
        invariant
            i <= ms.len(),
            mv == modules_view(ms@),
            sv == syms_view(symbols@),
            entries_view(out@) == start + modules_entries(mv.take(i as int), sv),
        decreases ms.len() - i,
    {
        assert(mv.take(i + 1).drop_last() =~= mv.take(i as int));
        assert(mv.take(i + 1).last() == mv[i as int]);
        push_module_entries(out, &ms[i].0, &ms[i].1.functions, symbols);
        assert(entries_view(out@) =~= start + modules_entries(mv.take(i + 1), sv));
        i = i + 1;
    }
    assert(mv.take(ms.len() as int) =~= mv);
}

/// How a document symbol presents itself.
fn completion_kind_of(kind: &SymbolKind) -> (r: CompletionKind)
    ensures
        r == symbol_completion_kind(kind@),
{
    match kind {
        SymbolKind::Function { .. } => CompletionKind::Function,
        SymbolKind::Import { .. } => CompletionKind::Function,
        SymbolKind::Const => CompletionKind::Constant,
        _ => CompletionKind::Variable,
    }
}

/// Appends the items of the document's symbols.
fn push_symbol_entries(out: &mut Vec<CompletionEntry>, symbols: &[Symbol])
    ensures
        entries_view(final(out)@) == entries_view(old(out)@) + syms_view(symbols@).map_values(|s: SSymbol| symbol_entry(s)),
{
    let ghost start = entries_view(out@);
    let ghost all = syms_view(symbols@).map_values(|s: SSymbol| symbol_entry(s));
    let mut i: usize = 0;
    assert(start + all.take(0) =~= start);
    while i < symbols.len()
        invariant
            i <= symbols.len(),
            all == syms_view(symbols@).map_values(|s: SSymbol| symbol_entry(s)),
            entries_view(out@) == start + all.take(i as int),
        decreases symbols.len() - i,
    {
        let e = CompletionEntry {
            label: symbols[i].name.clone(),
            kind: completion_kind_of(&symbols[i].kind),
            detail: completion_detail(&symbols[i].kind),
            documentation: None,
            insert_text: Some(completion_insert_text(&symbols[i])),
        };
        assert(e@ == all[i as int]);
        let ghost before = entries_view(out@);
        out.push(e);
        assert(entries_view(out@) =~= before.push(all[i as int]));
        assert(start + all.take(i + 1) =~= (start + all.take(i as int)).push(all[i as int]));
        i = i + 1;
    }
    assert(all.take(symbols.len() as int) =~= all);
}

/// Whether some symbol of the document has this name.
fn is_symbol_name(symbols: &[Symbol], name: &str) -> (r: bool)
    ensures
        r == symbol_names(syms_view(symbols@)).contains(name@),
{
    let ghost ns = symbol_names(syms_view(symbols@));
    let mut i: usize = 0;
    while i < symbols.len()
        invariant
            i <= symbols.len(),
            ns == symbol_names(syms_view(symbols@)),
            forall|k: int| 0 <= k < i ==> (#[trigger] ns[k]) != name@,
        decreases symbols.len() - i,
    {
        assert(ns[i as int] == symbols@[i as int].name@);
        if str_eq(symbols[i].name.as_str(), name) {
            return true;
        }
        i = i + 1;
    }
    false
}

/// Drops the items that a symbol of the document is named like.
fn drop_symbol_names(es: Vec<CompletionEntry>, symbols: &[Symbol]) -> (r: Vec<CompletionEntry>)
    ensures
        entries_view(r@) == without_labels(entries_view(es@), symbol_names(syms_view(symbols@))),
{
    let ghost ev = entries_view(es@);
    let ghost ns = symbol_names(syms_view(symbols@));
    let mut r: Vec<CompletionEntry> = Vec::new();
    let mut i: usize = 0;
    assert(ev.take(0) =~= Seq::<SEntry>::empty());
    assert(entries_view(r@) =~= Seq::<SEntry>::empty());
    while i < es.len()
        invariant
            i <= es.len(),
            ev == entries_view(es@),
            ns == symbol_names(syms_view(symbols@)),
            entries_view(r@) == without_labels(ev.take(i as int), ns),
        decreases es.len() - i,
    {
        assert(ev.take(i + 1).drop_last() =~= ev.take(i as int));
        assert(ev.take(i + 1).last() == es@[i as int]@);
        let ghost before = entries_view(r@);
        if !is_symbol_name(symbols, es[i].label.as_str()) {
            let e = copy_entry(&es[i]);
            r.push(e);
            assert(entries_view(r@) =~= before + seq![ev[i as int]]);
        } else {
            assert(before + Seq::<SEntry>::empty() =~= before);
        }
        i = i + 1;
    }
    assert(ev.take(es.len() as int) =~= ev);
    r
}

/// Whether an item with this label is already in the list.
fn has_label(es: &Vec<CompletionEntry>, label: &str) -> (r: bool)
    ensures
        r == labels(entries_view(es@)).contains(label@),
{
    let ghost ls = labels(entries_view(es@));
    let mut i: usize = 0;
    while i < es.len()
        invariant
            i <= es.len(),
            ls == labels(entries_view(es@)),
            forall|k: int| 0 <= k < i ==> (#[trigger] ls[k]) != label@,
        decreases es.len() - i,
    {
        if str_eq(es[i].label.as_str(), label) {
            assert(ls[i as int] == label@);
            return true;
        }
        i = i + 1;
    }
    false
}

fn copy_text(o: &Option<String>) -> (r: Option<String>)
    ensures
        opt_view(r) == opt_view(*o),
{
    match o {
        Some(t) => Some(t.clone()),
        None => None,
    }
}

/// A copy of an item.
fn copy_entry(e: &CompletionEntry) -> (r: CompletionEntry)
    ensures
        r@ == e@,
{
    CompletionEntry {
        label: e.label.clone(),
        kind: e.kind,
        detail: e.detail.clone(),
        documentation: copy_text(&e.documentation),
        insert_text: copy_text(&e.insert_text),
    }
}

/// Keeps the first item of each label.
fn keep_first_by_label(es: Vec<CompletionEntry>) -> (r: Vec<CompletionEntry>)
    ensures
        entries_view(r@) == first_by_label(entries_view(es@)),
{
    let ghost ev = entries_view(es@);
    let mut r: Vec<CompletionEntry> = Vec::new();
    let mut i: usize = 0;
    assert(ev.take(0) =~= Seq::<SEntry>::empty());
    assert(entries_view(r@) =~= Seq::<SEntry>::empty());
    while i < es.len()
        invariant
            i <= es.len(),
            ev == entries_view(es@),
            entries_view(r@) == first_by_label(ev.take(i as int)),
        decreases es.len() - i,
    {
        assert(ev.take(i + 1).drop_last() =~= ev.take(i as int));
        assert(ev.take(i + 1).last() == es@[i as int]@);
        let e = copy_entry(&es[i]);
        if !has_label(&r, e.label.as_str()) {
            let ghost before = entries_view(r@);
            r.push(e);
            assert(entries_view(r@) =~= before.push(ev[i as int]));
        }
        i = i + 1;
    }
    assert(ev.take(es.len() as int) =~= ev);
    r
}

/// The completion list for a document: the keywords and built-in functions
/// the editor knows, the functions of modules that the document imports,
/// and the document's own symbols, which override a name of the language
/// that they share; of the remaining repeats the first item is kept.
pub fn completion_entries(defs: &Definitions, symbols: &[Symbol]) -> (r: Vec<CompletionEntry>)
    ensures
        entries_view(r@) == completion_list(defs@, syms_view(symbols@)),
{
    let mut statics: Vec<CompletionEntry> = Vec::new();
    push_static_entries(&mut statics, &defs.keywords, CompletionKind::Keyword);
    push_static_entries(&mut statics, &defs.builtins, CompletionKind::Function);
    push_modules_entries(&mut statics, &defs.modules, symbols);
    assert(entries_view(statics@) =~= static_candidates(defs@, syms_view(symbols@)));
    let mut all = drop_symbol_names(statics, symbols);
    push_symbol_entries(&mut all, symbols);
    assert(entries_view(all@) =~= candidate_entries(defs@, syms_view(symbols@)));
    keep_first_by_label(all)
}

/// Keeping the first item of each label leaves each label once, loses no
/// label, and keeps of each label the item that came first.
#[verifier::rlimit(30)]
pub proof fn lemma_first_by_label(es: Seq<SEntry>)
    ensures
        labels(first_by_label(es)).no_duplicates(),
        forall|i: int| 0 <= i < es.len() ==> labels(first_by_label(es)).contains(#[trigger] es[i].label),
        forall|j: int|
            0 <= j < first_by_label(es).len() ==> exists|i: int|
                0 <= i < es.len() && es[i] == #[trigger] first_by_label(es)[j]
                    && forall|k: int| 0 <= k < i ==> (#[trigger] es[k]).label != es[i].label,
    decreases es.len(),
{
    if es.len() > 0 {
        let init = es.drop_last();
        lemma_first_by_label(init);
        let kept = first_by_label(init);
        let l = es.last().label;
        if labels(kept).contains(l) {
            assert forall|i: int| 0 <= i < es.len() implies labels(first_by_label(es)).contains(#[trigger] es[i].label) by {
                if i < es.len() - 1 {
                    assert(init[i] == es[i]);
                }
            }
            assert forall|j: int| 0 <= j < first_by_label(es).len() implies exists|i: int|
                0 <= i < es.len() && es[i] == #[trigger] first_by_label(es)[j]
                    && forall|k: int| 0 <= k < i ==> (#[trigger] es[k]).label != es[i].label by {
                let i = choose|i: int| 0 <= i < init.len() && init[i] == #[trigger] kept[j]
                    && forall|k: int| 0 <= k < i ==> (#[trigger] init[k]).label != init[i].label;
                assert(es[i] == init[i]);
                assert forall|k: int| 0 <= k < i implies (#[trigger] es[k]).label != es[i].label by {
                    assert(es[k] == init[k]);
                }
            }
        } else {
            let r = kept.push(es.last());
            assert(labels(r) =~= labels(kept).push(l));
            assert forall|a: int, b: int| 0 <= a < labels(r).len() && 0 <= b < labels(r).len() && a != b
                implies labels(r)[a] != labels(r)[b] by {
                if a == kept.len() as int {
                    assert(labels(kept)[b] == labels(r)[b]);
                } else if b == kept.len() as int {
                    assert(labels(kept)[a] == labels(r)[a]);
                }
            }
            assert forall|i: int| 0 <= i < es.len() implies labels(first_by_label(es)).contains(#[trigger] es[i].label) by {
                if i < es.len() - 1 {
                    assert(init[i] == es[i]);
                    let w = choose|w: int| 0 <= w < labels(kept).len() && labels(kept)[w] == init[i].label;
                    assert(labels(r)[w] == es[i].label);
                } else {
                    assert(labels(r)[kept.len() as int] == l);
                }
            }
            assert forall|j: int| 0 <= j < first_by_label(es).len() implies exists|i: int|
                0 <= i < es.len() && es[i] == #[trigger] first_by_label(es)[j]
                    && forall|k: int| 0 <= k < i ==> (#[trigger] es[k]).label != es[i].label by {
                if j < kept.len() {
                    let i = choose|i: int| 0 <= i < init.len() && init[i] == #[trigger] kept[j]
                        && forall|k: int| 0 <= k < i ==> (#[trigger] init[k]).label != init[i].label;
                    assert(es[i] == init[i]);
                    assert(r[j] == kept[j]);
                    assert forall|k: int| 0 <= k < i implies (#[trigger] es[k]).label != es[i].label by {
                        assert(es[k] == init[k]);
                    }
                } else {
                    let i = es.len() - 1;
                    assert(es[i] == r[j]);
                    assert forall|k: int| 0 <= k < i implies (#[trigger] es[k]).label != es[i].label by {
                        assert(es[k] == init[k]);
                        if es[k].label == l {
                            let w = choose|w: int| 0 <= w < labels(kept).len() && labels(kept)[w] == init[k].label;
                            assert(labels(kept).contains(l));
                        }
                    }
                }
            }
        }
    }
}

/// Dropping the items with labels in `ls` leaves no such label and keeps
/// every other item.
pub proof fn lemma_without_labels(es: Seq<SEntry>, ls: Seq<Seq<char>>)
    ensures
        forall|j: int| 0 <= j < without_labels(es, ls).len() ==> !ls.contains(#[trigger] without_labels(es, ls)[j].label),
        forall|i: int| 0 <= i < es.len() && !ls.contains(#[trigger] es[i].label) ==> without_labels(es, ls).contains(es[i]),
    decreases es.len(),
{
    if es.len() > 0 {
        let init = es.drop_last();
        lemma_without_labels(init, ls);
        let w0 = without_labels(init, ls);
        let w = without_labels(es, ls);
        assert forall|j: int| 0 <= j < w.len() implies !ls.contains(#[trigger] w[j].label) by {
            if j < w0.len() {
                assert(w[j] == w0[j]);
            }
        }
        assert forall|i: int| 0 <= i < es.len() && !ls.contains(#[trigger] es[i].label) implies w.contains(es[i]) by {
            if i < es.len() - 1 {
                assert(init[i] == es[i]);
                let k = choose|k: int| 0 <= k < w0.len() && w0[k] == init[i];
                assert(w[k] == w0[k]);
            } else {
                assert(w[w0.len() as int] == es.last());
            }
        }
    }
}

/// The completion list offers each label once and loses none: every
/// keyword, built-in function, imported module function and document symbol
/// is offered by its name. A label that a symbol of the document has is
/// offered with the item of the first symbol of that name, overriding the
/// language's own names; any other label with the first item that has it.
pub proof fn lemma_completion_list(defs: SDefinitions, symbols: Seq<SSymbol>)
    ensures
        labels(completion_list(defs, symbols)).no_duplicates(),
        forall|i: int| 0 <= i < static_candidates(defs, symbols).len()
            ==> labels(completion_list(defs, symbols)).contains(#[trigger] static_candidates(defs, symbols)[i].label),
        forall|i: int| 0 <= i < symbols.len() ==> labels(completion_list(defs, symbols)).contains(#[trigger] symbols[i].name),
        forall|j: int|
            0 <= j < completion_list(defs, symbols).len() && symbol_names(symbols).contains(
                #[trigger] completion_list(defs, symbols)[j].label,
            ) ==> exists|i: int|
                0 <= i < symbols.len() && completion_list(defs, symbols)[j] == symbol_entry(#[trigger] symbols[i])
                    && forall|k: int| 0 <= k < i ==> (#[trigger] symbols[k]).name != symbols[i].name,
        forall|j: int|
            0 <= j < completion_list(defs, symbols).len() ==> exists|i: int|
                0 <= i < candidate_entries(defs, symbols).len()
                    && candidate_entries(defs, symbols)[i] == #[trigger] completion_list(defs, symbols)[j]
                    && forall|k: int| 0 <= k < i ==> (#[trigger] candidate_entries(defs, symbols)[k]).label
                        != candidate_entries(defs, symbols)[i].label,
{
    let c = candidate_entries(defs, symbols);
    let st = static_candidates(defs, symbols);
    let ns = symbol_names(symbols);
    let f = without_labels(st, ns);
    let se = symbols.map_values(|s: SSymbol| symbol_entry(s));
    let out = completion_list(defs, symbols);
    lemma_first_by_label(c);
    lemma_without_labels(st, ns);
    assert(c == f + se);
    assert forall|i: int| 0 <= i < symbols.len() implies labels(out).contains(#[trigger] symbols[i].name) by {
        assert(c[f.len() + i] == se[i]);
        assert(c[f.len() + i].label == symbols[i].name);
    }
    assert forall|i: int| 0 <= i < st.len() implies labels(out).contains(#[trigger] st[i].label) by {
        if ns.contains(st[i].label) {
            let k = choose|k: int| 0 <= k < ns.len() && ns[k] == st[i].label;
            assert(symbols[k].name == ns[k]);
        } else {
            let w = choose|w: int| 0 <= w < f.len() && f[w] == st[i];
            assert(c[w] == f[w]);
        }
    }
    assert forall|j: int|
        0 <= j < out.len() && ns.contains(#[trigger] out[j].label) implies exists|i: int|
            0 <= i < symbols.len() && out[j] == symbol_entry(#[trigger] symbols[i])
                && forall|k: int| 0 <= k < i ==> (#[trigger] symbols[k]).name != symbols[i].name by {
        let p = choose|p: int| 0 <= p < c.len() && c[p] == out[j]
            && forall|k: int| 0 <= k < p ==> (#[trigger] c[k]).label != c[p].label;
        if p < f.len() {
            assert(c[p] == f[p]);
            assert(!ns.contains(f[p].label));
        } else {
            let i = p - f.len();
            assert(c[p] == se[i]);
            assert forall|k: int| 0 <= k < i implies (#[trigger] symbols[k]).name != symbols[i].name by {
                assert(c[f.len() + k] == se[k]);
                assert(c[f.len() + k].label != c[p].label);
            }
        }
    }
}

} // verus!
