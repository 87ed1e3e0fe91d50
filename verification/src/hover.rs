//! What hovering over one of the language's own names shows: the text of a
//! keyword, a built-in function, a function of a module, or a module with
//! its functions listed by name.
use vstd::prelude::*;
use vstd::string::StringExecFns;
use crate::definitions::{Definitions, ModuleInfo, SDefinitions, SInfo, SModuleInfo, SymbolInfo, infos_view, modules_view, opt_view};
use crate::native::{lemma_lex_total, lemma_lex_transitive, lex_le, lex_le_exec, sorted};
use crate::text::{chars_of, str_eq};
use crate::unicode::{to_uppercase, unicode_uppercase};

verus! {

pub open spec fn keys_of<V>(v: Seq<(Seq<char>, V)>) -> Seq<Seq<char>> {
    v.map_values(|e: (Seq<char>, V)| e.0)
}

pub open spec fn names_of<V>(v: Seq<(String, V)>) -> Seq<Seq<char>> {
    v.map_values(|e: (String, V)| e.0@)
}

/// `i` is the first place where `k` occurs among the keys.
pub open spec fn is_first(keys: Seq<Seq<char>>, k: Seq<char>, i: int) -> bool {
    0 <= i < keys.len() && keys[i] == k && forall|j: int| 0 <= j < i ==> keys[j] != k
}

/// The first place where `k` occurs among the keys, if it does.
pub open spec fn first_index(keys: Seq<Seq<char>>, k: Seq<char>) -> Option<int> {
    if keys.contains(k) {
        Some(choose|i: int| is_first(keys, k, i))
    } else {
        None
    }
}

proof fn lemma_first_index(keys: Seq<Seq<char>>, k: Seq<char>, i: int)
    requires
        is_first(keys, k, i),
    ensures
        first_index(keys, k) == Some(i),
{
    assert(keys.contains(k));
    let c = choose|c: int| is_first(keys, k, c);
    assert(is_first(keys, k, c));
    if c < i {
        assert(keys[c] != k);
    } else if c > i {
        assert(keys[i] != k);
    }
}

/// The definitions file's tables are maps: no two keywords, built-ins,
/// modules, or functions of one module share a name.
pub open spec fn definitions_wf(d: SDefinitions) -> bool {
    &&& keys_of(d.keywords).no_duplicates()
    &&& keys_of(d.builtins).no_duplicates()
    &&& keys_of(d.modules).no_duplicates()
    &&& forall|m: int| 0 <= m < d.modules.len() ==> keys_of(#[trigger] d.modules[m].1.functions).no_duplicates()
}

/// Where names do not repeat, the first place a name occurs is the only
/// one: looking a name up in order finds what a map lookup finds.
pub proof fn lemma_first_index_unique(keys: Seq<Seq<char>>, k: Seq<char>, i: int)
    requires
        keys.no_duplicates(),
        0 <= i < keys.len(),
        keys[i] == k,
    ensures
        first_index(keys, k) == Some(i),
{
    assert(is_first(keys, k, i));
    lemma_first_index(keys, k, i);
}

/// The first module, in order, that has a function of this name.
pub open spec fn module_having(ms: Seq<(Seq<char>, SModuleInfo)>, k: Seq<char>) -> Option<int> {
    if exists|m: int| 0 <= m < ms.len() && keys_of(#[trigger] ms[m].1.functions).contains(k) {
        Some(choose|m: int| 0 <= m < ms.len() && keys_of(#[trigger] ms[m].1.functions).contains(k)
            && forall|j: int| 0 <= j < m ==> !keys_of(#[trigger] ms[j].1.functions).contains(k))
    } else {
        None
    }
}

/// The hover text of a keyword or a built-in function.
pub open spec fn info_hover(word: Seq<char>, info: SInfo) -> Seq<char> {
    "**"@ + word + "** — "@ + info.description + "\n\n"@ + info.detail + "\n\n```psy\n"@ + info.example + "\n```"@
}

/// The hover text of a function of a module.
pub open spec fn module_function_hover(word: Seq<char>, module: Seq<char>, info: SInfo) -> Seq<char> {
    "**"@ + word + "** — "@ + info.description + " *(from `"@ + module + "`)*\n\n"@ + info.detail
        + "\n\n```psy\n"@ + info.example + "\n```"@
}

/// One line per function: its name and description.
pub open spec fn function_lines(fs: Seq<(Seq<char>, SInfo)>) -> Seq<char>
    decreases fs.len(),
{
    if fs.len() == 0 {
        Seq::empty()
    } else {
        function_lines(fs.drop_last()) + "- `"@ + fs.last().0 + "`: "@ + fs.last().1.description + "\n"@
    }
}

/// The hover text of a module, listing its functions in the given order.
pub open spec fn module_hover(word: Seq<char>, m: SModuleInfo, fs: Seq<(Seq<char>, SInfo)>) -> Seq<char> {
    "**"@ + word + "** — "@ + m.description + "\n\n"@ + m.detail + "\n\n**Available functions:**\n"@ + function_lines(fs)
}

/// `r` is the hover text of the module, listing its functions in ascending
/// order of name.
pub open spec fn module_listing(word: Seq<char>, m: SModuleInfo, r: Option<Seq<char>>) -> bool {
    exists|p: Seq<(Seq<char>, SInfo)>|
        sorted(keys_of(p)) && p.to_multiset() == m.functions.to_multiset()
            && r == Some(#[trigger] module_hover(word, m, p))
}

/// What hovering over `word` shows from the language's own names, looked up
/// by the word in upper case: a keyword, else a built-in function, else a
/// function of the first module that has one of that name, else a module,
/// whose functions are listed in ascending order of name; else nothing.
pub open spec fn static_hover(word: Seq<char>, defs: SDefinitions, r: Option<Seq<char>>) -> bool {
    let up = unicode_uppercase(word);
    match first_index(keys_of(defs.keywords), up) {
        Some(i) => r == Some(info_hover(word, defs.keywords[i].1)),
        None => match first_index(keys_of(defs.builtins), up) {
            Some(i) => r == Some(info_hover(word, defs.builtins[i].1)),
            None => match module_having(defs.modules, up) {
                Some(m) => {
                    let fs = defs.modules[m].1.functions;
                    r == Some(module_function_hover(word, defs.modules[m].0, fs[first_index(keys_of(fs), up)->0].1))
                },
                None => match first_index(keys_of(defs.modules), up) {
                    Some(m) => module_listing(word, defs.modules[m].1, r),
                    None => r is None,
                },
            },
        },
    }
}

/// The first place where `k` occurs among the names.
fn find_name<V>(v: &Vec<(String, V)>, k: &str) -> (r: Option<usize>)
    ensures
        match r {
            Some(i) => is_first(names_of(v@), k@, i as int),
            None => !names_of(v@).contains(k@),
        },
{
    let ghost ns = names_of(v@);
    let mut i: usize = 0;
    while i < v.len()
        invariant
            i <= v.len(),
            ns == names_of(v@),
            forall|j: int| 0 <= j < i ==> (#[trigger] ns[j]) != k@,
        decreases v.len() - i,
    {
        if str_eq(v[i].0.as_str(), k) {
            return Some(i);
        }
        i = i + 1;
    }
    None
}

/// The hover text of a keyword or a built-in function.
fn info_hover_text(word: &str, info: &SymbolInfo) -> (r: String)
    ensures
        r@ == info_hover(word@, info@),
{
    let mut r = String::from_str("**");
    r.append(word);
    r.append("** — ");
    r.append(info.description.as_str());
    r.append("\n\n");
    r.append(info.detail.as_str());
    r.append("\n\n```psy\n");
    r.append(info.example.as_str());
    r.append("\n```");
    r
}

/// A copy of an entry.
fn copy_info(e: &(String, SymbolInfo)) -> (r: (String, SymbolInfo))
    ensures
        r.0@ == e.0@,
        r.1@ == e.1@,
{
    (e.0.clone(), SymbolInfo {
        description: e.1.description.clone(),
        detail: e.1.detail.clone(),
        example: e.1.example.clone(),
    })
}

/// The entries in ascending order of name, equal names in their order.
fn sort_by_name(v: &Vec<(String, SymbolInfo)>) -> (r: Vec<(String, SymbolInfo)>)
    ensures
        sorted(keys_of(infos_view(r@))),
        infos_view(r@).to_multiset() == infos_view(v@).to_multiset(),
{
    let ghost input = infos_view(v@);
    let mut out: Vec<(String, SymbolInfo)> = Vec::new();
    let mut keys: Vec<Vec<char>> = Vec::new();
    assert(infos_view(out@) =~= input.subrange(0, 0));
    let mut i: usize = 0;
    while i < v.len()
        invariant
            i <= v.len(),
            input == infos_view(v@),
            out.len() == keys.len(),
            forall|k: int| 0 <= k < keys.len() ==> (#[trigger] keys@[k])@ == out@[k].0@,
            sorted(keys_of(infos_view(out@))),
            infos_view(out@).to_multiset() == input.subrange(0, i as int).to_multiset(),
        decreases v.len() - i,
    {
        let e = copy_info(&v[i]);
        let key = chars_of(e.0.as_str());
        let ghost ev = (e.0@, e.1@);
        assert(ev == input[i as int]);
        let ghost cur = infos_view(out@);
        let ghost ck = keys_of(cur);
        let mut p: usize = 0;
        while p < out.len() && lex_le_exec(&keys[p], &key)
            invariant
                p <= out.len(),
                out.len() == keys.len(),
                cur == infos_view(out@),
                ck == keys_of(cur),
                key@ == e.0@,
                forall|k: int| 0 <= k < keys.len() ==> (#[trigger] keys@[k])@ == out@[k].0@,
                forall|k: int| 0 <= k < p ==> lex_le(#[trigger] ck[k], e.0@),
            decreases out.len() - p,
        {
            assert(ck[p as int] == keys@[p as int]@);
            p = p + 1;
        }
        proof {
            if p < out.len() {
                assert(ck[p as int] == keys@[p as int]@);
                lemma_lex_total(ck[p as int], e.0@);
                assert forall|k: int| p <= k < ck.len() implies lex_le(e.0@, #[trigger] ck[k]) by {
                    if k > p {
                        lemma_lex_transitive(e.0@, ck[p as int], ck[k]);
                    }
                }
            }
        }
        out.insert(p, e);
        keys.insert(p, key);
        proof {
            broadcast use vstd::seq_lib::to_multiset_insert, vstd::seq_lib::to_multiset_build;
            let now = infos_view(out@);
            assert(now =~= cur.insert(p as int, ev));
            let nk = keys_of(now);
            assert(nk =~= ck.insert(p as int, ev.0));
            assert forall|a: int, b: int| 0 <= a < b < nk.len() implies lex_le(#[trigger] nk[a], #[trigger] nk[b]) by {
                if b < p {
                } else if a < p && b == p {
                } else if a < p {
                    lemma_lex_transitive(nk[a], ev.0, nk[b]);
                } else if a == p {
                } else {
                }
            }
            assert(input.subrange(0, i + 1) =~= input.subrange(0, i as int).push(ev));
            assert forall|k: int| 0 <= k < keys.len() implies (#[trigger] keys@[k])@ == out@[k].0@ by {
            }
        }
        i = i + 1;
    }
    assert(input.subrange(0, v.len() as int) =~= input);
    out
}

/// The hover text of a module, its functions in ascending order of name.
fn module_hover_text(word: &str, m: &ModuleInfo) -> (r: String)
    ensures
        module_listing(word@, m@, Some(r@)),
{
    let fs = sort_by_name(&m.functions);
    let ghost p = infos_view(fs@);
    let mut lines = String::new();
    let mut i: usize = 0;
    assert(p.take(0) =~= Seq::<(Seq<char>, SInfo)>::empty());
    while i < fs.len()
        invariant
            i <= fs.len(),
            p == infos_view(fs@),
            lines@ == function_lines(p.take(i as int)),
        decreases fs.len() - i,
    {
        assert(p.take(i + 1).drop_last() =~= p.take(i as int));
        assert(p.take(i + 1).last() == p[i as int]);
        lines.append("- `");
        lines.append(fs[i].0.as_str());
        lines.append("`: ");
        lines.append(fs[i].1.description.as_str());
        lines.append("\n");
        i = i + 1;
    }
    assert(p.take(fs.len() as int) =~= p);
    let mut r = String::from_str("**");
    r.append(word);
    r.append("** — ");
    r.append(m.description.as_str());
    r.append("\n\n");
    r.append(m.detail.as_str());
    r.append("\n\n**Available functions:**\n");
    r.append(lines.as_str());
    assert(r@ == module_hover(word@, m@, p));
    assert(Some(r@) == Some(module_hover(word@, m@, p)));
    r
}

/// The hover text of a function of a module.
fn module_function_hover_text(word: &str, module: &String, info: &SymbolInfo) -> (r: String)
    ensures
        r@ == module_function_hover(word@, module@, info@),
{
    let mut r = String::from_str("**");
    r.append(word);
    r.append("** — ");
    r.append(info.description.as_str());
    r.append(" *(from `");
    r.append(module.as_str());
    r.append("`)*\n\n");
    r.append(info.detail.as_str());
    r.append("\n\n```psy\n");
    r.append(info.example.as_str());
    r.append("\n```");
    r
}

/// The first module, in order, with a function named `k`, and where that
/// function stands in it.
fn find_module_function(ms: &Vec<(String, ModuleInfo)>, k: &str) -> (r: Option<(usize, usize)>)
    ensures
        match r {
            Some((m, i)) => m < ms.len() && i < ms@[m as int].1.functions.len()
                && module_having(modules_view(ms@), k@) == Some(m as int)
                && first_index(keys_of(modules_view(ms@)[m as int].1.functions), k@) == Some(i as int),
            None => module_having(modules_view(ms@), k@) is None,
        },
{
    let ghost mv = modules_view(ms@);
    let mut m: usize = 0;
    while m < ms.len()
        invariant
            m <= ms.len(),
            mv == modules_view(ms@),
            forall|j: int| 0 <= j < m ==> !keys_of(#[trigger] mv[j].1.functions).contains(k@),
        decreases ms.len() - m,
    {
        let fs = &ms[m].1.functions;
        assert(keys_of(mv[m as int].1.functions) =~= names_of(fs@));
        match find_name(fs, k) {
            Some(i) => {
                proof {
                    lemma_first_index(keys_of(mv[m as int].1.functions), k@, i as int);
                    let w = m as int;
                    assert(0 <= w < mv.len() && keys_of(mv[w].1.functions).contains(k@));
                    let c = choose|c: int| 0 <= c < mv.len() && keys_of(#[trigger] mv[c].1.functions).contains(k@)
                        && forall|j: int| 0 <= j < c ==> !keys_of(#[trigger] mv[j].1.functions).contains(k@);
                    assert(c == w);
                    assert(is_first(names_of(fs@), k@, i as int));
                }
                return Some((m, i));
            },
            None => {},
        }
        m = m + 1;
    }
    None
}

/// What hovering over `word` shows from the language's own names: the
/// keyword, built-in function, module function or module of that name in
/// upper case, or nothing.
pub fn static_symbol_info(word: &str, defs: &Definitions) -> (r: Option<String>)
    ensures
        static_hover(word@, defs@, opt_view(r)),
{
    let up = to_uppercase(word);
    let ghost dv = defs@;
    assert(keys_of(dv.keywords) =~= names_of(defs.keywords@));
    assert(keys_of(dv.builtins) =~= names_of(defs.builtins@));
    assert(keys_of(dv.modules) =~= names_of(defs.modules@));
    match find_name(&defs.keywords, up.as_str()) {
        Some(i) => {
            proof { lemma_first_index(keys_of(dv.keywords), up@, i as int); }
            return Some(info_hover_text(word, &defs.keywords[i].1));
        },
        None => {},
    }
    match find_name(&defs.builtins, up.as_str()) {
        Some(i) => {
            proof { lemma_first_index(keys_of(dv.builtins), up@, i as int); }
            return Some(info_hover_text(word, &defs.builtins[i].1));
        },
        None => {},
    }
    assert(first_index(keys_of(dv.keywords), up@) is None);
    assert(first_index(keys_of(dv.builtins), up@) is None);
    match find_module_function(&defs.modules, up.as_str()) {
        Some((m, i)) => {
            let fs = &defs.modules[m].1.functions;
            assert(fs@[i as int].1@ == dv.modules[m as int].1.functions[i as int].1);
            return Some(module_function_hover_text(word, &defs.modules[m].0, &fs[i].1));
        },
        None => {},
    }
    assert(module_having(dv.modules, up@) is None);
    match find_name(&defs.modules, up.as_str()) {
        Some(k) => {
            proof { lemma_first_index(keys_of(dv.modules), up@, k as int); }
            let t = module_hover_text(word, &defs.modules[k].1);
            let ghost mk = dv.modules[k as int].1;
            assert(defs.modules@[k as int].1@ == mk);
            let res = Some(t);
            assert(opt_view(res) == Some(t@));
            res
        },
        None => {
            assert(static_hover(word@, dv, opt_view(None)));
            None
        },
    }
}

} // verus!
