//! What the language server computes from a document: the word under the
//! cursor, hover text for the program's own symbols, completion details,
//! and the message and place of a diagnostic.
use vstd::prelude::*;
use vstd::string::StringExecFns;
use crate::checker::Diagnostic;
use crate::rules::opt_text;
use crate::symbols::{SSymbol, SSymbolKind, Symbol, SymbolKind};
use crate::text::{chars_of, decimal, join, join_strings, push_char, push_decimal, str_eq};
use crate::unicode::{is_alphanumeric, unicode_alphanumeric};

verus! {

// ---------------------------------------------------------------------
// Lines and words.

/// The lines of a text, as `str::lines` splits it: at `\n`, dropping a `\r`
/// just before a `\n`; a final line ending adds no empty line.
pub open spec fn text_lines(s: Seq<char>) -> Seq<Seq<char>>
    decreases s.len(),
{
    if s.len() == 0 {
        Seq::empty()
    } else {
        let k = crate::number::find_char(s, '\n', 0);
        proof {
            lemma_find_newline(s, 0);
        }
        if k < s.len() {
            let line = s.take(k);
            let line = if line.len() > 0 && line.last() == '\r' { line.drop_last() } else { line };
            seq![line] + text_lines(s.skip(k + 1))
        } else {
            seq![s]
        }
    }
}

/// A character that can be part of a word: alphanumeric or `_`.
pub open spec fn word_char(c: char) -> bool {
    unicode_alphanumeric(c) || c == '_'
}

/// The first index at or before `i` from which back to `i` every
/// character is a word character.
pub open spec fn word_start(chars: Seq<char>, i: int) -> int
    decreases i,
{
    if i > 0 && i <= chars.len() && word_char(chars[i - 1]) {
        word_start(chars, i - 1)
    } else {
        i
    }
}

/// The first index at or after `i` that is not a word character.
pub open spec fn word_end(chars: Seq<char>, i: int) -> int
    decreases chars.len() - i,
{
    if 0 <= i < chars.len() && word_char(chars[i]) {
        word_end(chars, i + 1)
    } else {
        i
    }
}

/// The number of bytes of a text in UTF-8.
pub open spec fn byte_len(s: Seq<char>) -> nat {
    crate::json_text::utf8_bytes(s)
}

/// The word under a position (line, character) and its start and end
/// character, when the position lies within the line (counted in bytes,
/// as the editor protocol's positions are compared with the line's length)
/// and touches a word.
pub open spec fn word_at(document: Seq<char>, line: nat, character: nat) -> Option<(Seq<char>, nat, nat)> {
    let lines = text_lines(document);
    if line >= lines.len() {
        None
    } else {
        let l = lines[line as int];
        if character > byte_len(l) {
            None
        } else {
            let start = word_start(l, character as int);
            let end = word_end(l, character as int);
            if start == end {
                None
            } else {
                Some((l.subrange(start, end), start as nat, end as nat))
            }
        }
    }
}

/// The position can be looked up without reading past the line's
/// characters: it is past the line's bytes, or within its characters.
pub open spec fn position_ok(document: Seq<char>, line: nat, character: nat) -> bool {
    let lines = text_lines(document);
    line < lines.len() ==> (character > byte_len(lines[line as int]) || character <= lines[line as int].len())
}

/// The lines of a text.
pub(crate) fn lines_of(s: &str) -> (r: Vec<Vec<char>>)
    ensures
        r@.map_values(|l: Vec<char>| l@) == text_lines(s@),
{
    let v = chars_of(s);
    let mut r: Vec<Vec<char>> = Vec::new();
    let mut i: usize = 0;
    assert(v@.skip(0) =~= v@);
    assert(r@.map_values(|l: Vec<char>| l@) =~= Seq::<Seq<char>>::empty());
    while i < v.len()
        invariant
            i <= v.len(),
            v@ == s@,
            r@.map_values(|l: Vec<char>| l@) + text_lines(v@.skip(i as int)) == text_lines(v@),
        decreases v.len() - i,
    {
        let ghost rest = v@.skip(i as int);
        let mut j: usize = i;
        while j < v.len() && v[j] != '\n'
            invariant
                i <= j <= v.len(),
                rest == v@.skip(i as int),
                crate::number::find_char(rest, '\n', (j - i) as int) == crate::number::find_char(rest, '\n', 0),
            decreases v.len() - j,
        {
            j = j + 1;
        }
        let mut line: Vec<char> = Vec::new();
        let mut k: usize = i;
        while k < j
            invariant
                i <= k <= j <= v.len(),
                line@ == v@.subrange(i as int, k as int),
            decreases j - k,
        {
            line.push(v[k]);
            k = k + 1;
            assert(line@ =~= v@.subrange(i as int, k as int));
        }
        assert(rest.take((j - i) as int) =~= line@);
        let ghost before = r@.map_values(|l: Vec<char>| l@);
        if j < v.len() {
            if line.len() > 0 && line[line.len() - 1] == '\r' {
                line.pop();
            }
            r.push(line);
            assert(rest.skip((j - i) + 1) =~= v@.skip(j + 1));
            assert(r@.map_values(|l: Vec<char>| l@) =~= before.push(r@[r@.len() - 1]@));
            assert(r@.map_values(|l: Vec<char>| l@) + text_lines(v@.skip(j + 1)) =~= before + text_lines(rest));
            i = j + 1;
        } else {
            assert(line@ =~= rest);
            r.push(line);
            assert(r@.map_values(|l: Vec<char>| l@) =~= before.push(rest));
            assert(v@.skip(v.len() as int) =~= Seq::<char>::empty());
            assert(r@.map_values(|l: Vec<char>| l@) + text_lines(v@.skip(v.len() as int)) =~= before + text_lines(rest));
            i = v.len();
        }
    }
    assert(v@.skip(v.len() as int) =~= Seq::<char>::empty());
    assert(r@.map_values(|l: Vec<char>| l@) + Seq::<Seq<char>>::empty() =~= r@.map_values(|l: Vec<char>| l@));
    r
}

fn is_word_char(c: char) -> (r: bool)
    ensures
        r == word_char(c),
{
    is_alphanumeric(c) || c == '_'
}

fn bytes_of_chars(v: &Vec<char>) -> (n: usize)
    requires
        byte_len(v@) <= usize::MAX,
    ensures
        n == byte_len(v@),
{
    let mut n: usize = 0;
    let mut i: usize = 0;
    assert(v@.take(0) =~= Seq::<char>::empty());
    while i < v.len()
        invariant
            i <= v.len(),
            n == crate::json_text::utf8_bytes(v@.take(i as int)),
            byte_len(v@) <= usize::MAX,
        decreases v.len() - i,
    {
        assert(v@.take(i + 1).drop_last() =~= v@.take(i as int));
        proof {
            crate::json_text::lemma_utf8_bytes_prefix(v@, i + 1);
        }
        let c = v[i];
        let w: usize = if (c as u32) < 0x80 {
            1
        } else if (c as u32) < 0x800 {
            2
        } else if (c as u32) < 0x10000 {
            3
        } else {
            4
        };
        n = n + w;
        i = i + 1;
    }
    assert(v@.take(v.len() as int) =~= v@);
    n
}

/// The word under a position and its start and end character in the line.
pub fn get_word_at_position(document: &str, line: u32, character: u32) -> (r: Option<(String, u32, u32)>)
    requires
        position_ok(document@, line as nat, character as nat),
        byte_len(document@) <= usize::MAX,
    ensures
        match r {
            Some((w, s, e)) => word_at(document@, line as nat, character as nat) matches Some((ww, ss, ee))
                && w@ == ww && s == ss as u32 && e == ee as u32,
            None => word_at(document@, line as nat, character as nat) is None,
        },
{
    let lines = lines_of(document);
    let ghost views = lines@.map_values(|l: Vec<char>| l@);
    if line as usize >= lines.len() {
        return None;
    }
    let l = &lines[line as usize];
    assert(views[line as int] == l@);
    proof {
        lemma_line_bytes(document@, line as int);
    }
    if character as usize > bytes_of_chars(l) {
        return None;
    }
    let c = character as usize;
    assert(c <= l.len());
    let mut start = c;
    while start > 0 && is_word_char(l[start - 1])
        invariant
            start <= c <= l.len(),
            word_start(l@, start as int) == word_start(l@, c as int),
        decreases start,
    {
        start = start - 1;
    }
    let mut end = c;
    while end < l.len() && is_word_char(l[end])
        invariant
            c <= end <= l.len(),
            word_end(l@, end as int) == word_end(l@, c as int),
        decreases l.len() - end,
    {
        end = end + 1;
    }
    assert(word_start(l@, start as int) == start);
    assert(word_end(l@, end as int) == end);
    if start == end {
        return None;
    }
    let mut word = String::new();
    let mut k = start;
    while k < end
        invariant
            start <= k <= end <= l.len(),
            word@ == l@.subrange(start as int, k as int),
        decreases end - k,
    {
        push_char(&mut word, l[k]);
        k = k + 1;
        assert(word@ =~= l@.subrange(start as int, k as int));
    }
    Some((word, start as u32, end as u32))
}

/// A line of a text takes no more bytes than the text.
proof fn lemma_line_bytes(s: Seq<char>, i: int)
    requires
        0 <= i < text_lines(s).len(),
    ensures
        byte_len(text_lines(s)[i]) <= byte_len(s),
        text_lines(s)[i].len() <= s.len(),
    decreases s.len(),
{
    let k = crate::number::find_char(s, '\n', 0);
    lemma_find_newline(s, 0);
    if k < s.len() {
        let line0 = s.take(k);
        let line = if line0.len() > 0 && line0.last() == '\r' { line0.drop_last() } else { line0 };
        crate::json_text::lemma_utf8_bytes_prefix(s, k);
        if line0.len() > 0 && line0.last() == '\r' {
            crate::json_text::lemma_utf8_bytes_prefix(line0, line0.len() - 1);
            assert(line0.take(line0.len() - 1) =~= line);
        }
        if i > 0 {
            lemma_line_bytes(s.skip(k + 1), i - 1);
            lemma_skip_bytes(s, k + 1);
        }
    }
}

/// The first line break at or after `from` lies between `from` and the end.
pub proof fn lemma_find_newline(s: Seq<char>, from: int)
    requires
        0 <= from <= s.len(),
    ensures
        from <= crate::number::find_char(s, '\n', from) <= s.len(),
    decreases s.len() - from,
{
    if from < s.len() && s[from] != '\n' {
        lemma_find_newline(s, from + 1);
    }
}

/// A suffix takes no more bytes than the whole.
proof fn lemma_skip_bytes(s: Seq<char>, k: int)
    requires
        0 <= k <= s.len(),
    ensures
        crate::json_text::utf8_bytes(s.skip(k)) <= crate::json_text::utf8_bytes(s),
    decreases s.len(),
{
    if k < s.len() {
        lemma_skip_bytes(s.drop_last(), k);
        assert(s.skip(k).drop_last() =~= s.drop_last().skip(k));
        assert(s.skip(k).last() == s.last());
    } else {
        assert(s.skip(k) =~= Seq::<char>::empty());
    }
}

// ---------------------------------------------------------------------
// Hover and completion for the program's own symbols.

/// The hover text of a symbol.
pub open spec fn symbol_hover(s: SSymbol) -> Seq<char> {
    match s.kind {
        SSymbolKind::Function { parameters } => {
            let sig = if parameters.len() == 0 {
                "FUNCTION "@ + s.name + "()"@
            } else {
                "FUNCTION "@ + s.name + "("@ + join(parameters, ", "@) + ")"@
            };
            "```psy\n"@ + sig + "\n```\n\n*User-defined function* — declared at line "@ + decimal(s.line as nat)
        },
        SSymbolKind::Variable => "**"@ + s.name + "** — variable, first assigned at line "@ + decimal(s.line as nat),
        SSymbolKind::Const => "**"@ + s.name + "** — constant, declared at line "@ + decimal(s.line as nat),
        SSymbolKind::Static => "**"@ + s.name + "** — static variable (persists across calls), declared at line "@
            + decimal(s.line as nat),
        SSymbolKind::Array { size } => "**"@ + s.name + "** — array of size "@ + decimal(size as nat) + ", declared at line "@
            + decimal(s.line as nat),
        SSymbolKind::Import { module } => "**"@ + s.name + "** — imported from `"@ + module
            + "`\n\nSee module documentation for details."@,
    }
}

/// Hover text for the first symbol named `word`, if there is one.
pub fn hover_for_user_symbol(word: &str, symbols: &[Symbol]) -> (r: Option<String>)
    ensures
        match r {
            Some(h) => exists|i: int|
                0 <= i < symbols.len() && (#[trigger] symbols@[i]).name@ == word@ && h@ == symbol_hover(symbols@[i]@)
                    && forall|k: int| 0 <= k < i ==> (#[trigger] symbols@[k]).name@ != word@,
            None => forall|i: int| 0 <= i < symbols.len() ==> (#[trigger] symbols@[i]).name@ != word@,
        },
{
    let mut i: usize = 0;
    while i < symbols.len()
        invariant
            i <= symbols.len(),
            forall|k: int| 0 <= k < i ==> (#[trigger] symbols@[k]).name@ != word@,
        decreases symbols.len() - i,
    {
        if str_eq(symbols[i].name.as_str(), word) {
            let h = symbol_hover_text(&symbols[i]);
            assert(symbols@[i as int].name@ == word@);
            return Some(h);
        }
        i = i + 1;
    }
    None
}

fn symbol_hover_text(s: &Symbol) -> (r: String)
    ensures
        r@ == symbol_hover(s@),
{
    match &s.kind {
        SymbolKind::Function { parameters } => {
            let mut r = String::from_str("```psy\n");
            r.append("FUNCTION ");
            r.append(s.name.as_str());
            if parameters.len() == 0 {
                r.append("()");
            } else {
                r.append("(");
                let joined = join_strings(parameters, ", ");
                assert(parameters@.map_values(|p: String| p@) =~= crate::ast::strings_view(parameters@));
                r.append(joined.as_str());
                r.append(")");
            }
            r.append("\n```\n\n*User-defined function* — declared at line ");
            push_decimal(&mut r, s.line);
            r
        },
        SymbolKind::Variable => {
            let mut r = String::from_str("**");
            r.append(s.name.as_str());
            r.append("** — variable, first assigned at line ");
            push_decimal(&mut r, s.line);
            r
        },
        SymbolKind::Const => {
            let mut r = String::from_str("**");
            r.append(s.name.as_str());
            r.append("** — constant, declared at line ");
            push_decimal(&mut r, s.line);
            r
        },
        SymbolKind::Static => {
            let mut r = String::from_str("**");
            r.append(s.name.as_str());
            r.append("** — static variable (persists across calls), declared at line ");
            push_decimal(&mut r, s.line);
            r
        },
        SymbolKind::Array { size } => {
            let mut r = String::from_str("**");
            r.append(s.name.as_str());
            r.append("** — array of size ");
            push_decimal(&mut r, *size);
            r.append(", declared at line ");
            push_decimal(&mut r, s.line);
            r
        },
        SymbolKind::Import { module } => {
            let mut r = String::from_str("**");
            r.append(s.name.as_str());
            r.append("** — imported from `");
            r.append(module.as_str());
            r.append("`\n\nSee module documentation for details.");
            r
        },
    }
}

/// The detail a completion item shows for a symbol.
pub open spec fn completion_detail_text(k: SSymbolKind) -> Seq<char> {
    match k {
        SSymbolKind::Function { parameters } => "Function("@ + join(parameters, ", "@) + ")"@,
        SSymbolKind::Variable => "Variable"@,
        SSymbolKind::Const => "Constant"@,
        SSymbolKind::Static => "Static variable"@,
        SSymbolKind::Array { size } => "Array["@ + decimal(size as nat) + "]"@,
        SSymbolKind::Import { module } => "Imported from "@ + module,
    }
}

/// The detail a completion item shows for a symbol.
pub fn completion_detail(kind: &SymbolKind) -> (r: String)
    ensures
        r@ == completion_detail_text(kind@),
{
    match kind {
        SymbolKind::Function { parameters } => {
            let mut r = String::from_str("Function(");
            let joined = join_strings(parameters, ", ");
            assert(parameters@.map_values(|p: String| p@) =~= crate::ast::strings_view(parameters@));
            r.append(joined.as_str());
            r.append(")");
            r
        },
        SymbolKind::Variable => String::from_str("Variable"),
        SymbolKind::Const => String::from_str("Constant"),
        SymbolKind::Static => String::from_str("Static variable"),
        SymbolKind::Array { size } => {
            let mut r = String::from_str("Array[");
            push_decimal(&mut r, *size);
            r.append("]");
            r
        },
        SymbolKind::Import { module } => {
            let mut r = String::from_str("Imported from ");
            r.append(module.as_str());
            r
        },
    }
}

/// The snippet placeholders `${1:a}, ${2:b}, ...` of the parameters.
pub open spec fn snippet_params(ps: Seq<Seq<char>>) -> Seq<Seq<char>> {
    Seq::new(ps.len(), |i: int| "${"@ + decimal((i + 1) as nat) + ":"@ + ps[i] + "}"@)
}

/// The text a completion item inserts for a symbol: a call with snippet
/// placeholders for a function, the name otherwise.
pub open spec fn completion_insert(s: SSymbol) -> Seq<char> {
    match s.kind {
        SSymbolKind::Function { parameters } => if parameters.len() > 0 {
            s.name + "("@ + join(snippet_params(parameters), ", "@) + ")"@
        } else {
            s.name + "()"@
        },
        _ => s.name,
    }
}

/// The text a completion item inserts for a symbol.
pub fn completion_insert_text(symbol: &Symbol) -> (r: String)
    ensures
        r@ == completion_insert(symbol@),
{
    match &symbol.kind {
        SymbolKind::Function { parameters } => {
            let mut r = symbol.name.clone();
            if parameters.len() > 0 {
                let ghost ps = crate::ast::strings_view(parameters@);
                let mut parts: Vec<String> = Vec::new();
                let mut i: usize = 0;
                while i < parameters.len()
                    invariant
                        i <= parameters.len(),
                        ps == crate::ast::strings_view(parameters@),
                        parts@.map_values(|p: String| p@) == snippet_params(ps).take(i as int),
                    decreases parameters.len() - i,
                {
                    let mut p = String::from_str("${");
                    assert(i + 1 <= usize::MAX);
                    push_decimal(&mut p, i + 1);
                    p.append(":");
                    p.append(parameters[i].as_str());
                    p.append("}");
                    assert(ps[i as int] == parameters@[i as int]@);
                    assert(p@ == snippet_params(ps)[i as int]);
                    let ghost before = parts@.map_values(|q: String| q@);
                    parts.push(p);
                    assert(parts@.map_values(|q: String| q@) =~= before.push(snippet_params(ps)[i as int]));
                    assert(parts@.map_values(|q: String| q@) =~= snippet_params(ps).take(i + 1));
                    i = i + 1;
                }
                assert(snippet_params(ps).take(parameters.len() as int) =~= snippet_params(ps));
                let joined = join_strings(&parts, ", ");
                r.append("(");
                r.append(joined.as_str());
                r.append(")");
            } else {
                r.append("()");
            }
            r
        },
        _ => symbol.name.clone(),
    }
}

// ---------------------------------------------------------------------
// Diagnostics for the editor.

/// The text a diagnostic shows in the editor: its message, and its
/// suggestion on a line of its own when there is one.
pub open spec fn editor_message_text(message: Seq<char>, suggestion: Option<Seq<char>>) -> Seq<char> {
    match suggestion {
        Some(s) => message + "\nSuggestion: "@ + s,
        None => message,
    }
}

/// The message of a diagnostic as the editor shows it.
pub fn editor_message(d: &Diagnostic) -> (r: String)
    ensures
        r@ == editor_message_text(d.message@, opt_text(d.suggestion)),
{
    let mut message = d.message.clone();
    match &d.suggestion {
        Some(s) => {
            message.append("\nSuggestion: ");
            message.append(s.as_str());
        },
        None => {},
    }
    message
}

/// The zero-based (line, character) where the editor shows a diagnostic:
/// one less than its line and column, and no less than 0, as 32-bit
/// numbers.
pub fn editor_position(d: &Diagnostic) -> (r: (u32, u32))
    ensures
        r.0 == (if d.line > 0 { d.line - 1 } else { 0 }) as u32,
        r.1 == (if d.column > 0 { d.column - 1 } else { 0 }) as u32,
{
    let line = if d.line > 0 { d.line - 1 } else { 0 };
    let column = if d.column > 0 { d.column - 1 } else { 0 };
    (line as u32, column as u32)
}

// ---------------------------------------------------------------------
// Unused imports.

/// A name is in use when some variable, constant or static has it.
pub open spec fn name_in_use(symbols: Seq<SSymbol>, name: Seq<char>) -> bool {
    exists|i: int|
        0 <= i < symbols.len() && (#[trigger] symbols[i]).name == name && (symbols[i].kind is Variable
            || symbols[i].kind is Const || symbols[i].kind is Static)
}

/// The warning for an imported function that is never used.
pub open spec fn unused_import_text(name: Seq<char>, module: Seq<char>) -> Seq<char> {
    "Imported '"@ + name + "' from "@ + module + " is never used"@
}

/// The warnings for the imported names that are never used, each with the
/// place of its symbol, in the order of the symbols.
pub open spec fn unused_import_warnings(symbols: Seq<SSymbol>, upto: int) -> Seq<(int, Seq<char>)>
    decreases upto,
{
    if upto <= 0 || upto > symbols.len() {
        Seq::empty()
    } else {
        let s = symbols[upto - 1];
        unused_import_warnings(symbols, upto - 1) + match s.kind {
            SSymbolKind::Import { module } => if !name_in_use(symbols, s.name) {
                seq![(upto - 1, unused_import_text(s.name, module))]
            } else {
                Seq::empty()
            },
            _ => Seq::empty(),
        }
    }
}

pub open spec fn warnings_view(v: Seq<(usize, String)>) -> Seq<(int, Seq<char>)> {
    v.map_values(|w: (usize, String)| (w.0 as int, w.1@))
}

pub open spec fn syms_view(v: Seq<Symbol>) -> Seq<SSymbol> {
    v.map_values(|s: Symbol| s@)
}

/// The warnings for imported names that no variable, constant or static
/// uses, each with the place of its symbol in the list.
pub fn unused_imports(symbols: &[Symbol]) -> (r: Vec<(usize, String)>)
    ensures
        warnings_view(r@) == unused_import_warnings(syms_view(symbols@), symbols@.len() as int),
{
    let ghost sv = syms_view(symbols@);
    let mut r: Vec<(usize, String)> = Vec::new();
    let mut i: usize = 0;
    assert(warnings_view(r@) =~= Seq::<(int, Seq<char>)>::empty());
    while i < symbols.len()
        invariant
            i <= symbols.len(),
            sv == syms_view(symbols@),
            warnings_view(r@) == unused_import_warnings(sv, i as int),
        decreases symbols.len() - i,
    {
        let ghost before = warnings_view(r@);
        assert(sv[i as int] == symbols@[i as int]@);
        match &symbols[i].kind {
            SymbolKind::Import { module } => {
                let mut used = false;
                let mut k: usize = 0;
                while k < symbols.len()
                    invariant
                        k <= symbols.len(),
                        i < symbols.len(),
                        sv == syms_view(symbols@),
                        used == exists|j: int| 0 <= j < k && (#[trigger] sv[j]).name == sv[i as int].name
                            && (sv[j].kind is Variable || sv[j].kind is Const || sv[j].kind is Static),
                    decreases symbols.len() - k,
                {
                    assert(sv[k as int] == symbols@[k as int]@);
                    let plain = match &symbols[k].kind {
                        SymbolKind::Variable | SymbolKind::Const | SymbolKind::Static => true,
                        _ => false,
                    };
                    if plain && str_eq(symbols[k].name.as_str(), symbols[i].name.as_str()) {
                        used = true;
                    }
                    k = k + 1;
                }
                if !used {
                    let mut m = String::from_str("Imported '");
                    m.append(symbols[i].name.as_str());
                    m.append("' from ");
                    m.append(module.as_str());
                    m.append(" is never used");
                    r.push((i, m));
                    assert(warnings_view(r@) =~= before.push((i as int, unused_import_text(sv[i as int].name, module@))));
                } else {
                    assert(warnings_view(r@) =~= before + Seq::<(int, Seq<char>)>::empty());
                }
            },
            _ => {
                assert(before + Seq::<(int, Seq<char>)>::empty() =~= before);
            },
        }
        i = i + 1;
    }
    r
}

} // verus!
