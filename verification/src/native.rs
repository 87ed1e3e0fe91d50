//! The registry of the native modules a program can import (`IMPORT
//! _MATH`, ...): for each module its functions with their arities and
//! documentation, and its constants. The functions themselves and the
//! constants' values are supplied by the interpreter.
use vstd::prelude::*;
use vstd::string::StringExecFns;
use crate::text::{chars_of, decimal, push_decimal, str_eq};

verus! {

broadcast use vstd::seq_lib::to_multiset_insert, vstd::seq_lib::to_multiset_build;

/// How many arguments a native function takes.
#[derive(Debug, Clone, Copy)]
pub enum Arity {
    Exact(usize),
    AtLeast(usize),
}

/// How an arity is written: `1 arg`, `2 args`, `1+ args`, `2+ args`.
pub open spec fn arity_text(a: Arity) -> Seq<char> {
    match a {
        Arity::Exact(n) => if n == 1 { "1 arg"@ } else { decimal(n as nat) + " args"@ },
        Arity::AtLeast(n) => if n == 1 { "1+ args"@ } else { decimal(n as nat) + "+ args"@ },
    }
}

impl Arity {
    /// The arity as it is written in a module's description.
    pub fn describe(&self) -> (r: String)
        ensures
            r@ == arity_text(*self),
    {
        match self {
            Arity::Exact(n) => {
                if *n == 1 {
                    String::from_str("1 arg")
                } else {
                    let mut r = String::new();
                    push_decimal(&mut r, *n);
                    r.append(" args");
                    r
                }
            },
            Arity::AtLeast(n) => {
                if *n == 1 {
                    String::from_str("1+ args")
                } else {
                    let mut r = String::new();
                    push_decimal(&mut r, *n);
                    r.append("+ args");
                    r
                }
            },
        }
    }
}

/// What the registry records of a native function: its arity, what it
/// does, what it returns, and its parameters as (name, type) pairs.
#[derive(Debug, Clone)]
pub struct NativeFunctionInfo {
    pub arity: Arity,
    pub description: &'static str,
    pub return_type: &'static str,
    pub parameters: Vec<(&'static str, &'static str)>,
}

/// What the registry records of a native constant.
#[derive(Debug, Clone)]
pub struct NativeConstantInfo {
    pub description: &'static str,
    pub constant_type: &'static str,
}

/// A native module: its name, description, functions and constants, each
/// entry under its name.
#[derive(Debug, Clone)]
pub struct NativeModule {
    pub name: &'static str,
    pub description: &'static str,
    pub functions: Vec<(&'static str, NativeFunctionInfo)>,
    pub constants: Vec<(&'static str, NativeConstantInfo)>,
}

/// The summary of a module: name, description, the functions' names with
/// their arities, and the constants' names, in the order they are listed.
pub struct SModule {
    pub name: Seq<char>,
    pub description: Seq<char>,
    pub functions: Seq<(Seq<char>, Arity)>,
    pub constants: Seq<Seq<char>>,
}

impl View for NativeModule {
    type V = SModule;

    open spec fn view(&self) -> SModule {
        SModule {
            name: self.name@,
            description: self.description@,
            functions: self.functions@.map_values(|e: (&'static str, NativeFunctionInfo)| (e.0@, e.1.arity)),
            constants: self.constants@.map_values(|e: (&'static str, NativeConstantInfo)| e.0@),
        }
    }
}

/// `a` comes before `b` or equals it, comparing character by character
/// (the order of `str`).
pub open spec fn lex_le(a: Seq<char>, b: Seq<char>) -> bool
    decreases a.len(),
{
    if a.len() == 0 {
        true
    } else if b.len() == 0 {
        false
    } else if a[0] != b[0] {
        a[0] < b[0]
    } else {
        lex_le(a.drop_first(), b.drop_first())
    }
}

/// Ascending in that order.
pub open spec fn sorted(s: Seq<Seq<char>>) -> bool {
    forall|i: int, j: int| 0 <= i < j < s.len() ==> lex_le(#[trigger] s[i], #[trigger] s[j])
}

/// Any two texts are ordered one way or the other.
pub proof fn lemma_lex_total(a: Seq<char>, b: Seq<char>)
    ensures
        lex_le(a, b) || lex_le(b, a),
    decreases a.len(),
{
    if a.len() > 0 && b.len() > 0 && a[0] == b[0] {
        lemma_lex_total(a.drop_first(), b.drop_first());
    }
}

/// The order of texts is transitive.
pub proof fn lemma_lex_transitive(a: Seq<char>, b: Seq<char>, c: Seq<char>)
    requires
        lex_le(a, b),
        lex_le(b, c),
    ensures
        lex_le(a, c),
    decreases a.len(),
{
    if a.len() > 0 && b.len() > 0 && c.len() > 0 && a[0] == b[0] && b[0] == c[0] {
        lemma_lex_transitive(a.drop_first(), b.drop_first(), c.drop_first());
    }
}

/// The entries a module's description lists: `NAME(arity)` for each
/// function, then each constant's name.
pub open spec fn describe_entries(m: SModule) -> Seq<Seq<char>> {
    m.functions.map_values(|f: (Seq<char>, Arity)| f.0 + "("@ + arity_text(f.1) + ")"@) + m.constants
}

/// Whether `a` comes before `b` or equals it.
pub(crate) fn lex_le_exec(a: &Vec<char>, b: &Vec<char>) -> (r: bool)
    ensures
        r == lex_le(a@, b@),
{
    let mut i: usize = 0;
    assert(a@.skip(0) =~= a@);
    assert(b@.skip(0) =~= b@);
    while i < a.len() && i < b.len() && a[i] == b[i]
        invariant
            i <= a.len(),
            i <= b.len(),
            lex_le(a@.skip(i as int), b@.skip(i as int)) == lex_le(a@, b@),
        decreases a.len() - i,
    {
        assert(a@.skip(i as int).drop_first() =~= a@.skip(i + 1));
        assert(b@.skip(i as int).drop_first() =~= b@.skip(i + 1));
        i = i + 1;
    }
    if i == a.len() {
        true
    } else if i == b.len() {
        false
    } else {
        assert(a@.skip(i as int)[0] == a@[i as int]);
        assert(b@.skip(i as int)[0] == b@[i as int]);
        a[i] < b[i]
    }
}

impl NativeModule {
    /// A human-readable list of every function (`NAME(arity)`) and
    /// constant (`NAME`) the module exposes, in ascending order.
    pub fn describe(&self) -> (r: Vec<String>)
        ensures
            sorted(r@.map_values(|s: String| s@)),
            r@.map_values(|s: String| s@).to_multiset() == describe_entries(self@).to_multiset(),
    {
        let ghost all = describe_entries(self@);
        let mut entries: Vec<String> = Vec::new();
        assert(entries@.map_values(|s: String| s@) =~= all.subrange(0, 0));
        let mut i: usize = 0;
        while i < self.functions.len()
            invariant
                i <= self.functions.len(),
                all == describe_entries(self@),
                entries@.map_values(|s: String| s@) == all.subrange(0, i as int),
            decreases self.functions.len() - i,
        {
            let (name, info) = &self.functions[i];
            let mut e = String::from_str(*name);
            e.append("(");
            let a = info.arity.describe();
            e.append(a.as_str());
            e.append(")");
            assert(self@.functions[i as int] == (name@, info.arity));
            assert(all[i as int] == e@);
            let ghost before = entries@.map_values(|s: String| s@);
            entries.push(e);
            assert(entries@.map_values(|s: String| s@) =~= before.push(all[i as int]));
            assert(before.push(all[i as int]) =~= all.subrange(0, i + 1));
            i = i + 1;
        }
        let mut k: usize = 0;
        while k < self.constants.len()
            invariant
                k <= self.constants.len(),
                all == describe_entries(self@),
                entries@.map_values(|s: String| s@) == all.subrange(0, self.functions.len() + k),
            decreases self.constants.len() - k,
        {
            let (name, _) = &self.constants[k];
            assert(self@.constants[k as int] == name@);
            assert(all[self.functions.len() + k] == name@);
            let ghost before = entries@.map_values(|s: String| s@);
            entries.push(String::from_str(*name));
            assert(entries@.map_values(|s: String| s@) =~= before.push(all[self.functions.len() + k]));
            assert(before.push(all[self.functions.len() + k]) =~= all.subrange(0, self.functions.len() + k + 1));
            k = k + 1;
        }
        assert(all.subrange(0, all.len() as int) =~= all);
        sort_strings(entries)
    }

    /// The function registered under `name` (the first such entry).
    pub fn get_function_info(&self, name: &str) -> (r: Option<&NativeFunctionInfo>)
        ensures
            match r {
                Some(info) => exists|i: int|
                    0 <= i < self.functions.len() && (#[trigger] self.functions@[i]).0@ == name@
                        && info == &self.functions@[i].1
                        && forall|k: int| 0 <= k < i ==> (#[trigger] self.functions@[k]).0@ != name@,
                None => forall|i: int| 0 <= i < self.functions.len() ==> (#[trigger] self.functions@[i]).0@ != name@,
            },
    {
        let mut i: usize = 0;
        while i < self.functions.len()
            invariant
                i <= self.functions.len(),
                forall|k: int| 0 <= k < i ==> (#[trigger] self.functions@[k]).0@ != name@,
            decreases self.functions.len() - i,
        {
            if str_eq(self.functions[i].0, name) {
                return Some(&self.functions[i].1);
            }
            i = i + 1;
        }
        None
    }

    /// The constant registered under `name` (the first such entry).
    pub fn get_constant_info(&self, name: &str) -> (r: Option<&NativeConstantInfo>)
        ensures
            match r {
                Some(info) => exists|i: int|
                    0 <= i < self.constants.len() && (#[trigger] self.constants@[i]).0@ == name@
                        && info == &self.constants@[i].1
                        && forall|k: int| 0 <= k < i ==> (#[trigger] self.constants@[k]).0@ != name@,
                None => forall|i: int| 0 <= i < self.constants.len() ==> (#[trigger] self.constants@[i]).0@ != name@,
            },
    {
        let mut i: usize = 0;
        while i < self.constants.len()
            invariant
                i <= self.constants.len(),
                forall|k: int| 0 <= k < i ==> (#[trigger] self.constants@[k]).0@ != name@,
            decreases self.constants.len() - i,
        {
            if str_eq(self.constants[i].0, name) {
                return Some(&self.constants[i].1);
            }
            i = i + 1;
        }
        None
    }

    /// Whether a function is registered under `name`.
    pub fn has_function(&self, name: &str) -> (r: bool)
        ensures
            r == self@.functions.map_values(|f: (Seq<char>, Arity)| f.0).contains(name@),
    {
        let r = self.get_function_info(name).is_some();
        proof {
            let names = self@.functions.map_values(|f: (Seq<char>, Arity)| f.0);
            if r {
                let i = choose|i: int| 0 <= i < self.functions.len() && (#[trigger] self.functions@[i]).0@ == name@;
                assert(names[i] == name@);
            } else {
                assert forall|i: int| 0 <= i < names.len() implies names[i] != name@ by {
                    assert(self.functions@[i].0@ != name@);
                }
            }
        }
        r
    }

    /// Whether a constant is registered under `name`.
    pub fn has_constant(&self, name: &str) -> (r: bool)
        ensures
            r == self@.constants.contains(name@),
    {
        let r = self.get_constant_info(name).is_some();
        proof {
            if r {
                let i = choose|i: int| 0 <= i < self.constants.len() && (#[trigger] self.constants@[i]).0@ == name@;
                assert(self@.constants[i] == name@);
            } else {
                assert forall|i: int| 0 <= i < self@.constants.len() implies self@.constants[i] != name@ by {
                    assert(self.constants@[i].0@ != name@);
                }
            }
        }
        r
    }
}

/// The strings in ascending order (insertion sort).
fn sort_strings(v: Vec<String>) -> (r: Vec<String>)
    ensures
        sorted(r@.map_values(|s: String| s@)),
        r@.map_values(|s: String| s@).to_multiset() == v@.map_values(|s: String| s@).to_multiset(),
{
    let ghost input = v@.map_values(|s: String| s@);
    let mut out: Vec<String> = Vec::new();
    let mut keys: Vec<Vec<char>> = Vec::new();
    assert(out@.map_values(|s: String| s@) =~= input.subrange(0, 0));
    let mut i: usize = 0;
    while i < v.len()
        invariant
            i <= v.len(),
            input == v@.map_values(|s: String| s@),
            out.len() == keys.len(),
            forall|k: int| 0 <= k < keys.len() ==> (#[trigger] keys@[k])@ == out@[k]@,
            sorted(out@.map_values(|s: String| s@)),
            out@.map_values(|s: String| s@).to_multiset() == input.subrange(0, i as int).to_multiset(),
        decreases v.len() - i,
    {
        let e = v[i].clone();
        let key = chars_of(e.as_str());
        let ghost cur = out@.map_values(|s: String| s@);
        let mut p: usize = 0;
        while p < out.len() && lex_le_exec(&keys[p], &key)
            invariant
                p <= out.len(),
                out.len() == keys.len(),
                cur == out@.map_values(|s: String| s@),
                key@ == e@,
                forall|k: int| 0 <= k < keys.len() ==> (#[trigger] keys@[k])@ == out@[k]@,
                forall|k: int| 0 <= k < p ==> lex_le(#[trigger] cur[k], e@),
            decreases out.len() - p,
        {
            assert(cur[p as int] == keys@[p as int]@);
            p = p + 1;
        }
        proof {
            if p < out.len() {
                lemma_lex_total(cur[p as int], e@);
                assert forall|k: int| p <= k < cur.len() implies lex_le(e@, #[trigger] cur[k]) by {
                    if k > p {
                        lemma_lex_transitive(e@, cur[p as int], cur[k]);
                    }
                }
            }
        }
        out.insert(p, e);
        keys.insert(p, key);
        proof {
            let now = out@.map_values(|s: String| s@);
            assert(now =~= cur.insert(p as int, e@));
            assert forall|a: int, b: int| 0 <= a < b < now.len() implies lex_le(#[trigger] now[a], #[trigger] now[b]) by {
                if b < p {
                } else if a < p && b == p {
                } else if a < p {
                    lemma_lex_transitive(now[a], e@, now[b]);
                } else if a == p {
                } else {
                }
            }
            assert(input.subrange(0, i + 1) =~= input.subrange(0, i as int).push(e@));
            assert(keys@.len() == out@.len());
            assert forall|k: int| 0 <= k < keys.len() implies (#[trigger] keys@[k])@ == out@[k]@ by {
            }
        }
        i = i + 1;
    }
    assert(input.subrange(0, v.len() as int) =~= input);
    out
}

/// The registry entry for a module name, or `None` when no built-in
/// module has that name.
pub fn get_module(module_name: &str) -> (r: Option<NativeModule>)
    ensures
        match r {
            Some(m) => module_summary(module_name@) == Some(m@)
                && module_entries(module_name@) == Some((function_entries(m.functions@), constant_entries(m.constants@))),
            None => module_summary(module_name@) is None,
        },
{
    if str_eq(module_name, "_MATH") {
        Some(math_module())
    } else if str_eq(module_name, "_FS") {
        Some(fs_module())
    } else if str_eq(module_name, "_TIME") {
        Some(time_module())
    } else if str_eq(module_name, "_CRYPTO") {
        Some(crypto_module())
    } else if str_eq(module_name, "_NETWORK") {
        Some(network_module())
    } else if str_eq(module_name, "_JSON") {
        Some(json_module())
    } else if str_eq(module_name, "_ASYNC") {
        Some(async_module())
    } else {
        None
    }
}

/// The summary of the built-in module with a given name.
pub open spec fn module_summary(name: Seq<char>) -> Option<SModule> {
    if name == "_MATH"@ {
        Some(math_summary())
    } else if name == "_FS"@ {
        Some(fs_summary())
    } else if name == "_TIME"@ {
        Some(time_summary())
    } else if name == "_CRYPTO"@ {
        Some(crypto_summary())
    } else if name == "_NETWORK"@ {
        Some(network_summary())
    } else if name == "_JSON"@ {
        Some(json_summary())
    } else if name == "_ASYNC"@ {
        Some(async_summary())
    } else {
        None
    }
}

/// The function and constant entries of the built-in module with a given name.
pub open spec fn module_entries(name: Seq<char>) -> Option<(Seq<FunctionEntry>, Seq<ConstantEntry>)> {
    if name == "_MATH"@ {
        Some((math_function_entries(), math_constant_entries()))
    } else if name == "_FS"@ {
        Some((fs_function_entries(), fs_constant_entries()))
    } else if name == "_TIME"@ {
        Some((time_function_entries(), time_constant_entries()))
    } else if name == "_CRYPTO"@ {
        Some((crypto_function_entries(), crypto_constant_entries()))
    } else if name == "_NETWORK"@ {
        Some((network_function_entries(), network_constant_entries()))
    } else if name == "_JSON"@ {
        Some((json_function_entries(), json_constant_entries()))
    } else if name == "_ASYNC"@ {
        Some((async_function_entries(), async_constant_entries()))
    } else {
        None
    }
}

/// The names of all built-in modules.
pub fn module_names() -> (r: Vec<&'static str>)
    ensures
        r@.map_values(|s: &'static str| s@) == seq!["_MATH"@, "_FS"@, "_TIME"@, "_CRYPTO"@, "_NETWORK"@, "_JSON"@, "_ASYNC"@],
{
    let r = vec!["_MATH", "_FS", "_TIME", "_CRYPTO", "_NETWORK", "_JSON", "_ASYNC"];
    assert(r@.map_values(|s: &'static str| s@) =~= seq!["_MATH"@, "_FS"@, "_TIME"@, "_CRYPTO"@, "_NETWORK"@, "_JSON"@, "_ASYNC"@]);
    r
}

/// The name, description, functions with their arities, and constants of `_MATH`.
pub open spec fn math_summary() -> SModule {
    SModule {
        name: "_MATH"@,
        description: "Mathematical functions and constants for advanced calculations"@,
        functions: seq![
            ("SIN"@, Arity::Exact(1)),
            ("COS"@, Arity::Exact(1)),
            ("TAN"@, Arity::Exact(1)),
            ("SQRT"@, Arity::Exact(1)),
            ("POW"@, Arity::Exact(2)),
            ("ABS"@, Arity::Exact(1)),
            ("ROUND"@, Arity::Exact(1)),
            ("FLOOR"@, Arity::Exact(1)),
            ("CEIL"@, Arity::Exact(1)),
            ("MEAN"@, Arity::AtLeast(1)),
            ("MEDIAN"@, Arity::AtLeast(1)),
            ("MODE"@, Arity::AtLeast(1)),
            ("VARIANCE"@, Arity::AtLeast(1)),
            ("STDDEV"@, Arity::AtLeast(1)),
            ("MIN"@, Arity::AtLeast(1)),
            ("MAX"@, Arity::AtLeast(1)),
            ("SUM"@, Arity::AtLeast(1)),
            ("PRODUCT"@, Arity::AtLeast(1)),
            ("GCD"@, Arity::Exact(2)),
            ("LCM"@, Arity::Exact(2)),
            ("IS_PRIME"@, Arity::Exact(1)),
            ("MATRIX_ADD"@, Arity::AtLeast(2)),
            ("MATRIX_MULTIPLY"@, Arity::AtLeast(2)),
            ("MATRIX_TRANSPOSE"@, Arity::AtLeast(1)),
            ("MATRIX_DETERMINANT"@, Arity::AtLeast(1)),
            ("MATRIX_INVERSE"@, Arity::AtLeast(1)),
            ("DOT"@, Arity::Exact(2)),
            ("CROSS"@, Arity::Exact(2)),
            ("ASIN"@, Arity::Exact(1)),
            ("ACOS"@, Arity::Exact(1)),
            ("ATAN"@, Arity::Exact(1)),
            ("LOG"@, Arity::Exact(1)),
            ("LOG10"@, Arity::Exact(1)),
            ("EXP"@, Arity::Exact(1)),
            ("FACTORIAL"@, Arity::Exact(1)),
        ],
        constants: seq!["PI"@, "E"@],
    }
}

/// The name, description, functions with their arities, and constants of `_FS`.
pub open spec fn fs_summary() -> SModule {
    SModule {
        name: "_FS"@,
        description: "File system operations for reading, writing, and managing files"@,
        functions: seq![
            ("READFILE"@, Arity::Exact(1)),
            ("WRITEFILE"@, Arity::Exact(2)),
            ("EXISTS"@, Arity::Exact(1)),
            ("ISFILE"@, Arity::Exact(1)),
            ("ISDIR"@, Arity::Exact(1)),
            ("DELETE"@, Arity::Exact(1)),
            ("LISTDIR"@, Arity::Exact(1)),
        ],
        constants: seq![],
    }
}

/// The name, description, functions with their arities, and constants of `_TIME`.
pub open spec fn time_summary() -> SModule {
    SModule {
        name: "_TIME"@,
        description: "Time utilities for getting system time and controlling execution flow"@,
        functions: seq![
            ("NOW"@, Arity::Exact(0)),
            ("NOWMS"@, Arity::Exact(0)),
            ("SLEEP"@, Arity::Exact(1)),
            ("SLEEPMS"@, Arity::Exact(1)),
            ("FORMATTIME"@, Arity::Exact(1)),
        ],
        constants: seq![],
    }
}

/// The name, description, functions with their arities, and constants of `_CRYPTO`.
pub open spec fn crypto_summary() -> SModule {
    SModule {
        name: "_CRYPTO"@,
        description: "Cryptographic operations including encryption, hashing, and encoding"@,
        functions: seq![
            ("ENCRYPT"@, Arity::Exact(2)),
            ("DECRYPT"@, Arity::Exact(2)),
            ("HASH"@, Arity::Exact(1)),
            ("BASE64_ENCODE"@, Arity::Exact(1)),
            ("BASE64_DECODE"@, Arity::Exact(1)),
            ("HMAC_GENERATE"@, Arity::Exact(2)),
            ("HMAC_VERIFY"@, Arity::Exact(3)),
            ("AES_ENCRYPT"@, Arity::Exact(3)),
            ("AES_DECRYPT"@, Arity::Exact(3)),
            ("RSA_GENERATE_KEY"@, Arity::Exact(0)),
            ("RSA_ENCRYPT"@, Arity::Exact(2)),
            ("RSA_DECRYPT"@, Arity::Exact(2)),
        ],
        constants: seq![],
    }
}

/// The name, description, functions with their arities, and constants of `_NETWORK`.
pub open spec fn network_summary() -> SModule {
    SModule {
        name: "_NETWORK"@,
        description: "Network operations for HTTP requests, URL encoding, and JSON parsing"@,
        functions: seq![
            ("HTTP_GET"@, Arity::Exact(1)),
            ("HTTP_POST"@, Arity::Exact(2)),
            ("HTTP_PUT"@, Arity::Exact(2)),
            ("HTTP_DELETE"@, Arity::Exact(1)),
            ("HTTP_HEAD"@, Arity::Exact(1)),
            ("URL_ENCODE"@, Arity::Exact(1)),
            ("URL_DECODE"@, Arity::Exact(1)),
            ("PARSE_JSON"@, Arity::Exact(1)),
            ("SERVER_CREATE"@, Arity::Exact(1)),
            ("SERVER_LISTEN"@, Arity::Exact(1)),
            ("SERVER_ROUTE"@, Arity::Exact(3)),
            ("SERVER_ACCEPT"@, Arity::Exact(1)),
            ("SERVER_ACCEPT_BLOCKING"@, Arity::Exact(1)),
            ("SERVER_RESPOND"@, Arity::AtLeast(2)),
            ("SERVER_STOP"@, Arity::Exact(1)),
            ("SERVER_LIST_ALL"@, Arity::Exact(0)),
            ("WS_CONNECT"@, Arity::Exact(1)),
            ("WS_SEND"@, Arity::Exact(2)),
            ("WS_RECEIVE"@, Arity::Exact(1)),
            ("WS_CLOSE"@, Arity::Exact(1)),
        ],
        constants: seq![],
    }
}

/// The name, description, functions with their arities, and constants of `_JSON`.
pub open spec fn json_summary() -> SModule {
    SModule {
        name: "_JSON"@,
        description: "JSON parsing, stringification, and manipulation functions"@,
        functions: seq![
            ("JSON_PARSE"@, Arity::Exact(1)),
            ("JSON_STRINGIFY"@, Arity::Exact(1)),
            ("JSON_GET"@, Arity::Exact(2)),
            ("JSON_SET"@, Arity::Exact(3)),
            ("JSON_KEYS"@, Arity::Exact(1)),
        ],
        constants: seq![],
    }
}

/// The name, description, functions with their arities, and constants of `_ASYNC`.
pub open spec fn async_summary() -> SModule {
    SModule {
        name: "_ASYNC"@,
        description: "Asynchronous programming support with tasks, parallel execution, and channels"@,
        functions: seq![
            ("ASYNC_RUN"@, Arity::Exact(1)),
            ("ASYNC_SPAWN"@, Arity::Exact(2)),
            ("ASYNC_AWAIT"@, Arity::Exact(1)),
            ("ASYNC_SLEEP"@, Arity::Exact(1)),
            ("ASYNC_PARALLEL"@, Arity::Exact(1)),
            ("ASYNC_STATUS"@, Arity::Exact(1)),
            ("ASYNC_CANCEL"@, Arity::Exact(1)),
            ("ASYNC_AWAIT_ALL"@, Arity::Exact(1)),
        ],
        constants: seq![],
    }
}

/// Everything the registry records of a native function, with its name.
#[verifier::ext_equal]
pub struct FunctionEntry {
    pub name: Seq<char>,
    pub arity: Arity,
    pub description: Seq<char>,
    pub return_type: Seq<char>,
    pub parameters: Seq<(Seq<char>, Seq<char>)>,
}

/// Everything the registry records of a native constant, with its name.
#[verifier::ext_equal]
pub struct ConstantEntry {
    pub name: Seq<char>,
    pub description: Seq<char>,
    pub constant_type: Seq<char>,
}

pub open spec fn entry(
    name: Seq<char>,
    arity: Arity,
    description: Seq<char>,
    return_type: Seq<char>,
    parameters: Seq<(Seq<char>, Seq<char>)>,
) -> FunctionEntry {
    FunctionEntry { name, arity, description, return_type, parameters }
}

/// A function's arity agrees with its parameter list: exactly that many
/// parameters, or at least one for a variadic function, whose last
/// parameter stands for the rest.
pub open spec fn arity_matches(e: FunctionEntry) -> bool {
    match e.arity {
        Arity::Exact(k) => e.parameters.len() == k,
        Arity::AtLeast(k) => k >= 1 && e.parameters.len() >= 1,
    }
}

/// An entry has a description and a return type.
pub open spec fn entry_described(e: FunctionEntry) -> bool {
    e.description.len() > 0 && e.return_type.len() > 0
}

/// Every entry's arity agrees with its parameter list.
pub open spec fn arities_match(fs: Seq<FunctionEntry>) -> bool
    decreases fs.len(),
{
    if fs.len() == 0 {
        true
    } else {
        arity_matches(fs.last()) && entry_described(fs.last()) && arities_match(fs.drop_last())
    }
}

proof fn lemma_arities_match(fs: Seq<FunctionEntry>)
    requires
        arities_match(fs),
    ensures
        forall|i: int| 0 <= i < fs.len() ==> arity_matches(#[trigger] fs[i]) && entry_described(fs[i]),
    decreases fs.len(),
{
    if fs.len() > 0 {
        lemma_arities_match(fs.drop_last());
        assert forall|i: int| 0 <= i < fs.len() implies arity_matches(#[trigger] fs[i]) && entry_described(fs[i]) by {
            if i < fs.len() - 1 {
                assert(fs.drop_last()[i] == fs[i]);
            }
        }
    }
}

/// In every built-in module, each function's arity agrees with its
/// parameter list (an exact arity is the number of parameters; a variadic
/// function takes at least one argument and lists a parameter for them),
/// and each function has a description and a return type.
pub proof fn lemma_module_arities(name: Seq<char>)
    ensures
        module_entries(name) matches Some(es) ==> forall|i: int|
            0 <= i < es.0.len() ==> arity_matches(#[trigger] es.0[i]) && entry_described(es.0[i]),
{
        reveal_strlit("Accepts one connection and returns the raw request");
        reveal_strlit("Accepts one incoming connection (non-blocking)");
        reveal_strlit("Adds a route to the server (method, path)");
        reveal_strlit("Adds two or more matrices element-wise");
        reveal_strlit("Any");
        reveal_strlit("Array");
        reveal_strlit("Awaits completion of an async task");
        reveal_strlit("Awaits completion of multiple async tasks");
        reveal_strlit("Boolean");
        reveal_strlit("Calculates e raised to the given power");
        reveal_strlit("Calculates the arithmetic mean of a collection of numbers");
        reveal_strlit("Calculates the base-10 logarithm of a number");
        reveal_strlit("Calculates the cosine of an angle in radians");
        reveal_strlit("Calculates the cross product of two 3D vectors");
        reveal_strlit("Calculates the determinant of a square matrix");
        reveal_strlit("Calculates the dot product of two vectors");
        reveal_strlit("Calculates the factorial of a non-negative integer");
        reveal_strlit("Calculates the greatest common divisor of two numbers");
        reveal_strlit("Calculates the inverse cosine (arccosine) in radians");
        reveal_strlit("Calculates the inverse of a square matrix");
        reveal_strlit("Calculates the inverse sine (arcsine) in radians");
        reveal_strlit("Calculates the inverse tangent (arctangent) in radians");
        reveal_strlit("Calculates the least common multiple of two numbers");
        reveal_strlit("Calculates the natural logarithm of a number");
        reveal_strlit("Calculates the product of a collection of numbers");
        reveal_strlit("Calculates the sine of an angle in radians");
        reveal_strlit("Calculates the square root of a number");
        reveal_strlit("Calculates the standard deviation of a collection of numbers");
        reveal_strlit("Calculates the sum of a collection of numbers");
        reveal_strlit("Calculates the tangent of an angle in radians");
        reveal_strlit("Calculates the variance of a collection of numbers");
        reveal_strlit("Cancels an async task");
        reveal_strlit("Checks if a file or directory exists at the given path");
        reveal_strlit("Checks if the path points to a directory");
        reveal_strlit("Checks if the path points to a file");
        reveal_strlit("Closes a WebSocket connection");
        reveal_strlit("Converts a Psy value to a JSON string");
        reveal_strlit("Creates a new HTTP server on the specified port");
        reveal_strlit("Creates an async task");
        reveal_strlit("Decodes a Base64 string back to its original form");
        reveal_strlit("Decodes a URL-encoded string");
        reveal_strlit("Decrypts AES-encrypted data");
        reveal_strlit("Decrypts RSA-encrypted data using a private key");
        reveal_strlit("Decrypts a string using a provided key");
        reveal_strlit("Deletes a file or empty directory");
        reveal_strlit("Encodes a string for safe use in URLs");
        reveal_strlit("Encodes a string to Base64 format");
        reveal_strlit("Encrypts a string using a provided key");
        reveal_strlit("Encrypts data using AES encryption");
        reveal_strlit("Encrypts data using RSA public key encryption");
        reveal_strlit("Finds the median value in a collection of numbers");
        reveal_strlit("Finds the most frequently occurring value in a collection");
        reveal_strlit("Formats a timestamp into a human-readable date/time string");
        reveal_strlit("Generates a hash of the input string");
        reveal_strlit("Generates an HMAC signature for a message with a secret key");
        reveal_strlit("Generates an RSA key pair");
        reveal_strlit("Gets a value from a JSON string by key or index");
        reveal_strlit("Gets all keys from a JSON object string");
        reveal_strlit("Gets the status of an async task");
        reveal_strlit("Lists all active servers");
        reveal_strlit("Lists the contents of a directory as an array");
        reveal_strlit("Multiplies two or more matrices");
        reveal_strlit("Number");
        reveal_strlit("Opens a WebSocket connection to the specified URL");
        reveal_strlit("Parses a JSON string into a Psy array");
        reveal_strlit("Parses a JSON string into a Psy value");
        reveal_strlit("Pauses execution for a specified number of milliseconds");
        reveal_strlit("Pauses execution for a specified number of seconds");
        reveal_strlit("Performs an HTTP DELETE request to the specified URL");
        reveal_strlit("Performs an HTTP GET request to the specified URL");
        reveal_strlit("Performs an HTTP HEAD request to retrieve headers only");
        reveal_strlit("Performs an HTTP POST request with a body to the specified URL");
        reveal_strlit("Performs an HTTP PUT request with a body to the specified URL");
        reveal_strlit("Raises base to the exponent power");
        reveal_strlit("Reads the contents of a file as a string");
        reveal_strlit("Receives the next message from a WebSocket connection");
        reveal_strlit("Returns the absolute value of a number");
        reveal_strlit("Returns the current system time as a timestamp");
        reveal_strlit("Returns the current system time in milliseconds");
        reveal_strlit("Returns the largest value in a collection");
        reveal_strlit("Returns the smallest value in a collection");
        reveal_strlit("Rounds a number down to the nearest integer");
        reveal_strlit("Rounds a number to the nearest integer");
        reveal_strlit("Rounds a number up to the nearest integer");
        reveal_strlit("Runs multiple tasks in parallel");
        reveal_strlit("Sends a message over a WebSocket connection");
        reveal_strlit("Sends an HTTP response (request_id, body, status_code?)");
        reveal_strlit("Sets a value in a JSON string by key or index");
        reveal_strlit("Sleeps asynchronously for specified milliseconds");
        reveal_strlit("Spawns an async task in a separate thread");
        reveal_strlit("Starts listening on the server");
        reveal_strlit("Stops and removes a server");
        reveal_strlit("String");
        reveal_strlit("Tests if a number is prime");
        reveal_strlit("Transposes a matrix (flips rows and columns)");
        reveal_strlit("Verifies an HMAC signature against a message");
        reveal_strlit("Void");
        reveal_strlit("Writes string content to a file");
    assert(arities_match(math_function_entries())) by {
        reveal_with_fuel(arities_match, 36);
    }
    assert(arities_match(fs_function_entries())) by {
        reveal_with_fuel(arities_match, 8);
    }
    assert(arities_match(time_function_entries())) by {
        reveal_with_fuel(arities_match, 6);
    }
    assert(arities_match(crypto_function_entries())) by {
        reveal_with_fuel(arities_match, 14);
    }
    assert(arities_match(network_function_entries())) by {
        reveal_with_fuel(arities_match, 21);
    }
    assert(arities_match(json_function_entries())) by {
        reveal_with_fuel(arities_match, 6);
    }
    assert(arities_match(async_function_entries())) by {
        reveal_with_fuel(arities_match, 9);
    }
    lemma_arities_match(math_function_entries());
    lemma_arities_match(fs_function_entries());
    lemma_arities_match(time_function_entries());
    lemma_arities_match(crypto_function_entries());
    lemma_arities_match(network_function_entries());
    lemma_arities_match(json_function_entries());
    lemma_arities_match(async_function_entries());
}

/// A number that tells the names of a module's table apart: the length
/// and the first 8 character codes.
spec fn name_code(n: Seq<char>) -> int {
    n.len() as int + 64 * ((if 0 < n.len() { n[0] as int } else { 0 }) + 128 * ((if 1 < n.len() { n[1] as int } else { 0 }) + 128 * ((if 2 < n.len() { n[2] as int } else { 0 }) + 128 * ((if 3 < n.len() { n[3] as int } else { 0 }) + 128 * ((if 4 < n.len() { n[4] as int } else { 0 }) + 128 * ((if 5 < n.len() { n[5] as int } else { 0 }) + 128 * ((if 6 < n.len() { n[6] as int } else { 0 }) + 128 * ((if 7 < n.len() { n[7] as int } else { 0 }) + 128 * (0)))))))))
}

spec fn math_function_index(c: int) -> int {
    if c == 82392259 {
        0
    } else if c == 87683267 {
        1
    } else if c == 82326787 {
        2
    } else if c == 11360941252 {
        3
    } else if c == 91878403 {
        4
    } else if c == 87576643 {
        5
    } else if c == 1178789868677 {
        6
    } else if c == 1419435938181 {
        7
    } else if c == 10277662916 {
        8
    } else if c == 10537710404 {
        9
    } else if c == 172650375197510 {
        10
    } else if c == 9332978500 {
        11
    } else if c == 2505018468137973128 {
        12
    } else if c == 190310609753286 {
        13
    } else if c == 82391875 {
        14
    } else if c == 92812099 {
        15
    } else if c == 81441987 {
        16
    } else if c == 23792702101017607 {
        17
    } else if c == 71856579 {
        18
    } else if c == 81294083 {
        19
    } else if c == 2507822515799880264 {
        20
    } else if c == 2368806708291580746 {
        21
    } else if c == 2801152272519148367 {
        22
    } else if c == 3053353851651896144 {
        23
    } else if c == 2476893099348472658 {
        24
    } else if c == 2657037084443292494 {
        25
    } else if c == 88731907 {
        26
    } else if c == 1437152727237 {
        27
    } else if c == 10546212932 {
        28
    } else if c == 11223461956 {
        29
    } else if c == 10537832516 {
        30
    } else if c == 75100931 {
        31
    } else if c == 831285490437 {
        32
    } else if c == 84611395 {
        33
    } else if c == 2362601167994237321 {
        34
    } else {
        -1
    }
}

proof fn lemma_math_function_names_distinct()
    ensures
        math_function_entries().map_values(|x: FunctionEntry| x.name).no_duplicates(),
{
    reveal_strlit("SIN");
    reveal_strlit("COS");
    reveal_strlit("TAN");
    reveal_strlit("SQRT");
    reveal_strlit("POW");
    reveal_strlit("ABS");
    reveal_strlit("ROUND");
    reveal_strlit("FLOOR");
    reveal_strlit("CEIL");
    reveal_strlit("MEAN");
    reveal_strlit("MEDIAN");
    reveal_strlit("MODE");
    reveal_strlit("VARIANCE");
    reveal_strlit("STDDEV");
    reveal_strlit("MIN");
    reveal_strlit("MAX");
    reveal_strlit("SUM");
    reveal_strlit("PRODUCT");
    reveal_strlit("GCD");
    reveal_strlit("LCM");
    reveal_strlit("IS_PRIME");
    reveal_strlit("MATRIX_ADD");
    reveal_strlit("MATRIX_MULTIPLY");
    reveal_strlit("MATRIX_TRANSPOSE");
    reveal_strlit("MATRIX_DETERMINANT");
    reveal_strlit("MATRIX_INVERSE");
    reveal_strlit("DOT");
    reveal_strlit("CROSS");
    reveal_strlit("ASIN");
    reveal_strlit("ACOS");
    reveal_strlit("ATAN");
    reveal_strlit("LOG");
    reveal_strlit("LOG10");
    reveal_strlit("EXP");
    reveal_strlit("FACTORIAL");
    let ns = math_function_entries().map_values(|x: FunctionEntry| x.name);
    assert(ns =~= seq!["SIN"@, "COS"@, "TAN"@, "SQRT"@, "POW"@, "ABS"@, "ROUND"@, "FLOOR"@, "CEIL"@, "MEAN"@, "MEDIAN"@, "MODE"@, "VARIANCE"@, "STDDEV"@, "MIN"@, "MAX"@, "SUM"@, "PRODUCT"@, "GCD"@, "LCM"@, "IS_PRIME"@, "MATRIX_ADD"@, "MATRIX_MULTIPLY"@, "MATRIX_TRANSPOSE"@, "MATRIX_DETERMINANT"@, "MATRIX_INVERSE"@, "DOT"@, "CROSS"@, "ASIN"@, "ACOS"@, "ATAN"@, "LOG"@, "LOG10"@, "EXP"@, "FACTORIAL"@]);
    assert forall|i: int| 0 <= i < ns.len() implies math_function_index(name_code(#[trigger] ns[i])) == i by {
        if i == 0 {
            assert(ns[0] == "SIN"@);
        } else if i == 1 {
            assert(ns[1] == "COS"@);
        } else if i == 2 {
            assert(ns[2] == "TAN"@);
        } else if i == 3 {
            assert(ns[3] == "SQRT"@);
        } else if i == 4 {
            assert(ns[4] == "POW"@);
        } else if i == 5 {
            assert(ns[5] == "ABS"@);
        } else if i == 6 {
            assert(ns[6] == "ROUND"@);
        } else if i == 7 {
            assert(ns[7] == "FLOOR"@);
        } else if i == 8 {
            assert(ns[8] == "CEIL"@);
        } else if i == 9 {
            assert(ns[9] == "MEAN"@);
        } else if i == 10 {
            assert(ns[10] == "MEDIAN"@);
        } else if i == 11 {
            assert(ns[11] == "MODE"@);
        } else if i == 12 {
            assert(ns[12] == "VARIANCE"@);
        } else if i == 13 {
            assert(ns[13] == "STDDEV"@);
        } else if i == 14 {
            assert(ns[14] == "MIN"@);
        } else if i == 15 {
            assert(ns[15] == "MAX"@);
        } else if i == 16 {
            assert(ns[16] == "SUM"@);
        } else if i == 17 {
            assert(ns[17] == "PRODUCT"@);
        } else if i == 18 {
            assert(ns[18] == "GCD"@);
        } else if i == 19 {
            assert(ns[19] == "LCM"@);
        } else if i == 20 {
            assert(ns[20] == "IS_PRIME"@);
        } else if i == 21 {
            assert(ns[21] == "MATRIX_ADD"@);
        } else if i == 22 {
            assert(ns[22] == "MATRIX_MULTIPLY"@);
        } else if i == 23 {
            assert(ns[23] == "MATRIX_TRANSPOSE"@);
        } else if i == 24 {
            assert(ns[24] == "MATRIX_DETERMINANT"@);
        } else if i == 25 {
            assert(ns[25] == "MATRIX_INVERSE"@);
        } else if i == 26 {
            assert(ns[26] == "DOT"@);
        } else if i == 27 {
            assert(ns[27] == "CROSS"@);
        } else if i == 28 {
            assert(ns[28] == "ASIN"@);
        } else if i == 29 {
            assert(ns[29] == "ACOS"@);
        } else if i == 30 {
            assert(ns[30] == "ATAN"@);
        } else if i == 31 {
            assert(ns[31] == "LOG"@);
        } else if i == 32 {
            assert(ns[32] == "LOG10"@);
        } else if i == 33 {
            assert(ns[33] == "EXP"@);
        } else if i == 34 {
            assert(ns[34] == "FACTORIAL"@);
        }
    }
    assert forall|i: int, j: int| 0 <= i < ns.len() && 0 <= j < ns.len() && i != j implies ns[i] != ns[j] by {
        assert(math_function_index(name_code(ns[i])) == i);
        assert(math_function_index(name_code(ns[j])) == j);
    }
}

spec fn math_constant_index(c: int) -> int {
    if c == 603138 {
        0
    } else if c == 4417 {
        1
    } else {
        -1
    }
}

proof fn lemma_math_constant_names_distinct()
    ensures
        math_constant_entries().map_values(|x: ConstantEntry| x.name).no_duplicates(),
{
    reveal_strlit("PI");
    reveal_strlit("E");
    let ns = math_constant_entries().map_values(|x: ConstantEntry| x.name);
    assert(ns =~= seq!["PI"@, "E"@]);
    assert forall|i: int| 0 <= i < ns.len() implies math_constant_index(name_code(#[trigger] ns[i])) == i by {
        if i == 0 {
            assert(ns[0] == "PI"@);
        } else if i == 1 {
            assert(ns[1] == "E"@);
        }
    }
    assert forall|i: int, j: int| 0 <= i < ns.len() && 0 <= j < ns.len() && i != j implies ns[i] != ns[j] by {
        assert(math_constant_index(name_code(ns[i])) == i);
        assert(math_constant_index(name_code(ns[j])) == j);
    }
}

spec fn fs_function_index(c: int) -> int {
    if c == 2507540833022555272 {
        0
    } else if c == 2758891375131514313 {
        1
    } else if c == 183973256565062 {
        2
    } else if c == 153048146670150 {
        3
    } else if c == 1418619155013 {
        4
    } else if c == 153185054929158 {
        5
    } else if c == 23242656380957447 {
        6
    } else {
        -1
    }
}

proof fn lemma_fs_function_names_distinct()
    ensures
        fs_function_entries().map_values(|x: FunctionEntry| x.name).no_duplicates(),
{
    reveal_strlit("READFILE");
    reveal_strlit("WRITEFILE");
    reveal_strlit("EXISTS");
    reveal_strlit("ISFILE");
    reveal_strlit("ISDIR");
    reveal_strlit("DELETE");
    reveal_strlit("LISTDIR");
    let ns = fs_function_entries().map_values(|x: FunctionEntry| x.name);
    assert(ns =~= seq!["READFILE"@, "WRITEFILE"@, "EXISTS"@, "ISFILE"@, "ISDIR"@, "DELETE"@, "LISTDIR"@]);
    assert forall|i: int| 0 <= i < ns.len() implies fs_function_index(name_code(#[trigger] ns[i])) == i by {
        if i == 0 {
            assert(ns[0] == "READFILE"@);
        } else if i == 1 {
            assert(ns[1] == "WRITEFILE"@);
        } else if i == 2 {
            assert(ns[2] == "EXISTS"@);
        } else if i == 3 {
            assert(ns[3] == "ISFILE"@);
        } else if i == 4 {
            assert(ns[4] == "ISDIR"@);
        } else if i == 5 {
            assert(ns[5] == "DELETE"@);
        } else if i == 6 {
            assert(ns[6] == "LISTDIR"@);
        }
    }
    assert forall|i: int, j: int| 0 <= i < ns.len() && 0 <= j < ns.len() && i != j implies ns[i] != ns[j] by {
        assert(fs_function_index(name_code(ns[i])) == i);
        assert(fs_function_index(name_code(ns[j])) == j);
    }
}

spec fn time_function_index(c: int) -> int {
    if c == 91878275 {
        0
    } else if c == 1436355785605 {
        1
    } else if c == 1383723537605 {
        2
    } else if c == 23533131581199559 {
        3
    } else if c == 2653931925494428042 {
        4
    } else {
        -1
    }
}

proof fn lemma_time_function_names_distinct()
    ensures
        time_function_entries().map_values(|x: FunctionEntry| x.name).no_duplicates(),
{
    reveal_strlit("NOW");
    reveal_strlit("NOWMS");
    reveal_strlit("SLEEP");
    reveal_strlit("SLEEPMS");
    reveal_strlit("FORMATTIME");
    let ns = time_function_entries().map_values(|x: FunctionEntry| x.name);
    assert(ns =~= seq!["NOW"@, "NOWMS"@, "SLEEP"@, "SLEEPMS"@, "FORMATTIME"@]);
    assert forall|i: int| 0 <= i < ns.len() implies time_function_index(name_code(#[trigger] ns[i])) == i by {
        if i == 0 {
            assert(ns[0] == "NOW"@);
        } else if i == 1 {
            assert(ns[1] == "NOWMS"@);
        } else if i == 2 {
            assert(ns[2] == "SLEEP"@);
        } else if i == 3 {
            assert(ns[3] == "SLEEPMS"@);
        } else if i == 4 {
            assert(ns[4] == "FORMATTIME"@);
        }
    }
    assert forall|i: int, j: int| 0 <= i < ns.len() && 0 <= j < ns.len() && i != j implies ns[i] != ns[j] by {
        assert(time_function_index(name_code(ns[i])) == i);
        assert(time_function_index(name_code(ns[j])) == j);
    }
}

spec fn crypto_function_index(c: int) -> int {
    if c == 23821359989248327 {
        0
    } else if c == 23821359989174535 {
        1
    } else if c == 9751245316 {
        2
    } else if c == 2512842403366842509 {
        3
    } else if c == 2476813606347878541 {
        4
    } else if c == 2829825712672322061 {
        5
    } else if c == 2973973886097011211 {
        6
    } else if c == 2973392901057851467 {
        7
    } else if c == 2973373092668682315 {
        8
    } else if c == 2508095007686816912 {
        9
    } else if c == 2973392901039092875 {
        10
    } else if c == 2973373092649923723 {
        11
    } else {
        -1
    }
}

proof fn lemma_crypto_function_names_distinct()
    ensures
        crypto_function_entries().map_values(|x: FunctionEntry| x.name).no_duplicates(),
{
    reveal_strlit("ENCRYPT");
    reveal_strlit("DECRYPT");
    reveal_strlit("HASH");
    reveal_strlit("BASE64_ENCODE");
    reveal_strlit("BASE64_DECODE");
    reveal_strlit("HMAC_GENERATE");
    reveal_strlit("HMAC_VERIFY");
    reveal_strlit("AES_ENCRYPT");
    reveal_strlit("AES_DECRYPT");
    reveal_strlit("RSA_GENERATE_KEY");
    reveal_strlit("RSA_ENCRYPT");
    reveal_strlit("RSA_DECRYPT");
    let ns = crypto_function_entries().map_values(|x: FunctionEntry| x.name);
    assert(ns =~= seq!["ENCRYPT"@, "DECRYPT"@, "HASH"@, "BASE64_ENCODE"@, "BASE64_DECODE"@, "HMAC_GENERATE"@, "HMAC_VERIFY"@, "AES_ENCRYPT"@, "AES_DECRYPT"@, "RSA_GENERATE_KEY"@, "RSA_ENCRYPT"@, "RSA_DECRYPT"@]);
    assert forall|i: int| 0 <= i < ns.len() implies crypto_function_index(name_code(#[trigger] ns[i])) == i by {
        if i == 0 {
            assert(ns[0] == "ENCRYPT"@);
        } else if i == 1 {
            assert(ns[1] == "DECRYPT"@);
        } else if i == 2 {
            assert(ns[2] == "HASH"@);
        } else if i == 3 {
            assert(ns[3] == "BASE64_ENCODE"@);
        } else if i == 4 {
            assert(ns[4] == "BASE64_DECODE"@);
        } else if i == 5 {
            assert(ns[5] == "HMAC_GENERATE"@);
        } else if i == 6 {
            assert(ns[6] == "HMAC_VERIFY"@);
        } else if i == 7 {
            assert(ns[7] == "AES_ENCRYPT"@);
        } else if i == 8 {
            assert(ns[8] == "AES_DECRYPT"@);
        } else if i == 9 {
            assert(ns[9] == "RSA_GENERATE_KEY"@);
        } else if i == 10 {
            assert(ns[10] == "RSA_ENCRYPT"@);
        } else if i == 11 {
            assert(ns[11] == "RSA_DECRYPT"@);
        }
    }
    assert forall|i: int, j: int| 0 <= i < ns.len() && 0 <= j < ns.len() && i != j implies ns[i] != ns[j] by {
        assert(crypto_function_index(name_code(ns[i])) == i);
        assert(crypto_function_index(name_code(ns[j])) == j);
    }
}

spec fn network_function_index(c: int) -> int {
    if c == 3045998496550916616 {
        0
    } else if c == 3012804240508359177 {
        1
    } else if c == 3050521887387587080 {
        2
    } else if c == 2757761523329438219 {
        3
    } else if c == 2361453552213856777 {
        4
    } else if c == 2865306509993727306 {
        5
    } else if c == 2865286701604558154 {
        6
    } else if c == 3011429404697441290 {
        7
    } else if c == 2440851040005305549 {
        8
    } else if c == 2765110213175981261 {
        9
    } else if c == 2981282995289765068 {
        10
    } else if c == 2368793445967377613 {
        11
    } else if c == 2368793445967377622 {
        12
    } else if c == 2981282995289765070 {
        13
    } else if c == 3017311792308729035 {
        14
    } else if c == 2765110213175981263 {
        15
    } else if c == 2508114932608431562 {
        16
    } else if c == 19313018881603015 {
        17
    } else if c == 2649672486852654538 {
        18
    } else if c == 2509524454975632840 {
        19
    } else {
        -1
    }
}

proof fn lemma_network_function_names_distinct()
    ensures
        network_function_entries().map_values(|x: FunctionEntry| x.name).no_duplicates(),
{
    reveal_strlit("HTTP_GET");
    reveal_strlit("HTTP_POST");
    reveal_strlit("HTTP_PUT");
    reveal_strlit("HTTP_DELETE");
    reveal_strlit("HTTP_HEAD");
    reveal_strlit("URL_ENCODE");
    reveal_strlit("URL_DECODE");
    reveal_strlit("PARSE_JSON");
    reveal_strlit("SERVER_CREATE");
    reveal_strlit("SERVER_LISTEN");
    reveal_strlit("SERVER_ROUTE");
    reveal_strlit("SERVER_ACCEPT");
    reveal_strlit("SERVER_ACCEPT_BLOCKING");
    reveal_strlit("SERVER_RESPOND");
    reveal_strlit("SERVER_STOP");
    reveal_strlit("SERVER_LIST_ALL");
    reveal_strlit("WS_CONNECT");
    reveal_strlit("WS_SEND");
    reveal_strlit("WS_RECEIVE");
    reveal_strlit("WS_CLOSE");
    let ns = network_function_entries().map_values(|x: FunctionEntry| x.name);
    assert(ns =~= seq!["HTTP_GET"@, "HTTP_POST"@, "HTTP_PUT"@, "HTTP_DELETE"@, "HTTP_HEAD"@, "URL_ENCODE"@, "URL_DECODE"@, "PARSE_JSON"@, "SERVER_CREATE"@, "SERVER_LISTEN"@, "SERVER_ROUTE"@, "SERVER_ACCEPT"@, "SERVER_ACCEPT_BLOCKING"@, "SERVER_RESPOND"@, "SERVER_STOP"@, "SERVER_LIST_ALL"@, "WS_CONNECT"@, "WS_SEND"@, "WS_RECEIVE"@, "WS_CLOSE"@]);
    assert forall|i: int| 0 <= i < ns.len() implies network_function_index(name_code(#[trigger] ns[i])) == i by {
        if i == 0 {
            assert(ns[0] == "HTTP_GET"@);
        } else if i == 1 {
            assert(ns[1] == "HTTP_POST"@);
        } else if i == 2 {
            assert(ns[2] == "HTTP_PUT"@);
        } else if i == 3 {
            assert(ns[3] == "HTTP_DELETE"@);
        } else if i == 4 {
            assert(ns[4] == "HTTP_HEAD"@);
        } else if i == 5 {
            assert(ns[5] == "URL_ENCODE"@);
        } else if i == 6 {
            assert(ns[6] == "URL_DECODE"@);
        } else if i == 7 {
            assert(ns[7] == "PARSE_JSON"@);
        } else if i == 8 {
            assert(ns[8] == "SERVER_CREATE"@);
        } else if i == 9 {
            assert(ns[9] == "SERVER_LISTEN"@);
        } else if i == 10 {
            assert(ns[10] == "SERVER_ROUTE"@);
        } else if i == 11 {
            assert(ns[11] == "SERVER_ACCEPT"@);
        } else if i == 12 {
            assert(ns[12] == "SERVER_ACCEPT_BLOCKING"@);
        } else if i == 13 {
            assert(ns[13] == "SERVER_RESPOND"@);
        } else if i == 14 {
            assert(ns[14] == "SERVER_STOP"@);
        } else if i == 15 {
            assert(ns[15] == "SERVER_LIST_ALL"@);
        } else if i == 16 {
            assert(ns[16] == "WS_CONNECT"@);
        } else if i == 17 {
            assert(ns[17] == "WS_SEND"@);
        } else if i == 18 {
            assert(ns[18] == "WS_RECEIVE"@);
        } else if i == 19 {
            assert(ns[19] == "WS_CLOSE"@);
        }
    }
    assert forall|i: int, j: int| 0 <= i < ns.len() && 0 <= j < ns.len() && i != j implies ns[i] != ns[j] by {
        assert(network_function_index(name_code(ns[i])) == i);
        assert(network_function_index(name_code(ns[j])) == j);
    }
}

spec fn json_function_index(c: int) -> int {
    if c == 2972834793541759626 {
        0
    } else if c == 2978189415169028750 {
        1
    } else if c == 3045998496277230216 {
        2
    } else if c == 3046024884556296840 {
        3
    } else if c == 3226151277465072265 {
        4
    } else {
        -1
    }
}

proof fn lemma_json_function_names_distinct()
    ensures
        json_function_entries().map_values(|x: FunctionEntry| x.name).no_duplicates(),
{
    reveal_strlit("JSON_PARSE");
    reveal_strlit("JSON_STRINGIFY");
    reveal_strlit("JSON_GET");
    reveal_strlit("JSON_SET");
    reveal_strlit("JSON_KEYS");
    let ns = json_function_entries().map_values(|x: FunctionEntry| x.name);
    assert(ns =~= seq!["JSON_PARSE"@, "JSON_STRINGIFY"@, "JSON_GET"@, "JSON_SET"@, "JSON_KEYS"@]);
    assert forall|i: int| 0 <= i < ns.len() implies json_function_index(name_code(#[trigger] ns[i])) == i by {
        if i == 0 {
            assert(ns[0] == "JSON_PARSE"@);
        } else if i == 1 {
            assert(ns[1] == "JSON_STRINGIFY"@);
        } else if i == 2 {
            assert(ns[2] == "JSON_GET"@);
        } else if i == 3 {
            assert(ns[3] == "JSON_SET"@);
        } else if i == 4 {
            assert(ns[4] == "JSON_KEYS"@);
        }
    }
    assert forall|i: int, j: int| 0 <= i < ns.len() && 0 <= j < ns.len() && i != j implies ns[i] != ns[j] by {
        assert(json_function_index(name_code(ns[i])) == i);
        assert(json_function_index(name_code(ns[j])) == j);
    }
}

spec fn async_function_index(c: int) -> int {
    if c == 3085738763525713993 {
        0
    } else if c == 2905876253407604811 {
        1
    } else if c == 3153011282959560779 {
        2
    } else if c == 2761761065331748939 {
        3
    } else if c == 2364599873193013326 {
        4
    } else if c == 3049991441483460684 {
        5
    } else if c == 2360940698495774796 {
        6
    } else if c == 3153011282959560783 {
        7
    } else {
        -1
    }
}

proof fn lemma_async_function_names_distinct()
    ensures
        async_function_entries().map_values(|x: FunctionEntry| x.name).no_duplicates(),
{
    reveal_strlit("ASYNC_RUN");
    reveal_strlit("ASYNC_SPAWN");
    reveal_strlit("ASYNC_AWAIT");
    reveal_strlit("ASYNC_SLEEP");
    reveal_strlit("ASYNC_PARALLEL");
    reveal_strlit("ASYNC_STATUS");
    reveal_strlit("ASYNC_CANCEL");
    reveal_strlit("ASYNC_AWAIT_ALL");
    let ns = async_function_entries().map_values(|x: FunctionEntry| x.name);
    assert(ns =~= seq!["ASYNC_RUN"@, "ASYNC_SPAWN"@, "ASYNC_AWAIT"@, "ASYNC_SLEEP"@, "ASYNC_PARALLEL"@, "ASYNC_STATUS"@, "ASYNC_CANCEL"@, "ASYNC_AWAIT_ALL"@]);
    assert forall|i: int| 0 <= i < ns.len() implies async_function_index(name_code(#[trigger] ns[i])) == i by {
        if i == 0 {
            assert(ns[0] == "ASYNC_RUN"@);
        } else if i == 1 {
            assert(ns[1] == "ASYNC_SPAWN"@);
        } else if i == 2 {
            assert(ns[2] == "ASYNC_AWAIT"@);
        } else if i == 3 {
            assert(ns[3] == "ASYNC_SLEEP"@);
        } else if i == 4 {
            assert(ns[4] == "ASYNC_PARALLEL"@);
        } else if i == 5 {
            assert(ns[5] == "ASYNC_STATUS"@);
        } else if i == 6 {
            assert(ns[6] == "ASYNC_CANCEL"@);
        } else if i == 7 {
            assert(ns[7] == "ASYNC_AWAIT_ALL"@);
        }
    }
    assert forall|i: int, j: int| 0 <= i < ns.len() && 0 <= j < ns.len() && i != j implies ns[i] != ns[j] by {
        assert(async_function_index(name_code(ns[i])) == i);
        assert(async_function_index(name_code(ns[j])) == j);
    }
}

/// No two functions of a built-in module share a name, nor do two of its
/// constants: each table is a map from names, as the registry reads it.
pub proof fn lemma_module_names_distinct(name: Seq<char>)
    ensures
        module_entries(name) matches Some(es) ==> es.0.map_values(|e: FunctionEntry| e.name).no_duplicates()
            && es.1.map_values(|c: ConstantEntry| c.name).no_duplicates(),
{
    lemma_math_function_names_distinct();
    lemma_math_constant_names_distinct();
    lemma_fs_function_names_distinct();
    lemma_time_function_names_distinct();
    lemma_crypto_function_names_distinct();
    lemma_network_function_names_distinct();
    lemma_json_function_names_distinct();
    lemma_async_function_names_distinct();
    assert(Seq::<ConstantEntry>::empty().map_values(|c: ConstantEntry| c.name) =~= Seq::<Seq<char>>::empty());
}

/// The function entries of a module's table, in order.
pub open spec fn function_entries(fs: Seq<(&'static str, NativeFunctionInfo)>) -> Seq<FunctionEntry> {
    fs.map_values(|e: (&'static str, NativeFunctionInfo)| entry(
        e.0@,
        e.1.arity,
        e.1.description@,
        e.1.return_type@,
        e.1.parameters@.map_values(|q: (&'static str, &'static str)| (q.0@, q.1@)),
    ))
}

/// The constant entries of a module's table, in order.
pub open spec fn constant_entries(cs: Seq<(&'static str, NativeConstantInfo)>) -> Seq<ConstantEntry> {
    cs.map_values(|e: (&'static str, NativeConstantInfo)| ConstantEntry {
        name: e.0@,
        description: e.1.description@,
        constant_type: e.1.constant_type@,
    })
}

/// Every function of `_MATH` with its arity, description, return type and parameters.
pub open spec fn math_function_entries() -> Seq<FunctionEntry> {
    seq![
        entry("SIN"@, Arity::Exact(1), "Calculates the sine of an angle in radians"@, "Number"@, seq![("angle"@, "Number"@)]),
        entry("COS"@, Arity::Exact(1), "Calculates the cosine of an angle in radians"@, "Number"@, seq![("angle"@, "Number"@)]),
        entry("TAN"@, Arity::Exact(1), "Calculates the tangent of an angle in radians"@, "Number"@, seq![("angle"@, "Number"@)]),
        entry("SQRT"@, Arity::Exact(1), "Calculates the square root of a number"@, "Number"@, seq![("value"@, "Number"@)]),
        entry("POW"@, Arity::Exact(2), "Raises base to the exponent power"@, "Number"@, seq![("base"@, "Number"@), ("exponent"@, "Number"@)]),
        entry("ABS"@, Arity::Exact(1), "Returns the absolute value of a number"@, "Number"@, seq![("value"@, "Number"@)]),
        entry("ROUND"@, Arity::Exact(1), "Rounds a number to the nearest integer"@, "Number"@, seq![("value"@, "Number"@)]),
        entry("FLOOR"@, Arity::Exact(1), "Rounds a number down to the nearest integer"@, "Number"@, seq![("value"@, "Number"@)]),
        entry("CEIL"@, Arity::Exact(1), "Rounds a number up to the nearest integer"@, "Number"@, seq![("value"@, "Number"@)]),
        entry("MEAN"@, Arity::AtLeast(1), "Calculates the arithmetic mean of a collection of numbers"@, "Number"@, seq![("numbers"@, "Number..."@)]),
        entry("MEDIAN"@, Arity::AtLeast(1), "Finds the median value in a collection of numbers"@, "Number"@, seq![("numbers"@, "Number..."@)]),
        entry("MODE"@, Arity::AtLeast(1), "Finds the most frequently occurring value in a collection"@, "Number"@, seq![("numbers"@, "Number..."@)]),
        entry("VARIANCE"@, Arity::AtLeast(1), "Calculates the variance of a collection of numbers"@, "Number"@, seq![("numbers"@, "Number..."@)]),
        entry("STDDEV"@, Arity::AtLeast(1), "Calculates the standard deviation of a collection of numbers"@, "Number"@, seq![("numbers"@, "Number..."@)]),
        entry("MIN"@, Arity::AtLeast(1), "Returns the smallest value in a collection"@, "Number"@, seq![("numbers"@, "Number..."@)]),
        entry("MAX"@, Arity::AtLeast(1), "Returns the largest value in a collection"@, "Number"@, seq![("numbers"@, "Number..."@)]),
        entry("SUM"@, Arity::AtLeast(1), "Calculates the sum of a collection of numbers"@, "Number"@, seq![("numbers"@, "Number..."@)]),
        entry("PRODUCT"@, Arity::AtLeast(1), "Calculates the product of a collection of numbers"@, "Number"@, seq![("numbers"@, "Number..."@)]),
        entry("GCD"@, Arity::Exact(2), "Calculates the greatest common divisor of two numbers"@, "Number"@, seq![("a"@, "Number"@), ("b"@, "Number"@)]),
        entry("LCM"@, Arity::Exact(2), "Calculates the least common multiple of two numbers"@, "Number"@, seq![("a"@, "Number"@), ("b"@, "Number"@)]),
        entry("IS_PRIME"@, Arity::Exact(1), "Tests if a number is prime"@, "Boolean"@, seq![("n"@, "Number"@)]),
        entry("MATRIX_ADD"@, Arity::AtLeast(2), "Adds two or more matrices element-wise"@, "Array"@, seq![("matrices"@, "Array..."@)]),
        entry("MATRIX_MULTIPLY"@, Arity::AtLeast(2), "Multiplies two or more matrices"@, "Array"@, seq![("matrices"@, "Array..."@)]),
        entry("MATRIX_TRANSPOSE"@, Arity::AtLeast(1), "Transposes a matrix (flips rows and columns)"@, "Array"@, seq![("matrix"@, "Array"@)]),
        entry("MATRIX_DETERMINANT"@, Arity::AtLeast(1), "Calculates the determinant of a square matrix"@, "Number"@, seq![("matrix"@, "Array"@)]),
        entry("MATRIX_INVERSE"@, Arity::AtLeast(1), "Calculates the inverse of a square matrix"@, "Array"@, seq![("matrix"@, "Array"@)]),
        entry("DOT"@, Arity::Exact(2), "Calculates the dot product of two vectors"@, "Number"@, seq![("vector_a"@, "Array"@), ("vector_b"@, "Array"@)]),
        entry("CROSS"@, Arity::Exact(2), "Calculates the cross product of two 3D vectors"@, "Array"@, seq![("vector_a"@, "Array"@), ("vector_b"@, "Array"@)]),
        entry("ASIN"@, Arity::Exact(1), "Calculates the inverse sine (arcsine) in radians"@, "Number"@, seq![("value"@, "Number"@)]),
        entry("ACOS"@, Arity::Exact(1), "Calculates the inverse cosine (arccosine) in radians"@, "Number"@, seq![("value"@, "Number"@)]),
        entry("ATAN"@, Arity::Exact(1), "Calculates the inverse tangent (arctangent) in radians"@, "Number"@, seq![("value"@, "Number"@)]),
        entry("LOG"@, Arity::Exact(1), "Calculates the natural logarithm of a number"@, "Number"@, seq![("value"@, "Number"@)]),
        entry("LOG10"@, Arity::Exact(1), "Calculates the base-10 logarithm of a number"@, "Number"@, seq![("value"@, "Number"@)]),
        entry("EXP"@, Arity::Exact(1), "Calculates e raised to the given power"@, "Number"@, seq![("exponent"@, "Number"@)]),
        entry("FACTORIAL"@, Arity::Exact(1), "Calculates the factorial of a non-negative integer"@, "Number"@, seq![("n"@, "Number"@)]),
    ]
}

/// Every constant of `_MATH` with its description and type.
pub open spec fn math_constant_entries() -> Seq<ConstantEntry> {
    seq![ConstantEntry { name: "PI"@, description: "The mathematical constant π (pi)"@, constant_type: "Number"@ }, ConstantEntry { name: "E"@, description: "The mathematical constant e (Euler's number)"@, constant_type: "Number"@ }]
}

/// Every function of `_FS` with its arity, description, return type and parameters.
pub open spec fn fs_function_entries() -> Seq<FunctionEntry> {
    seq![
        entry("READFILE"@, Arity::Exact(1), "Reads the contents of a file as a string"@, "String"@, seq![("path"@, "String"@)]),
        entry("WRITEFILE"@, Arity::Exact(2), "Writes string content to a file"@, "Void"@, seq![("path"@, "String"@), ("content"@, "String"@)]),
        entry("EXISTS"@, Arity::Exact(1), "Checks if a file or directory exists at the given path"@, "Boolean"@, seq![("path"@, "String"@)]),
        entry("ISFILE"@, Arity::Exact(1), "Checks if the path points to a file"@, "Boolean"@, seq![("path"@, "String"@)]),
        entry("ISDIR"@, Arity::Exact(1), "Checks if the path points to a directory"@, "Boolean"@, seq![("path"@, "String"@)]),
        entry("DELETE"@, Arity::Exact(1), "Deletes a file or empty directory"@, "Boolean"@, seq![("path"@, "String"@)]),
        entry("LISTDIR"@, Arity::Exact(1), "Lists the contents of a directory as an array"@, "Array"@, seq![("path"@, "String"@)]),
    ]
}

/// Every constant of `_FS` with its description and type.
pub open spec fn fs_constant_entries() -> Seq<ConstantEntry> {
    seq![]
}

/// Every function of `_TIME` with its arity, description, return type and parameters.
pub open spec fn time_function_entries() -> Seq<FunctionEntry> {
    seq![
        entry("NOW"@, Arity::Exact(0), "Returns the current system time as a timestamp"@, "Number"@, seq![]),
        entry("NOWMS"@, Arity::Exact(0), "Returns the current system time in milliseconds"@, "Number"@, seq![]),
        entry("SLEEP"@, Arity::Exact(1), "Pauses execution for a specified number of seconds"@, "Void"@, seq![("seconds"@, "Number"@)]),
        entry("SLEEPMS"@, Arity::Exact(1), "Pauses execution for a specified number of milliseconds"@, "Void"@, seq![("milliseconds"@, "Number"@)]),
        entry("FORMATTIME"@, Arity::Exact(1), "Formats a timestamp into a human-readable date/time string"@, "String"@, seq![("timestamp"@, "Number"@)]),
    ]
}

/// Every constant of `_TIME` with its description and type.
pub open spec fn time_constant_entries() -> Seq<ConstantEntry> {
    seq![]
}

/// Every function of `_CRYPTO` with its arity, description, return type and parameters.
pub open spec fn crypto_function_entries() -> Seq<FunctionEntry> {
    seq![
        entry("ENCRYPT"@, Arity::Exact(2), "Encrypts a string using a provided key"@, "String"@, seq![("text"@, "String"@), ("key"@, "String"@)]),
        entry("DECRYPT"@, Arity::Exact(2), "Decrypts a string using a provided key"@, "String"@, seq![("encrypted_text"@, "String"@), ("key"@, "String"@)]),
        entry("HASH"@, Arity::Exact(1), "Generates a hash of the input string"@, "String"@, seq![("text"@, "String"@)]),
        entry("BASE64_ENCODE"@, Arity::Exact(1), "Encodes a string to Base64 format"@, "String"@, seq![("text"@, "String"@)]),
        entry("BASE64_DECODE"@, Arity::Exact(1), "Decodes a Base64 string back to its original form"@, "String"@, seq![("encoded_text"@, "String"@)]),
        entry("HMAC_GENERATE"@, Arity::Exact(2), "Generates an HMAC signature for a message with a secret key"@, "String"@, seq![("message"@, "String"@), ("secret"@, "String"@)]),
        entry("HMAC_VERIFY"@, Arity::Exact(3), "Verifies an HMAC signature against a message"@, "Boolean"@, seq![("message"@, "String"@), ("secret"@, "String"@), ("signature"@, "String"@)]),
        entry("AES_ENCRYPT"@, Arity::Exact(3), "Encrypts data using AES encryption"@, "String"@, seq![("data"@, "String"@), ("key"@, "String"@), ("iv"@, "String"@)]),
        entry("AES_DECRYPT"@, Arity::Exact(3), "Decrypts AES-encrypted data"@, "String"@, seq![("encrypted_data"@, "String"@), ("key"@, "String"@), ("iv"@, "String"@)]),
        entry("RSA_GENERATE_KEY"@, Arity::Exact(0), "Generates an RSA key pair"@, "String"@, seq![]),
        entry("RSA_ENCRYPT"@, Arity::Exact(2), "Encrypts data using RSA public key encryption"@, "String"@, seq![("data"@, "String"@), ("public_key"@, "String"@)]),
        entry("RSA_DECRYPT"@, Arity::Exact(2), "Decrypts RSA-encrypted data using a private key"@, "String"@, seq![("encrypted_data"@, "String"@), ("private_key"@, "String"@)]),
    ]
}

/// Every constant of `_CRYPTO` with its description and type.
pub open spec fn crypto_constant_entries() -> Seq<ConstantEntry> {
    seq![]
}

/// Every function of `_NETWORK` with its arity, description, return type and parameters.
pub open spec fn network_function_entries() -> Seq<FunctionEntry> {
    seq![
        entry("HTTP_GET"@, Arity::Exact(1), "Performs an HTTP GET request to the specified URL"@, "Array"@, seq![("url"@, "String"@)]),
        entry("HTTP_POST"@, Arity::Exact(2), "Performs an HTTP POST request with a body to the specified URL"@, "Array"@, seq![("url"@, "String"@), ("body"@, "String"@)]),
        entry("HTTP_PUT"@, Arity::Exact(2), "Performs an HTTP PUT request with a body to the specified URL"@, "Array"@, seq![("url"@, "String"@), ("body"@, "String"@)]),
        entry("HTTP_DELETE"@, Arity::Exact(1), "Performs an HTTP DELETE request to the specified URL"@, "Array"@, seq![("url"@, "String"@)]),
        entry("HTTP_HEAD"@, Arity::Exact(1), "Performs an HTTP HEAD request to retrieve headers only"@, "Array"@, seq![("url"@, "String"@)]),
        entry("URL_ENCODE"@, Arity::Exact(1), "Encodes a string for safe use in URLs"@, "String"@, seq![("text"@, "String"@)]),
        entry("URL_DECODE"@, Arity::Exact(1), "Decodes a URL-encoded string"@, "String"@, seq![("text"@, "String"@)]),
        entry("PARSE_JSON"@, Arity::Exact(1), "Parses a JSON string into a Psy array"@, "Array"@, seq![("json"@, "String"@)]),
        entry("SERVER_CREATE"@, Arity::Exact(1), "Creates a new HTTP server on the specified port"@, "String"@, seq![("port"@, "Number"@)]),
        entry("SERVER_LISTEN"@, Arity::Exact(1), "Starts listening on the server"@, "Boolean"@, seq![("server_id"@, "String"@)]),
        entry("SERVER_ROUTE"@, Arity::Exact(3), "Adds a route to the server (method, path)"@, "Boolean"@, seq![("server_id"@, "String"@), ("method"@, "String"@), ("path"@, "String"@)]),
        entry("SERVER_ACCEPT"@, Arity::Exact(1), "Accepts one incoming connection (non-blocking)"@, "String"@, seq![("server_id"@, "String"@)]),
        entry("SERVER_ACCEPT_BLOCKING"@, Arity::Exact(1), "Accepts one connection and returns the raw request"@, "Array"@, seq![("server_id"@, "String"@)]),
        entry("SERVER_RESPOND"@, Arity::AtLeast(2), "Sends an HTTP response (request_id, body, status_code?)"@, "Boolean"@, seq![("request_id"@, "String"@), ("body"@, "String"@), ("status"@, "Number"@)]),
        entry("SERVER_STOP"@, Arity::Exact(1), "Stops and removes a server"@, "Boolean"@, seq![("server_id"@, "String"@)]),
        entry("SERVER_LIST_ALL"@, Arity::Exact(0), "Lists all active servers"@, "Array"@, seq![]),
        entry("WS_CONNECT"@, Arity::Exact(1), "Opens a WebSocket connection to the specified URL"@, "String"@, seq![("url"@, "String"@)]),
        entry("WS_SEND"@, Arity::Exact(2), "Sends a message over a WebSocket connection"@, "Boolean"@, seq![("connection_id"@, "String"@), ("message"@, "String"@)]),
        entry("WS_RECEIVE"@, Arity::Exact(1), "Receives the next message from a WebSocket connection"@, "String"@, seq![("connection_id"@, "String"@)]),
        entry("WS_CLOSE"@, Arity::Exact(1), "Closes a WebSocket connection"@, "Boolean"@, seq![("connection_id"@, "String"@)]),
    ]
}

/// Every constant of `_NETWORK` with its description and type.
pub open spec fn network_constant_entries() -> Seq<ConstantEntry> {
    seq![]
}

/// Every function of `_JSON` with its arity, description, return type and parameters.
pub open spec fn json_function_entries() -> Seq<FunctionEntry> {
    seq![
        entry("JSON_PARSE"@, Arity::Exact(1), "Parses a JSON string into a Psy value"@, "Array"@, seq![("json_string"@, "String"@)]),
        entry("JSON_STRINGIFY"@, Arity::Exact(1), "Converts a Psy value to a JSON string"@, "String"@, seq![("value"@, "Any"@)]),
        entry("JSON_GET"@, Arity::Exact(2), "Gets a value from a JSON string by key or index"@, "Any"@, seq![("json_string"@, "String"@), ("key"@, "String/Number"@)]),
        entry("JSON_SET"@, Arity::Exact(3), "Sets a value in a JSON string by key or index"@, "String"@, seq![("json_string"@, "String"@), ("key"@, "String/Number"@), ("value"@, "Any"@)]),
        entry("JSON_KEYS"@, Arity::Exact(1), "Gets all keys from a JSON object string"@, "Array"@, seq![("json_string"@, "String"@)]),
    ]
}

/// Every constant of `_JSON` with its description and type.
pub open spec fn json_constant_entries() -> Seq<ConstantEntry> {
    seq![]
}

/// Every function of `_ASYNC` with its arity, description, return type and parameters.
pub open spec fn async_function_entries() -> Seq<FunctionEntry> {
    seq![
        entry("ASYNC_RUN"@, Arity::Exact(1), "Creates an async task"@, "String"@, seq![("task_name"@, "String"@)]),
        entry("ASYNC_SPAWN"@, Arity::Exact(2), "Spawns an async task in a separate thread"@, "Boolean"@, seq![("task_id"@, "String"@), ("function"@, "String"@)]),
        entry("ASYNC_AWAIT"@, Arity::Exact(1), "Awaits completion of an async task"@, "Any"@, seq![("task_id"@, "String"@)]),
        entry("ASYNC_SLEEP"@, Arity::Exact(1), "Sleeps asynchronously for specified milliseconds"@, "Void"@, seq![("milliseconds"@, "Number"@)]),
        entry("ASYNC_PARALLEL"@, Arity::Exact(1), "Runs multiple tasks in parallel"@, "Array"@, seq![("tasks"@, "Array"@)]),
        entry("ASYNC_STATUS"@, Arity::Exact(1), "Gets the status of an async task"@, "String"@, seq![("task_id"@, "String"@)]),
        entry("ASYNC_CANCEL"@, Arity::Exact(1), "Cancels an async task"@, "Boolean"@, seq![("task_id"@, "String"@)]),
        entry("ASYNC_AWAIT_ALL"@, Arity::Exact(1), "Awaits completion of multiple async tasks"@, "Array"@, seq![("task_ids"@, "Array"@)]),
    ]
}

/// Every constant of `_ASYNC` with its description and type.
pub open spec fn async_constant_entries() -> Seq<ConstantEntry> {
    seq![]
}

/// The `_MATH` module: mathematical functions and constants for advanced calculations.
pub fn math_module() -> (r: NativeModule)
    ensures
        r@ == math_summary(),
        function_entries(r.functions@) == math_function_entries(),
        constant_entries(r.constants@) == math_constant_entries(),
{
    let functions: Vec<(&'static str, NativeFunctionInfo)> = vec![
        ("SIN", NativeFunctionInfo {
            arity: Arity::Exact(1),
            description: "Calculates the sine of an angle in radians",
            return_type: "Number",
            parameters: vec![("angle", "Number")],
        }),
        ("COS", NativeFunctionInfo {
            arity: Arity::Exact(1),
            description: "Calculates the cosine of an angle in radians",
            return_type: "Number",
            parameters: vec![("angle", "Number")],
        }),
        ("TAN", NativeFunctionInfo {
            arity: Arity::Exact(1),
            description: "Calculates the tangent of an angle in radians",
            return_type: "Number",
            parameters: vec![("angle", "Number")],
        }),
        ("SQRT", NativeFunctionInfo {
            arity: Arity::Exact(1),
            description: "Calculates the square root of a number",
            return_type: "Number",
            parameters: vec![("value", "Number")],
        }),
        ("POW", NativeFunctionInfo {
            arity: Arity::Exact(2),
            description: "Raises base to the exponent power",
            return_type: "Number",
            parameters: vec![("base", "Number"), ("exponent", "Number")],
        }),
        ("ABS", NativeFunctionInfo {
            arity: Arity::Exact(1),
            description: "Returns the absolute value of a number",
            return_type: "Number",
            parameters: vec![("value", "Number")],
        }),
        ("ROUND", NativeFunctionInfo {
            arity: Arity::Exact(1),
            description: "Rounds a number to the nearest integer",
            return_type: "Number",
            parameters: vec![("value", "Number")],
        }),
        ("FLOOR", NativeFunctionInfo {
            arity: Arity::Exact(1),
            description: "Rounds a number down to the nearest integer",
            return_type: "Number",
            parameters: vec![("value", "Number")],
        }),
        ("CEIL", NativeFunctionInfo {
            arity: Arity::Exact(1),
            description: "Rounds a number up to the nearest integer",
            return_type: "Number",
            parameters: vec![("value", "Number")],
        }),
        ("MEAN", NativeFunctionInfo {
            arity: Arity::AtLeast(1),
            description: "Calculates the arithmetic mean of a collection of numbers",
            return_type: "Number",
            parameters: vec![("numbers", "Number...")],
        }),
        ("MEDIAN", NativeFunctionInfo {
            arity: Arity::AtLeast(1),
            description: "Finds the median value in a collection of numbers",
            return_type: "Number",
            parameters: vec![("numbers", "Number...")],
        }),
        ("MODE", NativeFunctionInfo {
            arity: Arity::AtLeast(1),
            description: "Finds the most frequently occurring value in a collection",
            return_type: "Number",
            parameters: vec![("numbers", "Number...")],
        }),
        ("VARIANCE", NativeFunctionInfo {
            arity: Arity::AtLeast(1),
            description: "Calculates the variance of a collection of numbers",
            return_type: "Number",
            parameters: vec![("numbers", "Number...")],
        }),
        ("STDDEV", NativeFunctionInfo {
            arity: Arity::AtLeast(1),
            description: "Calculates the standard deviation of a collection of numbers",
            return_type: "Number",
            parameters: vec![("numbers", "Number...")],
        }),
        ("MIN", NativeFunctionInfo {
            arity: Arity::AtLeast(1),
            description: "Returns the smallest value in a collection",
            return_type: "Number",
            parameters: vec![("numbers", "Number...")],
        }),
        ("MAX", NativeFunctionInfo {
            arity: Arity::AtLeast(1),
            description: "Returns the largest value in a collection",
            return_type: "Number",
            parameters: vec![("numbers", "Number...")],
        }),
        ("SUM", NativeFunctionInfo {
            arity: Arity::AtLeast(1),
            description: "Calculates the sum of a collection of numbers",
            return_type: "Number",
            parameters: vec![("numbers", "Number...")],
        }),
        ("PRODUCT", NativeFunctionInfo {
            arity: Arity::AtLeast(1),
            description: "Calculates the product of a collection of numbers",
            return_type: "Number",
            parameters: vec![("numbers", "Number...")],
        }),
        ("GCD", NativeFunctionInfo {
            arity: Arity::Exact(2),
            description: "Calculates the greatest common divisor of two numbers",
            return_type: "Number",
            parameters: vec![("a", "Number"), ("b", "Number")],
        }),
        ("LCM", NativeFunctionInfo {
            arity: Arity::Exact(2),
            description: "Calculates the least common multiple of two numbers",
            return_type: "Number",
            parameters: vec![("a", "Number"), ("b", "Number")],
        }),
        ("IS_PRIME", NativeFunctionInfo {
            arity: Arity::Exact(1),
            description: "Tests if a number is prime",
            return_type: "Boolean",
            parameters: vec![("n", "Number")],
        }),
        ("MATRIX_ADD", NativeFunctionInfo {
            arity: Arity::AtLeast(2),
            description: "Adds two or more matrices element-wise",
            return_type: "Array",
            parameters: vec![("matrices", "Array...")],
        }),
        ("MATRIX_MULTIPLY", NativeFunctionInfo {
            arity: Arity::AtLeast(2),
            description: "Multiplies two or more matrices",
            return_type: "Array",
            parameters: vec![("matrices", "Array...")],
        }),
        ("MATRIX_TRANSPOSE", NativeFunctionInfo {
            arity: Arity::AtLeast(1),
            description: "Transposes a matrix (flips rows and columns)",
            return_type: "Array",
            parameters: vec![("matrix", "Array")],
        }),
        ("MATRIX_DETERMINANT", NativeFunctionInfo {
            arity: Arity::AtLeast(1),
            description: "Calculates the determinant of a square matrix",
            return_type: "Number",
            parameters: vec![("matrix", "Array")],
        }),
        ("MATRIX_INVERSE", NativeFunctionInfo {
            arity: Arity::AtLeast(1),
            description: "Calculates the inverse of a square matrix",
            return_type: "Array",
            parameters: vec![("matrix", "Array")],
        }),
        ("DOT", NativeFunctionInfo {
            arity: Arity::Exact(2),
            description: "Calculates the dot product of two vectors",
            return_type: "Number",
            parameters: vec![("vector_a", "Array"), ("vector_b", "Array")],
        }),
        ("CROSS", NativeFunctionInfo {
            arity: Arity::Exact(2),
            description: "Calculates the cross product of two 3D vectors",
            return_type: "Array",
            parameters: vec![("vector_a", "Array"), ("vector_b", "Array")],
        }),
        ("ASIN", NativeFunctionInfo {
            arity: Arity::Exact(1),
            description: "Calculates the inverse sine (arcsine) in radians",
            return_type: "Number",
            parameters: vec![("value", "Number")],
        }),
        ("ACOS", NativeFunctionInfo {
            arity: Arity::Exact(1),
            description: "Calculates the inverse cosine (arccosine) in radians",
            return_type: "Number",
            parameters: vec![("value", "Number")],
        }),
        ("ATAN", NativeFunctionInfo {
            arity: Arity::Exact(1),
            description: "Calculates the inverse tangent (arctangent) in radians",
            return_type: "Number",
            parameters: vec![("value", "Number")],
        }),
        ("LOG", NativeFunctionInfo {
            arity: Arity::Exact(1),
            description: "Calculates the natural logarithm of a number",
            return_type: "Number",
            parameters: vec![("value", "Number")],
        }),
        ("LOG10", NativeFunctionInfo {
            arity: Arity::Exact(1),
            description: "Calculates the base-10 logarithm of a number",
            return_type: "Number",
            parameters: vec![("value", "Number")],
        }),
        ("EXP", NativeFunctionInfo {
            arity: Arity::Exact(1),
            description: "Calculates e raised to the given power",
            return_type: "Number",
            parameters: vec![("exponent", "Number")],
        }),
        ("FACTORIAL", NativeFunctionInfo {
            arity: Arity::Exact(1),
            description: "Calculates the factorial of a non-negative integer",
            return_type: "Number",
            parameters: vec![("n", "Number")],
        }),
    ];
    let constants: Vec<(&'static str, NativeConstantInfo)> = vec![
        ("PI", NativeConstantInfo { description: "The mathematical constant π (pi)", constant_type: "Number" }),
        ("E", NativeConstantInfo { description: "The mathematical constant e (Euler's number)", constant_type: "Number" }),
    ];
    let r = NativeModule { name: "_MATH", description: "Mathematical functions and constants for advanced calculations", functions, constants };
    assert(r@.functions =~= math_summary().functions);
    assert(r@.constants =~= math_summary().constants);
    assert(function_entries(r.functions@) =~~= math_function_entries());
    assert(constant_entries(r.constants@) =~~= math_constant_entries());
    r
}

/// The `_FS` module: file system operations for reading, writing, and managing files.
pub fn fs_module() -> (r: NativeModule)
    ensures
        r@ == fs_summary(),
        function_entries(r.functions@) == fs_function_entries(),
        constant_entries(r.constants@) == fs_constant_entries(),
{
    let functions: Vec<(&'static str, NativeFunctionInfo)> = vec![
        ("READFILE", NativeFunctionInfo {
            arity: Arity::Exact(1),
            description: "Reads the contents of a file as a string",
            return_type: "String",
            parameters: vec![("path", "String")],
        }),
        ("WRITEFILE", NativeFunctionInfo {
            arity: Arity::Exact(2),
            description: "Writes string content to a file",
            return_type: "Void",
            parameters: vec![("path", "String"), ("content", "String")],
        }),
        ("EXISTS", NativeFunctionInfo {
            arity: Arity::Exact(1),
            description: "Checks if a file or directory exists at the given path",
            return_type: "Boolean",
            parameters: vec![("path", "String")],
        }),
        ("ISFILE", NativeFunctionInfo {
            arity: Arity::Exact(1),
            description: "Checks if the path points to a file",
            return_type: "Boolean",
            parameters: vec![("path", "String")],
        }),
        ("ISDIR", NativeFunctionInfo {
            arity: Arity::Exact(1),
            description: "Checks if the path points to a directory",
            return_type: "Boolean",
            parameters: vec![("path", "String")],
        }),
        ("DELETE", NativeFunctionInfo {
            arity: Arity::Exact(1),
            description: "Deletes a file or empty directory",
            return_type: "Boolean",
            parameters: vec![("path", "String")],
        }),
        ("LISTDIR", NativeFunctionInfo {
            arity: Arity::Exact(1),
            description: "Lists the contents of a directory as an array",
            return_type: "Array",
            parameters: vec![("path", "String")],
        }),
    ];
    let constants: Vec<(&'static str, NativeConstantInfo)> = vec![
    ];
    let r = NativeModule { name: "_FS", description: "File system operations for reading, writing, and managing files", functions, constants };
    assert(r@.functions =~= fs_summary().functions);
    assert(r@.constants =~= fs_summary().constants);
    assert(function_entries(r.functions@) =~~= fs_function_entries());
    assert(constant_entries(r.constants@) =~~= fs_constant_entries());
    r
}

/// The `_TIME` module: time utilities for getting system time and controlling execution flow.
pub fn time_module() -> (r: NativeModule)
    ensures
        r@ == time_summary(),
        function_entries(r.functions@) == time_function_entries(),
        constant_entries(r.constants@) == time_constant_entries(),
{
    let functions: Vec<(&'static str, NativeFunctionInfo)> = vec![
        ("NOW", NativeFunctionInfo {
            arity: Arity::Exact(0),
            description: "Returns the current system time as a timestamp",
            return_type: "Number",
            parameters: vec![],
        }),
        ("NOWMS", NativeFunctionInfo {
            arity: Arity::Exact(0),
            description: "Returns the current system time in milliseconds",
            return_type: "Number",
            parameters: vec![],
        }),
        ("SLEEP", NativeFunctionInfo {
            arity: Arity::Exact(1),
            description: "Pauses execution for a specified number of seconds",
            return_type: "Void",
            parameters: vec![("seconds", "Number")],
        }),
        ("SLEEPMS", NativeFunctionInfo {
            arity: Arity::Exact(1),
            description: "Pauses execution for a specified number of milliseconds",
            return_type: "Void",
            parameters: vec![("milliseconds", "Number")],
        }),
        ("FORMATTIME", NativeFunctionInfo {
            arity: Arity::Exact(1),
            description: "Formats a timestamp into a human-readable date/time string",
            return_type: "String",
            parameters: vec![("timestamp", "Number")],
        }),
    ];
    let constants: Vec<(&'static str, NativeConstantInfo)> = vec![
    ];
    let r = NativeModule { name: "_TIME", description: "Time utilities for getting system time and controlling execution flow", functions, constants };
    assert(r@.functions =~= time_summary().functions);
    assert(r@.constants =~= time_summary().constants);
    assert(function_entries(r.functions@) =~~= time_function_entries());
    assert(constant_entries(r.constants@) =~~= time_constant_entries());
    r
}

/// The `_CRYPTO` module: cryptographic operations including encryption, hashing, and encoding.
pub fn crypto_module() -> (r: NativeModule)
    ensures
        r@ == crypto_summary(),
        function_entries(r.functions@) == crypto_function_entries(),
        constant_entries(r.constants@) == crypto_constant_entries(),
{
    let functions: Vec<(&'static str, NativeFunctionInfo)> = vec![
        ("ENCRYPT", NativeFunctionInfo {
            arity: Arity::Exact(2),
            description: "Encrypts a string using a provided key",
            return_type: "String",
            parameters: vec![("text", "String"), ("key", "String")],
        }),
        ("DECRYPT", NativeFunctionInfo {
            arity: Arity::Exact(2),
            description: "Decrypts a string using a provided key",
            return_type: "String",
            parameters: vec![("encrypted_text", "String"), ("key", "String")],
        }),
        ("HASH", NativeFunctionInfo {
            arity: Arity::Exact(1),
            description: "Generates a hash of the input string",
            return_type: "String",
            parameters: vec![("text", "String")],
        }),
        ("BASE64_ENCODE", NativeFunctionInfo {
            arity: Arity::Exact(1),
            description: "Encodes a string to Base64 format",
            return_type: "String",
            parameters: vec![("text", "String")],
        }),
        ("BASE64_DECODE", NativeFunctionInfo {
            arity: Arity::Exact(1),
            description: "Decodes a Base64 string back to its original form",
            return_type: "String",
            parameters: vec![("encoded_text", "String")],
        }),
        ("HMAC_GENERATE", NativeFunctionInfo {
            arity: Arity::Exact(2),
            description: "Generates an HMAC signature for a message with a secret key",
            return_type: "String",
            parameters: vec![("message", "String"), ("secret", "String")],
        }),
        ("HMAC_VERIFY", NativeFunctionInfo {
            arity: Arity::Exact(3),
            description: "Verifies an HMAC signature against a message",
            return_type: "Boolean",
            parameters: vec![("message", "String"), ("secret", "String"), ("signature", "String")],
        }),
        ("AES_ENCRYPT", NativeFunctionInfo {
            arity: Arity::Exact(3),
            description: "Encrypts data using AES encryption",
            return_type: "String",
            parameters: vec![("data", "String"), ("key", "String"), ("iv", "String")],
        }),
        ("AES_DECRYPT", NativeFunctionInfo {
            arity: Arity::Exact(3),
            description: "Decrypts AES-encrypted data",
            return_type: "String",
            parameters: vec![("encrypted_data", "String"), ("key", "String"), ("iv", "String")],
        }),
        ("RSA_GENERATE_KEY", NativeFunctionInfo {
            arity: Arity::Exact(0),
            description: "Generates an RSA key pair",
            return_type: "String",
            parameters: vec![],
        }),
        ("RSA_ENCRYPT", NativeFunctionInfo {
            arity: Arity::Exact(2),
            description: "Encrypts data using RSA public key encryption",
            return_type: "String",
            parameters: vec![("data", "String"), ("public_key", "String")],
        }),
        ("RSA_DECRYPT", NativeFunctionInfo {
            arity: Arity::Exact(2),
            description: "Decrypts RSA-encrypted data using a private key",
            return_type: "String",
            parameters: vec![("encrypted_data", "String"), ("private_key", "String")],
        }),
    ];
    let constants: Vec<(&'static str, NativeConstantInfo)> = vec![
    ];
    let r = NativeModule { name: "_CRYPTO", description: "Cryptographic operations including encryption, hashing, and encoding", functions, constants };
    assert(r@.functions =~= crypto_summary().functions);
    assert(r@.constants =~= crypto_summary().constants);
    assert(function_entries(r.functions@) =~~= crypto_function_entries());
    assert(constant_entries(r.constants@) =~~= crypto_constant_entries());
    r
}

/// The `_NETWORK` module: network operations for HTTP requests, URL encoding, and JSON parsing.
pub fn network_module() -> (r: NativeModule)
    ensures
        r@ == network_summary(),
        function_entries(r.functions@) == network_function_entries(),
        constant_entries(r.constants@) == network_constant_entries(),
{
    let functions: Vec<(&'static str, NativeFunctionInfo)> = vec![
        ("HTTP_GET", NativeFunctionInfo {
            arity: Arity::Exact(1),
            description: "Performs an HTTP GET request to the specified URL",
            return_type: "Array",
            parameters: vec![("url", "String")],
        }),
        ("HTTP_POST", NativeFunctionInfo {
            arity: Arity::Exact(2),
            description: "Performs an HTTP POST request with a body to the specified URL",
            return_type: "Array",
            parameters: vec![("url", "String"), ("body", "String")],
        }),
        ("HTTP_PUT", NativeFunctionInfo {
            arity: Arity::Exact(2),
            description: "Performs an HTTP PUT request with a body to the specified URL",
            return_type: "Array",
            parameters: vec![("url", "String"), ("body", "String")],
        }),
        ("HTTP_DELETE", NativeFunctionInfo {
            arity: Arity::Exact(1),
            description: "Performs an HTTP DELETE request to the specified URL",
            return_type: "Array",
            parameters: vec![("url", "String")],
        }),
        ("HTTP_HEAD", NativeFunctionInfo {
            arity: Arity::Exact(1),
            description: "Performs an HTTP HEAD request to retrieve headers only",
            return_type: "Array",
            parameters: vec![("url", "String")],
        }),
        ("URL_ENCODE", NativeFunctionInfo {
            arity: Arity::Exact(1),
            description: "Encodes a string for safe use in URLs",
            return_type: "String",
            parameters: vec![("text", "String")],
        }),
        ("URL_DECODE", NativeFunctionInfo {
            arity: Arity::Exact(1),
            description: "Decodes a URL-encoded string",
            return_type: "String",
            parameters: vec![("text", "String")],
        }),
        ("PARSE_JSON", NativeFunctionInfo {
            arity: Arity::Exact(1),
            description: "Parses a JSON string into a Psy array",
            return_type: "Array",
            parameters: vec![("json", "String")],
        }),
        ("SERVER_CREATE", NativeFunctionInfo {
            arity: Arity::Exact(1),
            description: "Creates a new HTTP server on the specified port",
            return_type: "String",
            parameters: vec![("port", "Number")],
        }),
        ("SERVER_LISTEN", NativeFunctionInfo {
            arity: Arity::Exact(1),
            description: "Starts listening on the server",
            return_type: "Boolean",
            parameters: vec![("server_id", "String")],
        }),
        ("SERVER_ROUTE", NativeFunctionInfo {
            arity: Arity::Exact(3),
            description: "Adds a route to the server (method, path)",
            return_type: "Boolean",
            parameters: vec![("server_id", "String"), ("method", "String"), ("path", "String")],
        }),
        ("SERVER_ACCEPT", NativeFunctionInfo {
            arity: Arity::Exact(1),
            description: "Accepts one incoming connection (non-blocking)",
            return_type: "String",
            parameters: vec![("server_id", "String")],
        }),
        ("SERVER_ACCEPT_BLOCKING", NativeFunctionInfo {
            arity: Arity::Exact(1),
            description: "Accepts one connection and returns the raw request",
            return_type: "Array",
            parameters: vec![("server_id", "String")],
        }),
        ("SERVER_RESPOND", NativeFunctionInfo {
            arity: Arity::AtLeast(2),
            description: "Sends an HTTP response (request_id, body, status_code?)",
            return_type: "Boolean",
            parameters: vec![("request_id", "String"), ("body", "String"), ("status", "Number")],
        }),
        ("SERVER_STOP", NativeFunctionInfo {
            arity: Arity::Exact(1),
            description: "Stops and removes a server",
            return_type: "Boolean",
            parameters: vec![("server_id", "String")],
        }),
        ("SERVER_LIST_ALL", NativeFunctionInfo {
            arity: Arity::Exact(0),
            description: "Lists all active servers",
            return_type: "Array",
            parameters: vec![],
        }),
        ("WS_CONNECT", NativeFunctionInfo {
            arity: Arity::Exact(1),
            description: "Opens a WebSocket connection to the specified URL",
            return_type: "String",
            parameters: vec![("url", "String")],
        }),
        ("WS_SEND", NativeFunctionInfo {
            arity: Arity::Exact(2),
            description: "Sends a message over a WebSocket connection",
            return_type: "Boolean",
            parameters: vec![("connection_id", "String"), ("message", "String")],
        }),
        ("WS_RECEIVE", NativeFunctionInfo {
            arity: Arity::Exact(1),
            description: "Receives the next message from a WebSocket connection",
            return_type: "String",
            parameters: vec![("connection_id", "String")],
        }),
        ("WS_CLOSE", NativeFunctionInfo {
            arity: Arity::Exact(1),
            description: "Closes a WebSocket connection",
            return_type: "Boolean",
            parameters: vec![("connection_id", "String")],
        }),
    ];
    let constants: Vec<(&'static str, NativeConstantInfo)> = vec![
    ];
    let r = NativeModule { name: "_NETWORK", description: "Network operations for HTTP requests, URL encoding, and JSON parsing", functions, constants };
    assert(r@.functions =~= network_summary().functions);
    assert(r@.constants =~= network_summary().constants);
    assert(function_entries(r.functions@) =~~= network_function_entries());
    assert(constant_entries(r.constants@) =~~= network_constant_entries());
    r
}

/// The `_JSON` module: jSON parsing, stringification, and manipulation functions.
pub fn json_module() -> (r: NativeModule)
    ensures
        r@ == json_summary(),
        function_entries(r.functions@) == json_function_entries(),
        constant_entries(r.constants@) == json_constant_entries(),
{
    let functions: Vec<(&'static str, NativeFunctionInfo)> = vec![
        ("JSON_PARSE", NativeFunctionInfo {
            arity: Arity::Exact(1),
            description: "Parses a JSON string into a Psy value",
            return_type: "Array",
            parameters: vec![("json_string", "String")],
        }),
        ("JSON_STRINGIFY", NativeFunctionInfo {
            arity: Arity::Exact(1),
            description: "Converts a Psy value to a JSON string",
            return_type: "String",
            parameters: vec![("value", "Any")],
        }),
        ("JSON_GET", NativeFunctionInfo {
            arity: Arity::Exact(2),
            description: "Gets a value from a JSON string by key or index",
            return_type: "Any",
            parameters: vec![("json_string", "String"), ("key", "String/Number")],
        }),
        ("JSON_SET", NativeFunctionInfo {
            arity: Arity::Exact(3),
            description: "Sets a value in a JSON string by key or index",
            return_type: "String",
            parameters: vec![("json_string", "String"), ("key", "String/Number"), ("value", "Any")],
        }),
        ("JSON_KEYS", NativeFunctionInfo {
            arity: Arity::Exact(1),
            description: "Gets all keys from a JSON object string",
            return_type: "Array",
            parameters: vec![("json_string", "String")],
        }),
    ];
    let constants: Vec<(&'static str, NativeConstantInfo)> = vec![
    ];
    let r = NativeModule { name: "_JSON", description: "JSON parsing, stringification, and manipulation functions", functions, constants };
    assert(r@.functions =~= json_summary().functions);
    assert(r@.constants =~= json_summary().constants);
    assert(function_entries(r.functions@) =~~= json_function_entries());
    assert(constant_entries(r.constants@) =~~= json_constant_entries());
    r
}

/// The `_ASYNC` module: asynchronous programming support with tasks, parallel execution, and channels.
pub fn async_module() -> (r: NativeModule)
    ensures
        r@ == async_summary(),
        function_entries(r.functions@) == async_function_entries(),
        constant_entries(r.constants@) == async_constant_entries(),
{
    let functions: Vec<(&'static str, NativeFunctionInfo)> = vec![
        ("ASYNC_RUN", NativeFunctionInfo {
            arity: Arity::Exact(1),
            description: "Creates an async task",
            return_type: "String",
            parameters: vec![("task_name", "String")],
        }),
        ("ASYNC_SPAWN", NativeFunctionInfo {
            arity: Arity::Exact(2),
            description: "Spawns an async task in a separate thread",
            return_type: "Boolean",
            parameters: vec![("task_id", "String"), ("function", "String")],
        }),
        ("ASYNC_AWAIT", NativeFunctionInfo {
            arity: Arity::Exact(1),
            description: "Awaits completion of an async task",
            return_type: "Any",
            parameters: vec![("task_id", "String")],
        }),
        ("ASYNC_SLEEP", NativeFunctionInfo {
            arity: Arity::Exact(1),
            description: "Sleeps asynchronously for specified milliseconds",
            return_type: "Void",
            parameters: vec![("milliseconds", "Number")],
        }),
        ("ASYNC_PARALLEL", NativeFunctionInfo {
            arity: Arity::Exact(1),
            description: "Runs multiple tasks in parallel",
            return_type: "Array",
            parameters: vec![("tasks", "Array")],
        }),
        ("ASYNC_STATUS", NativeFunctionInfo {
            arity: Arity::Exact(1),
            description: "Gets the status of an async task",
            return_type: "String",
            parameters: vec![("task_id", "String")],
        }),
        ("ASYNC_CANCEL", NativeFunctionInfo {
            arity: Arity::Exact(1),
            description: "Cancels an async task",
            return_type: "Boolean",
            parameters: vec![("task_id", "String")],
        }),
        ("ASYNC_AWAIT_ALL", NativeFunctionInfo {
            arity: Arity::Exact(1),
            description: "Awaits completion of multiple async tasks",
            return_type: "Array",
            parameters: vec![("task_ids", "Array")],
        }),
    ];
    let constants: Vec<(&'static str, NativeConstantInfo)> = vec![
    ];
    let r = NativeModule { name: "_ASYNC", description: "Asynchronous programming support with tasks, parallel execution, and channels", functions, constants };
    assert(r@.functions =~= async_summary().functions);
    assert(r@.constants =~= async_summary().constants);
    assert(function_entries(r.functions@) =~~= async_function_entries());
    assert(constant_entries(r.constants@) =~~= async_constant_entries());
    r
}

} // verus!
