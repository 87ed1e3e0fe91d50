//! Text-level helpers of the JSON support: splitting the inside of an array
//! or object at its top-level commas, finding the colon of a key-value
//! pair, escaping a string, and recognising text that is already JSON.
use vstd::prelude::*;
use vstd::string::StringExecFns;
use crate::text::{chars_of, join, push_char, str_eq, str_trim, string_from_chars, trim, trim_bounds};

verus! {

/// Where a left-to-right scan of JSON text stands: bracket depth, whether
/// it is inside a string literal, the last character kept, the piece being
/// collected and the pieces finished so far.
pub struct SplitState {
    pub depth: int,
    pub in_string: bool,
    pub prev: char,
    pub current: Seq<char>,
    pub items: Seq<Seq<char>>,
}

pub open spec fn split_init() -> SplitState {
    SplitState { depth: 0, in_string: false, prev: ' ', current: Seq::empty(), items: Seq::empty() }
}

/// One character of the scan. A quote not preceded by a backslash opens or
/// closes a string; brackets and braces outside strings nest; a comma at
/// depth 0 outside strings ends the current piece (and is dropped).
pub open spec fn split_step(st: SplitState, c: char) -> SplitState {
    if c == '"' && st.prev != '\\' {
        SplitState { in_string: !st.in_string, prev: c, current: st.current.push(c), ..st }
    } else if (c == '[' || c == '{') && !st.in_string {
        SplitState { depth: st.depth + 1, prev: c, current: st.current.push(c), ..st }
    } else if (c == ']' || c == '}') && !st.in_string {
        SplitState { depth: st.depth - 1, prev: c, current: st.current.push(c), ..st }
    } else if c == ',' && st.depth == 0 && !st.in_string {
        SplitState { items: st.items.push(st.current), current: Seq::empty(), ..st }
    } else {
        SplitState { prev: c, current: st.current.push(c), ..st }
    }
}

pub open spec fn split_scan(s: Seq<char>) -> SplitState
    decreases s.len(),
{
    if s.len() == 0 {
        split_init()
    } else {
        split_step(split_scan(s.drop_last()), s.last())
    }
}

/// The pieces of `s` between its top-level commas; the last piece is kept
/// only when it holds more than white space.
pub open spec fn split_pieces(s: Seq<char>) -> Seq<Seq<char>> {
    let st = split_scan(s);
    if trim(st.current).len() > 0 {
        st.items.push(st.current)
    } else {
        st.items
    }
}

pub open spec fn texts(v: Seq<String>) -> Seq<Seq<char>> {
    v.map_values(|s: String| s@)
}

/// The pieces found so far and the piece being collected, joined again by
/// commas, give back the text scanned.
pub proof fn lemma_split_scan_joins(s: Seq<char>)
    ensures
        join(split_scan(s).items.push(split_scan(s).current), ","@) == s,
    decreases s.len(),
{
    reveal_strlit(",");
    if s.len() > 0 {
        let init = s.drop_last();
        let c = s.last();
        lemma_split_scan_joins(init);
        let st0 = split_scan(init);
        let st = split_scan(s);
        let before = st0.items.push(st0.current);
        assert(s =~= init.push(c));
        if c == ',' && st0.depth == 0 && !st0.in_string && !(c == '"' && st0.prev != '\\') {
            let now = st.items.push(st.current);
            assert(now.drop_last() =~= before);
            assert(join(now, ","@) =~= join(before, ","@) + ","@ + Seq::<char>::empty());
        } else {
            let now = st.items.push(st.current);
            if st0.items.len() == 0 {
                assert(now =~= seq![st0.current.push(c)]);
            } else {
                assert(now.drop_last() =~= st0.items);
                assert(before.drop_last() =~= st0.items);
                assert(join(now, ","@) =~= join(before, ","@).push(c));
            }
        }
    }
}

/// The comma at `p` is at bracket depth 0 outside string literals,
/// scanning from the start of `s`.
pub open spec fn top_level_comma(s: Seq<char>, p: int) -> bool {
    &&& 0 <= p < s.len()
    &&& s[p] == ','
    &&& split_scan(s.take(p)).depth == 0
    &&& !split_scan(s.take(p)).in_string
}

/// How many top-level commas `s` holds.
pub open spec fn top_level_commas(s: Seq<char>) -> nat
    decreases s.len(),
{
    if s.len() == 0 {
        0
    } else {
        top_level_commas(s.drop_last()) + if top_level_comma(s, s.len() - 1) {
            1nat
        } else {
            0nat
        }
    }
}

/// Each finished piece ends at a top-level comma, and each top-level comma
/// ends a piece.
pub proof fn lemma_split_scan_commas(s: Seq<char>)
    ensures
        split_scan(s).items.len() == top_level_commas(s),
    decreases s.len(),
{
    if s.len() > 0 {
        lemma_split_scan_commas(s.drop_last());
        assert(s.take(s.len() - 1) =~= s.drop_last());
    }
}

/// Splitting at the top-level commas loses nothing and leaves no top-level
/// comma inside a piece: when the text does not end in a blank piece, its
/// pieces joined by commas give the text back; they are one more than the
/// text's top-level commas; and each top-level comma ends the piece before
/// it, a new piece starting right after it.
pub proof fn lemma_split_pieces_join(s: Seq<char>)
    requires
        trim(split_scan(s).current).len() > 0,
    ensures
        join(split_pieces(s), ","@) == s,
        split_pieces(s).len() == top_level_commas(s) + 1,
        forall|p: int| #[trigger] top_level_comma(s, p) ==> {
            &&& split_scan(s.take(p + 1)).items == split_scan(s.take(p)).items.push(split_scan(s.take(p)).current)
            &&& split_scan(s.take(p + 1)).current.len() == 0
        },
{
    lemma_split_scan_joins(s);
    lemma_split_scan_commas(s);
    assert forall|p: int| #[trigger] top_level_comma(s, p) implies {
        &&& split_scan(s.take(p + 1)).items == split_scan(s.take(p)).items.push(split_scan(s.take(p)).current)
        &&& split_scan(s.take(p + 1)).current.len() == 0
    } by {
        assert(s.take(p + 1).drop_last() =~= s.take(p));
        assert(s.take(p + 1).last() == s[p]);
    }
}

/// The bracket depth of the scan stays within `i32` (the counter the
/// splitter keeps) after every prefix of `s`.
pub open spec fn split_depth_fits(s: Seq<char>) -> bool {
    forall|k: int| 0 <= k <= s.len() ==> i32::MIN <= #[trigger] split_scan(s.take(k)).depth <= i32::MAX
}

/// Whether the splitter's bracket depth stays within `i32` on `s`, so that
/// `split_json` and `split_json_array` can take it.
pub fn split_depth_fits_check(s: &str) -> (r: bool)
    ensures
        r == split_depth_fits(s@),
{
    let v = chars_of(s);
    let mut depth: i32 = 0;
    let mut in_string = false;
    let mut prev = ' ';
    let mut i: usize = 0;
    assert(v@.take(0) =~= Seq::<char>::empty());
    while i < v.len()
        invariant
            i <= v.len(),
            v@ == s@,
            forall|k: int| 0 <= k <= i ==> i32::MIN <= #[trigger] split_scan(v@.take(k)).depth <= i32::MAX,
            split_scan(v@.take(i as int)).depth == depth as int,
            split_scan(v@.take(i as int)).in_string == in_string,
            split_scan(v@.take(i as int)).prev == prev,
        decreases v.len() - i,
    {
        let c = v[i];
        assert(v@.take(i + 1).drop_last() =~= v@.take(i as int));
        assert(v@.take(i + 1).last() == c);
        if c == '"' && prev != '\\' {
            in_string = !in_string;
            prev = c;
        } else if (c == '[' || c == '{') && !in_string {
            if depth == i32::MAX {
                assert(split_scan(v@.take(i + 1)).depth > i32::MAX);
                return false;
            }
            depth = depth + 1;
            prev = c;
        } else if (c == ']' || c == '}') && !in_string {
            if depth == i32::MIN {
                assert(split_scan(v@.take(i + 1)).depth < i32::MIN);
                return false;
            }
            depth = depth - 1;
            prev = c;
        } else if c == ',' && depth == 0 && !in_string {
        } else {
            prev = c;
        }
        i = i + 1;
    }
    assert(v@.take(v.len() as int) =~= v@);
    true
}

/// The scan after each prefix, exec side.
struct Scanner {
    depth: i32,
    in_string: bool,
    prev: char,
}

/// Splits the inside of a JSON array or object at its top-level commas.
pub fn split_json(s: &str) -> (r: Vec<String>)
    requires
        split_depth_fits(s@),
    ensures
        texts(r@) == split_pieces(s@),
{
    let v = chars_of(s);
    let mut items: Vec<String> = Vec::new();
    let mut current: Vec<char> = Vec::new();
    let mut sc = Scanner { depth: 0, in_string: false, prev: ' ' };
    let mut i: usize = 0;
    assert(v@.take(0) =~= Seq::<char>::empty());
    assert(texts(items@) =~= Seq::<Seq<char>>::empty());
    assert(current@ =~= Seq::<char>::empty());
    while i < v.len()
        invariant
            i <= v.len(),
            v@ == s@,
            split_depth_fits(v@),
            split_scan(v@.take(i as int)) == (SplitState {
                depth: sc.depth as int,
                in_string: sc.in_string,
                prev: sc.prev,
                current: current@,
                items: texts(items@),
            }),
        decreases v.len() - i,
    {
        let c = v[i];
        assert(v@.take(i + 1).drop_last() =~= v@.take(i as int));
        assert(v@.take(i + 1).last() == c);
        assert(i32::MIN <= split_scan(v@.take(i + 1)).depth <= i32::MAX);
        if c == '"' && sc.prev != '\\' {
            sc.in_string = !sc.in_string;
            current.push(c);
            sc.prev = c;
        } else if (c == '[' || c == '{') && !sc.in_string {
            sc.depth = sc.depth + 1;
            current.push(c);
            sc.prev = c;
        } else if (c == ']' || c == '}') && !sc.in_string {
            sc.depth = sc.depth - 1;
            current.push(c);
            sc.prev = c;
        } else if c == ',' && sc.depth == 0 && !sc.in_string {
            let piece = string_from_chars(current.as_slice());
            let ghost before = texts(items@);
            items.push(piece);
            assert(texts(items@) =~= before.push(current@));
            current = Vec::new();
        } else {
            current.push(c);
            sc.prev = c;
        }
        i = i + 1;
    }
    assert(v@.take(v.len() as int) =~= v@);
    let (a, b) = trim_bounds(&current);
    if a < b {
        let piece = string_from_chars(current.as_slice());
        let ghost before = texts(items@);
        items.push(piece);
        assert(texts(items@) =~= before.push(current@));
    }
    items
}

/// The pieces of `s` between its top-level commas, each without its
/// surrounding white space; an empty last piece is dropped.
pub open spec fn split_array_pieces(s: Seq<char>) -> Seq<Seq<char>> {
    split_pieces(s).map_values(|p: Seq<char>| trim(p))
}

/// Splits the inside of a JSON array at its top-level commas and trims
/// each item.
pub fn split_json_array(s: &str) -> (r: Vec<String>)
    requires
        split_depth_fits(s@),
    ensures
        texts(r@) == split_array_pieces(s@),
{
    let pieces = split_json(s);
    let mut r: Vec<String> = Vec::new();
    let mut i: usize = 0;
    while i < pieces.len()
        invariant
            i <= pieces.len(),
            texts(r@) == texts(pieces@).subrange(0, i as int).map_values(|p: Seq<char>| trim(p)),
        decreases pieces.len() - i,
    {
        let t = str_trim(pieces[i].as_str());
        let ghost before = texts(r@);
        r.push(t);
        assert(texts(r@) =~= before.push(t@));
        assert(texts(pieces@).subrange(0, i + 1).map_values(|p: Seq<char>| trim(p))
            =~= texts(pieces@).subrange(0, i as int).map_values(|p: Seq<char>| trim(p)).push(trim(pieces@[i as int]@)));
        i = i + 1;
    }
    assert(texts(pieces@).subrange(0, pieces.len() as int) =~= texts(pieces@));
    r
}

/// The number of bytes `c` takes in UTF-8 (`char::len_utf8`).
pub open spec fn utf8_len(c: char) -> nat {
    if (c as u32) < 0x80 {
        1
    } else if (c as u32) < 0x800 {
        2
    } else if (c as u32) < 0x10000 {
        3
    } else {
        4
    }
}

/// The number of bytes `s` takes in UTF-8.
pub open spec fn utf8_bytes(s: Seq<char>) -> nat
    decreases s.len(),
{
    if s.len() == 0 {
        0
    } else {
        utf8_bytes(s.drop_last()) + utf8_len(s.last())
    }
}

/// A prefix takes no more bytes than the whole.
pub proof fn lemma_utf8_bytes_prefix(s: Seq<char>, i: int)
    requires
        0 <= i <= s.len(),
    ensures
        utf8_bytes(s.take(i)) <= utf8_bytes(s),
    decreases s.len(),
{
    if i < s.len() {
        lemma_utf8_bytes_prefix(s.drop_last(), i);
        assert(s.drop_last().take(i) =~= s.take(i));
    } else {
        assert(s.take(i) =~= s);
    }
}

fn char_len_utf8(c: char) -> (r: usize)
    ensures
        r == utf8_len(c),
{
    let n = c as u32;
    if n < 0x80 {
        1
    } else if n < 0x800 {
        2
    } else if n < 0x10000 {
        3
    } else {
        4
    }
}

/// Where the colon search stands before a character: depth, whether in a
/// string, and the previous character.
pub struct ColonState {
    pub depth: int,
    pub in_string: bool,
    pub prev: char,
}

pub open spec fn colon_step(st: ColonState, c: char) -> ColonState {
    if c == '"' && st.prev != '\\' {
        ColonState { in_string: !st.in_string, prev: c, ..st }
    } else if (c == '[' || c == '{') && !st.in_string {
        ColonState { depth: st.depth + 1, prev: c, ..st }
    } else if (c == ']' || c == '}') && !st.in_string {
        ColonState { depth: st.depth - 1, prev: c, ..st }
    } else {
        ColonState { prev: c, ..st }
    }
}

/// The index of the first colon at depth 0 outside strings, scanning from
/// `i` in state `st`.
pub open spec fn colon_from(s: Seq<char>, i: int, st: ColonState) -> Option<int>
    decreases s.len() - i,
{
    if i < 0 || i >= s.len() {
        None
    } else if s[i] == ':' && st.depth == 0 && !st.in_string {
        Some(i)
    } else {
        colon_from(s, i + 1, colon_step(st, s[i]))
    }
}

/// The colon search state after a prefix, were the search not to stop.
pub open spec fn colon_scan(s: Seq<char>) -> ColonState
    decreases s.len(),
{
    if s.len() == 0 {
        ColonState { depth: 0, in_string: false, prev: ' ' }
    } else {
        colon_step(colon_scan(s.drop_last()), s.last())
    }
}

/// The search reaches the prefix of length `k`: no top-level colon comes
/// before it.
pub open spec fn colon_reaches(s: Seq<char>, k: int) -> bool {
    match colon_from(s, 0, ColonState { depth: 0, in_string: false, prev: ' ' }) {
        Some(c) => k <= c,
        None => true,
    }
}

/// The bracket depth of the colon search stays within `i32` (its counter)
/// as far as the search goes.
pub open spec fn colon_depth_fits(s: Seq<char>) -> bool {
    forall|k: int|
        0 <= k <= s.len() && colon_reaches(s, k) ==> i32::MIN <= #[trigger] colon_scan(s.take(k)).depth <= i32::MAX
}

proof fn lemma_colon_from_after(s: Seq<char>, i: int, st: ColonState)
    ensures
        colon_from(s, i, st) matches Some(c) ==> i <= c,
    decreases s.len() - i,
{
    if 0 <= i < s.len() && !(s[i] == ':' && st.depth == 0 && !st.in_string) {
        lemma_colon_from_after(s, i + 1, colon_step(st, s[i]));
    }
}

/// The byte offset of the colon that separates a key from its value: the
/// first colon at bracket depth 0 outside string literals.
pub open spec fn colon_offset(s: Seq<char>) -> Option<nat> {
    match colon_from(s, 0, ColonState { depth: 0, in_string: false, prev: ' ' }) {
        Some(i) => Some(utf8_bytes(s.take(i))),
        None => None,
    }
}

/// Finds the colon that separates a key from its value in a JSON pair;
/// gives its byte offset.
pub fn find_colon(s: &str) -> (r: Option<usize>)
    requires
        colon_depth_fits(s@),
        utf8_bytes(s@) <= usize::MAX,
    ensures
        match r {
            Some(n) => colon_offset(s@) == Some(n as nat),
            None => colon_offset(s@) is None,
        },
{
    let v = chars_of(s);
    let mut depth: i32 = 0;
    let mut in_string = false;
    let mut prev = ' ';
    let mut bytes: usize = 0;
    let mut i: usize = 0;
    let ghost start = colon_from(v@, 0, ColonState { depth: 0, in_string: false, prev: ' ' });
    assert(v@.take(0) =~= Seq::<char>::empty());
    proof {
        lemma_colon_from_after(v@, 0, ColonState { depth: 0, in_string: false, prev: ' ' });
    }
    while i < v.len()
        invariant
            i <= v.len(),
            v@ == s@,
            colon_depth_fits(v@),
            colon_scan(v@.take(i as int)) == (ColonState { depth: depth as int, in_string, prev }),
            colon_reaches(v@, i as int),
            bytes == utf8_bytes(v@.take(i as int)),
            utf8_bytes(v@) <= usize::MAX,
            colon_from(v@, i as int, ColonState { depth: depth as int, in_string, prev }) == start,
            start == colon_from(v@, 0, ColonState { depth: 0, in_string: false, prev: ' ' }),
        decreases v.len() - i,
    {
        let c = v[i];
        assert(v@.take(i + 1).drop_last() =~= v@.take(i as int));
        assert(v@.take(i + 1).last() == c);
        proof {
            if !(c == ':' && depth == 0 && !in_string) {
                lemma_colon_from_after(v@, i + 1, colon_step(ColonState { depth: depth as int, in_string, prev }, c));
                assert(colon_reaches(v@, i + 1));
                assert(i32::MIN <= colon_scan(v@.take(i + 1)).depth <= i32::MAX);
            }
        }
        if c == '"' && prev != '\\' {
            in_string = !in_string;
        } else if (c == '[' || c == '{') && !in_string {
            depth = depth + 1;
        } else if (c == ']' || c == '}') && !in_string {
            depth = depth - 1;
        } else if c == ':' && depth == 0 && !in_string {
            assert(v@[i as int] == ':');
            assert(colon_from(v@, i as int, ColonState { depth: depth as int, in_string, prev }) == Some(i as int));
            return Some(bytes);
        }
        prev = c;
        proof {
            lemma_utf8_bytes_prefix(v@, i + 1);
        }
        bytes = bytes + char_len_utf8(c);
        i = i + 1;
    }
    None
}

/// How a character is written inside a JSON string literal.
pub open spec fn escape_char(c: char) -> Seq<char> {
    if c == '"' {
        seq!['\\', '"']
    } else if c == '\\' {
        seq!['\\', '\\']
    } else if c == '\n' {
        seq!['\\', 'n']
    } else if c == '\r' {
        seq!['\\', 'r']
    } else if c == '\t' {
        seq!['\\', 't']
    } else {
        seq![c]
    }
}

/// `s` with quotes, backslashes, newlines, carriage returns and tabs
/// escaped.
pub open spec fn escaped(s: Seq<char>) -> Seq<char>
    decreases s.len(),
{
    if s.len() == 0 {
        Seq::empty()
    } else {
        escaped(s.drop_last()) + escape_char(s.last())
    }
}

/// Escapes a string for use inside a JSON string literal.
pub fn escape_string(s: &str) -> (r: String)
    ensures
        r@ == escaped(s@),
{
    let v = chars_of(s);
    let mut r = String::new();
    let mut i: usize = 0;
    assert(v@.take(0) =~= Seq::<char>::empty());
    while i < v.len()
        invariant
            i <= v.len(),
            v@ == s@,
            r@ == escaped(v@.take(i as int)),
        decreases v.len() - i,
    {
        let c = v[i];
        assert(v@.take(i + 1).drop_last() =~= v@.take(i as int));
        let ghost before = r@;
        if c == '"' {
            push_char(&mut r, '\\');
            push_char(&mut r, '"');
        } else if c == '\\' {
            push_char(&mut r, '\\');
            push_char(&mut r, '\\');
        } else if c == '\n' {
            push_char(&mut r, '\\');
            push_char(&mut r, 'n');
        } else if c == '\r' {
            push_char(&mut r, '\\');
            push_char(&mut r, 'r');
        } else if c == '\t' {
            push_char(&mut r, '\\');
            push_char(&mut r, 't');
        } else {
            push_char(&mut r, c);
        }
        assert(r@ =~= before + escape_char(c));
        i = i + 1;
    }
    assert(v@.take(v.len() as int) =~= v@);
    r
}

/// Text that is taken to be JSON already: after trimming, it starts with
/// `{` or `[`, or is `null`, `true` or `false`.
pub open spec fn looks_like_json(s: Seq<char>) -> bool {
    let t = trim(s);
    (t.len() > 0 && (t[0] == '{' || t[0] == '[')) || t == "null"@ || t == "true"@ || t == "false"@
}

/// Whether `s` is taken to be JSON already.
pub fn is_json(s: &str) -> (r: bool)
    ensures
        r == looks_like_json(s@),
{
    let t = str_trim(s);
    let v = chars_of(t.as_str());
    if v.len() > 0 && (v[0] == '{' || v[0] == '[') {
        return true;
    }
    str_eq(t.as_str(), "null") || str_eq(t.as_str(), "true") || str_eq(t.as_str(), "false")
}


/// The character an escape `\c` stands for (other than `\u`).
pub open spec fn unescape_char(c: char) -> char {
    if c == 'n' {
        '\n'
    } else if c == 'r' {
        '\r'
    } else if c == 't' {
        '\t'
    } else {
        c
    }
}

/// How many characters the first piece of the inside of a string literal
/// takes: one plain character, a lone trailing backslash, a two-character
/// escape, or `\u` with the (up to) four characters after it.
pub open spec fn unescape_width(s: Seq<char>) -> int {
    if s.len() == 0 {
        0
    } else if s[0] != '\\' || s.len() == 1 {
        1
    } else if s[1] == 'u' {
        if s.len() >= 6 { 6 } else { s.len() as int }
    } else {
        2
    }
}

/// What the first piece of the inside of a string literal stands for: a
/// `\u` escape becomes `?`, a lone trailing backslash nothing.
pub open spec fn unescape_piece(s: Seq<char>) -> Seq<char> {
    if s.len() == 0 {
        Seq::empty()
    } else if s[0] != '\\' {
        seq![s[0]]
    } else if s.len() == 1 {
        Seq::empty()
    } else if s[1] == 'u' {
        seq!['?']
    } else {
        seq![unescape_char(s[1])]
    }
}

/// The text that the inside of a JSON string literal stands for.
pub open spec fn unescaped(s: Seq<char>) -> Seq<char>
    decreases s.len(),
{
    if s.len() == 0 {
        Seq::empty()
    } else {
        unescape_piece(s) + unescaped(s.skip(unescape_width(s)))
    }
}

/// The message for text that is not a string literal.
pub open spec fn string_format_error() -> Seq<char> {
    "Invalid string format"@
}

/// What reading a JSON string literal gives: the unescaped inside when the
/// text starts and ends with a double quote, else the format error.
pub open spec fn string_literal_value(s: Seq<char>) -> Result<Seq<char>, Seq<char>> {
    if s.len() >= 2 && s[0] == '"' && s[s.len() - 1] == '"' {
        Ok(unescaped(s.subrange(1, s.len() - 1)))
    } else {
        Err(string_format_error())
    }
}

/// Reads a JSON string literal: strips the quotes and resolves the escapes
/// `\"`, `\\`, `\/`, `\n`, `\r`, `\t`; `\u` and the four characters after
/// it become `?`; a backslash before any other character is dropped.
pub fn parse_string(s: &str) -> (r: Result<String, String>)
    requires
        s@ != seq!['"'],
    ensures
        match r {
            Ok(v) => string_literal_value(s@) == Ok::<Seq<char>, Seq<char>>(v@),
            Err(m) => string_literal_value(s@) == Err::<Seq<char>, Seq<char>>(m@),
        },
{
    let v = chars_of(s);
    let n = v.len();
    if n == 0 || v[0] != '"' || v[n - 1] != '"' {
        return Err(String::from_str("Invalid string format"));
    }
    if n == 1 {
        assert(v@ =~= seq!['"']);
    }
    let end = n - 1;
    let ghost inner = v@.subrange(1, end as int);
    let mut r = String::new();
    let mut i: usize = 1;
    assert(v@.subrange(1, end as int) =~= inner);
    while i < end
        invariant
            1 <= i <= end,
            end == v.len() - 1,
            inner == v@.subrange(1, end as int),
            r@ + unescaped(v@.subrange(i as int, end as int)) == unescaped(inner),
        decreases end - i,
    {
        let ghost rest = v@.subrange(i as int, end as int);
        let ghost before = r@;
        let c = v[i];
        let mut k: usize = 1;
        if c == '\\' && i + 1 < end {
            let d = v[i + 1];
            if d == 'u' {
                push_char(&mut r, '?');
                k = if end - i >= 6 { 6 } else { end - i };
            } else {
                if d == 'n' {
                    push_char(&mut r, '\n');
                } else if d == 'r' {
                    push_char(&mut r, '\r');
                } else if d == 't' {
                    push_char(&mut r, '\t');
                } else {
                    push_char(&mut r, d);
                }
                k = 2;
            }
        } else if c != '\\' {
            push_char(&mut r, c);
        }
        assert(unescape_width(rest) == k);
        assert(r@ =~= before + unescape_piece(rest));
        assert(rest.skip(k as int) =~= v@.subrange(i + k, end as int));
        i = i + k;
    }
    assert(v@.subrange(end as int, end as int) =~= Seq::<char>::empty());
    Ok(r)
}

proof fn lemma_escaped_append(a: Seq<char>, b: Seq<char>)
    ensures
        escaped(a + b) == escaped(a) + escaped(b),
    decreases b.len(),
{
    if b.len() == 0 {
        assert(a + b =~= a);
    } else {
        lemma_escaped_append(a, b.drop_last());
        assert((a + b).drop_last() =~= a + b.drop_last());
    }
}

proof fn lemma_unescaped_prefix(c: char, rest: Seq<char>)
    ensures
        unescaped(escape_char(c) + rest) == seq![c] + unescaped(rest),
{
    let t = escape_char(c) + rest;
    assert(t.skip(unescape_width(t)) =~= rest);
}

/// Reading back an escaped text gives the text: the inside of a string
/// literal written by `escape_string` stands for what was escaped.
pub proof fn lemma_unescape_escaped(s: Seq<char>)
    ensures
        unescaped(escaped(s)) == s,
    decreases s.len(),
{
    if s.len() > 0 {
        let rest = s.skip(1);
        assert(s =~= seq![s[0]] + rest);
        lemma_escaped_append(seq![s[0]], rest);
        let one = seq![s[0]];
        assert(one.drop_last() =~= Seq::<char>::empty());
        assert(escaped(one.drop_last()) == Seq::<char>::empty());
        assert(one.last() == s[0]);
        assert(escaped(one) =~= escape_char(s[0]));
        lemma_unescaped_prefix(s[0], escaped(rest));
        lemma_unescape_escaped(rest);
        assert(seq![s[0]] + rest =~= s);
    }
}

/// A string literal made by quoting an escaped text reads back as that text.
pub proof fn lemma_string_literal_round_trip(s: Seq<char>)
    ensures
        string_literal_value(seq!['"'] + escaped(s) + seq!['"']) == Ok::<Seq<char>, Seq<char>>(s),
{
    let q = seq!['"'] + escaped(s) + seq!['"'];
    assert(q.subrange(1, q.len() - 1) =~= escaped(s));
    lemma_unescape_escaped(s);
}

} // verus!
