//! `name: value` pairs in text: the header lines of an HTTP request, and the
//! loose `{key: value, ...}` objects that a program may write by hand.
use vstd::prelude::*;
use crate::ast::strings_view;
use crate::editor::{lines_of, text_lines};
use crate::number::find_char;
use crate::text::{chars_of, str_trim, string_from_chars, trim};

verus! {

/// The name and value of a line: the text before its first colon and the
/// text after it, both trimmed; nothing for a line without a colon.
pub open spec fn header_field(line: Seq<char>) -> Option<(Seq<char>, Seq<char>)> {
    let k = find_char(line, ':', 0);
    if k < line.len() {
        Some((trim(line.take(k)), trim(line.skip(k + 1))))
    } else {
        None
    }
}

/// The fields of the lines that have a colon, in order.
pub open spec fn header_fields(lines: Seq<Seq<char>>) -> Seq<(Seq<char>, Seq<char>)>
    decreases lines.len(),
{
    if lines.len() == 0 {
        Seq::empty()
    } else {
        header_fields(lines.drop_last()) + match header_field(lines.last()) {
            Some(f) => seq![f],
            None => Seq::empty(),
        }
    }
}

pub open spec fn fields_view(v: Seq<(String, String)>) -> Seq<(Seq<char>, Seq<char>)> {
    v.map_values(|f: (String, String)| (f.0@, f.1@))
}

/// The trimmed text of `v[a..b]`.
fn trimmed(v: &Vec<char>, a: usize, b: usize) -> (r: String)
    requires
        a <= b <= v.len(),
    ensures
        r@ == trim(v@.subrange(a as int, b as int)),
{
    let sub = string_from_chars(&v.as_slice()[a..b]);
    str_trim(sub.as_str())
}

/// The field of a line given as characters.
fn field_of_chars(v: &Vec<char>) -> (r: Option<(String, String)>)
    ensures
        match r {
            Some(f) => header_field(v@) == Some((f.0@, f.1@)),
            None => header_field(v@) is None,
        },
{
    let mut k: usize = 0;
    while k < v.len() && v[k] != ':'
        invariant
            k <= v.len(),
            find_char(v@, ':', 0) == find_char(v@, ':', k as int),
        decreases v.len() - k,
    {
        k = k + 1;
    }
    if k < v.len() {
        assert(v@.take(k as int) =~= v@.subrange(0, k as int));
        assert(v@.skip(k + 1) =~= v@.subrange(k + 1, v.len() as int));
        Some((trimmed(v, 0, k), trimmed(v, k + 1, v.len())))
    } else {
        None
    }
}

/// The name and value of a header line (`Name: value`), or nothing when the
/// line has no colon.
pub fn parse_header_line(line: &str) -> (r: Option<(String, String)>)
    ensures
        match r {
            Some(f) => header_field(line@) == Some((f.0@, f.1@)),
            None => header_field(line@) is None,
        },
{
    let v = chars_of(line);
    field_of_chars(&v)
}

/// The fields of a list of lines given as characters.
fn fields_of_lines(lines: &Vec<Vec<char>>) -> (r: Vec<(String, String)>)
    ensures
        fields_view(r@) == header_fields(lines@.map_values(|l: Vec<char>| l@)),
{
    let ghost lv = lines@.map_values(|l: Vec<char>| l@);
    let mut r: Vec<(String, String)> = Vec::new();
    let mut i: usize = 0;
    assert(lv.take(0) =~= Seq::<Seq<char>>::empty());
    assert(fields_view(r@) =~= Seq::<(Seq<char>, Seq<char>)>::empty());
    while i < lines.len()
        invariant
            i <= lines.len(),
            lv == lines@.map_values(|l: Vec<char>| l@),
            fields_view(r@) == header_fields(lv.take(i as int)),
        decreases lines.len() - i,
    {
        assert(lv.take(i + 1).drop_last() =~= lv.take(i as int));
        assert(lv.take(i + 1).last() == lines@[i as int]@);
        let ghost before = fields_view(r@);
        match field_of_chars(&lines[i]) {
            Some(f) => {
                r.push(f);
                assert(fields_view(r@) =~= before + seq![(f.0@, f.1@)]);
            },
            None => {
                assert(before + Seq::<(Seq<char>, Seq<char>)>::empty() =~= before);
            },
        }
        i = i + 1;
    }
    assert(lv.take(lines.len() as int) =~= lv);
    r
}

/// The header fields given as text: one `Name: value` per line; lines
/// without a colon are skipped.
pub fn parse_header_text(text: &str) -> (r: Vec<(String, String)>)
    ensures
        fields_view(r@) == header_fields(text_lines(text@)),
{
    let lines = lines_of(text);
    fields_of_lines(&lines)
}

/// The header fields given as a list of `Name: value` items; items without
/// a colon are skipped.
pub fn parse_header_items(items: &[String]) -> (r: Vec<(String, String)>)
    ensures
        fields_view(r@) == header_fields(strings_view(items@)),
{
    let mut lines: Vec<Vec<char>> = Vec::new();
    let mut i: usize = 0;
    while i < items.len()
        invariant
            i <= items.len(),
            lines@.map_values(|l: Vec<char>| l@) == strings_view(items@).take(i as int),
        decreases items.len() - i,
    {
        let ghost before = lines@.map_values(|l: Vec<char>| l@);
        lines.push(chars_of(items[i].as_str()));
        assert(lines@.map_values(|l: Vec<char>| l@) =~= before.push(items@[i as int]@));
        assert(strings_view(items@).take(i + 1) =~= strings_view(items@).take(i as int).push(items@[i as int]@));
        i = i + 1;
    }
    assert(strings_view(items@).take(items.len() as int) =~= strings_view(items@));
    fields_of_lines(&lines)
}

/// The pieces of a text between its commas (`str::split(',')`): one more
/// piece than there are commas, empty pieces included.
pub open spec fn comma_pieces(s: Seq<char>) -> Seq<Seq<char>>
    decreases s.len(),
{
    if s.len() == 0 {
        seq![Seq::empty()]
    } else {
        let init = comma_pieces(s.drop_last());
        if s.last() == ',' {
            init.push(Seq::empty())
        } else {
            init.update(init.len() - 1, init.last().push(s.last()))
        }
    }
}

proof fn lemma_comma_pieces_nonempty(s: Seq<char>)
    ensures
        comma_pieces(s).len() >= 1,
    decreases s.len(),
{
    if s.len() > 0 {
        lemma_comma_pieces_nonempty(s.drop_last());
    }
}

/// The fields of the pieces of a loose object: each non-blank piece,
/// trimmed, split at its first colon; nothing when a non-blank piece has no
/// colon.
pub open spec fn object_fields(pieces: Seq<Seq<char>>) -> Option<Seq<(Seq<char>, Seq<char>)>>
    decreases pieces.len(),
{
    if pieces.len() == 0 {
        Some(Seq::empty())
    } else {
        match object_fields(pieces.drop_last()) {
            None => None,
            Some(fs) => {
                let p = trim(pieces.last());
                if p.len() == 0 {
                    Some(fs)
                } else {
                    match header_field(p) {
                        Some(f) => Some(fs.push(f)),
                        None => None,
                    }
                }
            },
        }
    }
}

proof fn lemma_object_fields_none(pieces: Seq<Seq<char>>, j: int)
    requires
        0 <= j <= pieces.len(),
        object_fields(pieces.take(j)) is None,
    ensures
        object_fields(pieces) is None,
    decreases pieces.len() - j,
{
    if j < pieces.len() {
        assert(pieces.take(j + 1).drop_last() =~= pieces.take(j));
        lemma_object_fields_none(pieces, j + 1);
    } else {
        assert(pieces.take(j) =~= pieces);
    }
}

/// The inside of a text that, trimmed, is enclosed in `[...]` or `{...}`.
pub open spec fn bracket_inside(s: Seq<char>) -> Option<Seq<char>> {
    let t = trim(s);
    if t.len() >= 2 && ((t[0] == '[' && t.last() == ']') || (t[0] == '{' && t.last() == '}')) {
        Some(t.subrange(1, t.len() - 1))
    } else {
        None
    }
}

/// The `key: value` fields of a loose object such as `{a: 1, b: x}`: the
/// inside of the brackets split at every comma, each field split at its
/// first colon and trimmed; nothing when the text is not bracketed or a
/// field has no colon.
pub open spec fn loose_object(s: Seq<char>) -> Option<Seq<(Seq<char>, Seq<char>)>> {
    match bracket_inside(s) {
        Some(inner) => object_fields(comma_pieces(inner)),
        None => None,
    }
}

/// The pieces between the commas of `v[a..b]`.
fn pieces_of(v: &Vec<char>, a: usize, b: usize) -> (r: Vec<Vec<char>>)
    requires
        a <= b <= v.len(),
    ensures
        r@.map_values(|l: Vec<char>| l@) == comma_pieces(v@.subrange(a as int, b as int)),
{
    let ghost s = v@.subrange(a as int, b as int);
    let mut done: Vec<Vec<char>> = Vec::new();
    let mut cur: Vec<char> = Vec::new();
    let mut i: usize = a;
    assert(s.take(0) =~= Seq::<char>::empty());
    assert(done@.map_values(|l: Vec<char>| l@).push(cur@) =~= comma_pieces(s.take(0)));
    while i < b
        invariant
            a <= i <= b <= v.len(),
            s == v@.subrange(a as int, b as int),
            done@.map_values(|l: Vec<char>| l@).push(cur@) == comma_pieces(s.take(i - a)),
        decreases b - i,
    {
        let ghost prev = comma_pieces(s.take(i - a));
        assert(s.take(i - a + 1).drop_last() =~= s.take(i - a));
        assert(s.take(i - a + 1).last() == v@[i as int]);
        let ghost dv = done@.map_values(|l: Vec<char>| l@);
        if v[i] == ',' {
            let finished = cur;
            cur = Vec::new();
            done.push(finished);
            assert(done@.map_values(|l: Vec<char>| l@) =~= dv.push(finished@));
            assert(done@.map_values(|l: Vec<char>| l@).push(cur@) =~= prev.push(Seq::empty()));
        } else {
            cur.push(v[i]);
            assert(done@.map_values(|l: Vec<char>| l@).push(cur@) =~= prev.update(prev.len() - 1, prev.last().push(v@[i as int])));
        }
        i = i + 1;
    }
    assert(s.take(b - a) =~= s);
    done.push(cur);
    done
}

/// The `key: value` fields of a loose object such as `{a: 1, b: x}`, or
/// nothing when the text is not in brackets or a field has no colon.
pub fn parse_loose_object(s: &str) -> (r: Option<Vec<(String, String)>>)
    ensures
        match r {
            Some(fs) => loose_object(s@) == Some(fields_view(fs@)),
            None => loose_object(s@) is None,
        },
{
    let t = str_trim(s);
    let v = chars_of(t.as_str());
    let n = v.len();
    if !(n >= 2 && ((v[0] == '[' && v[n - 1] == ']') || (v[0] == '{' && v[n - 1] == '}'))) {
        return None;
    }
    let pieces = pieces_of(&v, 1, n - 1);
    let ghost pv = pieces@.map_values(|l: Vec<char>| l@);
    assert(bracket_inside(s@) == Some(v@.subrange(1, n - 1)));
    assert(loose_object(s@) == object_fields(pv));
    let mut r: Vec<(String, String)> = Vec::new();
    let mut i: usize = 0;
    assert(pv.take(0) =~= Seq::<Seq<char>>::empty());
    assert(fields_view(r@) =~= Seq::<(Seq<char>, Seq<char>)>::empty());
    while i < pieces.len()
        invariant
            i <= pieces.len(),
            pv == pieces@.map_values(|l: Vec<char>| l@),
            object_fields(pv.take(i as int)) == Some(fields_view(r@)),
            loose_object(s@) == object_fields(pv),
        decreases pieces.len() - i,
    {
        assert(pv.take(i + 1).drop_last() =~= pv.take(i as int));
        assert(pv.take(i + 1).last() == pieces@[i as int]@);
        let piece = &pieces[i];
        let (a, b) = crate::text::trim_bounds(piece);
        if a < b {
            let p = string_from_chars(&piece.as_slice()[a..b]);
            let pc = chars_of(p.as_str());
            match field_of_chars(&pc) {
                Some(f) => {
                    let ghost before = fields_view(r@);
                    r.push(f);
                    assert(fields_view(r@) =~= before.push((f.0@, f.1@)));
                },
                None => {
                    proof {
                        assert(piece@.subrange(a as int, b as int) == trim(pv[i as int]));
                        assert(object_fields(pv.take(i + 1)) is None);
                        lemma_object_fields_none(pv, i + 1);
                    }
                    return None;
                },
            }
        }
        i = i + 1;
    }
    assert(pv.take(pieces.len() as int) =~= pv);
    Some(r)
}

} // verus!
