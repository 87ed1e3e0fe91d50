//! URL encoding of text, as the `_NETWORK` functions `URL_ENCODE` and
//! `URL_DECODE` do it: letters, digits and `- _ . ~` stay, a space becomes
//! `+`, and any other character becomes `%` and two upper-case hex digits
//! of its low byte.
use vstd::prelude::*;
use crate::crypto::hex_lower;
use crate::json_text::utf8_len;
use crate::text::{chars_of, push_char};

verus! {

pub open spec fn unreserved(c: char) -> bool {
    ('A' <= c && c <= 'Z') || ('a' <= c && c <= 'z') || ('0' <= c && c <= '9') || c == '-' || c == '_' || c == '.' || c == '~'
}

/// The upper-case hex digit of `v` (`v < 16`).
pub open spec fn hex_digit(v: nat) -> char {
    if v < 10 {
        ((v + 48) as u8) as char
    } else {
        ((v + 55) as u8) as char
    }
}

/// The value of a hex digit of either case.
pub open spec fn hex_value(c: char) -> Option<nat> {
    if '0' <= c && c <= '9' {
        Some((c as u32 - 48) as nat)
    } else if 'a' <= c && c <= 'f' {
        Some((c as u32 - 87) as nat)
    } else if 'A' <= c && c <= 'F' {
        Some((c as u32 - 55) as nat)
    } else {
        None
    }
}

/// The low byte of a character's code.
pub open spec fn low_byte(c: char) -> nat {
    ((c as u32) % 256) as nat
}

/// How one character is encoded.
pub open spec fn encode_char(c: char) -> Seq<char> {
    if unreserved(c) {
        seq![c]
    } else if c == ' ' {
        seq!['+']
    } else {
        seq!['%', hex_digit(low_byte(c) / 16), hex_digit(low_byte(c) % 16)]
    }
}

/// The encoding of a text, character by character.
pub open spec fn url_encoded(s: Seq<char>) -> Seq<char>
    decreases s.len(),
{
    if s.len() == 0 {
        Seq::empty()
    } else {
        encode_char(s[0]) + url_encoded(s.subrange(1, s.len() as int))
    }
}

/// The decoding of a text: `+` becomes a space; `%` followed by two hex
/// digits becomes the character with that code, and any other text from a
/// `%` up to the next `%` is dropped.
pub open spec fn url_decoded(t: Seq<char>) -> Seq<char>
    decreases t.len(), 2nat,
{
    if t.len() == 0 {
        Seq::empty()
    } else if t[0] == '%' {
        after_percent(t.subrange(1, t.len() as int))
    } else {
        seq![if t[0] == '+' { ' ' } else { t[0] }] + url_decoded(t.subrange(1, t.len() as int))
    }
}

/// The decoding of the text after a `%`.
pub open spec fn after_percent(u: Seq<char>) -> Seq<char>
    decreases u.len(), 1nat,
{
    if u.len() >= 2 && hex_value(u[0]) is Some && hex_value(u[1]) is Some {
        seq![((16 * hex_value(u[0])->0 + hex_value(u[1])->0) as u8) as char] + url_decoded(u.subrange(2, u.len() as int))
    } else {
        skip_part(u)
    }
}

/// Drops text up to the next `%`, then decodes after it.
pub open spec fn skip_part(u: Seq<char>) -> Seq<char>
    decreases u.len(), 0nat,
{
    if u.len() == 0 {
        Seq::empty()
    } else if u[0] == '%' {
        after_percent(u.subrange(1, u.len() as int))
    } else {
        skip_part(u.subrange(1, u.len() as int))
    }
}

/// The text after a `%` can be decoded without cutting a character in two:
/// the part up to the next `%` does not start with a character of three or
/// more bytes, nor with a one-byte character followed by a longer one.
pub open spec fn part_ok(u: Seq<char>) -> bool {
    &&& !(u.len() >= 1 && u[0] != '%' && utf8_len(u[0]) >= 3)
    &&& !(u.len() >= 2 && u[0] != '%' && u[1] != '%' && utf8_len(u[0]) == 1 && utf8_len(u[1]) >= 2)
}

/// Every `%` of the text is followed by a part that can be decoded.
pub open spec fn decodable(t: Seq<char>) -> bool {
    forall|i: int| 0 <= i < t.len() && t[i] == '%' ==> part_ok(#[trigger] t.subrange(i + 1, t.len() as int))
}

fn hex_digit_exec(v: u32) -> (c: char)
    requires
        v < 16,
    ensures
        c == hex_digit(v as nat),
{
    if v < 10 {
        ((v + 48) as u8) as char
    } else {
        ((v + 55) as u8) as char
    }
}

fn hex_value_exec(c: char) -> (r: Option<u32>)
    ensures
        match r {
            Some(v) => hex_value(c) == Some(v as nat) && v < 16,
            None => hex_value(c) is None,
        },
{
    if '0' <= c && c <= '9' {
        Some(c as u32 - 48)
    } else if 'a' <= c && c <= 'f' {
        Some(c as u32 - 87)
    } else if 'A' <= c && c <= 'F' {
        Some(c as u32 - 55)
    } else {
        None
    }
}

/// URL-encodes a text.
pub fn url_encode(text: &str) -> (r: String)
    ensures
        r@ == url_encoded(text@),
{
    let v = chars_of(text);
    let mut r = String::new();
    let mut i: usize = 0;
    assert(v@.subrange(0, v.len() as int) =~= v@);
    while i < v.len()
        invariant
            i <= v.len(),
            v@ == text@,
            r@ + url_encoded(v@.subrange(i as int, v.len() as int)) == url_encoded(v@),
        decreases v.len() - i,
    {
        let c = v[i];
        let ghost before = r@;
        let ghost rest = v@.subrange(i as int, v.len() as int);
        assert(rest[0] == c);
        assert(rest.subrange(1, rest.len() as int) =~= v@.subrange(i + 1, v.len() as int));
        if ('A' <= c && c <= 'Z') || ('a' <= c && c <= 'z') || ('0' <= c && c <= '9') || c == '-' || c == '_'
            || c == '.' || c == '~' {
            push_char(&mut r, c);
        } else if c == ' ' {
            push_char(&mut r, '+');
        } else {
            let b = (c as u32) % 256;
            push_char(&mut r, '%');
            push_char(&mut r, hex_digit_exec(b / 16));
            push_char(&mut r, hex_digit_exec(b % 16));
        }
        assert(r@ =~= before + encode_char(c));
        i = i + 1;
    }
    assert(v@.subrange(v.len() as int, v.len() as int) =~= Seq::<char>::empty());
    assert(r@ + Seq::<char>::empty() =~= r@);
    r
}

/// Whether the text can be decoded (see `decodable`).
pub fn is_decodable(text: &str) -> (r: bool)
    ensures
        r == decodable(text@),
{
    let v = chars_of(text);
    let n = v.len();
    let mut i: usize = 0;
    while i < n
        invariant
            i <= n,
            n == v.len(),
            v@ == text@,
            forall|k: int| 0 <= k < i && v@[k] == '%' ==> part_ok(#[trigger] v@.subrange(k + 1, n as int)),
        decreases n - i,
    {
        if v[i] == '%' {
            let ghost u = v@.subrange(i + 1, n as int);
            let mut bad = false;
            if i + 1 < n && v[i + 1] != '%' && (v[i + 1] as u32) >= 0x800 {
                bad = true;
            }
            if n - i > 2 && v[i + 1] != '%' && v[i + 2] != '%' && (v[i + 1] as u32) < 0x80 && (v[i + 2] as u32) >= 0x80 {
                bad = true;
            }
            proof {
                if u.len() >= 1 {
                    assert(u[0] == v@[i + 1]);
                }
                if u.len() >= 2 {
                    assert(u[1] == v@[i + 2]);
                }
            }
            if bad {
                assert(!part_ok(v@.subrange(i + 1, n as int)));
                return false;
            }
        }
        i = i + 1;
    }
    true
}

/// URL-decodes a text.
pub fn url_decode(text: &str) -> (r: String)
    requires
        decodable(text@),
    ensures
        r@ == url_decoded(text@),
{
    let v = chars_of(text);
    let n = v.len();
    let mut r = String::new();
    let mut i: usize = 0;
    assert(v@.subrange(0, n as int) =~= v@);
    while i < n
        invariant
            i <= n,
            n == v.len(),
            v@ == text@,
            r@ + url_decoded(v@.subrange(i as int, n as int)) == url_decoded(v@),
        decreases n - i,
    {
        let c = v[i];
        let ghost before = r@;
        let ghost rest = v@.subrange(i as int, n as int);
        assert(rest[0] == c);
        assert(rest.subrange(1, rest.len() as int) =~= v@.subrange(i + 1, n as int));
        if c == '%' {
            let ghost u = v@.subrange(i + 1, n as int);
            let hi = if n - i > 2 { hex_value_exec(v[i + 1]) } else { None };
            let lo = if n - i > 2 { hex_value_exec(v[i + 2]) } else { None };
            if hi.is_some() && lo.is_some() {
                let h = hi.unwrap();
                let l = lo.unwrap();
                assert(u[0] == v@[i + 1] && u[1] == v@[i + 2]);
                let ch = ((16 * h + l) as u8) as char;
                push_char(&mut r, ch);
                assert(u.subrange(2, u.len() as int) =~= v@.subrange(i + 3, n as int));
                assert(url_decoded(rest) == after_percent(u));
                assert(after_percent(u) == seq![ch] + url_decoded(v@.subrange(i + 3, n as int)));
                assert(r@ + url_decoded(v@.subrange(i + 3, n as int)) =~= before + url_decoded(rest));
                i = i + 3;
            } else {
                assert(!(u.len() >= 2 && hex_value(u[0]) is Some && hex_value(u[1]) is Some)) by {
                    if u.len() >= 2 {
                        assert(u[0] == v@[i + 1] && u[1] == v@[i + 2]);
                    }
                }
                let mut j: usize = i + 1;
                while j < n && v[j] != '%'
                    invariant
                        i < j <= n,
                        n == v.len(),
                        skip_part(v@.subrange(j as int, n as int)) == skip_part(u),
                        u == v@.subrange(i + 1, n as int),
                    decreases n - j,
                {
                    assert(v@.subrange(j as int, n as int).subrange(1, (n - j) as int) =~= v@.subrange(j + 1, n as int));
                    j = j + 1;
                }
                proof {
                    assert(url_decoded(rest) == after_percent(u));
                    assert(after_percent(u) == skip_part(u));
                    if j < n {
                        let w = v@.subrange(j as int, n as int);
                        assert(w[0] == '%');
                        assert(w.subrange(1, w.len() as int) =~= v@.subrange(j + 1, n as int));
                        assert(url_decoded(w) == skip_part(w));
                    } else {
                        assert(v@.subrange(j as int, n as int) =~= Seq::<char>::empty());
                    }
                    assert(url_decoded(rest) == url_decoded(v@.subrange(j as int, n as int)));
                }
                i = j;
            }
        } else {
            push_char(&mut r, if c == '+' { ' ' } else { c });
            assert(r@ =~= before + seq![if c == '+' { ' ' } else { c }]);
            assert(url_decoded(rest) == seq![if c == '+' { ' ' } else { c }] + url_decoded(v@.subrange(i + 1, n as int)));
            assert(r@ + url_decoded(v@.subrange(i + 1, n as int)) =~= before + url_decoded(rest));
            i = i + 1;
        }
    }
    assert(v@.subrange(n as int, n as int) =~= Seq::<char>::empty());
    assert(r@ + Seq::<char>::empty() =~= r@);
    r
}

/// Decoding the encoding of one character with a code below 256 gives the
/// character back, followed by the decoding of what comes after.
proof fn lemma_decode_piece(c: char, e: Seq<char>)
    requires
        (c as u32) < 256,
    ensures
        url_decoded(encode_char(c) + e) == seq![c] + url_decoded(e),
{
    let t = encode_char(c) + e;
    if unreserved(c) || c == ' ' {
        assert(t[0] == encode_char(c)[0]);
        assert(t.subrange(1, t.len() as int) =~= e);
    } else {
        let b = low_byte(c);
        lemma_hex_round_trip(b / 16);
        lemma_hex_round_trip(b % 16);
        let u = t.subrange(1, t.len() as int);
        assert(t[0] == '%');
        assert(u[0] == hex_digit(b / 16));
        assert(u[1] == hex_digit(b % 16));
        assert(u.subrange(2, u.len() as int) =~= e);
        assert(url_decoded(t) == after_percent(u));
        assert(16 * (b / 16) + b % 16 == b);
        assert(b == c as u32);
        assert(((c as u32) as u8) as char == c);
        assert((b as u8) == ((c as u32) as u8));
        assert(after_percent(u) == seq![c] + url_decoded(e));
    }
}

/// Every `%` of the text is followed by two hex digits.
pub open spec fn percents_ok(t: Seq<char>) -> bool {
    forall|i: int| 0 <= i < t.len() && #[trigger] t[i] == '%' ==>
        i + 2 < t.len() && hex_value(t[i + 1]) is Some && hex_value(t[i + 2]) is Some
}

proof fn lemma_piece_percents(c: char)
    ensures
        percents_ok(encode_char(c)),
{
    if !unreserved(c) && c != ' ' {
        lemma_hex_round_trip(low_byte(c) / 16);
        lemma_hex_round_trip(low_byte(c) % 16);
        let h = encode_char(c);
        assert(h[1] == hex_digit(low_byte(c) / 16));
        assert(h[2] == hex_digit(low_byte(c) % 16));
        assert(hex_digit(low_byte(c) / 16) != '%');
        assert(hex_digit(low_byte(c) % 16) != '%');
    }
}

proof fn lemma_concat_percents(a: Seq<char>, b: Seq<char>)
    requires
        percents_ok(a),
        percents_ok(b),
    ensures
        percents_ok(a + b),
{
    let t = a + b;
    assert forall|i: int| 0 <= i < t.len() && #[trigger] t[i] == '%' implies
        i + 2 < t.len() && hex_value(t[i + 1]) is Some && hex_value(t[i + 2]) is Some by {
        if i >= a.len() {
            let k = i - a.len();
            assert(t[i] == b[k]);
            assert(t[i + 1] == b[k + 1]);
            assert(t[i + 2] == b[k + 2]);
        } else {
            assert(t[i] == a[i]);
            assert(t[i + 1] == a[i + 1]);
            assert(t[i + 2] == a[i + 2]);
        }
    }
}

/// In an encoding, every `%` is followed by two hex digits.
proof fn lemma_encoded_percents(s: Seq<char>)
    ensures
        percents_ok(url_encoded(s)),
    decreases s.len(),
{
    if s.len() > 0 {
        let rest = s.subrange(1, s.len() as int);
        lemma_encoded_percents(rest);
        lemma_piece_percents(s[0]);
        lemma_concat_percents(encode_char(s[0]), url_encoded(rest));
    }
}

/// A text in which every `%` is followed by two hex digits can be decoded.
proof fn lemma_percents_decodable(t: Seq<char>)
    requires
        percents_ok(t),
    ensures
        decodable(t),
{
    assert forall|i: int| 0 <= i < t.len() && t[i] == '%' implies part_ok(#[trigger] t.subrange(i + 1, t.len() as int)) by {
        let u = t.subrange(i + 1, t.len() as int);
        assert(t[i] == '%');
        assert(u[0] == t[i + 1]);
        assert(u[1] == t[i + 2]);
    }
}

/// Decoding undoes encoding for every text whose characters all have codes
/// below 256, and an encoding can always be decoded.
pub proof fn lemma_decode_encode(s: Seq<char>)
    requires
        forall|i: int| 0 <= i < s.len() ==> (#[trigger] s[i] as u32) < 256,
    ensures
        decodable(url_encoded(s)),
        url_decoded(url_encoded(s)) == s,
    decreases s.len(),
{
    lemma_encoded_percents(s);
    lemma_percents_decodable(url_encoded(s));
    if s.len() > 0 {
        let c = s[0];
        let rest = s.subrange(1, s.len() as int);
        assert forall|i: int| 0 <= i < rest.len() implies (#[trigger] rest[i] as u32) < 256 by {
            assert(rest[i] == s[i + 1]);
        }
        lemma_decode_encode(rest);
        assert((c as u32) < 256);
        lemma_decode_piece(c, url_encoded(rest));
        assert(seq![c] + rest =~= s);
    }
}

proof fn lemma_hex_round_trip(v: nat)
    requires
        v < 16,
    ensures
        hex_value(hex_digit(v)) == Some(v),
        hex_digit(v) != '%',
{
    if v < 10 {
        assert(((v + 48) as u8) as char as u32 == v + 48);
    } else {
        assert(((v + 55) as u8) as char as u32 == v + 55);
    }
}

/// Hex digits are read in either case: the upper-case digit that the
/// encoder writes and the lower-case digit of the same value both read as
/// that value, and nothing else reads as a value.
pub proof fn lemma_hex_value_either_case(c: char, v: nat)
    requires
        v < 16,
    ensures
        hex_value(hex_digit(v)) == Some(v),
        hex_value(hex_lower(v)) == Some(v),
        hex_value(c) == Some(v) <==> (c == hex_digit(v) || c == hex_lower(v)),
{
    lemma_hex_round_trip(v);
    if v < 10 {
        assert(((v + 48) as u8) as char as u32 == v + 48);
    } else {
        assert(((v + 87) as u8) as char as u32 == v + 87);
        assert(((v + 55) as u8) as char as u32 == v + 55);
    }
    if hex_value(c) == Some(v) {
        if v < 10 {
            assert(c as u32 == v + 48);
            assert(((v + 48) as u8) as char as u32 == v + 48);
        } else if 'a' <= c && c <= 'f' {
            assert(c as u32 == v + 87);
            assert(((v + 87) as u8) as char as u32 == v + 87);
        } else {
            assert(c as u32 == v + 55);
            assert(((v + 55) as u8) as char as u32 == v + 55);
        }
    }
}

/// A `%` followed by two hex digits, each of either case, decodes to the
/// character whose code is the byte they spell.
pub proof fn lemma_decode_escape(b: nat, h: char, l: char)
    requires
        b < 256,
        h == hex_digit(b / 16) || h == hex_lower(b / 16),
        l == hex_digit(b % 16) || l == hex_lower(b % 16),
    ensures
        url_decoded(seq!['%', h, l]) == seq![(b as u8) as char],
{
    lemma_hex_value_either_case(h, b / 16);
    lemma_hex_value_either_case(l, b % 16);
    let t = seq!['%', h, l];
    let u = t.subrange(1, 3);
    assert(u[0] == h && u[1] == l);
    assert(u.subrange(2, 2) =~= Seq::<char>::empty());
    assert(16 * (b / 16) + b % 16 == b);
    assert(url_decoded(t) == after_percent(u));
    assert(after_percent(u) =~= seq![(b as u8) as char] + url_decoded(Seq::<char>::empty()));
}

} // verus!
