//! The `_CRYPTO` operations that work on text: the SHA-256 hash in hex, and
//! the demonstration "RSA" cipher (a repeating-key XOR, carried as base64).
use vstd::prelude::*;
use vstd::string::StringExecFns;
use vstd::utf8::{decode_utf8, encode_utf8, valid_utf8};
use base64::Engine;
use sha2::Digest;
use crate::text::push_char;

verus! {

// ---------------------------------------------------------------------
// Outside code: SHA-256 (sha2), base64 (base64) and UTF-8 decoding (std).

/// The SHA-256 digest of the bytes, as `sha2` computes it.
pub uninterp spec fn sha256_digest(data: Seq<u8>) -> Seq<u8>;

/// `sha2::Sha256` over `data`: the digest is named `sha256_digest`; as the
/// algorithm defines, it is 32 bytes long. The compression function is not
/// restated.
#[verifier::external_body]
fn sha256(data: &[u8]) -> (r: Vec<u8>)
    ensures
        r@ == sha256_digest(data@),
        r@.len() == 32,
{
    let mut hasher = sha2::Sha256::new();
    hasher.update(data);
    hasher.finalize().to_vec()
}

/// The character of the standard base64 alphabet for a 6-bit value.
pub open spec fn b64_char(v: nat) -> char {
    if v < 26 {
        ((v + 65) as u8) as char
    } else if v < 52 {
        ((v + 71) as u8) as char
    } else if v < 62 {
        ((v - 4) as u8) as char
    } else if v == 62 {
        '+'
    } else {
        '/'
    }
}

/// Standard base64 with `=` padding (RFC 4648): every three bytes become
/// four characters, a last group of one or two bytes is padded.
pub open spec fn b64_encode(d: Seq<u8>) -> Seq<char>
    decreases d.len(),
{
    if d.len() == 0 {
        Seq::empty()
    } else if d.len() == 1 {
        seq![b64_char((d[0] / 4) as nat), b64_char(((d[0] % 4) * 16) as nat), '=', '=']
    } else if d.len() == 2 {
        seq![
            b64_char((d[0] / 4) as nat),
            b64_char(((d[0] % 4) * 16 + d[1] / 16) as nat),
            b64_char(((d[1] % 16) * 4) as nat),
            '=',
        ]
    } else {
        seq![
            b64_char((d[0] / 4) as nat),
            b64_char(((d[0] % 4) * 16 + d[1] / 16) as nat),
            b64_char(((d[1] % 16) * 4 + d[2] / 64) as nat),
            b64_char((d[2] % 64) as nat),
        ] + b64_encode(d.subrange(3, d.len() as int))
    }
}

/// The message of the error `base64` reports for text it cannot decode.
pub uninterp spec fn base64_error_text(text: Seq<char>) -> Seq<char>;

/// `STANDARD.encode` of the `base64` crate: standard alphabet with
/// padding, as `b64_encode` states.
#[verifier::external_body]
fn base64_encode(data: &[u8]) -> (r: String)
    requires
        data@.len() <= usize::MAX / 2,
    ensures
        r@ == b64_encode(data@),
{
    base64::engine::general_purpose::STANDARD.encode(data)
}

/// `STANDARD.decode` of the `base64` crate, which requires canonical
/// padding and zero trailing bits: it accepts exactly the encodings of byte
/// strings and gives back bytes whose encoding is the text. Its error's
/// message is named `base64_error_text`; the text of each kind of error is
/// not restated.
#[verifier::external_body]
fn base64_decode(text: &str) -> (r: Result<Vec<u8>, String>)
    ensures
        match r {
            Ok(v) => b64_encode(v@) == text@,
            Err(m) => m@ == base64_error_text(text@) && forall|x: Seq<u8>| #[trigger] b64_encode(x) != text@,
        },
{
    match base64::engine::general_purpose::STANDARD.decode(text) {
        Ok(v) => Ok(v),
        Err(e) => Err(e.to_string()),
    }
}

/// The message of the error `String::from_utf8` reports for invalid bytes.
pub uninterp spec fn utf8_error_text(bytes: Seq<u8>) -> Seq<char>;

/// `String::from_utf8`: succeeds exactly on valid UTF-8 and gives the text
/// it encodes; the message of its error is named `utf8_error_text`.
#[verifier::external_body]
fn string_from_utf8(bytes: Vec<u8>) -> (r: Result<String, String>)
    ensures
        match r {
            Ok(s) => valid_utf8(bytes@) && s@ == decode_utf8(bytes@),
            Err(m) => !valid_utf8(bytes@) && m@ == utf8_error_text(bytes@),
        },
{
    match String::from_utf8(bytes) {
        Ok(s) => Ok(s),
        Err(e) => Err(e.to_string()),
    }
}

// ---------------------------------------------------------------------
// The hash.

/// The lower-case hex digit of `v < 16`.
pub open spec fn hex_lower(v: nat) -> char {
    if v < 10 {
        ((v + 48) as u8) as char
    } else {
        ((v + 87) as u8) as char
    }
}

/// Each byte as two lower-case hex digits.
pub open spec fn hex_text(bytes: Seq<u8>) -> Seq<char>
    decreases bytes.len(),
{
    if bytes.len() == 0 {
        Seq::empty()
    } else {
        hex_text(bytes.drop_last()) + seq![hex_lower((bytes.last() / 16) as nat), hex_lower((bytes.last() % 16) as nat)]
    }
}

fn hex_lower_exec(v: u8) -> (c: char)
    requires
        v < 16,
    ensures
        c == hex_lower(v as nat),
{
    if v < 10 {
        ((v + 48) as u8) as char
    } else {
        ((v + 87) as u8) as char
    }
}

/// The SHA-256 hash of the text's UTF-8 bytes, in lower-case hex.
pub fn hash_text(text: &str) -> (r: String)
    ensures
        r@ == hex_text(sha256_digest(encode_utf8(text@))),
{
    let digest = sha256(text.as_bytes());
    let mut r = String::new();
    let mut i: usize = 0;
    assert(digest@.take(0) =~= Seq::<u8>::empty());
    while i < digest.len()
        invariant
            i <= digest.len(),
            r@ == hex_text(digest@.take(i as int)),
        decreases digest.len() - i,
    {
        let b = digest[i];
        assert(digest@.take(i + 1).drop_last() =~= digest@.take(i as int));
        push_char(&mut r, hex_lower_exec(b / 16));
        push_char(&mut r, hex_lower_exec(b % 16));
        i = i + 1;
    }
    assert(digest@.take(digest.len() as int) =~= digest@);
    r
}

// ---------------------------------------------------------------------
// The demonstration cipher.

/// The bytes of `RSA_PLACEHOLDER_KEY_FOR_DEMO`.
pub open spec fn demo_key() -> Seq<u8> {
    seq![82u8, 83, 65, 95, 80, 76, 65, 67, 69, 72, 79, 76, 68, 69, 82, 95, 75, 69, 89, 95, 70, 79, 82, 95, 68, 69, 77, 79]
}

/// Each byte XOR-ed with the key byte at its position, the key repeating.
pub open spec fn xor_with_key(bytes: Seq<u8>) -> Seq<u8> {
    Seq::new(bytes.len(), |i: int| bytes[i] ^ demo_key()[i % 28])
}

fn xor_bytes(bytes: &[u8]) -> (r: Vec<u8>)
    ensures
        r@ == xor_with_key(bytes@),
{
    let key: Vec<u8> = vec![82u8, 83, 65, 95, 80, 76, 65, 67, 69, 72, 79, 76, 68, 69, 82, 95, 75, 69, 89, 95, 70, 79, 82, 95, 68, 69, 77, 79];
    assert(key@ =~= demo_key());
    let mut r: Vec<u8> = Vec::new();
    let mut i: usize = 0;
    while i < bytes.len()
        invariant
            i <= bytes.len(),
            key@ == demo_key(),
            r@ == xor_with_key(bytes@).take(i as int),
        decreases bytes.len() - i,
    {
        r.push(bytes[i] ^ key[i % 28]);
        assert(r@ =~= xor_with_key(bytes@).take(i + 1));
        i = i + 1;
    }
    assert(xor_with_key(bytes@).take(bytes.len() as int) =~= xor_with_key(bytes@));
    r
}

/// What `rsa_encrypt` gives for a text: its UTF-8 bytes XOR-ed with the
/// key, in base64.
pub open spec fn rsa_encrypted(text: Seq<char>) -> Seq<char> {
    b64_encode(xor_with_key(encode_utf8(text)))
}

/// What `rsa_decrypt` gives for a text: when it is base64, the decoded
/// bytes XOR-ed with the key, read as UTF-8.
pub open spec fn rsa_decrypted(encrypted: Seq<char>) -> Result<Seq<char>, Seq<char>> {
    if exists|x: Seq<u8>| #[trigger] b64_encode(x) == encrypted {
        let x = choose|x: Seq<u8>| #[trigger] b64_encode(x) == encrypted;
        let y = xor_with_key(x);
        if valid_utf8(y) {
            Ok(decode_utf8(y))
        } else {
            Err("Invalid UTF-8: "@ + utf8_error_text(y))
        }
    } else {
        Err("Invalid base64 input: "@ + base64_error_text(encrypted))
    }
}

/// The demonstration "RSA" encryption: the text's bytes XOR-ed with a fixed
/// key, in base64. The key argument is not used.
pub fn rsa_encrypt(text: &str, public_key: &str) -> (r: String)
    requires
        encode_utf8(text@).len() <= usize::MAX / 2,
    ensures
        r@ == rsa_encrypted(text@),
{
    let encrypted = xor_bytes(text.as_bytes());
    base64_encode(encrypted.as_slice())
}

/// The demonstration "RSA" decryption: base64-decodes the text, XORs the
/// bytes with the fixed key and reads them as UTF-8. The key argument is
/// not used.
pub fn rsa_decrypt(encrypted: &str, private_key: &str) -> (r: Result<String, String>)
    ensures
        match r {
            Ok(s) => rsa_decrypted(encrypted@) == Ok::<Seq<char>, Seq<char>>(s@),
            Err(m) => rsa_decrypted(encrypted@) == Err::<Seq<char>, Seq<char>>(m@),
        },
{
    let ciphertext = match base64_decode(encrypted) {
        Ok(v) => v,
        Err(e) => {
            let mut m = String::from_str("Invalid base64 input: ");
            m.append(e.as_str());
            proof {
                assert(!(exists|x: Seq<u8>| #[trigger] b64_encode(x) == encrypted@));
            }
            return Err(m);
        },
    };
    proof {
        assert(b64_encode(ciphertext@) == encrypted@);
        let x = choose|x: Seq<u8>| #[trigger] b64_encode(x) == encrypted@;
        lemma_b64_injective(x, ciphertext@);
    }
    let decrypted = xor_bytes(ciphertext.as_slice());
    match string_from_utf8(decrypted) {
        Ok(s) => Ok(s),
        Err(e) => {
            let mut m = String::from_str("Invalid UTF-8: ");
            m.append(e.as_str());
            Err(m)
        },
    }
}

/// XOR-ing with the key twice gives the bytes back.
pub proof fn lemma_xor_twice(bytes: Seq<u8>)
    ensures
        xor_with_key(xor_with_key(bytes)) == bytes,
{
    assert forall|i: int| 0 <= i < bytes.len() implies #[trigger] xor_with_key(xor_with_key(bytes))[i] == bytes[i] by {
        let b = bytes[i];
        let k = demo_key()[i % 28];
        assert((b ^ k) ^ k == b) by (bit_vector);
    }
    assert(xor_with_key(xor_with_key(bytes)) =~= bytes);
}

/// Decrypting what was encrypted gives the text back, whatever keys are
/// passed.
pub proof fn lemma_rsa_round_trip(text: Seq<char>)
    ensures
        rsa_decrypted(rsa_encrypted(text)) == Ok::<Seq<char>, Seq<char>>(text),
{
    let bytes = encode_utf8(text);
    let x = xor_with_key(bytes);
    let e = b64_encode(x);
    assert(b64_encode(x) == e);
    let chosen = choose|y: Seq<u8>| #[trigger] b64_encode(y) == e;
    lemma_b64_injective(chosen, x);
    lemma_xor_twice(bytes);
    vstd::utf8::encode_utf8_valid_utf8(text);
    vstd::utf8::encode_utf8_decode_utf8(text);
}

/// Different 6-bit values have different characters, none of them `=`.
proof fn lemma_b64_char(v: nat, w: nat)
    requires
        v < 64,
        w < 64,
    ensures
        (b64_char(v) == b64_char(w)) == (v == w),
        b64_char(v) != '=',
{
    assert(b64_char(v) as u32 == b64_code(v));
    assert(b64_char(w) as u32 == b64_code(w));
}

/// The code of the base64 character of a 6-bit value.
spec fn b64_code(v: nat) -> nat {
    if v < 26 {
        v + 65
    } else if v < 52 {
        v + 71
    } else if v < 62 {
        (v - 4) as nat
    } else if v == 62 {
        43
    } else {
        47
    }
}

/// The first group of four characters of an encoding.
proof fn lemma_b64_group(d: Seq<u8>)
    requires
        d.len() >= 1,
    ensures
        b64_encode(d).len() >= 4,
        b64_encode(d)[0] == b64_char(d[0] as nat / 4),
        b64_encode(d)[1] == b64_char((d[0] as nat % 4) * 16 + (if d.len() >= 2 { d[1] as nat / 16 } else { 0 })),
        b64_encode(d)[2] == (if d.len() == 1 { '=' } else {
            b64_char((d[1] as nat % 16) * 4 + (if d.len() >= 3 { d[2] as nat / 64 } else { 0 }))
        }),
        b64_encode(d)[3] == (if d.len() <= 2 { '=' } else { b64_char(d[2] as nat % 64) }),
        d.len() >= 3 ==> b64_encode(d).subrange(4, b64_encode(d).len() as int) == b64_encode(d.subrange(3, d.len() as int)),
        d.len() <= 2 ==> b64_encode(d).len() == 4,
{
    let e = b64_encode(d);
    if d.len() >= 3 {
        let g = seq![
            b64_char((d[0] / 4) as nat),
            b64_char(((d[0] % 4) * 16 + d[1] / 16) as nat),
            b64_char(((d[1] % 16) * 4 + d[2] / 64) as nat),
            b64_char((d[2] % 64) as nat),
        ];
        assert(e == g + b64_encode(d.subrange(3, d.len() as int)));
        assert(e.subrange(4, e.len() as int) =~= b64_encode(d.subrange(3, d.len() as int)));
    }
}

/// Different byte strings have different encodings.
pub proof fn lemma_b64_injective(a: Seq<u8>, b: Seq<u8>)
    requires
        b64_encode(a) == b64_encode(b),
    ensures
        a == b,
    decreases a.len(),
{
    let e = b64_encode(a);
    if a.len() == 0 || b.len() == 0 {
        if a.len() > 0 {
            lemma_b64_group(a);
        }
        if b.len() > 0 {
            lemma_b64_group(b);
        }
        assert(a =~= b);
    } else {
        lemma_b64_group(a);
        lemma_b64_group(b);
        let (a0, b0) = (a[0] as nat, b[0] as nat);
        lemma_b64_char(a0 / 4, b0 / 4);
        let a1 = if a.len() >= 2 { a[1] as nat } else { 0 };
        let b1 = if b.len() >= 2 { b[1] as nat } else { 0 };
        let a2 = if a.len() >= 3 { a[2] as nat } else { 0 };
        let b2 = if b.len() >= 3 { b[2] as nat } else { 0 };
        lemma_b64_char((a0 % 4) * 16 + a1 / 16, (b0 % 4) * 16 + b1 / 16);
        lemma_b64_char((a1 % 16) * 4 + a2 / 64, (b1 % 16) * 4 + b2 / 64);
        lemma_b64_char(a2 % 64, b2 % 64);
        assert(a0 == b0);
        assert(a.len() == 1 <==> b.len() == 1);
        assert(a.len() <= 2 <==> b.len() <= 2);
        if a.len() <= 2 {
            assert(a =~= b);
        } else {
            assert(a1 == b1 && a2 == b2);
            let ra = a.subrange(3, a.len() as int);
            let rb = b.subrange(3, b.len() as int);
            lemma_b64_injective(ra, rb);
            assert(a =~= seq![a[0], a[1], a[2]] + ra);
            assert(b =~= seq![b[0], b[1], b[2]] + rb);
        }
    }
}

} // verus!
