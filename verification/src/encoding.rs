//! Base64 (RFC 4648, standard alphabet, padded), as the `base64` crate's
//! `STANDARD` engine encodes and decodes it.
use vstd::prelude::*;
use base64::Engine;

verus! {

/// The character of the standard Base64 alphabet for the 6-bit value `v`.
pub open spec fn b64_char(v: int) -> char {
    if v < 26 {
        ('A' as int + v) as char
    } else if v < 52 {
        ('a' as int + (v - 26)) as char
    } else if v < 62 {
        ('0' as int + (v - 52)) as char
    } else if v == 62 {
        '+'
    } else {
        '/'
    }
}

/// The padded standard Base64 text of `b`: every three bytes give four
/// characters; a final group of one or two bytes is padded with `=`.
pub open spec fn base64_text(b: Seq<u8>) -> Seq<char>
    decreases b.len(),
{
    if b.len() == 0 {
        seq![]
    } else if b.len() == 1 {
        let x = b[0] as int;
        seq![b64_char(x / 4), b64_char((x % 4) * 16), '=', '=']
    } else if b.len() == 2 {
        let (x, y) = (b[0] as int, b[1] as int);
        seq![b64_char(x / 4), b64_char((x % 4) * 16 + y / 16), b64_char((y % 16) * 4), '=']
    } else {
        let (x, y, z) = (b[0] as int, b[1] as int, b[2] as int);
        seq![
            b64_char(x / 4),
            b64_char((x % 4) * 16 + y / 16),
            b64_char((y % 16) * 4 + z / 64),
            b64_char(z % 64),
        ] + base64_text(b.skip(3))
    }
}

/// The message of the `base64::DecodeError` that decoding `s` gives.
pub uninterp spec fn base64_decode_error(s: Seq<char>) -> Seq<char>;

/// Encodes bytes as padded standard Base64 (`STANDARD.encode`). The crate
/// panics when the length of the text would not fit in `usize`; the
/// `requires` leaves those inputs out.
#[verifier::external_body]
pub(crate) fn base64_encode(data: &[u8]) -> (text: String)
    requires
        data@.len() / 3 * 4 + 4 <= usize::MAX,
    ensures
        text@ == base64_text(data@),
{
    base64::engine::general_purpose::STANDARD.encode(data)
}

/// Decodes padded standard Base64 (`STANDARD.decode`). The engine requires
/// canonical padding and zero trailing bits, so it accepts exactly the texts
/// that encoding gives, and gives back the bytes they encode. On failure the
/// contract names the error's message and says no more of it.
#[verifier::external_body]
pub(crate) fn base64_decode(text: &str) -> (res: Result<Vec<u8>, String>)
    ensures
        match res {
            Ok(b) => base64_text(b@) == text@,
            Err(e) => e@ == base64_decode_error(text@) && forall|b: Seq<u8>|
                #[trigger] base64_text(b) != text@,
        },
{
    match base64::engine::general_purpose::STANDARD.decode(text) {
        Ok(b) => Ok(b),
        Err(e) => Err(e.to_string()),
    }
}

proof fn lemma_b64_char_injective(x: int, y: int)
    requires
        0 <= x < 64,
        0 <= y < 64,
        b64_char(x) == b64_char(y),
    ensures
        x == y,
{
}

proof fn lemma_b64_char_not_pad(x: int)
    requires
        0 <= x < 64,
    ensures
        b64_char(x) != '=',
{
}

/// The length of the Base64 text: four characters per started group of
/// three bytes.
pub proof fn lemma_base64_len(b: Seq<u8>)
    ensures
        base64_text(b).len() == (b.len() + 2) / 3 * 4,
    decreases b.len(),
{
    if b.len() >= 3 {
        lemma_base64_len(b.skip(3));
    }
}

/// Base64 encoding is injective: two byte strings with the same text are
/// equal, so decoding gives back exactly the bytes that were encoded.
pub proof fn lemma_base64_injective(a: Seq<u8>, b: Seq<u8>)
    requires
        base64_text(a) == base64_text(b),
    ensures
        a == b,
    decreases a.len(),
{
    lemma_base64_len(a);
    lemma_base64_len(b);
    let ta = base64_text(a);
    if a.len() == 0 {
        if b.len() > 0 {
            assert(ta.len() == 0);
        }
        assert(a =~= b);
    } else {
        assert(b.len() > 0);
        let (a0, b0) = (a[0] as int, b[0] as int);
        assert(ta[0] == b64_char(a0 / 4) && ta[0] == b64_char(b0 / 4));
        lemma_b64_char_injective(a0 / 4, b0 / 4);
        if a.len() == 1 || b.len() == 1 {
            // one of them ends with "==" at positions 2, 3
            if a.len() != b.len() {
                if a.len() == 1 {
                    if b.len() == 2 {
                        lemma_b64_char_not_pad((b[1] as int % 16) * 4);
                    } else {
                        lemma_b64_char_not_pad((b[1] as int % 16) * 4 + b[2] as int / 64);
                    }
                } else {
                    if a.len() == 2 {
                        lemma_b64_char_not_pad((a[1] as int % 16) * 4);
                    } else {
                        lemma_b64_char_not_pad((a[1] as int % 16) * 4 + a[2] as int / 64);
                    }
                }
            }
            assert(a.len() == b.len());
            lemma_b64_char_injective((a0 % 4) * 16, (b0 % 4) * 16);
            assert(a0 == b0);
            assert(a =~= b);
        } else {
            let (a1, b1) = (a[1] as int, b[1] as int);
            assert(ta[1] == b64_char((a0 % 4) * 16 + a1 / 16));
            assert(base64_text(b)[1] == b64_char((b0 % 4) * 16 + b1 / 16));
            lemma_b64_char_injective((a0 % 4) * 16 + a1 / 16, (b0 % 4) * 16 + b1 / 16);
            assert(a0 % 4 == b0 % 4 && a1 / 16 == b1 / 16);
            assert(a0 == b0);
            if a.len() == 2 || b.len() == 2 {
                if a.len() != b.len() {
                    if a.len() == 2 {
                        lemma_b64_char_not_pad(b[2] as int % 64);
                    } else {
                        lemma_b64_char_not_pad(a[2] as int % 64);
                    }
                }
                assert(a.len() == b.len());
                lemma_b64_char_injective((a1 % 16) * 4, (b1 % 16) * 4);
                assert(a1 == b1);
                assert(a =~= b);
            } else {
                let (a2, b2) = (a[2] as int, b[2] as int);
                assert(ta[2] == b64_char((a1 % 16) * 4 + a2 / 64));
                assert(base64_text(b)[2] == b64_char((b1 % 16) * 4 + b2 / 64));
                assert(ta[3] == b64_char(a2 % 64));
                assert(base64_text(b)[3] == b64_char(b2 % 64));
                lemma_b64_char_injective((a1 % 16) * 4 + a2 / 64, (b1 % 16) * 4 + b2 / 64);
                lemma_b64_char_injective(a2 % 64, b2 % 64);
                assert(a1 == b1);
                assert(a2 == b2);
                let ra = base64_text(a.skip(3));
                let rb = base64_text(b.skip(3));
                assert(ta == seq![ta[0], ta[1], ta[2], ta[3]] + ra);
                assert(ra =~= ta.skip(4));
                assert(rb =~= base64_text(b).skip(4));
                lemma_base64_injective(a.skip(3), b.skip(3));
                assert(a =~= seq![a[0], a[1], a[2]] + a.skip(3));
                assert(b =~= seq![b[0], b[1], b[2]] + b.skip(3));
            }
        }
    }
}


/// The bytes whose Base64 text is `t`, if there are any (there is at most
/// one such byte string).
pub open spec fn base64_decoding(t: Seq<char>) -> Option<Seq<u8>> {
    if exists|b: Seq<u8>| #[trigger] base64_text(b) == t {
        Some(choose|b: Seq<u8>| #[trigger] base64_text(b) == t)
    } else {
        None
    }
}

/// Decodes Base64 text: the bytes it encodes, or the decoder's message when
/// it is not the Base64 text of any bytes.
pub fn decode_base64(text: &str) -> (r: Result<Vec<u8>, String>)
    ensures
        match r {
            Ok(b) => base64_decoding(text@) == Some(b@),
            Err(e) => base64_decoding(text@) is None && e@ == base64_decode_error(text@),
        },
{
    let r = base64_decode(text);
    match &r {
        Ok(b) => {
            proof {
                let c = choose|c: Seq<u8>| #[trigger] base64_text(c) == text@;
                assert(base64_text(b@) == text@);
                lemma_base64_injective(c, b@);
            }
        },
        Err(_) => {},
    }
    r
}

/// Decoding the Base64 text of bytes gives back those bytes.
pub proof fn lemma_decoding_roundtrip(b: Seq<u8>)
    ensures
        base64_decoding(base64_text(b)) == Some(b),
{
    let t = base64_text(b);
    assert(base64_text(b) == t);
    let c = choose|c: Seq<u8>| #[trigger] base64_text(c) == t;
    lemma_base64_injective(c, b);
}

} // verus!
