//! Base64 (RFC 4648, standard alphabet with padding) and percent-encoding.

use crate::text::is_white_space;
use vstd::prelude::*;
use vstd::utf8::encode_utf8;

verus! {

// ---------------------------------------------------------------------------
// Base64
// ---------------------------------------------------------------------------
/// The character of a six-bit value.
pub open spec fn base64_char(v: int) -> char {
    if v < 26 {
        (65 + v) as char
    } else if v < 52 {
        (97 + (v - 26)) as char
    } else if v < 62 {
        (48 + (v - 52)) as char
    } else if v == 62 {
        '+'
    } else {
        '/'
    }
}

/// The Base64 text of some bytes: four characters for every three bytes, the
/// last group filled up with `=`.
pub open spec fn base64_text(data: Seq<u8>) -> Seq<char>
    decreases data.len(),
{
    if data.len() == 0 {
        Seq::empty()
    } else if data.len() == 1 {
        seq![base64_char(data[0] as int / 4), base64_char((data[0] % 4) * 16), '=', '=']
    } else if data.len() == 2 {
        seq![
            base64_char(data[0] as int / 4),
            base64_char((data[0] % 4) * 16 + data[1] / 16),
            base64_char((data[1] % 16) * 4),
            '=',
        ]
    } else {
        seq![
            base64_char(data[0] as int / 4),
            base64_char((data[0] % 4) * 16 + data[1] / 16),
            base64_char((data[1] % 16) * 4 + data[2] / 64),
            base64_char(data[2] as int % 64),
        ] + base64_text(data.skip(3))
    }
}

fn base64_digit(v: u8) -> (c: char)
    requires
        v < 64,
    ensures
        c == base64_char(v as int),
{
    if v < 26 {
        (65 + v) as char
    } else if v < 52 {
        (97 + (v - 26)) as char
    } else if v < 62 {
        (48 + (v - 52)) as char
    } else if v == 62 {
        '+'
    } else {
        '/'
    }
}

/// Encodes bytes as Base64.
pub fn base64_encode(data: &[u8]) -> (r: String)
    ensures
        r@ == base64_text(data@),
{
    let mut result = String::new();
    let mut i: usize = 0;
    proof {
        assert(data@.skip(0) =~= data@);
        assert(result@ + base64_text(data@) =~= base64_text(data@));
    }
    while data.len() - i >= 3
        invariant
            i <= data.len(),
            base64_text(data@) == result@ + base64_text(data@.skip(i as int)),
        decreases data.len() - i,
    {
        let ghost before = result@;
        let ghost rest = data@.skip(i as int);
        let b0: u8 = data[i];
        let b1: u8 = data[i + 1];
        let b2: u8 = data[i + 2];
        result.push(base64_digit(b0 / 4));
        result.push(base64_digit((b0 % 4) * 16 + b1 / 16));
        result.push(base64_digit((b1 % 16) * 4 + b2 / 64));
        result.push(base64_digit(b2 % 64));
        proof {
            assert(rest.skip(3) =~= data@.skip(i + 3));
            assert(rest[0] == b0 && rest[1] == b1 && rest[2] == b2);
            assert(result@ + base64_text(data@.skip(i + 3)) =~= before + base64_text(rest));
        }
        i = i + 3;
    }
    let ghost rest = data@.skip(i as int);
    let ghost before = result@;
    if data.len() - i == 2 {
        let b0: u8 = data[i];
        let b1: u8 = data[i + 1];
        result.push(base64_digit(b0 / 4));
        result.push(base64_digit((b0 % 4) * 16 + b1 / 16));
        result.push(base64_digit((b1 % 16) * 4));
        result.push('=');
        proof {
            assert(rest[0] == b0 && rest[1] == b1);
        }
    } else if data.len() - i == 1 {
        let b0: u8 = data[i];
        result.push(base64_digit(b0 / 4));
        result.push(base64_digit((b0 % 4) * 16));
        result.push('=');
        result.push('=');
        proof {
            assert(rest[0] == b0);
        }
    }
    proof {
        assert(result@ =~= before + base64_text(rest));
    }
    result
}

/// The six-bit value of a character of the alphabet.
pub open spec fn base64_value(c: char) -> int {
    let v = c as int;
    if 65 <= v <= 90 {
        v - 65
    } else if 97 <= v <= 122 {
        v - 97 + 26
    } else if 48 <= v <= 57 {
        v - 48 + 52
    } else if c == '+' {
        62
    } else {
        63
    }
}

/// The bytes that a well-formed Base64 text stands for.
pub open spec fn base64_bytes(text: Seq<char>) -> Seq<u8>
    decreases text.len(),
{
    if text.len() < 4 {
        Seq::empty()
    } else {
        let v0 = base64_value(text[0]);
        let v1 = base64_value(text[1]);
        let v2 = base64_value(text[2]);
        let v3 = base64_value(text[3]);
        if text[2] == '=' {
            seq![(v0 * 4 + v1 / 16) as u8]
        } else if text[3] == '=' {
            seq![(v0 * 4 + v1 / 16) as u8, ((v1 % 16) * 16 + v2 / 4) as u8]
        } else {
            seq![
                (v0 * 4 + v1 / 16) as u8,
                ((v1 % 16) * 16 + v2 / 4) as u8,
                ((v2 % 4) * 64 + v3) as u8,
            ] + base64_bytes(text.skip(4))
        }
    }
}

proof fn lemma_base64_value(v: int)
    requires
        0 <= v < 64,
    ensures
        base64_value(base64_char(v)) == v,
        base64_char(v) != '=',
{
}

/// Base64 loses nothing: the bytes can be read back from their text.
pub proof fn base64_round_trip(data: Seq<u8>)
    ensures
        base64_bytes(base64_text(data)) == data,
    decreases data.len(),
{
    let text = base64_text(data);
    if data.len() == 0 {
        assert(base64_bytes(text) =~= data);
    } else if data.len() == 1 {
        lemma_base64_value(data[0] as int / 4);
        lemma_base64_value((data[0] % 4) * 16);
        assert(base64_bytes(text) =~= data);
    } else if data.len() == 2 {
        lemma_base64_value(data[0] as int / 4);
        lemma_base64_value((data[0] % 4) * 16 + data[1] / 16);
        lemma_base64_value((data[1] % 16) * 4);
        assert(base64_bytes(text) =~= data);
    } else {
        lemma_base64_value(data[0] as int / 4);
        lemma_base64_value((data[0] % 4) * 16 + data[1] / 16);
        lemma_base64_value((data[1] % 16) * 4 + data[2] / 64);
        lemma_base64_value(data[2] as int % 64);
        base64_round_trip(data.skip(3));
        assert(text.skip(4) =~= base64_text(data.skip(3)));
        assert(base64_bytes(text) =~= data);
    }
}

/// A Base64 text has four characters for every group of three bytes that was
/// begun.
pub proof fn base64_length(data: Seq<u8>)
    ensures
        base64_text(data).len() == (data.len() + 2) / 3 * 4,
    decreases data.len(),
{
    if data.len() > 2 {
        base64_length(data.skip(3));
    }
}

proof fn base64_char_is_no_white_space(v: int)
    requires
        0 <= v < 64,
    ensures
        !is_white_space(base64_char(v)),
{
}

/// There is no white space in a Base64 text.
pub proof fn base64_has_no_white_space(data: Seq<u8>)
    ensures
        forall|i: int|
            0 <= i < base64_text(data).len() ==> !is_white_space(#[trigger] base64_text(data)[i]),
    decreases data.len(),
{
    let text = base64_text(data);
    if data.len() == 1 {
        base64_char_is_no_white_space(data[0] as int / 4);
        base64_char_is_no_white_space((data[0] % 4) * 16);
    } else if data.len() == 2 {
        base64_char_is_no_white_space(data[0] as int / 4);
        base64_char_is_no_white_space((data[0] % 4) * 16 + data[1] / 16);
        base64_char_is_no_white_space((data[1] % 16) * 4);
    } else if data.len() > 2 {
        base64_char_is_no_white_space(data[0] as int / 4);
        base64_char_is_no_white_space((data[0] % 4) * 16 + data[1] / 16);
        base64_char_is_no_white_space((data[1] % 16) * 4 + data[2] / 64);
        base64_char_is_no_white_space(data[2] as int % 64);
        base64_has_no_white_space(data.skip(3));
        assert forall|i: int| 0 <= i < text.len() implies !is_white_space(#[trigger] text[i]) by {
            if i >= 4 {
                assert(text[i] == base64_text(data.skip(3))[i - 4]);
            }
        }
    }
}

/// The message with which the decoder refuses a text.
pub uninterp spec fn base64_refusal(text: Seq<char>) -> Seq<char>;

/// `base64::Engine::decode` of the standard engine, which accepts the canonical
/// text of some bytes and no other: padding is required and spare bits must be
/// zero. A refusal's message depends on the text alone; [`base64_refusal`] names
/// it.
#[verifier::external_body]
pub(crate) fn base64_decode(text: &str) -> (r: Result<Vec<u8>, String>)
    ensures
        match r {
            Ok(data) => text@ == base64_text(data@),
            Err(e) => e@ == base64_refusal(text@) && forall|data: Seq<u8>| #[trigger]
                base64_text(data) != text@,
        },
{
    let engine = base64::engine::general_purpose::STANDARD;
    base64::Engine::decode(&engine, text).map_err(|e| e.to_string())
}

// ---------------------------------------------------------------------------
// Percent-encoding
// ---------------------------------------------------------------------------
/// The characters that stand for themselves in a query parameter.
pub open spec fn is_unreserved(c: char) -> bool {
    ||| 'A' <= c <= 'Z'
    ||| 'a' <= c <= 'z'
    ||| '0' <= c <= '9'
    ||| c == '-'
    ||| c == '_'
    ||| c == '.'
    ||| c == '~'
}

/// The upper-case hexadecimal digit of a value below sixteen.
pub open spec fn hex_char(v: int) -> char {
    if v < 10 {
        (48 + v) as char
    } else {
        (65 + (v - 10)) as char
    }
}

/// Each byte as a percent sign and two hexadecimal digits.
pub open spec fn percent_bytes(bytes: Seq<u8>) -> Seq<char>
    decreases bytes.len(),
{
    if bytes.len() == 0 {
        Seq::empty()
    } else {
        percent_bytes(bytes.drop_last()) + seq![
            '%',
            hex_char(bytes.last() as int / 16),
            hex_char(bytes.last() as int % 16),
        ]
    }
}

/// What stands for one character: itself, or the percent-encoded bytes of its
/// UTF-8 form.
pub open spec fn percent_char(c: char) -> Seq<char> {
    if is_unreserved(c) {
        seq![c]
    } else {
        percent_bytes(encode_utf8(seq![c]))
    }
}

/// A text percent-encoded character by character.
pub open spec fn percent_encoded(s: Seq<char>) -> Seq<char>
    decreases s.len(),
{
    if s.len() == 0 {
        Seq::empty()
    } else {
        percent_encoded(s.drop_last()) + percent_char(s.last())
    }
}

fn unreserved(c: char) -> (r: bool)
    ensures
        r == is_unreserved(c),
{
    ('A' <= c && c <= 'Z') || ('a' <= c && c <= 'z') || ('0' <= c && c <= '9') || c == '-' || c
        == '_' || c == '.' || c == '~'
}

fn hex_digit(v: u8) -> (c: char)
    requires
        v < 16,
    ensures
        c == hex_char(v as int),
{
    if v < 10 {
        (48 + v) as char
    } else {
        (65 + (v - 10)) as char
    }
}

/// Percent-encodes a query parameter value.
pub fn urlencoded(s: &str) -> (r: String)
    ensures
        r@ == percent_encoded(s@),
{
    let mut result = String::new();
    proof {
        assert(s@.take(0) =~= Seq::empty());
    }
    for c in it: s.chars()
        invariant
            it.seq() == s@,
            result@ == percent_encoded(s@.take(it.index() as int)),
    {
        let ghost before = result@;
        let ghost done = s@.take(it.index() as int);
        let ghost next = s@.take(it.index() + 1);
        proof {
            assert(next.drop_last() =~= done);
            assert(next.last() == c);
        }
        if unreserved(c) {
            result.push(c);
            assert(result@ =~= before + seq![c]);
        } else {
            let mut one = String::new();
            one.push(c);
            let bytes = one.as_str().as_bytes();
            proof {
                assert(one@ =~= seq![c]);
                assert(bytes@ == encode_utf8(seq![c]));
                assert(bytes@.take(0) =~= Seq::empty());
                assert(before + percent_bytes(bytes@.take(0)) =~= before);
            }
            let mut k: usize = 0;
            while k < bytes.len()
                invariant
                    k <= bytes.len(),
                    result@ == before + percent_bytes(bytes@.take(k as int)),
                decreases bytes.len() - k,
            {
                let b: u8 = bytes[k];
                result.push('%');
                result.push(hex_digit(b / 16));
                result.push(hex_digit(b % 16));
                proof {
                    assert(bytes@.take(k + 1).drop_last() =~= bytes@.take(k as int));
                    assert(result@ =~= before + percent_bytes(bytes@.take(k + 1)));
                }
                k = k + 1;
            }
            assert(bytes@.take(k as int) =~= bytes@);
        }
    }
    assert(s@.take(s@.len() as int) =~= s@);
    result
}

/// A character that may occur in a percent-encoded text.
pub open spec fn is_query_char(c: char) -> bool {
    is_unreserved(c) || c == '%'
}

proof fn lemma_percent_bytes_chars(bytes: Seq<u8>)
    ensures
        forall|i: int|
            0 <= i < percent_bytes(bytes).len() ==> is_query_char(
                #[trigger] percent_bytes(bytes)[i],
            ),
    decreases bytes.len(),
{
    if bytes.len() > 0 {
        let front = percent_bytes(bytes.drop_last());
        let last = bytes.last() as int;
        let whole = percent_bytes(bytes);
        lemma_percent_bytes_chars(bytes.drop_last());
        assert(is_query_char(hex_char(last / 16)) && is_query_char(hex_char(last % 16)));
        assert forall|i: int| 0 <= i < whole.len() implies is_query_char(#[trigger] whole[i]) by {
            if i < front.len() {
                assert(whole[i] == front[i]);
            } else {
                assert(whole[i] == seq!['%', hex_char(last / 16), hex_char(last % 16)][i
                    - front.len()]);
            }
        }
    }
}

/// A percent-encoded text holds unreserved characters and percent signs only:
/// no space, no `&`, no `=`, nothing that would end a query parameter.
pub proof fn percent_encoded_is_safe(s: Seq<char>)
    ensures
        forall|i: int|
            0 <= i < percent_encoded(s).len() ==> is_query_char(#[trigger] percent_encoded(s)[i]),
    decreases s.len(),
{
    if s.len() > 0 {
        percent_encoded_is_safe(s.drop_last());
        lemma_percent_bytes_chars(encode_utf8(seq![s.last()]));
        let front = percent_encoded(s.drop_last());
        let whole = percent_encoded(s);
        assert forall|i: int| 0 <= i < whole.len() implies is_query_char(#[trigger] whole[i]) by {
            if i < front.len() {
                assert(whole[i] == front[i]);
            } else {
                assert(whole[i] == percent_char(s.last())[i - front.len()]);
            }
        }
    }
}

/// A text of unreserved characters is its own percent-encoding.
pub proof fn percent_encoded_passes_unreserved(s: Seq<char>)
    requires
        forall|i: int| 0 <= i < s.len() ==> is_unreserved(#[trigger] s[i]),
    ensures
        percent_encoded(s) == s,
    decreases s.len(),
{
    if s.len() > 0 {
        let front = s.drop_last();
        assert forall|i: int| 0 <= i < front.len() implies is_unreserved(#[trigger] front[i]) by {
            assert(front[i] == s[i]);
        }
        percent_encoded_passes_unreserved(front);
        assert(percent_encoded(s) =~= s);
    } else {
        assert(percent_encoded(s) =~= s);
    }
}

} // verus!
