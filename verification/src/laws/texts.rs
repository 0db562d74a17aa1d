//! Numbers as texts, and the texts of addresses and bytes.

use crate::changelog::placeholders;
use crate::encoding::{
    base64_char, base64_text, hex_char, is_unreserved, percent_bytes, percent_encoded,
};
use crate::text::{
    decimal, is_white_space, joined, signed_decimal, trimmed, trimmed_end, trimmed_start,
};
use vstd::prelude::*;
use vstd::utf8::encode_utf8;

verus! {

/// The number that a row of decimal digits stands for.
pub open spec fn number_of(digits: Seq<char>) -> int
    decreases digits.len(),
{
    if digits.len() == 0 {
        0
    } else {
        10 * number_of(digits.drop_last()) + (digits.last() as int - '0' as int)
    }
}

/// The numeral of a number is made of decimal digits, stands for that number, and
/// has no zero in front.
pub proof fn numeral_stands_for_its_number(n: nat)
    ensures
        number_of(decimal(n)) == n,
        decimal(n).len() > 0,
        forall|i: int|
            0 <= i < decimal(n).len() ==> '0' as int <= #[trigger] decimal(n)[i] as int
                && decimal(n)[i] as int <= '9' as int,
        decimal(n)[0] == '0' ==> n == 0 && decimal(n).len() == 1,
    decreases n,
{
    if n < 10 {
        assert(decimal(n).drop_last() =~= Seq::empty());
        assert(number_of(decimal(n).drop_last()) == 0);
    } else {
        numeral_stands_for_its_number(n / 10);
        let front = decimal(n / 10);
        assert(decimal(n).drop_last() =~= front);
        assert forall|i: int| 0 <= i < decimal(n).len() implies '0' as int
            <= #[trigger] decimal(n)[i] as int && decimal(n)[i] as int <= '9' as int by {
            if i < front.len() {
                assert(decimal(n)[i] == front[i]);
            }
        }
        assert(decimal(n)[0] == front[0]);
    }
}

/// The numeral of a negative number is that of its magnitude behind a minus sign.
pub proof fn signed_numeral_stands_for_its_number(n: int)
    ensures
        n >= 0 ==> number_of(signed_decimal(n)) == n && signed_decimal(n)[0] != '-',
        n < 0 ==> signed_decimal(n)[0] == '-' && number_of(signed_decimal(n).skip(1)) == -n,
{
    reveal_strlit("-");
    if n >= 0 {
        numeral_stands_for_its_number(n as nat);
        assert(decimal(n as nat)[0] as int >= '0' as int);
    } else {
        numeral_stands_for_its_number((-n) as nat);
        assert(signed_decimal(n).skip(1) =~= decimal((-n) as nat));
    }
}

/// Placeholders are numbered from one, with a comma between them.
pub proof fn placeholders_are_numbered(n: nat)
    ensures
        placeholders(0) == Seq::<char>::empty(),
        placeholders(1) == seq!['?', '1'],
        n >= 1 ==> placeholders(n + 1) == placeholders(n) + seq![',', ' ', '?'] + decimal(n + 1),
{
    reveal_strlit("?");
    reveal_strlit(", ");
    assert(placeholders(1) =~= seq!['?', '1']);
    if n >= 1 {
        assert(placeholders(n + 1) =~= placeholders(n) + seq![',', ' ', '?'] + decimal(n + 1));
    }
}

/// A joined list begins with its first text, and each further one follows behind
/// the separator.
pub proof fn lists_are_joined_in_order(
    list: Seq<Seq<char>>,
    last: Seq<char>,
    separator: Seq<char>,
)
    ensures
        joined(Seq::empty(), separator) == Seq::<char>::empty(),
        joined(seq![last], separator) == last,
        list.len() > 0 ==> joined(list.push(last), separator) == joined(list, separator) + separator
            + last,
{
    assert(list.push(last).drop_last() =~= list);
}

/// The alphabet of Base64.
pub open spec fn alphabet() -> Seq<char> {
    "ABCDEFGHIJKLMNOPQRSTUVWXYZabcdefghijklmnopqrstuvwxyz0123456789+/"@
}

/// The characters of Base64 are those of its alphabet, in order.
pub proof fn base64_uses_its_alphabet(v: int)
    requires
        0 <= v < 64,
    ensures
        base64_char(v) == alphabet()[v],
{
    reveal_strlit("ABCDEFGHIJKLMNOPQRSTUVWXYZabcdefghijklmnopqrstuvwxyz0123456789+/");
}

/// Three bytes are four characters of the alphabet, which are their bits in
/// groups of six.
pub proof fn three_bytes_are_four_characters(a: u8, b: u8, c: u8, rest: Seq<u8>)
    ensures
        exists|v0: int, v1: int, v2: int, v3: int|
            {
                &&& 0 <= v0 < 64 && 0 <= v1 < 64 && 0 <= v2 < 64 && 0 <= v3 < 64
                &&& 65536 * a + 256 * b + c == 262144 * v0 + 4096 * v1 + 64 * v2 + v3
                &&& base64_text(seq![a, b, c] + rest) == #[trigger] seq![
                    alphabet()[v0],
                    alphabet()[v1],
                    alphabet()[v2],
                    alphabet()[v3],
                ] + base64_text(rest)
            },
{
    let data = seq![a, b, c] + rest;
    let v0 = a as int / 4;
    let v1 = (a as int % 4) * 16 + b as int / 16;
    let v2 = (b as int % 16) * 4 + c as int / 64;
    let v3 = c as int % 64;
    base64_uses_its_alphabet(v0);
    base64_uses_its_alphabet(v1);
    base64_uses_its_alphabet(v2);
    base64_uses_its_alphabet(v3);
    assert(data.skip(3) =~= rest);
    assert(data[0] == a && data[1] == b && data[2] == c);
    assert(base64_text(data) =~= seq![
        alphabet()[v0],
        alphabet()[v1],
        alphabet()[v2],
        alphabet()[v3],
    ] + base64_text(rest));
}

/// Two bytes at the end are three characters and one `=`, one byte two and two;
/// the bits that are missing are zero.
pub proof fn last_bytes_are_filled_up(a: u8, b: u8)
    ensures
        base64_text(Seq::empty()) == Seq::<char>::empty(),
        base64_text(seq![a]) == seq![
            alphabet()[a as int / 4],
            alphabet()[(a as int % 4) * 16],
            '=',
            '=',
        ],
        base64_text(seq![a, b]) == seq![
            alphabet()[a as int / 4],
            alphabet()[(a as int % 4) * 16 + b as int / 16],
            alphabet()[(b as int % 16) * 4],
            '=',
        ],
{
    base64_uses_its_alphabet(a as int / 4);
    base64_uses_its_alphabet((a as int % 4) * 16);
    base64_uses_its_alphabet((a as int % 4) * 16 + b as int / 16);
    base64_uses_its_alphabet((b as int % 16) * 4);
    assert(base64_text(seq![a]) =~= seq![
        alphabet()[a as int / 4],
        alphabet()[(a as int % 4) * 16],
        '=',
        '=',
    ]);
    assert(base64_text(seq![a, b]) =~= seq![
        alphabet()[a as int / 4],
        alphabet()[(a as int % 4) * 16 + b as int / 16],
        alphabet()[(b as int % 16) * 4],
        '=',
    ]);
}

/// The letters and digits of ASCII, and four signs, stand for themselves in a
/// percent-encoded text.
pub open spec fn stands_for_itself(c: char) -> bool {
    let v = c as int;
    ||| 65 <= v <= 90
    ||| 97 <= v <= 122
    ||| 48 <= v <= 57
    ||| c == '-' || c == '_' || c == '.' || c == '~'
}

/// At this place stand a percent sign and the two hexadecimal digits of a byte.
pub open spec fn is_encoded_at(text: Seq<char>, at: int, byte: u8) -> bool {
    &&& 0 <= at && at + 2 < text.len()
    &&& text[at] == '%'
    &&& text[at + 1] == "0123456789ABCDEF"@[byte as int / 16]
    &&& text[at + 2] == "0123456789ABCDEF"@[byte as int % 16]
}

proof fn digits_are_hexadecimal(v: int)
    requires
        0 <= v < 16,
    ensures
        hex_char(v) == "0123456789ABCDEF"@[v],
{
    reveal_strlit("0123456789ABCDEF");
}

proof fn bytes_are_percent_encoded(bytes: Seq<u8>)
    ensures
        percent_bytes(bytes).len() == 3 * bytes.len(),
        forall|i: int|
            0 <= i < bytes.len() ==> is_encoded_at(
                percent_bytes(bytes),
                3 * i,
                #[trigger] bytes[i],
            ),
    decreases bytes.len(),
{
    if bytes.len() > 0 {
        let front = bytes.drop_last();
        bytes_are_percent_encoded(front);
        let text = percent_bytes(bytes);
        let start = percent_bytes(front);
        let last = bytes.last() as int;
        digits_are_hexadecimal(last / 16);
        digits_are_hexadecimal(last % 16);
        assert(text == start + seq!['%', hex_char(last / 16), hex_char(last % 16)]);
        assert forall|i: int| 0 <= i < bytes.len() implies is_encoded_at(
            text,
            3 * i,
            #[trigger] bytes[i],
        ) by {
            if i < front.len() {
                assert(front[i] == bytes[i]);
                assert(is_encoded_at(start, 3 * i, front[i]));
                assert(text[3 * i] == start[3 * i]);
                assert(text[3 * i + 1] == start[3 * i + 1]);
                assert(text[3 * i + 2] == start[3 * i + 2]);
            } else {
                let at = start.len() as int;
                assert(3 * i == at);
                assert(text[at] == '%');
                assert(text[at + 1] == hex_char(last / 16));
                assert(text[at + 2] == hex_char(last % 16));
            }
        }
    }
}

/// A text is percent-encoded character by character: one that stands for itself
/// stays, and any other becomes a percent sign and two hexadecimal digits for
/// each byte of its UTF-8 form.
pub proof fn characters_are_percent_encoded(s: Seq<char>, c: char)
    ensures
        percent_encoded(Seq::empty()) == Seq::<char>::empty(),
        stands_for_itself(c) ==> percent_encoded(s.push(c)) == percent_encoded(s).push(c),
        !stands_for_itself(c) ==> {
            let text = percent_encoded(s.push(c));
            let front = percent_encoded(s);
            let bytes = encode_utf8(seq![c]);
            &&& text.len() == front.len() + 3 * bytes.len()
            &&& front.is_prefix_of(text)
            &&& forall|i: int|
                0 <= i < bytes.len() ==> is_encoded_at(text, front.len() + 3 * i, #[trigger] bytes[i])
        },
{
    let text = percent_encoded(s.push(c));
    let front = percent_encoded(s);
    let bytes = encode_utf8(seq![c]);
    assert(s.push(c).drop_last() =~= s);
    assert(is_unreserved(c) <==> stands_for_itself(c));
    if stands_for_itself(c) {
        assert(text =~= front.push(c));
    } else {
        bytes_are_percent_encoded(bytes);
        let end = percent_bytes(bytes);
        assert(text == front + end);
        assert forall|i: int| 0 <= i < bytes.len() implies is_encoded_at(
            text,
            front.len() + 3 * i,
            #[trigger] bytes[i],
        ) by {
            assert(is_encoded_at(end, 3 * i, bytes[i]));
            assert(text[front.len() + 3 * i] == end[3 * i]);
            assert(text[front.len() + 3 * i + 1] == end[3 * i + 1]);
            assert(text[front.len() + 3 * i + 2] == end[3 * i + 2]);
        }
    }
}

/// The characters of Unicode that are white space.
pub open spec fn is_space(c: char) -> bool {
    let v = c as int;
    ||| 9 <= v <= 13
    ||| v == 32 || v == 133 || v == 160 || v == 5760
    ||| 8192 <= v <= 8202
    ||| v == 8232 || v == 8233 || v == 8239 || v == 8287 || v == 12288
}

proof fn white_space_is_space(c: char)
    ensures
        is_white_space(c) <==> is_space(c),
{
}

/// A trimmed text is what stands between the white space at both ends.
pub proof fn trimmed_text_stands_between_white_space(s: Seq<char>)
    ensures
        exists|i: int, j: int|
            {
                &&& 0 <= i <= j <= s.len()
                &&& trimmed(s) == #[trigger] s.subrange(i, j)
                &&& forall|k: int| 0 <= k < i ==> is_space(#[trigger] s[k])
                &&& forall|k: int| j <= k < s.len() ==> is_space(#[trigger] s[k])
                &&& i < j ==> !is_space(s[i]) && !is_space(s[j - 1])
            },
{
    front_is_trimmed(s);
    let i = choose|i: int|
        {
            &&& 0 <= i <= s.len()
            &&& trimmed_start(s) == #[trigger] s.skip(i)
            &&& forall|k: int| 0 <= k < i ==> is_space(#[trigger] s[k])
            &&& i < s.len() ==> !is_space(s[i])
        };
    let rest = s.skip(i);
    end_is_trimmed(rest);
    let m = choose|m: int|
        {
            &&& 0 <= m <= rest.len()
            &&& trimmed_end(rest) == #[trigger] rest.take(m)
            &&& forall|k: int| m <= k < rest.len() ==> is_space(#[trigger] rest[k])
            &&& m > 0 ==> !is_space(rest[m - 1])
        };
    let j = i + m;
    assert(s.subrange(i, j) =~= rest.take(m));
    assert forall|k: int| j <= k < s.len() implies is_space(#[trigger] s[k]) by {
        assert(rest[k - i] == s[k]);
    }
    if i < j {
        assert(rest[m - 1] == s[j - 1]);
    }
}

proof fn front_is_trimmed(s: Seq<char>)
    ensures
        exists|i: int|
            {
                &&& 0 <= i <= s.len()
                &&& trimmed_start(s) == #[trigger] s.skip(i)
                &&& forall|k: int| 0 <= k < i ==> is_space(#[trigger] s[k])
                &&& i < s.len() ==> !is_space(s[i])
            },
    decreases s.len(),
{
    if s.len() > 0 {
        white_space_is_space(s[0]);
    }
    if s.len() > 0 && is_white_space(s[0]) {
        let rest = s.skip(1);
        front_is_trimmed(rest);
        let i = choose|i: int|
            {
                &&& 0 <= i <= rest.len()
                &&& trimmed_start(rest) == #[trigger] rest.skip(i)
                &&& forall|k: int| 0 <= k < i ==> is_space(#[trigger] rest[k])
                &&& i < rest.len() ==> !is_space(rest[i])
            };
        assert(s.skip(i + 1) =~= rest.skip(i));
        assert forall|k: int| 0 <= k < i + 1 implies is_space(#[trigger] s[k]) by {
            if k > 0 {
                assert(rest[k - 1] == s[k]);
            }
        }
        if i + 1 < s.len() {
            assert(rest[i] == s[i + 1]);
        }
    } else {
        assert(s.skip(0) =~= s);
    }
}

proof fn end_is_trimmed(s: Seq<char>)
    ensures
        exists|m: int|
            {
                &&& 0 <= m <= s.len()
                &&& trimmed_end(s) == #[trigger] s.take(m)
                &&& forall|k: int| m <= k < s.len() ==> is_space(#[trigger] s[k])
                &&& m > 0 ==> !is_space(s[m - 1])
            },
    decreases s.len(),
{
    if s.len() > 0 {
        white_space_is_space(s.last());
    }
    if s.len() > 0 && is_white_space(s.last()) {
        let front = s.drop_last();
        end_is_trimmed(front);
        let m = choose|m: int|
            {
                &&& 0 <= m <= front.len()
                &&& trimmed_end(front) == #[trigger] front.take(m)
                &&& forall|k: int| m <= k < front.len() ==> is_space(#[trigger] front[k])
                &&& m > 0 ==> !is_space(front[m - 1])
            };
        assert(s.take(m) =~= front.take(m));
        assert forall|k: int| m <= k < s.len() implies is_space(#[trigger] s[k]) by {
            if k < front.len() {
                assert(front[k] == s[k]);
            }
        }
    } else {
        assert(s.take(s.len() as int) =~= s);
    }
}

} // verus!
