//! Text building blocks: decimal numbers, trimming, ordering and joining.
//!
//! Every function here works on Rust strings and is specified over their
//! views, which are sequences of characters.

use vstd::prelude::*;

verus! {

/// The characters of each text.
pub open spec fn texts(list: Seq<String>) -> Seq<Seq<char>> {
    list.map_values(|s: String| s@)
}

/// `String::push` of the standard library: appends the given character to the
/// end of the string and changes nothing else.
pub assume_specification[ String::push ](s: &mut String, c: char)
    ensures
        final(s)@ == old(s)@.push(c),
;

// ---------------------------------------------------------------------------
// Decimal numbers
// ---------------------------------------------------------------------------
/// The character of a decimal digit.
pub open spec fn digit_char(d: nat) -> char {
    if d == 0 {
        '0'
    } else if d == 1 {
        '1'
    } else if d == 2 {
        '2'
    } else if d == 3 {
        '3'
    } else if d == 4 {
        '4'
    } else if d == 5 {
        '5'
    } else if d == 6 {
        '6'
    } else if d == 7 {
        '7'
    } else if d == 8 {
        '8'
    } else {
        '9'
    }
}

/// The decimal numeral of a natural number, without leading zeros.
pub open spec fn decimal(n: nat) -> Seq<char>
    decreases n,
{
    if n < 10 {
        seq![digit_char(n)]
    } else {
        decimal(n / 10).push(digit_char(n % 10))
    }
}

/// The decimal numeral of an integer: a minus sign comes before the numeral of
/// the absolute value of a negative one.
pub open spec fn signed_decimal(i: int) -> Seq<char> {
    if i < 0 {
        "-"@ + decimal((-i) as nat)
    } else {
        decimal(i as nat)
    }
}

fn digit(d: u64) -> (c: char)
    requires
        d < 10,
    ensures
        c == digit_char(d as nat),
{
    if d == 0 {
        '0'
    } else if d == 1 {
        '1'
    } else if d == 2 {
        '2'
    } else if d == 3 {
        '3'
    } else if d == 4 {
        '4'
    } else if d == 5 {
        '5'
    } else if d == 6 {
        '6'
    } else if d == 7 {
        '7'
    } else if d == 8 {
        '8'
    } else {
        '9'
    }
}

/// The decimal numeral of `n`.
pub fn u64_text(n: u64) -> (r: String)
    ensures
        r@ == decimal(n as nat),
    decreases n,
{
    if n < 10 {
        let mut s = String::new();
        s.push(digit(n));
        assert(s@ =~= seq![digit_char(n as nat)]);
        s
    } else {
        let mut s = u64_text(n / 10);
        s.push(digit(n % 10));
        s
    }
}

/// The decimal numeral of `i`, with a minus sign where it is negative.
pub fn i64_text(i: i64) -> (r: String)
    ensures
        r@ == signed_decimal(i as int),
{
    if i >= 0 {
        u64_text(i as u64)
    } else if i == i64::MIN {
        let mut s = "-".to_owned();
        let magnitude = u64_text(9223372036854775808u64);
        s.append(magnitude.as_str());
        s
    } else {
        let mut s = "-".to_owned();
        let magnitude = u64_text((-i) as u64);
        s.append(magnitude.as_str());
        s
    }
}

// ---------------------------------------------------------------------------
// Characters of a string
// ---------------------------------------------------------------------------
/// The characters of `s`, in order.
pub fn characters(s: &str) -> (r: Vec<char>)
    ensures
        r@ == s@,
{
    let mut v: Vec<char> = Vec::new();
    for c in it: s.chars()
        invariant
            it.seq() == s@,
            v@ == it.seq().take(it.index() as int),
    {
        v.push(c);
    }
    v
}

/// Whether the two strings hold the same characters.
pub fn same_text(a: &str, b: &str) -> (r: bool)
    ensures
        r == (a@ == b@),
{
    let x = characters(a);
    let y = characters(b);
    if x.len() != y.len() {
        return false;
    }
    let mut i: usize = 0;
    while i < x.len()
        invariant
            x@ == a@,
            y@ == b@,
            x.len() == y.len(),
            i <= x.len(),
            forall|j: int| 0 <= j < i ==> x@[j] == y@[j],
        decreases x.len() - i,
    {
        if x[i] != y[i] {
            return false;
        }
        i = i + 1;
    }
    assert(a@ =~= b@);
    true
}

// ---------------------------------------------------------------------------
// Order
// ---------------------------------------------------------------------------
/// `a` comes strictly before `b` in the lexicographic order of code points,
/// in which a proper prefix comes first. ISO 8601 timestamps of one shape
/// follow each other in this order as they do in time.
pub open spec fn text_before(a: Seq<char>, b: Seq<char>) -> bool
    decreases a.len(),
{
    if b.len() == 0 {
        false
    } else if a.len() == 0 {
        true
    } else if a[0] != b[0] {
        (a[0] as int) < (b[0] as int)
    } else {
        text_before(a.skip(1), b.skip(1))
    }
}

fn char_before(a: char, b: char) -> (r: bool)
    ensures
        r == ((a as int) < (b as int)),
{
    (a as u32) < (b as u32)
}

/// Whether `a` comes strictly before `b` in lexicographic order.
pub fn is_before(a: &str, b: &str) -> (r: bool)
    ensures
        r == text_before(a@, b@),
{
    let x = characters(a);
    let y = characters(b);
    let mut i: usize = 0;
    proof {
        assert(a@.skip(0) =~= a@);
        assert(b@.skip(0) =~= b@);
    }
    while i < x.len() && i < y.len()
        invariant
            x@ == a@,
            y@ == b@,
            i <= x.len(),
            i <= y.len(),
            text_before(a@, b@) == text_before(x@.skip(i as int), y@.skip(i as int)),
        decreases x.len() - i,
    {
        if x[i] != y[i] {
            return char_before(x[i], y[i]);
        }
        proof {
            assert(x@.skip(i as int).skip(1) =~= x@.skip(i + 1));
            assert(y@.skip(i as int).skip(1) =~= y@.skip(i + 1));
        }
        i = i + 1;
    }
    i < y.len()
}

/// No text comes before itself.
pub proof fn text_before_irreflexive(a: Seq<char>)
    ensures
        !text_before(a, a),
    decreases a.len(),
{
    if a.len() > 0 {
        text_before_irreflexive(a.skip(1));
    }
}

/// The order is transitive.
pub proof fn text_before_transitive(a: Seq<char>, b: Seq<char>, c: Seq<char>)
    requires
        text_before(a, b),
        text_before(b, c),
    ensures
        text_before(a, c),
    decreases a.len(),
{
    if a.len() > 0 && a[0] == b[0] && b[0] == c[0] {
        text_before_transitive(a.skip(1), b.skip(1), c.skip(1));
    }
}

/// Of two different texts, one comes before the other.
pub proof fn text_before_total(a: Seq<char>, b: Seq<char>)
    ensures
        a == b || text_before(a, b) || text_before(b, a),
    decreases a.len(),
{
    if a.len() > 0 && b.len() > 0 && a[0] == b[0] {
        text_before_total(a.skip(1), b.skip(1));
        if a.skip(1) == b.skip(1) {
            assert(a =~= seq![a[0]] + a.skip(1));
            assert(b =~= seq![b[0]] + b.skip(1));
        }
    } else if a.len() == 0 && b.len() == 0 {
        assert(a =~= b);
    }
}

// ---------------------------------------------------------------------------
// Trimming
// ---------------------------------------------------------------------------
/// The characters with the Unicode property White_Space.
pub open spec fn is_white_space(c: char) -> bool {
    let v = c as u32;
    ||| 0x9 <= v <= 0xD
    ||| v == 0x20
    ||| v == 0x85
    ||| v == 0xA0
    ||| v == 0x1680
    ||| 0x2000 <= v <= 0x200A
    ||| v == 0x2028
    ||| v == 0x2029
    ||| v == 0x202F
    ||| v == 0x205F
    ||| v == 0x3000
}

/// `s` without its leading white space.
pub open spec fn trimmed_start(s: Seq<char>) -> Seq<char>
    decreases s.len(),
{
    if s.len() > 0 && is_white_space(s[0]) {
        trimmed_start(s.skip(1))
    } else {
        s
    }
}

/// `s` without its trailing white space.
pub open spec fn trimmed_end(s: Seq<char>) -> Seq<char>
    decreases s.len(),
{
    if s.len() > 0 && is_white_space(s.last()) {
        trimmed_end(s.drop_last())
    } else {
        s
    }
}

/// `s` without its leading and its trailing white space.
pub open spec fn trimmed(s: Seq<char>) -> Seq<char> {
    trimmed_end(trimmed_start(s))
}

/// Nothing but white space.
pub open spec fn is_blank(s: Seq<char>) -> bool {
    forall|i: int| 0 <= i < s.len() ==> is_white_space(#[trigger] s[i])
}

proof fn leading_blanks_are_trimmed(blanks: Seq<char>, rest: Seq<char>)
    requires
        is_blank(blanks),
        rest.len() > 0 ==> !is_white_space(rest[0]),
    ensures
        trimmed_start(blanks + rest) == rest,
    decreases blanks.len(),
{
    let s = blanks + rest;
    if blanks.len() == 0 {
        assert(s =~= rest);
    } else {
        assert(s[0] == blanks[0]);
        assert(s.skip(1) =~= blanks.skip(1) + rest);
        assert(is_blank(blanks.skip(1))) by {
            assert forall|i: int| 0 <= i < blanks.skip(1).len() implies is_white_space(
                #[trigger] blanks.skip(1)[i],
            ) by {
                assert(blanks.skip(1)[i] == blanks[i + 1]);
            }
        }
        leading_blanks_are_trimmed(blanks.skip(1), rest);
    }
}

proof fn trailing_blanks_are_trimmed(rest: Seq<char>, blanks: Seq<char>)
    requires
        is_blank(blanks),
        rest.len() > 0 ==> !is_white_space(rest.last()),
    ensures
        trimmed_end(rest + blanks) == rest,
    decreases blanks.len(),
{
    let s = rest + blanks;
    if blanks.len() == 0 {
        assert(s =~= rest);
    } else {
        assert(s.last() == blanks.last());
        assert(s.drop_last() =~= rest + blanks.drop_last());
        assert(is_white_space(blanks[blanks.len() - 1]));
        trailing_blanks_are_trimmed(rest, blanks.drop_last());
    }
}

/// White space around a text is trimmed, and nothing else.
pub proof fn blanks_around_are_trimmed(before: Seq<char>, text: Seq<char>, after: Seq<char>)
    requires
        is_blank(before),
        is_blank(after),
        text.len() > 0 ==> !is_white_space(text[0]) && !is_white_space(text.last()),
    ensures
        trimmed(before + text + after) == text,
{
    if text.len() == 0 {
        let all = before + after;
        assert(is_blank(all)) by {
            assert forall|i: int| 0 <= i < all.len() implies is_white_space(#[trigger] all[i]) by {
                if i < before.len() {
                    assert(all[i] == before[i]);
                } else {
                    assert(all[i] == after[i - before.len()]);
                }
            }
        }
        assert(before + text + after =~= all + text);
        leading_blanks_are_trimmed(all, text);
    } else {
        assert(before + text + after =~= before + (text + after));
        leading_blanks_are_trimmed(before, text + after);
        trailing_blanks_are_trimmed(text, after);
    }
}

/// `s` without the slashes at its end.
pub open spec fn without_end_slashes(s: Seq<char>) -> Seq<char>
    decreases s.len(),
{
    if s.len() > 0 && s.last() == '/' {
        without_end_slashes(s.drop_last())
    } else {
        s
    }
}

fn white_space(c: char) -> (r: bool)
    ensures
        r == is_white_space(c),
{
    let v: u32 = c as u32;
    (0x9 <= v && v <= 0xD) || v == 0x20 || v == 0x85 || v == 0xA0 || v == 0x1680 || (0x2000 <= v
        && v <= 0x200A) || v == 0x2028 || v == 0x2029 || v == 0x202F || v == 0x205F || v == 0x3000
}

/// `s` without its leading and its trailing white space.
pub fn trim(s: &str) -> (r: &str)
    ensures
        r@ == trimmed(s@),
{
    let x = characters(s);
    let mut from: usize = 0;
    proof {
        assert(s@.skip(0) =~= s@);
    }
    while from < x.len() && white_space(x[from])
        invariant
            x@ == s@,
            from <= x.len(),
            trimmed_start(s@) == trimmed_start(x@.skip(from as int)),
        decreases x.len() - from,
    {
        proof {
            assert(x@.skip(from as int).skip(1) =~= x@.skip(from + 1));
        }
        from = from + 1;
    }
    let ghost started = x@.skip(from as int);
    let mut to: usize = x.len();
    proof {
        assert(started =~= x@.subrange(from as int, to as int));
    }
    while to > from && white_space(x[to - 1])
        invariant
            x@ == s@,
            from <= to <= x.len(),
            trimmed_end(started) == trimmed_end(x@.subrange(from as int, to as int)),
        decreases to,
    {
        proof {
            assert(x@.subrange(from as int, to as int).drop_last() =~= x@.subrange(
                from as int,
                to - 1,
            ));
        }
        to = to - 1;
    }
    s.substring_char(from, to)
}

/// `s` without the slashes at its end.
pub fn trim_end_slashes(s: &str) -> (r: &str)
    ensures
        r@ == without_end_slashes(s@),
{
    let x = characters(s);
    let mut to: usize = x.len();
    proof {
        assert(s@ =~= x@.subrange(0, to as int));
    }
    while to > 0 && x[to - 1] == '/'
        invariant
            x@ == s@,
            to <= x.len(),
            without_end_slashes(s@) == without_end_slashes(x@.subrange(0, to as int)),
        decreases to,
    {
        proof {
            assert(x@.subrange(0, to as int).drop_last() =~= x@.subrange(0, to - 1));
        }
        to = to - 1;
    }
    s.substring_char(0, to)
}

// ---------------------------------------------------------------------------
// Joining
// ---------------------------------------------------------------------------
/// `a` followed by `b`.
pub fn join2(a: &str, b: &str) -> (r: String)
    ensures
        r@ == a@ + b@,
{
    let mut s = a.to_owned();
    s.append(b);
    s
}

/// `a`, `b` and `c` in this order.
pub fn join3(a: &str, b: &str, c: &str) -> (r: String)
    ensures
        r@ == a@ + b@ + c@,
{
    let mut s = a.to_owned();
    s.append(b);
    s.append(c);
    s
}

/// `a`, `b`, `c` and `d` in this order.
pub fn join4(a: &str, b: &str, c: &str, d: &str) -> (r: String)
    ensures
        r@ == a@ + b@ + c@ + d@,
{
    let mut s = join3(a, b, c);
    s.append(d);
    s
}

/// `a` to `e` in this order.
pub fn join5(a: &str, b: &str, c: &str, d: &str, e: &str) -> (r: String)
    ensures
        r@ == a@ + b@ + c@ + d@ + e@,
{
    let mut s = join4(a, b, c, d);
    s.append(e);
    s
}

/// The texts of a list in order, with a separator between them.
pub open spec fn joined(list: Seq<Seq<char>>, separator: Seq<char>) -> Seq<char>
    decreases list.len(),
{
    if list.len() == 0 {
        Seq::empty()
    } else if list.len() == 1 {
        list[0]
    } else {
        joined(list.drop_last(), separator) + separator + list.last()
    }
}

/// Joins the texts of a list, with a separator between them.
pub fn join_list(list: &Vec<String>, separator: &str) -> (r: String)
    ensures
        r@ == joined(texts(list@), separator@),
{
    let mut s = String::new();
    let mut i: usize = 0;
    assert(s@ =~= Seq::empty());
    while i < list.len()
        invariant
            i <= list.len(),
            s@ == joined(texts(list@).take(i as int), separator@),
        decreases list.len() - i,
    {
        proof {
            let now = texts(list@).take(i + 1);
            assert(now.drop_last() =~= texts(list@).take(i as int));
            assert(now.last() == list@[i as int]@);
        }
        if i > 0 {
            s.append(separator);
        }
        s.append(list[i].as_str());
        i = i + 1;
        assert(s@ =~= joined(texts(list@).take(i as int), separator@));
    }
    assert(texts(list@).take(i as int) =~= texts(list@));
    s
}

} // verus!
