//! Calls on texts.

use crate::encoding::{base64_encode, base64_text, percent_encoded, urlencoded};
use crate::laws::comes_first;
use crate::laws::pulling::slashes_at_the_end_are_left_out;
use crate::laws::texts::{
    is_space, number_of, numeral_stands_for_its_number, signed_numeral_stands_for_its_number,
    trimmed_text_stands_between_white_space,
};
use crate::laws::versions::text_order_is_that_of_a_dictionary;
use crate::text::{
    characters, i64_text, is_before, join2, join3, join4, join5, join_list, joined, same_text,
    trim, trim_end_slashes, u64_text,
};
use vstd::prelude::*;

verus! {

/// `u64_text` is the numeral of the number.
pub proof fn u64_text_comes_to(n: u64, r: String)
    requires
        call_ensures(u64_text, (n,), r),
    ensures
        number_of(r@) == n,
        forall|i: int|
            0 <= i < r@.len() ==> '0' as int <= #[trigger] r@[i] as int && r@[i] as int
                <= '9' as int,
        r@.len() > 0,
        r@[0] == '0' ==> n == 0 && r@.len() == 1,
{
    numeral_stands_for_its_number(n as nat);
}

/// `i64_text` is the numeral of the number, behind a minus sign where it is
/// negative.
pub proof fn i64_text_comes_to(n: i64, r: String)
    requires
        call_ensures(i64_text, (n,), r),
    ensures
        n >= 0 ==> number_of(r@) == n && r@[0] != '-',
        n < 0 ==> r@[0] == '-' && number_of(r@.skip(1)) == -n,
{
    signed_numeral_stands_for_its_number(n as int);
}

/// `is_before` orders texts as a dictionary does.
pub proof fn is_before_comes_to(a: &str, b: &str, r: bool)
    requires
        call_ensures(is_before, (a, b), r),
    ensures
        r <==> comes_first(a@, b@),
{
    text_order_is_that_of_a_dictionary(a@, b@);
}

/// `same_text` holds of equal texts.
pub proof fn same_text_comes_to(a: &str, b: &str, r: bool)
    requires
        call_ensures(same_text, (a, b), r),
    ensures
        r <==> a@ == b@,
{
}

/// `characters` are those of the text, in order.
pub proof fn characters_comes_to(s: &str, r: Vec<char>)
    requires
        call_ensures(characters, (s,), r),
    ensures
        r@ == s@,
{
}

/// `trim` leaves what stands between the white space at both ends.
pub proof fn trim_comes_to(s: &str, r: &str)
    requires
        call_ensures(trim, (s,), r),
    ensures
        exists|i: int, j: int|
            {
                &&& 0 <= i <= j <= s@.len()
                &&& r@ == #[trigger] s@.subrange(i, j)
                &&& forall|k: int| 0 <= k < i ==> is_space(#[trigger] s@[k])
                &&& forall|k: int| j <= k < s@.len() ==> is_space(#[trigger] s@[k])
                &&& i < j ==> !is_space(s@[i]) && !is_space(s@[j - 1])
            },
{
    trimmed_text_stands_between_white_space(s@);
}

/// `trim_end_slashes` leaves out the slashes at the end, and nothing else.
pub proof fn trim_end_slashes_comes_to(s: &str, r: &str)
    requires
        call_ensures(trim_end_slashes, (s,), r),
    ensures
        r@.is_prefix_of(s@),
        forall|i: int| r@.len() <= i < s@.len() ==> #[trigger] s@[i] == '/',
        r@.len() > 0 ==> r@.last() != '/',
{
    slashes_at_the_end_are_left_out(s@);
}

/// The texts are joined in order.
pub proof fn joins_come_to(
    a: &str,
    b: &str,
    c: &str,
    d: &str,
    e: &str,
    two: String,
    three: String,
    four: String,
    five: String,
)
    requires
        call_ensures(join2, (a, b), two),
        call_ensures(join3, (a, b, c), three),
        call_ensures(join4, (a, b, c, d), four),
        call_ensures(join5, (a, b, c, d, e), five),
    ensures
        two@ == a@ + b@,
        three@ == a@ + b@ + c@,
        four@ == a@ + b@ + c@ + d@,
        five@ == a@ + b@ + c@ + d@ + e@,
{
}

/// `join_list` joins the texts of the list in order, with the separator between
/// them.
pub proof fn join_list_comes_to(list: &Vec<String>, separator: &str, r: String)
    requires
        call_ensures(join_list, (list, separator), r),
    ensures
        r@ == joined(Seq::new(list@.len(), |i: int| list@[i]@), separator@),
{
    assert(crate::text::texts(list@) =~= Seq::new(list@.len(), |i: int| list@[i]@));
}

/// `base64_encode` is the Base64 of the bytes.
pub proof fn base64_encode_comes_to(data: &[u8], r: String)
    requires
        call_ensures(base64_encode, (data,), r),
    ensures
        r@ == base64_text(data@),
{
}

/// `urlencoded` is the text percent-encoded.
pub proof fn urlencoded_comes_to(s: &str, r: String)
    requires
        call_ensures(urlencoded, (s,), r),
    ensures
        r@ == percent_encoded(s@),
{
}

} // verus!
