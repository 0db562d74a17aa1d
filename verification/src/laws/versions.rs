//! Which of two versions of a document is kept.

use crate::clock::{instant_of, is_newer, newer_by};
use crate::laws::{comes_first, is_later};
use crate::sync::conflict::{kept, server_wins, server_wins_by};
use crate::text::text_before;
use vstd::prelude::*;

verus! {

/// Texts are ordered as in a dictionary.
pub proof fn text_order_is_that_of_a_dictionary(a: Seq<char>, b: Seq<char>)
    ensures
        text_before(a, b) <==> comes_first(a, b),
    decreases a.len(),
{
    if b.len() == 0 {
    } else if a.len() == 0 {
        assert(a.take(0) =~= b.take(0));
    } else if a[0] != b[0] {
        assert(a.take(0) =~= b.take(0));
        if comes_first(a, b) {
            let k = choose|k: int|
                {
                    &&& 0 <= k <= a.len()
                    &&& k < b.len()
                    &&& #[trigger] a.take(k) == b.take(k)
                    &&& k == a.len() || (a[k] as int) < (b[k] as int)
                };
            if k > 0 {
                assert(a.take(k)[0] == a[0] && b.take(k)[0] == b[0]);
            }
        }
    } else {
        let x = a.skip(1);
        let y = b.skip(1);
        text_order_is_that_of_a_dictionary(x, y);
        if comes_first(x, y) {
            let k = choose|k: int|
                {
                    &&& 0 <= k <= x.len()
                    &&& k < y.len()
                    &&& #[trigger] x.take(k) == y.take(k)
                    &&& k == x.len() || (x[k] as int) < (y[k] as int)
                };
            assert forall|i: int| 0 <= i < k + 1 implies a[i] == b[i] by {
                if i > 0 {
                    assert(x.take(k)[i - 1] == y.take(k)[i - 1]);
                }
            }
            assert(a.take(k + 1) =~= b.take(k + 1));
        }
        if comes_first(a, b) {
            let k = choose|k: int|
                {
                    &&& 0 <= k <= a.len()
                    &&& k < b.len()
                    &&& #[trigger] a.take(k) == b.take(k)
                    &&& k == a.len() || (a[k] as int) < (b[k] as int)
                };
            assert(k > 0);
            assert forall|i: int| 0 <= i < k - 1 implies x[i] == y[i] by {
                assert(a.take(k)[i + 1] == b.take(k)[i + 1]);
            }
            assert(x.take(k - 1) =~= y.take(k - 1));
        }
    }
}

/// Of two timestamps whose instants are known the later one is the newer: by its
/// seconds, and by its nanoseconds where the seconds are the same.
pub proof fn later_instant_is_newer(a: Seq<char>, b: Seq<char>, x: (i64, u32), y: (i64, u32))
    requires
        a.len() > 0,
        b.len() > 0,
        instant_of(a) == Some(x),
        instant_of(b) == Some(y),
    ensures
        is_newer(a, b) <==> y.0 < x.0 || (y.0 == x.0 && y.1 < x.1),
{
}

/// A timestamp is newer than another exactly where it is later, whatever is
/// known of their instants.
pub proof fn newer_is_later(
    a: Seq<char>,
    x: Option<(i64, u32)>,
    b: Seq<char>,
    y: Option<(i64, u32)>,
)
    ensures
        newer_by(a, x, b, y) <==> is_later(a, x, b, y),
        is_newer(a, b) <==> is_later(a, instant_of(a), b, instant_of(b)),
{
    text_order_is_that_of_a_dictionary(b, a);
}

/// The server's version wins unless there is a local one that is later.
pub proof fn server_wins_unless_the_local_version_is_later(
    local: Seq<char>,
    x: Option<(i64, u32)>,
    server: Seq<char>,
    y: Option<(i64, u32)>,
)
    ensures
        server_wins_by(local, x, server, y) <==> !is_later(local, x, server, y),
        server_wins(local, server) <==> !is_later(
            local,
            instant_of(local),
            server,
            instant_of(server),
        ),
{
    newer_is_later(local, x, server, y);
}

/// Whichever of two known instants comes later is kept, and the server's where
/// they are the same.
pub proof fn later_instant_is_kept(local: Seq<char>, server: Seq<char>, x: (i64, u32), y: (i64, u32))
    requires
        local.len() > 0,
        server.len() > 0,
        instant_of(local) == Some(x),
        instant_of(server) == Some(y),
    ensures
        kept(local, server) == (if x.0 > y.0 || (x.0 == y.0 && x.1 > y.1) {
            local
        } else {
            server
        }),
{
}

} // verus!
