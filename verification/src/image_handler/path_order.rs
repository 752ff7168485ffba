//! The order in which image paths are browsed: lexicographic by the bytes of
//! their UTF-8 encoding, which is the order `String` itself has.

use vstd::multiset::Multiset;
use vstd::prelude::*;
use vstd::relations::{sorted_by, total_ordering};
use vstd::seq_lib::{
    lemma_sorted_unique, to_multiset_contains, to_multiset_insert, to_multiset_len,
};
use vstd::utf8::{encode_utf8, encode_utf8_decode_utf8};

verus! {

/// Lexicographic order on byte strings: the first byte that differs decides,
/// and a string comes before every proper extension of itself.
pub open spec fn bytes_le(a: Seq<u8>, b: Seq<u8>) -> bool
    decreases a.len(),
{
    if a.len() == 0 {
        true
    } else if b.len() == 0 {
        false
    } else if a[0] != b[0] {
        a[0] < b[0]
    } else {
        bytes_le(a.drop_first(), b.drop_first())
    }
}

/// `a` comes no later than `b` when browsing.
pub open spec fn path_le(a: Seq<char>, b: Seq<char>) -> bool {
    bytes_le(encode_utf8(a), encode_utf8(b))
}

/// [`path_le`] as a relation value, for use with `sorted_by` and `sort_by`.
pub open spec fn path_order() -> spec_fn(Seq<char>, Seq<char>) -> bool {
    |a: Seq<char>, b: Seq<char>| path_le(a, b)
}

/// The paths `paths` in browsing order.
pub open spec fn sorted_paths(paths: Seq<Seq<char>>) -> Seq<Seq<char>> {
    paths.sort_by(path_order())
}

/// Every byte string comes no later than itself.
pub proof fn lemma_bytes_le_reflexive(a: Seq<u8>)
    ensures
        bytes_le(a, a),
    decreases a.len(),
{
    if a.len() > 0 {
        lemma_bytes_le_reflexive(a.drop_first());
    }
}

/// Of two byte strings one comes no later than the other.
pub proof fn lemma_bytes_le_total(a: Seq<u8>, b: Seq<u8>)
    ensures
        bytes_le(a, b) || bytes_le(b, a),
    decreases a.len(),
{
    if a.len() > 0 && b.len() > 0 && a[0] == b[0] {
        lemma_bytes_le_total(a.drop_first(), b.drop_first());
    }
}

/// Two byte strings of which each comes no later than the other are equal.
pub proof fn lemma_bytes_le_antisymmetric(a: Seq<u8>, b: Seq<u8>)
    requires
        bytes_le(a, b),
        bytes_le(b, a),
    ensures
        a == b,
    decreases a.len(),
{
    if a.len() == 0 || b.len() == 0 {
        assert(a =~= b);
    } else {
        lemma_bytes_le_antisymmetric(a.drop_first(), b.drop_first());
        assert(a =~= seq![a[0]] + a.drop_first());
        assert(b =~= seq![b[0]] + b.drop_first());
    }
}

/// What comes no later than a byte string comes no later than what that
/// string comes no later than.
pub proof fn lemma_bytes_le_transitive(a: Seq<u8>, b: Seq<u8>, c: Seq<u8>)
    requires
        bytes_le(a, b),
        bytes_le(b, c),
    ensures
        bytes_le(a, c),
    decreases a.len(),
{
    if a.len() > 0 && b.len() > 0 && c.len() > 0 && a[0] == b[0] && b[0] == c[0] {
        lemma_bytes_le_transitive(a.drop_first(), b.drop_first(), c.drop_first());
    }
}

/// Bytes on which two strings agree at the front do not affect their order.
pub proof fn lemma_bytes_le_skip_common(a: Seq<u8>, b: Seq<u8>, n: int)
    requires
        0 <= n <= a.len(),
        n <= b.len(),
        forall|i: int| 0 <= i < n ==> a[i] == b[i],
    ensures
        bytes_le(a, b) == bytes_le(a.skip(n), b.skip(n)),
    decreases n,
{
    if n == 0 {
        assert(a.skip(0) =~= a);
        assert(b.skip(0) =~= b);
    } else {
        lemma_bytes_le_skip_common(a.drop_first(), b.drop_first(), n - 1);
        assert(a.drop_first().skip(n - 1) =~= a.skip(n));
        assert(b.drop_first().skip(n - 1) =~= b.skip(n));
    }
}

/// Browsing order is a total order on paths.
pub proof fn lemma_path_order_total()
    ensures
        total_ordering(path_order()),
{
    let r = path_order();
    assert forall|x: Seq<char>| #[trigger] r(x, x) by {
        lemma_bytes_le_reflexive(encode_utf8(x));
    }
    assert forall|x: Seq<char>, y: Seq<char>| #[trigger] r(x, y) && #[trigger] r(y, x) implies x
        == y by {
        lemma_bytes_le_antisymmetric(encode_utf8(x), encode_utf8(y));
        encode_utf8_decode_utf8(x);
        encode_utf8_decode_utf8(y);
    }
    assert forall|x: Seq<char>, y: Seq<char>, z: Seq<char>| #[trigger]
        r(x, y) && #[trigger] r(y, z) implies r(x, z) by {
        lemma_bytes_le_transitive(encode_utf8(x), encode_utf8(y), encode_utf8(z));
    }
    assert forall|x: Seq<char>, y: Seq<char>| #[trigger] r(x, y) || #[trigger] r(y, x) by {
        lemma_bytes_le_total(encode_utf8(x), encode_utf8(y));
    }
}

/// What [`sorted_paths`] gives: the same paths, each as often as before,
/// with no path before one that comes earlier in browsing order.
pub proof fn lemma_sorted_paths(paths: Seq<Seq<char>>)
    ensures
        sorted_by(sorted_paths(paths), path_order()),
        sorted_paths(paths).to_multiset() == paths.to_multiset(),
        sorted_paths(paths).len() == paths.len(),
        forall|path: Seq<char>| sorted_paths(paths).contains(path) <==> paths.contains(path),
        paths.no_duplicates() ==> sorted_paths(paths).no_duplicates(),
{
    let sorted = sorted_paths(paths);
    lemma_path_order_total();
    paths.lemma_sort_by_ensures(path_order());
    to_multiset_len(paths);
    to_multiset_len(sorted);
    assert forall|path: Seq<char>| sorted.contains(path) <==> paths.contains(path) by {
        to_multiset_contains(paths, path);
        to_multiset_contains(sorted, path);
    }
    if paths.no_duplicates() {
        paths.lemma_multiset_has_no_duplicates();
        sorted_paths(paths).lemma_multiset_has_no_duplicates_conv();
    }
}

/// Of two paths one comes no later than the other.
pub proof fn lemma_path_le_total(a: Seq<char>, b: Seq<char>)
    ensures
        path_le(a, b) || path_le(b, a),
{
    lemma_bytes_le_total(encode_utf8(a), encode_utf8(b));
}

/// Browsing order is transitive.
pub proof fn lemma_path_le_transitive(a: Seq<char>, b: Seq<char>, c: Seq<char>)
    requires
        path_le(a, b),
        path_le(b, c),
    ensures
        path_le(a, c),
{
    lemma_bytes_le_transitive(encode_utf8(a), encode_utf8(b), encode_utf8(c));
}

/// Decides [`path_le`] by comparing the two encodings byte by byte.
pub fn precedes_or_equals(a: &String, b: &String) -> (le: bool)
    ensures
        le == path_le(a@, b@),
{
    let x = a.as_str().as_bytes();
    let y = b.as_str().as_bytes();
    let mut i: usize = 0;
    while i < x.len() && i < y.len()
        invariant
            i <= x.len(),
            i <= y.len(),
            x@ == encode_utf8(a@),
            y@ == encode_utf8(b@),
            forall|k: int| 0 <= k < i ==> x@[k] == y@[k],
        decreases x.len() - i,
    {
        if x[i] != y[i] {
            proof {
                lemma_bytes_le_skip_common(x@, y@, i as int);
            }
            return x[i] < y[i];
        }
        i += 1;
    }
    proof {
        lemma_bytes_le_skip_common(x@, y@, i as int);
    }
    i == x.len()
}

/// Inserts `path` into the sorted `paths` behind every entry that does not
/// come after it, so that `paths` stays sorted.
fn insert_sorted(paths: &mut Vec<String>, path: String)
    requires
        sorted_by(old(paths).deep_view(), path_order()),
    ensures
        sorted_by(final(paths).deep_view(), path_order()),
        final(paths).deep_view().to_multiset() == old(paths).deep_view().to_multiset().insert(
            path@,
        ),
{
    let ghost before = paths.deep_view();
    let mut lo: usize = 0;
    let mut hi: usize = paths.len();
    while lo < hi
        invariant
            lo <= hi <= paths.len(),
            paths.deep_view() == before,
            sorted_by(before, path_order()),
            forall|i: int| 0 <= i < lo ==> path_le(#[trigger] before[i], path@),
            forall|k: int| hi <= k < before.len() ==> path_le(path@, #[trigger] before[k]),
        decreases hi - lo,
    {
        let mid = lo + (hi - lo) / 2;
        if precedes_or_equals(&paths[mid], &path) {
            assert forall|i: int| 0 <= i < mid + 1 implies path_le(#[trigger] before[i], path@) by {
                if i < mid {
                    assert(path_order()(before[i], before[mid as int]));
                    lemma_path_le_transitive(before[i], before[mid as int], path@);
                }
            }
            lo = mid + 1;
        } else {
            assert forall|k: int| mid <= k < before.len() implies path_le(
                path@,
                #[trigger] before[k],
            ) by {
                lemma_path_le_total(before[mid as int], path@);
                if mid < k {
                    assert(path_order()(before[mid as int], before[k]));
                    lemma_path_le_transitive(path@, before[mid as int], before[k]);
                }
            }
            hi = mid;
        }
    }
    paths.insert(lo, path);
    proof {
        let after = paths.deep_view();
        assert(after =~= before.insert(lo as int, path@));
        to_multiset_insert(before, lo as int, path@);
        assert forall|i: int, k: int| 0 <= i < k < after.len() implies #[trigger] path_order()(
            after[i],
            after[k],
        ) by {
            if k < lo {
                assert(path_order()(before[i], before[k]));
            } else if k == lo {
                assert(path_le(before[i], path@));
            } else if i < lo {
                assert(path_order()(before[i], before[k - 1]));
            } else if i == lo {
                assert(path_le(path@, before[k - 1]));
            } else {
                assert(path_order()(before[i - 1], before[k - 1]));
            }
        }
    }
}

/// Puts `paths` into browsing order.
pub fn sort_paths(paths: Vec<String>) -> (sorted: Vec<String>)
    ensures
        sorted.deep_view() == sorted_paths(paths.deep_view()),
{
    let ghost given = paths.deep_view();
    let mut rest = paths;
    let mut sorted: Vec<String> = Vec::new();
    assert(sorted.deep_view() =~= Seq::empty());
    assert(sorted.deep_view().to_multiset() =~= Multiset::empty()) by {
        broadcast use vstd::seq_lib::group_to_multiset_ensures;

    }
    loop
        invariant
            sorted_by(sorted.deep_view(), path_order()),
            sorted.deep_view().to_multiset().add(rest.deep_view().to_multiset())
                == given.to_multiset(),
        ensures
            rest.len() == 0,
        decreases rest.len(),
    {
        let ghost rest_before = rest.deep_view();
        match rest.pop() {
            None => {
                break ;
            },
            Some(path) => {
                proof {
                    let last = rest_before.len() - 1;
                    assert(rest.deep_view() =~= rest_before.remove(last));
                    vstd::seq_lib::to_multiset_remove(rest_before, last);
                    assert(rest_before[last] == path@);
                }
                insert_sorted(&mut sorted, path);
                assert(sorted.deep_view().to_multiset().add(rest.deep_view().to_multiset())
                    =~= given.to_multiset()) by {
                    broadcast use vstd::seq_lib::group_to_multiset_ensures;

                }
            },
        }
    }
    proof {
        assert(rest.deep_view() =~= Seq::empty());
        assert(sorted.deep_view().to_multiset() =~= given.to_multiset()) by {
            broadcast use vstd::seq_lib::group_to_multiset_ensures;

        }
        lemma_path_order_total();
        given.lemma_sort_by_ensures(path_order());
        lemma_sorted_unique(sorted.deep_view(), given.sort_by(path_order()), path_order());
    }
    sorted
}

} // verus!
