//! The order of strings (by code point, which for UTF-8 text is also the
//! byte order that `String`'s `Ord` uses) and sorting by it.

use vstd::prelude::*;
use vstd::relations::{sorted_by, total_ordering};

use crate::models::auth_context::strings_view;
use crate::text::chars_of;

verus! {

/// `a` comes before `b` or equals it, comparing characters by code point
/// and a prefix before any longer string.
pub open spec fn str_le(a: Seq<char>, b: Seq<char>) -> bool
    decreases a.len(),
{
    if a.len() == 0 {
        true
    } else if b.len() == 0 {
        false
    } else if a[0] != b[0] {
        a[0] < b[0]
    } else {
        str_le(a.drop_first(), b.drop_first())
    }
}

/// `a` comes strictly before `b`.
pub open spec fn str_lt(a: Seq<char>, b: Seq<char>) -> bool {
    str_le(a, b) && a != b
}

/// The string order as a relation.
pub open spec fn str_order() -> spec_fn(Seq<char>, Seq<char>) -> bool {
    |a: Seq<char>, b: Seq<char>| str_le(a, b)
}

proof fn lemma_str_le_reflexive(a: Seq<char>)
    ensures
        str_le(a, a),
    decreases a.len(),
{
    if a.len() > 0 {
        lemma_str_le_reflexive(a.drop_first());
    }
}

proof fn lemma_str_le_antisymmetric(a: Seq<char>, b: Seq<char>)
    requires
        str_le(a, b),
        str_le(b, a),
    ensures
        a == b,
    decreases a.len(),
{
    if a.len() > 0 && b.len() > 0 && a[0] == b[0] {
        lemma_str_le_antisymmetric(a.drop_first(), b.drop_first());
        assert(a =~= seq![a[0]] + a.drop_first());
        assert(b =~= seq![b[0]] + b.drop_first());
    }
}

proof fn lemma_str_le_transitive(a: Seq<char>, b: Seq<char>, c: Seq<char>)
    requires
        str_le(a, b),
        str_le(b, c),
    ensures
        str_le(a, c),
    decreases a.len(),
{
    if a.len() > 0 && b.len() > 0 && c.len() > 0 && a[0] == b[0] && b[0] == c[0] {
        lemma_str_le_transitive(a.drop_first(), b.drop_first(), c.drop_first());
    }
}

proof fn lemma_str_le_total(a: Seq<char>, b: Seq<char>)
    ensures
        str_le(a, b) || str_le(b, a),
    decreases a.len(),
{
    if a.len() > 0 && b.len() > 0 && a[0] == b[0] {
        lemma_str_le_total(a.drop_first(), b.drop_first());
    }
}

/// The string order is a total order.
pub proof fn lemma_str_order_total()
    ensures
        total_ordering(str_order()),
{
    assert forall|x: Seq<char>| #[trigger] str_order()(x, x) by {
        lemma_str_le_reflexive(x);
    }
    assert forall|x: Seq<char>, y: Seq<char>| #[trigger] str_order()(x, y) && #[trigger] str_order()(y, x) implies x
        == y by {
        lemma_str_le_antisymmetric(x, y);
    }
    assert forall|x: Seq<char>, y: Seq<char>, z: Seq<char>| #[trigger] str_order()(x, y) && #[trigger] str_order()(
        y,
        z,
    ) implies str_order()(x, z) by {
        lemma_str_le_transitive(x, y, z);
    }
    assert forall|x: Seq<char>, y: Seq<char>| #[trigger] str_order()(x, y) || #[trigger] str_order()(y, x) by {
        lemma_str_le_total(x, y);
    }
}

/// Whether `a` comes before `b` or equals it.
pub fn str_le_exec(a: &str, b: &str) -> (r: bool)
    ensures
        r == str_le(a@, b@),
{
    let x = chars_of(a);
    let y = chars_of(b);
    let mut i: usize = 0;
    assert(x@.skip(0) =~= x@);
    assert(y@.skip(0) =~= y@);
    while i < x.len() && i < y.len() && x[i] == y[i]
        invariant
            i <= x@.len(),
            i <= y@.len(),
            x@ == a@,
            y@ == b@,
            str_le(a@, b@) == str_le(x@.skip(i as int), y@.skip(i as int)),
        decreases x@.len() - i,
    {
        assert(x@.skip(i as int).drop_first() =~= x@.skip(i + 1));
        assert(y@.skip(i as int).drop_first() =~= y@.skip(i + 1));
        i = i + 1;
    }
    if i == x.len() {
        true
    } else if i == y.len() {
        false
    } else {
        assert(x@.skip(i as int)[0] == x@[i as int]);
        assert(y@.skip(i as int)[0] == y@[i as int]);
        x[i] < y[i]
    }
}

/// `v` sorted by the string order.
pub fn sort_strings(v: Vec<String>) -> (r: Vec<String>)
    ensures
        strings_view(r@) == strings_view(v@).sort_by(str_order()),
{
    proof {
        lemma_str_order_total();
    }
    let ghost input = strings_view(v@);
    let mut out: Vec<String> = Vec::new();
    let n = v.len();
    let mut rest = v;
    let mut i: usize = 0;
    proof {
        broadcast use vstd::seq_lib::group_to_multiset_ensures;

        assert(input.take(0) =~= Seq::<Seq<char>>::empty());
        assert(strings_view(out@) =~= Seq::<Seq<char>>::empty());
        assert(input.skip(0) =~= input);
    }
    while i < n
        invariant
            total_ordering(str_order()),
            n == input.len(),
            i <= n,
            strings_view(rest@) == input.skip(i as int),
            rest@.len() == n - i,
            sorted_by(strings_view(out@), str_order()),
            strings_view(out@).to_multiset() == input.take(i as int).to_multiset(),
        decreases n - i,
    {
        broadcast use vstd::seq_lib::to_multiset_insert;
        broadcast use vstd::seq_lib::to_multiset_build;

        let ghost rest0 = rest@;
        let x = rest.remove(0);
        assert(strings_view(rest@) =~= input.skip(i + 1)) by {
            assert(rest@ =~= rest0.subrange(1, rest0.len() as int));
            assert forall|j: int| 0 <= j < rest@.len() implies strings_view(rest@)[j] == input.skip(i + 1)[j] by {
                assert(strings_view(rest0)[j + 1] == rest0[j + 1]@);
                assert(input.skip(i as int)[j + 1] == input[i + 1 + j]);
            }
        }
        assert(x@ == input[i as int]) by {
            assert(strings_view(rest0)[0] == rest0[0]@);
        }
        let ghost ov = strings_view(out@);
        // Position after every element that does not exceed x.
        let mut k: usize = 0;
        while k < out.len() && str_le_exec(out[k].as_str(), x.as_str())
            invariant
                k <= out@.len(),
                ov == strings_view(out@),
                forall|j: int| 0 <= j < k ==> str_le(#[trigger] ov[j], x@),
            decreases out@.len() - k,
        {
            k = k + 1;
        }
        let ghost xv = x@;
        out.insert(k, x);
        proof {
            let nv = strings_view(out@);
            assert(nv =~= ov.insert(k as int, xv));
            assert forall|a: int, b: int| 0 <= a < b < nv.len() implies #[trigger] str_order()(nv[a], nv[b]) by {
                if b < k {
                    assert(str_order()(ov[a], ov[b]));
                } else if a < k && b == k {
                    assert(str_le(ov[a], xv));
                } else if a < k && b > k {
                    assert(str_order()(ov[a], ov[b - 1]));
                } else if a == k {
                    // x is below the element that stopped the search, which
                    // is below every later one.
                    assert(!str_le(ov[k as int], xv));
                    lemma_str_le_total(ov[k as int], xv);
                    if b - 1 > k {
                        assert(str_order()(ov[k as int], ov[b - 1]));
                        lemma_str_le_transitive(xv, ov[k as int], ov[b - 1]);
                    }
                } else {
                    assert(str_order()(ov[a - 1], ov[b - 1]));
                }
            }
            assert(input.take(i + 1) =~= input.take(i as int).push(input[i as int]));
        }
        i = i + 1;
    }
    proof {
        assert(input.take(n as int) =~= input);
        input.lemma_sort_by_ensures(str_order());
        vstd::seq_lib::lemma_sorted_unique(strings_view(out@), input.sort_by(str_order()), str_order());
    }
    out
}

} // verus!
