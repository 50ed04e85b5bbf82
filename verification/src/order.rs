//! The order of names.
//!
//! Listings that the kernel hands out come in no promised order; the device
//! works on them in the order of their characters.

use vstd::prelude::*;
use vstd::relations::*;
use vstd::seq_lib::*;
use vstd::string::*;

use crate::text;

verus! {

/// Lexicographic order by character.
pub open spec fn lex_le(a: Seq<char>, b: Seq<char>) -> bool
    decreases a.len(),
{
    if a.len() == 0 {
        true
    } else if b.len() == 0 {
        false
    } else if a[0] == b[0] {
        lex_le(a.skip(1), b.skip(1))
    } else {
        a[0] < b[0]
    }
}

/// [`lex_le`] as a relation.
pub open spec fn lex_order() -> spec_fn(Seq<char>, Seq<char>) -> bool {
    |a: Seq<char>, b: Seq<char>| lex_le(a, b)
}

/// `names` in lexicographic order.
pub open spec fn sorted(names: Seq<Seq<char>>) -> Seq<Seq<char>> {
    names.sort_by(lex_order())
}

proof fn lemma_lex_reflexive(a: Seq<char>)
    ensures
        lex_le(a, a),
    decreases a.len(),
{
    if a.len() > 0 {
        lemma_lex_reflexive(a.skip(1));
    }
}

proof fn lemma_lex_total(a: Seq<char>, b: Seq<char>)
    ensures
        lex_le(a, b) || lex_le(b, a),
    decreases a.len(),
{
    if a.len() > 0 && b.len() > 0 && a[0] == b[0] {
        lemma_lex_total(a.skip(1), b.skip(1));
    }
}

proof fn lemma_lex_antisymmetric(a: Seq<char>, b: Seq<char>)
    requires
        lex_le(a, b),
        lex_le(b, a),
    ensures
        a == b,
    decreases a.len(),
{
    if a.len() > 0 && b.len() > 0 {
        lemma_lex_antisymmetric(a.skip(1), b.skip(1));
        assert(a =~= seq![a[0]] + a.skip(1));
        assert(b =~= seq![b[0]] + b.skip(1));
    } else {
        assert(a =~= b);
    }
}

proof fn lemma_lex_transitive(a: Seq<char>, b: Seq<char>, c: Seq<char>)
    requires
        lex_le(a, b),
        lex_le(b, c),
    ensures
        lex_le(a, c),
    decreases a.len(),
{
    if a.len() > 0 && b.len() > 0 && c.len() > 0 && a[0] == b[0] && b[0] == c[0] {
        lemma_lex_transitive(a.skip(1), b.skip(1), c.skip(1));
    }
}

/// The order of names is a total order.
pub proof fn lemma_lex_order()
    ensures
        total_ordering(lex_order()),
{
    let r = lex_order();
    assert forall|x: Seq<char>| #[trigger] r(x, x) by {
        lemma_lex_reflexive(x);
    }
    assert forall|x: Seq<char>, y: Seq<char>| #[trigger] r(x, y) && #[trigger] r(y, x) implies x
        == y by {
        lemma_lex_antisymmetric(x, y);
    }
    assert forall|x: Seq<char>, y: Seq<char>, z: Seq<char>| #[trigger]
        r(x, y) && #[trigger] r(y, z) implies r(x, z) by {
        lemma_lex_transitive(x, y, z);
    }
    assert forall|x: Seq<char>, y: Seq<char>| #[trigger] r(x, y) || #[trigger] r(y, x) by {
        lemma_lex_total(x, y);
    }
}

/// Sorting puts the names in order and neither adds nor drops any.
pub proof fn lemma_sorted_ensures(names: Seq<Seq<char>>)
    ensures
        sorted_by(sorted(names), lex_order()),
        sorted(names).to_multiset() == names.to_multiset(),
{
    lemma_lex_order();
    names.lemma_sort_by_ensures(lex_order());
}

/// The sorted listing has the names of the listing, and no others.
pub proof fn lemma_sorted_members(names: Seq<Seq<char>>, name: Seq<char>)
    ensures
        sorted(names).contains(name) <==> names.contains(name),
{
    broadcast use vstd::seq_lib::group_to_multiset_ensures;

    lemma_sorted_ensures(names);
    assert(sorted(names).to_multiset().contains(name) == names.to_multiset().contains(name));
}

/// A listing that is in order and holds the same names is the sorted listing,
/// whatever order the names came in.
pub proof fn lemma_sorted_unique_listing(names: Seq<Seq<char>>, listing: Seq<Seq<char>>)
    requires
        sorted_by(listing, lex_order()),
        listing.to_multiset() == names.to_multiset(),
    ensures
        listing == sorted(names),
{
    lemma_lex_order();
    lemma_sorted_ensures(names);
    lemma_sorted_unique(listing, sorted(names), lex_order());
}

/// Two listings of the same names sort to the same listing.
pub proof fn lemma_sorted_ignores_arrival_order(a: Seq<Seq<char>>, b: Seq<Seq<char>>)
    requires
        a.to_multiset() == b.to_multiset(),
    ensures
        sorted(a) == sorted(b),
{
    lemma_sorted_ensures(a);
    lemma_sorted_unique_listing(b, sorted(a));
}

/// Whether `a` comes before `b`, or is equal to it.
pub fn text_le(a: &str, b: &str) -> (res: bool)
    ensures
        res == lex_le(a@, b@),
{
    let x = text::chars_of(a);
    let y = text::chars_of(b);
    let mut i: usize = 0;
    assert(x@.skip(0) =~= x@);
    assert(y@.skip(0) =~= y@);
    while i < x.len() && i < y.len() && x[i] == y[i]
        invariant
            i <= x.len(),
            i <= y.len(),
            x@ == a@,
            y@ == b@,
            lex_le(x@.skip(i as int), y@.skip(i as int)) == lex_le(a@, b@),
        decreases x.len() - i,
    {
        assert(x@.skip(i as int).skip(1) =~= x@.skip(i + 1));
        assert(y@.skip(i as int).skip(1) =~= y@.skip(i + 1));
        i += 1;
    }
    if i == x.len() {
        true
    } else if i == y.len() {
        false
    } else {
        x[i] < y[i]
    }
}

/// The names in lexicographic order.
pub fn sort_names(names: &Vec<String>) -> (res: Vec<String>)
    ensures
        text::views(res@) == sorted(text::views(names@)),
{
    let mut out: Vec<String> = Vec::new();
    let mut i: usize = 0;
    assert(text::views(names@).take(0) =~= text::views(out@));
    while i < names.len()
        invariant
            i <= names.len(),
            out.len() == i,
            sorted_by(text::views(out@), lex_order()),
            text::views(out@).to_multiset() == text::views(names@).take(i as int).to_multiset(),
        decreases names.len() - i,
    {
        let ghost before = text::views(out@);
        let name = names[i].clone();
        let ghost n = name@;
        let mut k: usize = out.len();
        while k > 0 && !text_le(&out[k - 1], &name)
            invariant
                k <= out.len(),
                n == name@,
                text::views(out@) == before,
                forall|j: int| k <= j < before.len() ==> !lex_le(#[trigger] before[j], n),
            decreases k,
        {
            k -= 1;
        }
        out.insert(k, name);
        proof {
            let r = lex_order();
            let after = text::views(out@);
            lemma_lex_order();
            assert(after =~= before.insert(k as int, n));
            to_multiset_insert(before, k as int, n);
            to_multiset_build(text::views(names@).take(i as int), n);
            assert(text::views(names@).take(i + 1) =~= text::views(names@).take(i as int).push(n));
            assert forall|p: int, q: int| 0 <= p < q < after.len() implies #[trigger] r(
                after[p],
                after[q],
            ) by {
                if q == k {
                    assert(r(before[k - 1], n));
                    if p < k - 1 {
                        assert(r(before[p], before[k - 1]));
                    }
                } else if p == k {
                    assert(!lex_le(before[q - 1], n));
                    assert(r(n, before[q - 1]) || r(before[q - 1], n));
                } else {
                    let p0 = if p < k {
                        p
                    } else {
                        p - 1
                    };
                    let q0 = if q < k {
                        q
                    } else {
                        q - 1
                    };
                    assert(r(before[p0], before[q0]));
                }
            }
        }
        i += 1;
    }
    proof {
        assert(text::views(names@).take(i as int) =~= text::views(names@));
        lemma_sorted_unique_listing(text::views(names@), text::views(out@));
    }
    out
}

// ---------------------------------------------------------------------------
// Laws
// ---------------------------------------------------------------------------

/// The first character in which two names differ decides their order; a name
/// comes before every longer one that it begins.
pub proof fn law_first_difference_decides(
    common: Seq<char>,
    a: char,
    b: char,
    x: Seq<char>,
    y: Seq<char>,
)
    ensures
        a < b ==> lex_le(common + seq![a] + x, common + seq![b] + y),
        a < b ==> !lex_le(common + seq![b] + y, common + seq![a] + x),
        lex_le(common, common + x),
        x.len() > 0 ==> !lex_le(common + x, common),
    decreases common.len(),
{
    let (p, q) = (common + seq![a] + x, common + seq![b] + y);
    if common.len() > 0 {
        let rest = common.skip(1);
        law_first_difference_decides(rest, a, b, x, y);
        assert(p.skip(1) =~= rest + seq![a] + x);
        assert(q.skip(1) =~= rest + seq![b] + y);
        assert((common + x).skip(1) =~= rest + x);
        assert(p[0] == common[0] && q[0] == common[0] && (common + x)[0] == common[0]);
    } else {
        assert(p[0] == a && q[0] == b);
    }
}

/// A sorted listing has every name as often as the listing had it, and each of
/// its names comes before, or is equal to, those behind it.
pub proof fn law_sorting_orders_and_keeps(names: Seq<Seq<char>>, i: int, j: int)
    ensures
        sorted(names).to_multiset() == names.to_multiset(),
        sorted(names).len() == names.len(),
        0 <= i <= j < names.len() ==> lex_le(sorted(names)[i], sorted(names)[j]),
{
    broadcast use vstd::seq_lib::group_to_multiset_ensures;

    lemma_lex_order();
    lemma_sorted_ensures(names);
    let s = sorted(names);
    assert(s.len() == s.to_multiset().len());
    if 0 <= i <= j < names.len() {
        let r = lex_order();
        if i == j {
            lemma_lex_reflexive(s[i]);
        } else {
            assert(r(s[i], s[j]));
        }
    }
}

} // verus!
