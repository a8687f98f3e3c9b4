//! Lexicographic order on texts, and the sorted duplicate-free listing of a
//! collection of texts.

use vstd::prelude::*;
use vstd::std_specs::iter::IteratorSpec;
use vstd::string::*;

verus! {

/// `a` and `b` agree on their first `k` characters and `a` loses at
/// position `k`: either `a` ends there and `b` goes on, or `a` holds the
/// smaller code point.
pub open spec fn precedes_at(a: Seq<char>, b: Seq<char>, k: int) -> bool {
    &&& 0 <= k <= a.len()
    &&& k < b.len()
    &&& a.take(k) == b.take(k)
    &&& k < a.len() ==> a[k] < b[k]
}

/// `a` comes strictly before `b` in lexicographic order of code points.
pub open spec fn lex_lt(a: Seq<char>, b: Seq<char>) -> bool {
    exists|k: int| precedes_at(a, b, k)
}

/// Each text comes strictly before all later ones.
pub open spec fn strictly_increasing(s: Seq<Seq<char>>) -> bool {
    forall|i: int, j: int| 0 <= i < j < s.len() ==> lex_lt(#[trigger] s[i], #[trigger] s[j])
}

/// `listing` holds exactly the texts of `items`, in strictly increasing
/// order (so each of them once).
pub open spec fn lists_sorted_distinct(listing: Seq<Seq<char>>, items: Seq<Seq<char>>) -> bool {
    &&& strictly_increasing(listing)
    &&& forall|x: Seq<char>| #[trigger] listing.contains(x) <==> items.contains(x)
}

/// The distinct texts of `items` in lexicographic order.
pub open spec fn sorted_distinct(items: Seq<Seq<char>>) -> Seq<Seq<char>> {
    choose|listing: Seq<Seq<char>>| lists_sorted_distinct(listing, items)
}

/// No text comes before itself, and of two texts at most one comes before
/// the other.
pub proof fn lemma_lex_lt_asymmetric(a: Seq<char>, b: Seq<char>)
    requires
        lex_lt(a, b),
    ensures
        a != b,
        !lex_lt(b, a),
{
    let k1 = choose|k: int| precedes_at(a, b, k);
    if lex_lt(b, a) {
        let k2 = choose|k: int| precedes_at(b, a, k);
        if k1 < k2 {
            assert(b.take(k2)[k1] == a.take(k2)[k1]);
        } else if k2 < k1 {
            assert(a.take(k1)[k2] == b.take(k1)[k2]);
        }
        assert(false);
    }
}

/// Lexicographic order is transitive.
pub proof fn lemma_lex_lt_transitive(a: Seq<char>, b: Seq<char>, c: Seq<char>)
    requires
        lex_lt(a, b),
        lex_lt(b, c),
    ensures
        lex_lt(a, c),
{
    let k1 = choose|k: int| precedes_at(a, b, k);
    let k2 = choose|k: int| precedes_at(b, c, k);
    let k = if k1 <= k2 { k1 } else { k2 };
    assert(a.take(k) =~= c.take(k)) by {
        assert forall|i: int| 0 <= i < k implies a[i] == c[i] by {
            assert(a.take(k1)[i] == b.take(k1)[i]);
            assert(b.take(k2)[i] == c.take(k2)[i]);
        }
    }
    if k1 < k2 {
        assert(b.take(k2)[k1] == c.take(k2)[k1]);
    } else if k2 < k1 {
        assert(a.take(k1)[k2] == b.take(k1)[k2]);
    }
    assert(precedes_at(a, c, k));
}

proof fn lemma_lex_total_from(a: Seq<char>, b: Seq<char>, k: int)
    requires
        0 <= k <= a.len(),
        k <= b.len(),
        a.take(k) == b.take(k),
    ensures
        a == b || lex_lt(a, b) || lex_lt(b, a),
    decreases a.len() - k,
{
    if k == a.len() {
        if k == b.len() {
            assert(a =~= a.take(k));
            assert(b =~= b.take(k));
        } else {
            assert(precedes_at(a, b, k));
        }
    } else if k == b.len() {
        assert(precedes_at(b, a, k));
    } else if a[k] < b[k] {
        assert(precedes_at(a, b, k));
    } else if b[k] < a[k] {
        assert(precedes_at(b, a, k));
    } else {
        assert(a.take(k + 1) =~= a.take(k).push(a[k]));
        assert(b.take(k + 1) =~= b.take(k).push(b[k]));
        lemma_lex_total_from(a, b, k + 1);
    }
}

/// Any two texts are equal or one comes before the other.
pub proof fn lemma_lex_total(a: Seq<char>, b: Seq<char>)
    ensures
        a == b || lex_lt(a, b) || lex_lt(b, a),
{
    assert(a.take(0) =~= b.take(0));
    lemma_lex_total_from(a, b, 0);
}

/// How one text stands to another in lexicographic order.
#[derive(Clone, Copy, Debug, PartialEq, Eq, Structural)]
pub enum TextOrder {
    Before,
    Same,
    After,
}

/// Compares two texts character by character.
pub fn text_order(a: &str, b: &str) -> (r: TextOrder)
    ensures
        r == TextOrder::Before <==> lex_lt(a@, b@),
        r == TextOrder::Same <==> a@ == b@,
        r == TextOrder::After <==> lex_lt(b@, a@),
{
    broadcast use vstd::string::group_string_axioms;
    let mut ia = a.chars();
    let mut ib = b.chars();
    let ghost mut k: int = 0;
    loop
        invariant
            0 <= k <= a@.len(),
            k <= b@.len(),
            ia.remaining() == a@.skip(k),
            ib.remaining() == b@.skip(k),
            a@.take(k) == b@.take(k),
        decreases a@.len() - k,
    {
        let ca = ia.next();
        let cb = ib.next();
        match (ca, cb) {
            (None, None) => {
                proof {
                    assert(a@ =~= a@.take(k));
                    assert(b@ =~= b@.take(k));
                    if lex_lt(a@, b@) {
                        lemma_lex_lt_asymmetric(a@, b@);
                    }
                    if lex_lt(b@, a@) {
                        lemma_lex_lt_asymmetric(b@, a@);
                    }
                }
                return TextOrder::Same;
            },
            (None, Some(_)) => {
                proof {
                    assert(precedes_at(a@, b@, k));
                    lemma_lex_lt_asymmetric(a@, b@);
                }
                return TextOrder::Before;
            },
            (Some(_), None) => {
                proof {
                    assert(precedes_at(b@, a@, k));
                    lemma_lex_lt_asymmetric(b@, a@);
                }
                return TextOrder::After;
            },
            (Some(x), Some(y)) => {
                assert(x == a@.skip(k)[0] && y == b@.skip(k)[0]);
                if x < y {
                    proof {
                        assert(precedes_at(a@, b@, k));
                        lemma_lex_lt_asymmetric(a@, b@);
                    }
                    return TextOrder::Before;
                } else if y < x {
                    proof {
                        assert(precedes_at(b@, a@, k));
                        lemma_lex_lt_asymmetric(b@, a@);
                    }
                    return TextOrder::After;
                }
                proof {
                    assert(a@.take(k + 1) =~= a@.take(k).push(a@[k]));
                    assert(b@.take(k + 1) =~= b@.take(k).push(b@[k]));
                    assert(a@.skip(k).drop_first() =~= a@.skip(k + 1));
                    assert(b@.skip(k).drop_first() =~= b@.skip(k + 1));
                    k = k + 1;
                }
            },
        }
    }
}

/// Whether two texts hold the same characters.
pub fn text_eq(a: &str, b: &str) -> (r: bool)
    ensures
        r == (a@ == b@),
{
    text_order(a, b) == TextOrder::Same
}

/// Two sorted duplicate-free listings of the same texts are one listing.
pub proof fn lemma_sorted_distinct_unique(a: Seq<Seq<char>>, b: Seq<Seq<char>>)
    requires
        strictly_increasing(a),
        strictly_increasing(b),
        forall|x: Seq<char>| a.contains(x) <==> b.contains(x),
    ensures
        a == b,
    decreases a.len(),
{
    if a.len() == 0 {
        if b.len() > 0 {
            assert(b.contains(b[0]));
        }
        assert(a =~= b);
    } else {
        let la = a.len() - 1;
        assert(a.contains(a[la]));
        let lb = b.len() - 1;
        assert(b.contains(b[lb]));
        let j = choose|j: int| 0 <= j < b.len() && b[j] == a[la];
        let i = choose|i: int| 0 <= i < a.len() && a[i] == b[lb];
        if j < lb {
            if i < la {
                lemma_lex_lt_asymmetric(a[i], a[la]);
            } else {
                lemma_lex_lt_asymmetric(b[j], b[lb]);
            }
        }
        assert(a[la] == b[lb]);
        let a0 = a.drop_last();
        let b0 = b.drop_last();
        assert forall|x: Seq<char>| a0.contains(x) <==> b0.contains(x) by {
            if a0.contains(x) {
                let i = choose|i: int| 0 <= i < a0.len() && a0[i] == x;
                lemma_lex_lt_asymmetric(a[i], a[la]);
                assert(a.contains(x));
                let j = choose|j: int| 0 <= j < b.len() && b[j] == x;
                assert(b0[j] == x);
            }
            if b0.contains(x) {
                let j = choose|j: int| 0 <= j < b0.len() && b0[j] == x;
                lemma_lex_lt_asymmetric(b[j], b[lb]);
                assert(b.contains(x));
                let i = choose|i: int| 0 <= i < a.len() && a[i] == x;
                assert(a0[i] == x);
            }
        }
        assert(strictly_increasing(a0)) by {
            assert forall|i: int, j: int| 0 <= i < j < a0.len() implies lex_lt(
                #[trigger] a0[i],
                #[trigger] a0[j],
            ) by {
                assert(lex_lt(a[i], a[j]));
            }
        }
        assert(strictly_increasing(b0)) by {
            assert forall|i: int, j: int| 0 <= i < j < b0.len() implies lex_lt(
                #[trigger] b0[i],
                #[trigger] b0[j],
            ) by {
                assert(lex_lt(b[i], b[j]));
            }
        }
        lemma_sorted_distinct_unique(a0, b0);
        assert(a =~= a0.push(a[la]));
        assert(b =~= b0.push(b[lb]));
    }
}

/// The number of leading texts of `listing` that come before `text`.
spec fn first_not_before(listing: Seq<Seq<char>>, text: Seq<char>) -> int
    decreases listing.len(),
{
    if listing.len() > 0 && lex_lt(listing[0], text) {
        1 + first_not_before(listing.skip(1), text)
    } else {
        0
    }
}

proof fn lemma_first_not_before(listing: Seq<Seq<char>>, text: Seq<char>)
    ensures
        0 <= first_not_before(listing, text) <= listing.len(),
        forall|i: int|
            0 <= i < first_not_before(listing, text) ==> lex_lt(#[trigger] listing[i], text),
        first_not_before(listing, text) < listing.len() ==> !lex_lt(
            listing[first_not_before(listing, text)],
            text,
        ),
    decreases listing.len(),
{
    if listing.len() > 0 && lex_lt(listing[0], text) {
        let rest = listing.skip(1);
        lemma_first_not_before(rest, text);
        assert forall|i: int| 0 <= i < first_not_before(listing, text) implies lex_lt(
            #[trigger] listing[i],
            text,
        ) by {
            if i > 0 {
                assert(rest[i - 1] == listing[i]);
            }
        }
        let n = first_not_before(rest, text);
        if n < rest.len() {
            assert(rest[n] == listing[n + 1]);
        }
    }
}

/// Putting `text` at position `at` of a sorted duplicate-free listing keeps
/// it sorted and duplicate-free when everything before `at` comes before
/// `text` and everything from `at` on comes after it.
proof fn lemma_insert_keeps_order(listing: Seq<Seq<char>>, at: int, text: Seq<char>)
    requires
        strictly_increasing(listing),
        0 <= at <= listing.len(),
        forall|i: int| 0 <= i < at ==> lex_lt(#[trigger] listing[i], text),
        at < listing.len() ==> lex_lt(text, listing[at]),
    ensures
        strictly_increasing(listing.insert(at, text)),
        forall|x: Seq<char>| #[trigger]
            listing.insert(at, text).contains(x) <==> (listing.contains(x) || x == text),
{
    let r = listing.insert(at, text);
    assert forall|i: int, j: int| 0 <= i < j < r.len() implies lex_lt(
        #[trigger] r[i],
        #[trigger] r[j],
    ) by {
        if j < at {
            assert(lex_lt(listing[i], listing[j]));
        } else if j == at {
            assert(lex_lt(listing[i], text));
        } else if i == at {
            if j - 1 > at {
                assert(lex_lt(listing[at], listing[j - 1]));
                lemma_lex_lt_transitive(text, listing[at], listing[j - 1]);
            }
        } else if i < at {
            assert(lex_lt(listing[i], listing[j - 1]));
        } else {
            assert(lex_lt(listing[i - 1], listing[j - 1]));
        }
    }
    assert forall|x: Seq<char>| #[trigger] r.contains(x) <==> (listing.contains(x) || x == text) by {
        if r.contains(x) {
            let i = choose|i: int| 0 <= i < r.len() && r[i] == x;
            if i < at {
                assert(listing[i] == x);
            } else if i > at {
                assert(listing[i - 1] == x);
            }
        }
        if listing.contains(x) {
            let i = choose|i: int| 0 <= i < listing.len() && listing[i] == x;
            if i < at {
                assert(r[i] == x);
            } else {
                assert(r[i + 1] == x);
            }
        }
        if x == text {
            assert(r[at] == x);
        }
    }
}

/// Every collection of texts has a sorted duplicate-free listing, and
/// `sorted_distinct` is that listing.
pub proof fn lemma_sorted_distinct(items: Seq<Seq<char>>)
    ensures
        lists_sorted_distinct(sorted_distinct(items), items),
    decreases items.len(),
{
    if items.len() == 0 {
        let empty = Seq::<Seq<char>>::empty();
        assert(lists_sorted_distinct(empty, items));
    } else {
        let rest = items.drop_last();
        let text = items.last();
        lemma_sorted_distinct(rest);
        let listing = sorted_distinct(rest);
        let at = first_not_before(listing, text);
        lemma_first_not_before(listing, text);
        assert forall|x: Seq<char>| items.contains(x) <==> (rest.contains(x) || x == text) by {
            if items.contains(x) {
                let i = choose|i: int| 0 <= i < items.len() && items[i] == x;
                if i < rest.len() {
                    assert(rest[i] == x);
                }
            }
            if rest.contains(x) {
                let i = choose|i: int| 0 <= i < rest.len() && rest[i] == x;
                assert(items[i] == x);
            }
            if x == text {
                assert(items[items.len() - 1] == x);
            }
        }
        if at < listing.len() && listing[at] == text {
            assert(listing.contains(text));
            assert(lists_sorted_distinct(listing, items));
        } else {
            if at < listing.len() {
                lemma_lex_total(listing[at], text);
            }
            lemma_insert_keeps_order(listing, at, text);
            assert(lists_sorted_distinct(listing.insert(at, text), items));
        }
    }
}

/// A listing of `seen` that takes in `text` is a listing of `seen` with
/// `text` added.
pub(crate) proof fn lemma_listing_step(
    before: Seq<Seq<char>>,
    after: Seq<Seq<char>>,
    seen: Seq<Seq<char>>,
    text: Seq<char>,
)
    requires
        lists_sorted_distinct(before, seen),
        strictly_increasing(after),
        forall|x: Seq<char>| #[trigger] after.contains(x) <==> (before.contains(x) || x == text),
    ensures
        lists_sorted_distinct(after, seen.push(text)),
{
    let next = seen.push(text);
    assert forall|x: Seq<char>| #[trigger] after.contains(x) <==> next.contains(x) by {
        if next.contains(x) {
            let j = choose|j: int| 0 <= j < next.len() && next[j] == x;
            if j < seen.len() {
                assert(seen[j] == x);
            }
        }
        if seen.contains(x) {
            let j = choose|j: int| 0 <= j < seen.len() && seen[j] == x;
            assert(next[j] == x);
        }
        if x == text {
            assert(next[seen.len() as int] == x);
        }
    }
}

/// Puts `text` into a sorted duplicate-free listing, unless it is there.
pub(crate) fn insert_sorted(listing: &mut Vec<String>, text: &str)
    requires
        strictly_increasing(old(listing).deep_view()),
    ensures
        strictly_increasing(final(listing).deep_view()),
        forall|x: Seq<char>| #[trigger]
            final(listing).deep_view().contains(x) <==> (old(listing).deep_view().contains(x) || x
                == text@),
{
    let ghost before = listing.deep_view();
    let mut at: usize = 0;
    while at < listing.len()
        invariant
            0 <= at <= listing.len(),
            listing.deep_view() == before,
            before == old(listing).deep_view(),
            strictly_increasing(before),
            forall|i: int| 0 <= i < at ==> lex_lt(#[trigger] before[i], text@),
        decreases listing.len() - at,
    {
        match text_order(listing[at].as_str(), text) {
            TextOrder::Before => {
                at += 1;
            },
            TextOrder::Same => {
                assert(before[at as int] == text@);
                assert(before.contains(text@));
                return ;
            },
            TextOrder::After => {
                proof {
                    lemma_insert_keeps_order(before, at as int, text@);
                }
                listing.insert(at, text.to_owned());
                assert(listing.deep_view() =~= before.insert(at as int, text@));
                return ;
            },
        }
    }
    proof {
        lemma_insert_keeps_order(before, at as int, text@);
    }
    listing.insert(at, text.to_owned());
    assert(listing.deep_view() =~= before.insert(at as int, text@));
}

} // verus!
