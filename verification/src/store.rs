//! The triple store: an append-only sequence of triples of texts, queried
//! by subject.

use crate::order::{
    insert_sorted, lemma_listing_step, lemma_sorted_distinct, lemma_sorted_distinct_unique,
    lists_sorted_distinct, sorted_distinct, text_eq,
};
use crate::turtle::{parse, turtle_triples, ParseError};
use vstd::prelude::*;
use vstd::string::*;

verus! {

/// The test that picks the triples about `subject`.
pub open spec fn is_about(subject: Seq<char>) -> spec_fn((Seq<char>, Seq<char>, Seq<char>)) -> bool {
    |t: (Seq<char>, Seq<char>, Seq<char>)| t.0 == subject
}

/// The predicate and object of a triple.
pub open spec fn property_of() -> spec_fn((Seq<char>, Seq<char>, Seq<char>)) -> (
    Seq<char>,
    Seq<char>,
) {
    |t: (Seq<char>, Seq<char>, Seq<char>)| (t.1, t.2)
}

/// The subject of a triple.
pub open spec fn subject_of() -> spec_fn((Seq<char>, Seq<char>, Seq<char>)) -> Seq<char> {
    |t: (Seq<char>, Seq<char>, Seq<char>)| t.0
}

/// The `(predicate, object)` pairs of the triples whose subject is exactly
/// `subject`, in the order of the triples.
pub open spec fn describe(triples: Seq<(Seq<char>, Seq<char>, Seq<char>)>, subject: Seq<char>) -> Seq<
    (Seq<char>, Seq<char>),
> {
    triples.filter(is_about(subject)).map_values(property_of())
}

/// The subjects of the triples, in their order and as often as they occur.
pub open spec fn subjects(triples: Seq<(Seq<char>, Seq<char>, Seq<char>)>) -> Seq<Seq<char>> {
    triples.map_values(subject_of())
}

/// One more triple adds its property to the description of its own
/// subject and leaves every other description as it was.
pub proof fn lemma_describe_push(
    triples: Seq<(Seq<char>, Seq<char>, Seq<char>)>,
    triple: (Seq<char>, Seq<char>, Seq<char>),
    subject: Seq<char>,
)
    ensures
        describe(triples.push(triple), subject) == if triple.0 == subject {
            describe(triples, subject).push((triple.1, triple.2))
        } else {
            describe(triples, subject)
        },
{
    triples.lemma_filter_push(triple, is_about(subject));
    if triple.0 == subject {
        let kept = triples.filter(is_about(subject));
        assert(kept.push(triple).map_values(property_of()) =~= kept.map_values(property_of()).push(
            (triple.1, triple.2),
        ));
    }
}

/// A subject that no triple has is described by the empty sequence.
pub proof fn lemma_describe_absent(
    triples: Seq<(Seq<char>, Seq<char>, Seq<char>)>,
    subject: Seq<char>,
)
    requires
        forall|i: int| 0 <= i < triples.len() ==> (#[trigger] triples[i]).0 != subject,
    ensures
        describe(triples, subject) == Seq::<(Seq<char>, Seq<char>)>::empty(),
    decreases triples.len(),
{
    if triples.len() == 0 {
        reveal(Seq::filter);
        assert(describe(triples, subject) =~= Seq::<(Seq<char>, Seq<char>)>::empty());
    } else {
        let rest = triples.drop_last();
        assert forall|i: int| 0 <= i < rest.len() implies (#[trigger] rest[i]).0 != subject by {
            assert(rest[i] == triples[i]);
        }
        lemma_describe_absent(rest, subject);
        assert(triples =~= rest.push(triples.last()));
        lemma_describe_push(rest, triples.last(), subject);
    }
}

/// The description of a subject holds the property `(p, o)` exactly as
/// often as the triples hold `(subject, p, o)`: every stored triple shows
/// in the description of its subject, and a triple stored twice shows
/// twice.
pub proof fn lemma_describe_counts(
    triples: Seq<(Seq<char>, Seq<char>, Seq<char>)>,
    subject: Seq<char>,
    predicate: Seq<char>,
    object: Seq<char>,
)
    ensures
        describe(triples, subject).to_multiset().count((predicate, object))
            == triples.to_multiset().count((subject, predicate, object)),
    decreases triples.len(),
{
    broadcast use vstd::multiset::group_multiset_axioms;
    if triples.len() == 0 {
        lemma_describe_absent(triples, subject);
        triples.to_multiset_ensures();
        describe(triples, subject).to_multiset_ensures();
    } else {
        let rest = triples.drop_last();
        let last = triples.last();
        lemma_describe_counts(rest, subject, predicate, object);
        assert(triples =~= rest.push(last));
        lemma_describe_push(rest, last, subject);
        vstd::seq_lib::to_multiset_build(rest, last);
        if last.0 == subject {
            vstd::seq_lib::to_multiset_build(describe(rest, subject), (last.1, last.2));
        }
    }
}

/// Every stored triple shows in the description of its subject.
pub proof fn lemma_describe_contains(triples: Seq<(Seq<char>, Seq<char>, Seq<char>)>, i: int)
    requires
        0 <= i < triples.len(),
    ensures
        describe(triples, triples[i].0).contains((triples[i].1, triples[i].2)),
{
    let t = triples[i];
    lemma_describe_counts(triples, t.0, t.1, t.2);
    triples.to_multiset_ensures();
    describe(triples, t.0).to_multiset_ensures();
    assert(triples.contains(t));
}

/// An in-memory collection of triples, each a subject, a predicate and an
/// object held as text. Triples are only ever added, at the end.
pub struct Store {
    triples: Vec<(String, String, String)>,
}

impl View for Store {
    type V = Seq<(Seq<char>, Seq<char>, Seq<char>)>;

    closed spec fn view(&self) -> Seq<(Seq<char>, Seq<char>, Seq<char>)> {
        self.triples.deep_view()
    }
}

impl Store {
    /// A store without triples.
    pub fn new() -> (store: Self)
        ensures
            store@ == Seq::<(Seq<char>, Seq<char>, Seq<char>)>::empty(),
    {
        let store = Store { triples: Vec::new() };
        assert(store@ =~= Seq::<(Seq<char>, Seq<char>, Seq<char>)>::empty());
        store
    }

    /// Appends `triples`, in their order, after those already held.
    pub fn extend(&mut self, triples: Vec<(String, String, String)>)
        ensures
            final(self)@ == old(self)@ + triples.deep_view(),
    {
        let mut triples = triples;
        let ghost added = triples.deep_view();
        self.triples.append(&mut triples);
        assert(self@ =~= old(self)@ + added);
    }

    /// Parses `content` as Turtle and appends the triples of the document.
    /// All or nothing: where the document is refused the store stays as
    /// it was and the diagnostic is returned.
    pub fn load_from_string(&mut self, content: &str) -> (loaded: Result<(), ParseError>)
        ensures
            match turtle_triples(content@) {
                Ok(triples) => loaded is Ok && final(self)@ == old(self)@ + triples,
                Err(diagnostic) => loaded matches Err(error) && error.message@ == diagnostic
                    && final(self)@ == old(self)@,
            },
    {
        match parse(content) {
            Ok(triples) => {
                self.extend(triples);
                Ok(())
            },
            Err(error) => Err(error),
        }
    }

    /// The number of triples held.
    pub fn triple_count(&self) -> (count: usize)
        ensures
            count == self@.len(),
    {
        self.triples.len()
    }

    /// Every `(predicate, object)` of the triples whose subject is exactly
    /// `iri`, in the order in which the triples were added. Empty when no
    /// triple has that subject.
    pub fn get_resource_description(&self, iri: &str) -> (properties: Vec<(String, String)>)
        ensures
            properties.deep_view() == describe(self@, iri@),
    {
        let mut results: Vec<(String, String)> = Vec::new();
        let mut i: usize = 0;
        proof {
            lemma_describe_absent(self@.take(0), iri@);
            assert(results.deep_view() =~= describe(self@.take(0), iri@));
        }
        while i < self.triples.len()
            invariant
                0 <= i <= self.triples.len(),
                results.deep_view() == describe(self@.take(i as int), iri@),
            decreases self.triples.len() - i,
        {
            let ghost before = results.deep_view();
            let triple = &self.triples[i];
            proof {
                assert(self@.take(i + 1) =~= self@.take(i as int).push(self@[i as int]));
                lemma_describe_push(self@.take(i as int), self@[i as int], iri@);
            }
            if text_eq(triple.0.as_str(), iri) {
                results.push((triple.1.clone(), triple.2.clone()));
                assert(results.deep_view() =~= before.push((triple.1@, triple.2@)));
            }
            i += 1;
        }
        assert(self@.take(i as int) =~= self@);
        results
    }

    /// The distinct subjects of the triples held, in lexicographic order.
    pub fn get_all_subjects(&self) -> (listing: Vec<String>)
        ensures
            listing.deep_view() == sorted_distinct(subjects(self@)),
            lists_sorted_distinct(listing.deep_view(), subjects(self@)),
    {
        let mut listing: Vec<String> = Vec::new();
        let mut i: usize = 0;
        assert(lists_sorted_distinct(listing.deep_view(), subjects(self@).take(0)));
        while i < self.triples.len()
            invariant
                0 <= i <= self.triples.len(),
                lists_sorted_distinct(listing.deep_view(), subjects(self@).take(i as int)),
            decreases self.triples.len() - i,
        {
            let ghost before = listing.deep_view();
            let ghost seen = subjects(self@).take(i as int);
            insert_sorted(&mut listing, self.triples[i].0.as_str());
            proof {
                assert(subjects(self@).take(i + 1) =~= seen.push(self@[i as int].0));
                lemma_listing_step(before, listing.deep_view(), seen, self@[i as int].0);
            }
            i += 1;
        }
        proof {
            assert(subjects(self@).take(i as int) =~= subjects(self@));
            lemma_sorted_distinct(subjects(self@));
            lemma_sorted_distinct_unique(listing.deep_view(), sorted_distinct(subjects(self@)));
        }
        listing
    }
}

} // verus!
