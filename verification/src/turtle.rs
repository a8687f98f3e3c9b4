//! Reading a Turtle document into triples of texts. The parsing itself is
//! `rio_turtle`'s; which text a term is stored under is decided here.

use crate::nesting::{annotation_depth, within_annotation_limit, ANNOTATION_LIMIT};
use rio_api::parser::TriplesParser;
use vstd::prelude::*;
use vstd::string::*;

verus! {

/// A triple as the parser hands it to its callback.
#[verifier::external_type_specification]
#[verifier::external_body]
pub struct ExTriple<'a>(rio_api::model::Triple<'a>);

/// A term of a parsed triple, reduced to what the store keeps of it.
pub enum Term {
    /// A named node, with its IRI.
    Iri(String),
    /// A blank node, with its identifier.
    Blank(String),
    /// A literal, with the parser's debug rendering of it (lexical form,
    /// language tag and datatype included).
    Literal(String),
    /// A quoted triple.
    Quoted,
}

/// A `Term`, with its text as a sequence of characters.
pub enum TermView {
    Iri(Seq<char>),
    Blank(Seq<char>),
    Literal(Seq<char>),
    Quoted,
}

impl View for Term {
    type V = TermView;

    open spec fn view(&self) -> TermView {
        match self {
            Term::Iri(iri) => TermView::Iri(iri@),
            Term::Blank(id) => TermView::Blank(id@),
            Term::Literal(rendering) => TermView::Literal(rendering@),
            Term::Quoted => TermView::Quoted,
        }
    }
}

impl DeepView for Term {
    type V = TermView;

    open spec fn deep_view(&self) -> TermView {
        self@
    }
}

impl TermView {
    /// The text that the store keeps for this term: the IRI of a named
    /// node, the identifier of a blank node, the rendering of a literal,
    /// and the word `triple` for a quoted triple.
    pub open spec fn text(self) -> Seq<char> {
        match self {
            TermView::Iri(iri) => iri,
            TermView::Blank(id) => id,
            TermView::Literal(rendering) => rendering,
            TermView::Quoted => "triple"@,
        }
    }
}

/// The three texts that the store keeps for a parsed triple.
pub open spec fn stored_texts() -> spec_fn((TermView, Seq<char>, TermView)) -> (
    Seq<char>,
    Seq<char>,
    Seq<char>,
) {
    |triple: (TermView, Seq<char>, TermView)| (triple.0.text(), triple.1, triple.2.text())
}

/// What is reported of a document that nests its annotations too deep.
pub open spec fn too_deep() -> Seq<char> {
    "the document nests annotations more than 128 deep"@
}

/// What the parser makes of a Turtle document: its triples in document
/// order, or its diagnostic where the document is not well-formed. It
/// stands for the outcome of `read_turtle`.
pub uninterp spec fn turtle_terms(text: Seq<char>) -> Result<
    Seq<(TermView, Seq<char>, TermView)>,
    Seq<char>,
>;

/// What a Turtle document holds for the store: the texts of its triples in
/// document order. A document that nests its annotations more than
/// `ANNOTATION_LIMIT` deep is refused unread; any other is refused where
/// the parser refuses it, with the parser's diagnostic.
pub open spec fn turtle_triples(text: Seq<char>) -> Result<
    Seq<(Seq<char>, Seq<char>, Seq<char>)>,
    Seq<char>,
> {
    if annotation_depth(text) > ANNOTATION_LIMIT {
        Err(too_deep())
    } else {
        match turtle_terms(text) {
            Ok(triples) => Ok(triples.map_values(stored_texts())),
            Err(diagnostic) => Err(diagnostic),
        }
    }
}

impl Term {
    /// The text that the store keeps for this term.
    pub fn to_text(&self) -> (text: String)
        ensures
            text@ == self@.text(),
    {
        match self {
            Term::Iri(iri) => iri.clone(),
            Term::Blank(id) => id.clone(),
            Term::Literal(rendering) => rendering.clone(),
            Term::Quoted => "triple".to_owned(),
        }
    }
}

/// Why a document could not be loaded.
pub struct ParseError {
    /// The parser's diagnostic.
    pub message: String,
}

/// Reads the subject of a `rio_api::model::Triple`: tells the variants of
/// its `Subject` apart and copies the IRI or the blank node identifier.
/// Nothing is claimed of the result.
#[verifier::external_body]
fn subject_term(triple: &rio_api::model::Triple<'_>) -> Term {
    match triple.subject {
        rio_api::model::Subject::NamedNode(node) => Term::Iri(node.iri.to_string()),
        rio_api::model::Subject::BlankNode(node) => Term::Blank(node.id.to_string()),
        rio_api::model::Subject::Triple(_) => Term::Quoted,
    }
}

/// Reads the predicate of a `rio_api::model::Triple`: copies its IRI.
/// Nothing is claimed of the result.
#[verifier::external_body]
fn predicate_iri(triple: &rio_api::model::Triple<'_>) -> String {
    triple.predicate.iri.to_string()
}

/// Reads the object of a `rio_api::model::Triple`: tells the variants of
/// its `Term` apart, copies the IRI or the blank node identifier, and
/// renders a literal with the `Debug` impl of `rio_api::model::Literal`.
/// Nothing is claimed of the result.
#[verifier::external_body]
fn object_term(triple: &rio_api::model::Triple<'_>) -> Term {
    match triple.object {
        rio_api::model::Term::NamedNode(node) => Term::Iri(node.iri.to_string()),
        rio_api::model::Term::BlankNode(node) => Term::Blank(node.id.to_string()),
        rio_api::model::Term::Literal(literal) => Term::Literal(format!("{:?}", literal)),
        rio_api::model::Term::Triple(_) => Term::Quoted,
    }
}

/// The terms of a triple that the parser reports.
fn read_triple(triple: &rio_api::model::Triple<'_>) -> (Term, String, Term) {
    (subject_term(triple), predicate_iri(triple), object_term(triple))
}

/// Runs `rio_turtle::TurtleParser` (built by `TurtleParser::new` without a
/// base IRI) over the whole of `text` with `TriplesParser::parse_all`, and
/// collects `read_triple` of each triple it reports; an error is returned
/// as the message that the `Display` impl of `rio_turtle::TurtleError`
/// writes. The contract claims that the outcome depends on `text` alone,
/// and names it `turtle_terms(text)`.
///
/// The parser recurses once for every annotation opened inside another
/// and does not count these levels, as it does for its other nestings. It
/// opens an annotation only at a `{|` and closes one only at a `|}` that
/// it meets outside comments, IRIs and strings, and `annotation_depth`
/// counts just these, so the call is made only for a text that nests its
/// annotations at most `ANNOTATION_LIMIT` deep.
#[verifier::external_body]
fn read_turtle(text: &str) -> (outcome: Result<Vec<(Term, String, Term)>, String>)
    requires
        annotation_depth(text@) <= ANNOTATION_LIMIT,
    ensures
        match outcome {
            Ok(triples) => turtle_terms(text@) == Ok::<
                Seq<(TermView, Seq<char>, TermView)>,
                Seq<char>,
            >(triples.deep_view()),
            Err(message) => turtle_terms(text@) == Err::<
                Seq<(TermView, Seq<char>, TermView)>,
                Seq<char>,
            >(message@),
        },
{
    let mut triples = Vec::new();
    let mut parser = rio_turtle::TurtleParser::new(text.as_bytes(), None);
    let parsed = parser.parse_all(
        &mut |triple| {
            triples.push(read_triple(&triple));
            Ok::<(), rio_turtle::TurtleError>(())
        },
    );
    match parsed {
        Ok(()) => Ok(triples),
        Err(error) => Err(error.to_string()),
    }
}

/// The texts that the store keeps for parsed triples.
pub fn texts_of(triples: &Vec<(Term, String, Term)>) -> (texts: Vec<(String, String, String)>)
    ensures
        texts.deep_view() == triples.deep_view().map_values(stored_texts()),
{
    let mut texts: Vec<(String, String, String)> = Vec::new();
    let mut i: usize = 0;
    while i < triples.len()
        invariant
            0 <= i <= triples.len(),
            texts.deep_view() == triples.deep_view().take(i as int).map_values(stored_texts()),
        decreases triples.len() - i,
    {
        let ghost before = texts.deep_view();
        let triple = &triples[i];
        texts.push((triple.0.to_text(), triple.1.clone(), triple.2.to_text()));
        proof {
            let all = triples.deep_view();
            assert(all.take(i + 1) =~= all.take(i as int).push(all[i as int]));
            assert(texts.deep_view() =~= before.push(stored_texts()(all[i as int])));
        }
        i += 1;
    }
    assert(triples.deep_view().take(i as int) =~= triples.deep_view());
    texts
}

/// Parses `text` as Turtle. On success the triples of the document, in
/// document order, each term as the text that the store keeps for it. A
/// document that nests its annotations more than `ANNOTATION_LIMIT` deep
/// is not handed to the parser; any other fails where the parser fails,
/// with the parser's diagnostic.
pub fn parse(text: &str) -> (parsed: Result<Vec<(String, String, String)>, ParseError>)
    ensures
        match parsed {
            Ok(triples) => turtle_triples(text@) == Ok::<
                Seq<(Seq<char>, Seq<char>, Seq<char>)>,
                Seq<char>,
            >(triples.deep_view()),
            Err(error) => turtle_triples(text@) == Err::<
                Seq<(Seq<char>, Seq<char>, Seq<char>)>,
                Seq<char>,
            >(error.message@),
        },
{
    if !within_annotation_limit(text) {
        return Err(
            ParseError {
                message: "the document nests annotations more than 128 deep".to_owned(),
            },
        );
    }
    match read_turtle(text) {
        Ok(triples) => Ok(texts_of(&triples)),
        Err(message) => Err(ParseError { message }),
    }
}

} // verus!
