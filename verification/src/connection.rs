//! What a connection does with a request, as decisions on plain values:
//! from the request line to a response or to a fetch, and from the outcome
//! of a fetch to a response. Reading, fetching and writing are the
//! caller's.

use crate::encoding::percent_decoded;
use crate::gemtext::{
    debug_response, error_response, format_gemini_response, gemini_response,
    generate_debug_response, generate_error_response, generate_not_found_response,
    generate_proxy_response, generate_resource_response, not_found_response, proxy_response,
    resource_response,
};
use crate::order::sorted_distinct;
use crate::request::{classified, classify, Request, RequestView};
use crate::store::{describe, subjects, Store};
use crate::text::{decimal, push_decimal, starts_with, trim, trimmed};
use crate::turtle::{turtle_triples, ParseError};
use vstd::prelude::*;
use vstd::string::*;

verus! {

/// What to do next for a connection.
pub enum Action {
    /// Send nothing and close.
    Close,
    /// Send this response and close.
    Respond { response: String },
    /// Fetch `url`, then answer with `respond_to_fetch`.
    Fetch { url: String, condensed: bool },
}

/// An `Action`, with its texts as sequences of characters.
pub enum ActionView {
    Close,
    Respond { response: Seq<char> },
    Fetch { url: Seq<char>, condensed: bool },
}

impl View for Action {
    type V = ActionView;

    open spec fn view(&self) -> ActionView {
        match self {
            Action::Close => ActionView::Close,
            Action::Respond { response } => ActionView::Respond { response: response@ },
            Action::Fetch { url, condensed } => ActionView::Fetch {
                url: url@,
                condensed: *condensed,
            },
        }
    }
}

/// How a fetch ended.
pub enum FetchOutcome {
    /// The remote server was not reached; `reason` says why.
    Failed { reason: String },
    /// The remote server answered with this status code and body.
    Answered { status: u16, body: String },
}

/// Whether an HTTP status code reports success.
pub open spec fn is_success(status: u16) -> bool {
    200 <= status < 300
}

/// The response to a lookup of `iri` in the local graph: the resource's
/// properties, or "not found" where the graph has none for it.
pub open spec fn local_reply(
    triples: Seq<(Seq<char>, Seq<char>, Seq<char>)>,
    iri: Seq<char>,
    condensed: bool,
) -> Seq<char> {
    let properties = describe(triples, iri);
    if properties.len() == 0 {
        gemini_response(not_found_response(iri))
    } else {
        gemini_response(resource_response(iri, properties, condensed))
    }
}

/// `url` under the other of the two web schemes: `http://` in place of a
/// leading `https://`, `https://` in place of a leading `http://`, and
/// `url` itself where it begins with neither.
pub open spec fn swapped_scheme(url: Seq<char>) -> Seq<char> {
    if "https://"@.is_prefix_of(url) {
        "http://"@ + url.skip("https://"@.len() as int)
    } else if "http://"@.is_prefix_of(url) {
        "https://"@ + url.skip("http://"@.len() as int)
    } else {
        url
    }
}

/// What a fetched graph says of `url`: its description, or where that is
/// empty its description under the other scheme.
pub open spec fn fetched_properties(
    triples: Seq<(Seq<char>, Seq<char>, Seq<char>)>,
    url: Seq<char>,
) -> Seq<(Seq<char>, Seq<char>)> {
    if describe(triples, url).len() > 0 {
        describe(triples, url)
    } else {
        describe(triples, swapped_scheme(url))
    }
}

/// The response to a proxy lookup of `url` in the graph fetched from it:
/// the properties found, or the debug listing of the graph where there
/// are none under either scheme.
pub open spec fn proxy_reply(
    triples: Seq<(Seq<char>, Seq<char>, Seq<char>)>,
    url: Seq<char>,
    condensed: bool,
) -> Seq<char> {
    let properties = fetched_properties(triples, url);
    if properties.len() == 0 {
        gemini_response(debug_response(url, triples.len(), sorted_distinct(subjects(triples))))
    } else {
        gemini_response(proxy_response(url, properties, condensed))
    }
}

/// The response that reports a fetch that did not reach the server.
pub open spec fn network_error_reply(reason: Seq<char>) -> Seq<char> {
    gemini_response(error_response("Network Error"@, reason))
}

/// The response that reports a fetch answered without success.
pub open spec fn fetch_error_reply(status: u16) -> Seq<char> {
    gemini_response(error_response("Fetch Error"@, "HTTP Status: "@ + decimal(status as nat)))
}

/// The response that reports a fetched document that is not well-formed.
pub open spec fn parse_error_reply(diagnostic: Seq<char>) -> Seq<char> {
    gemini_response(error_response("Error parsing RDF"@, diagnostic))
}

/// What to do for a request, from what was read (`raw`) and the
/// percent-decoded text of its line (`decoded`): nothing where nothing
/// was read; otherwise the line is `raw` without the white space around
/// it, and it asks either for a fetch or for a lookup in the local graph,
/// which is answered at once.
pub open spec fn action_for(
    triples: Seq<(Seq<char>, Seq<char>, Seq<char>)>,
    raw: Seq<char>,
    decoded: Seq<char>,
) -> ActionView {
    if raw.len() == 0 {
        ActionView::Close
    } else {
        match classified(trimmed(raw), decoded) {
            RequestView::ProxyFetch { url, condensed } => ActionView::Fetch { url, condensed },
            RequestView::LocalLookup { iri, condensed } => ActionView::Respond {
                response: local_reply(triples, iri, condensed),
            },
        }
    }
}

/// Whether an HTTP status code reports success.
pub fn status_is_success(status: u16) -> (success: bool)
    ensures
        success == is_success(status),
{
    200 <= status && status < 300
}

/// Answers a lookup of `iri` in the local graph.
pub fn respond_local(store: &Store, iri: &str, condensed: bool) -> (response: String)
    ensures
        response@ == local_reply(store@, iri@, condensed),
{
    let properties = store.get_resource_description(iri);
    let body = if properties.is_empty() {
        generate_not_found_response(iri)
    } else {
        generate_resource_response(iri, properties.as_slice(), condensed)
    };
    format_gemini_response(body.as_str())
}

/// `url` under the other of the two web schemes.
pub fn swap_scheme(url: &str) -> (swapped: String)
    ensures
        swapped@ == swapped_scheme(url@),
{
    let length = url.unicode_len();
    let mut swapped = String::new();
    if starts_with(url, "https://") {
        swapped.append("http://");
        swapped.append(url.substring_char("https://".unicode_len(), length));
    } else if starts_with(url, "http://") {
        swapped.append("https://");
        swapped.append(url.substring_char("http://".unicode_len(), length));
    } else {
        swapped.append(url);
    }
    assert(swapped@ =~= swapped_scheme(url@));
    swapped
}

/// Answers a proxy lookup of `url` from the graph fetched from it.
pub fn respond_from_graph(store: &Store, url: &str, condensed: bool) -> (response: String)
    ensures
        response@ == proxy_reply(store@, url@, condensed),
{
    let mut properties = store.get_resource_description(url);
    if properties.is_empty() {
        let other = swap_scheme(url);
        properties = store.get_resource_description(other.as_str());
    }
    let body = if properties.is_empty() {
        generate_debug_response(url, store.triple_count(), store.get_all_subjects())
    } else {
        generate_proxy_response(url, properties.as_slice(), condensed)
    };
    format_gemini_response(body.as_str())
}

/// Reports a fetch that did not reach the server.
pub fn respond_network_error(reason: &str) -> (response: String)
    ensures
        response@ == network_error_reply(reason@),
{
    let body = generate_error_response("Network Error", reason);
    format_gemini_response(body.as_str())
}

/// Reports a fetch answered without success.
pub fn respond_fetch_error(status: u16) -> (response: String)
    ensures
        response@ == fetch_error_reply(status),
{
    let mut message = String::new();
    message.append("HTTP Status: ");
    push_decimal(&mut message, status as u64);
    let body = generate_error_response("Fetch Error", message.as_str());
    format_gemini_response(body.as_str())
}

/// Reports a fetched document that is not well-formed.
pub fn respond_parse_error(error: &ParseError) -> (response: String)
    ensures
        response@ == parse_error_reply(error.message@),
{
    let body = generate_error_response("Error parsing RDF", error.message.as_str());
    format_gemini_response(body.as_str())
}

/// Answers a proxy request for `url` from the outcome of fetching it. A
/// fetch that failed, or was answered without success, is reported. A
/// body that was fetched is parsed as Turtle into a graph of its own, and
/// `url` is looked up in it; where the body is refused, that is reported
/// with the diagnostic.
pub fn respond_to_fetch(url: &str, condensed: bool, outcome: FetchOutcome) -> (response: String)
    ensures
        match outcome {
            FetchOutcome::Failed { reason } => response@ == network_error_reply(reason@),
            FetchOutcome::Answered { status, body } => if !is_success(status) {
                response@ == fetch_error_reply(status)
            } else {
                match turtle_triples(body@) {
                    Ok(triples) => response@ == proxy_reply(triples, url@, condensed),
                    Err(diagnostic) => response@ == parse_error_reply(diagnostic),
                }
            },
        },
{
    match outcome {
        FetchOutcome::Failed { reason } => respond_network_error(reason.as_str()),
        FetchOutcome::Answered { status, body } => {
            if !status_is_success(status) {
                respond_fetch_error(status)
            } else {
                let mut fetched = Store::new();
                match fetched.load_from_string(body.as_str()) {
                    Ok(()) => {
                        assert(fetched@ =~= turtle_triples(body@)->Ok_0);
                        respond_from_graph(&fetched, url, condensed)
                    },
                    Err(error) => respond_parse_error(&error),
                }
            }
        },
    }
}

/// Decides what to do for a request, from the text that was read. Nothing
/// read means nothing to send. Otherwise the request line is classified:
/// a web URL in its path is to be fetched, and anything else is looked up
/// in the local graph and answered.
pub fn respond_to_request(store: &Store, raw: &str) -> (action: Action)
    ensures
        action@ == action_for(store@, raw@, percent_decoded(trimmed(raw@))),
        !trimmed(raw@).contains('%') ==> action@ == action_for(store@, raw@, trimmed(raw@)),
{
    if raw.is_empty() {
        return Action::Close;
    }
    let line = trim(raw);
    match classify(line) {
        Request::ProxyFetch { url, condensed } => Action::Fetch { url, condensed },
        Request::LocalLookup { iri, condensed } => Action::Respond {
            response: respond_local(store, iri.as_str(), condensed),
        },
    }
}

} // verus!
