//! The request classifier: from the text of a request line to either a
//! lookup in the local graph or a fetch through the proxy.

use crate::encoding::{percent_decode, percent_decoded};
use crate::gemtext::is_web_url;
use crate::text::{
    contains, contains_text, find_char, first_index, replace_all, replaced, starts_with, to_chars,
};
use vstd::prelude::*;
use vstd::string::*;

verus! {

/// What a request asks for.
pub enum Request {
    /// Fetch the document at `url` and describe `url` from it.
    ProxyFetch { url: String, condensed: bool },
    /// Describe `iri` from the local graph.
    LocalLookup { iri: String, condensed: bool },
}

/// A `Request`, with its texts as sequences of characters.
pub enum RequestView {
    ProxyFetch { url: Seq<char>, condensed: bool },
    LocalLookup { iri: Seq<char>, condensed: bool },
}

impl View for Request {
    type V = RequestView;

    open spec fn view(&self) -> RequestView {
        match self {
            Request::ProxyFetch { url, condensed } => RequestView::ProxyFetch {
                url: url@,
                condensed: *condensed,
            },
            Request::LocalLookup { iri, condensed } => RequestView::LocalLookup {
                iri: iri@,
                condensed: *condensed,
            },
        }
    }
}

/// The request text up to its first `?`, or all of it where it has none.
pub open spec fn base_text(text: Seq<char>) -> Seq<char> {
    text.take(first_index(text, '?'))
}

/// The request text from its first `?` on, or nothing where it has none.
pub open spec fn query_text(text: Seq<char>) -> Seq<char> {
    text.skip(first_index(text, '?'))
}

/// Whether the request asks for the condensed layout: it has a query, and
/// `condensed=true` stands somewhere in it.
pub open spec fn wants_condensed(text: Seq<char>) -> bool {
    first_index(text, '?') < text.len() && contains_text(query_text(text), "condensed=true"@)
}

/// The path that a request text without its query names. Of a
/// `gemini://` URL it is what follows the host and port, from the first
/// `/` on, or `/` where there is none; any other text is taken as the
/// path. One leading `/` is then dropped.
pub open spec fn request_path(base: Seq<char>) -> Seq<char> {
    let path = if "gemini://"@.is_prefix_of(base) {
        let rest = base.skip("gemini://"@.len() as int);
        if first_index(rest, '/') < rest.len() {
            rest.skip(first_index(rest, '/'))
        } else {
            seq!['/']
        }
    } else {
        base
    };
    if path.len() > 0 && path[0] == '/' {
        path.skip(1)
    } else {
        path
    }
}

/// The subject under which the local graph knows what a request names:
/// the request text with `127.0.0.1` written as `localhost` and `:1965`
/// left out, and then without its query.
pub open spec fn lookup_iri(raw: Seq<char>) -> Seq<char> {
    base_text(replaced(replaced(raw, "127.0.0.1"@, "localhost"@), ":1965"@, ""@))
}

/// The classification of a request, from its text as received and that
/// text percent-decoded. The decoded text decides whether the path is a
/// web URL to fetch and which layout is asked for; the text as received
/// gives the subject of a local lookup.
pub open spec fn classified(raw: Seq<char>, decoded: Seq<char>) -> RequestView {
    let path = request_path(base_text(decoded));
    if is_web_url(path) {
        RequestView::ProxyFetch { url: path, condensed: wants_condensed(decoded) }
    } else {
        RequestView::LocalLookup { iri: lookup_iri(raw), condensed: wants_condensed(decoded) }
    }
}

/// Splits a request text at its first `?` and looks for the flag
/// `condensed=true` behind it. Returns the text before the `?` and
/// whether the flag is there.
pub fn parse_query_params(url: &str) -> (parts: (String, bool))
    ensures
        parts.0@ == base_text(url@),
        parts.1 == wants_condensed(url@),
{
    let chars = to_chars(url);
    let at = find_char(chars.as_slice(), '?');
    let base = url.substring_char(0, at).to_owned();
    if at < chars.len() {
        let query = to_chars(url.substring_char(at, chars.len()));
        let flag = to_chars("condensed=true");
        let condensed = contains(query.as_slice(), flag.as_slice());
        (base, condensed)
    } else {
        (base, false)
    }
}

/// The request text up to its first `?`.
pub fn base_of(text: &str) -> (base: &str)
    ensures
        base@ == base_text(text@),
{
    let chars = to_chars(text);
    let at = find_char(chars.as_slice(), '?');
    text.substring_char(0, at)
}

/// The path that a request text without its query names.
pub fn path_of(base: &str) -> (path: &str)
    ensures
        path@ == request_path(base@),
{
    let length = base.unicode_len();
    if starts_with(base, "gemini://") {
        let scheme = "gemini://".unicode_len();
        let rest = base.substring_char(scheme, length);
        let chars = to_chars(rest);
        let slash = find_char(chars.as_slice(), '/');
        if slash < chars.len() {
            let path = rest.substring_char(slash + 1, chars.len());
            assert(path@ =~= rest@.skip(slash as int).skip(1));
            path
        } else {
            let path = base.substring_char(length, length);
            assert(path@ =~= seq!['/'].skip(1));
            path
        }
    } else {
        proof {
            reveal_strlit("/");
        }
        if starts_with(base, "/") {
            assert(base@.subrange(0, 1)[0] == '/');
            let path = base.substring_char(1, length);
            assert(path@ =~= base@.skip(1));
            path
        } else {
            proof {
                if base@.len() > 0 && base@[0] == '/' {
                    assert(base@.subrange(0, 1) =~= "/"@);
                }
            }
            base
        }
    }
}

/// The subject under which the local graph knows what a request names.
pub fn lookup_iri_of(raw: &str) -> (iri: String)
    ensures
        iri@ == lookup_iri(raw@),
{
    let named = replace_all(raw, "127.0.0.1", "localhost");
    let bare = replace_all(named.as_str(), ":1965", "");
    base_of(bare.as_str()).to_owned()
}

/// Classifies a request from its text as received and that text
/// percent-decoded.
pub fn classify_decoded(raw: &str, decoded: &str) -> (request: Request)
    ensures
        request@ == classified(raw@, decoded@),
{
    let (base, condensed) = parse_query_params(decoded);
    let path = path_of(base.as_str());
    if starts_with(path, "http://") || starts_with(path, "https://") {
        Request::ProxyFetch { url: path.to_owned(), condensed }
    } else {
        Request::LocalLookup { iri: lookup_iri_of(raw), condensed }
    }
}

/// Classifies a request: percent-decodes its text and decides between a
/// fetch through the proxy and a lookup in the local graph. A text
/// without `%` is its own decoding.
pub fn classify(raw: &str) -> (request: Request)
    ensures
        request@ == classified(raw@, percent_decoded(raw@)),
        !raw@.contains('%') ==> request@ == classified(raw@, raw@),
{
    let decoded = percent_decode(raw);
    classify_decoded(raw, decoded.as_str())
}

} // verus!
