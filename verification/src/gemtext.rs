//! Gemtext rendering of a resource's properties, in two layouts (one line
//! per property, or properties grouped under their predicate) and two
//! modes (links as they stand, or web links routed back through the
//! proxy).

use crate::encoding::{percent_encode, percent_encoded};
use crate::order::{
    insert_sorted, lemma_listing_step, lemma_sorted_distinct, lemma_sorted_distinct_unique,
    lists_sorted_distinct, sorted_distinct, strictly_increasing, text_eq,
};
use crate::text::{decimal, push_decimal, starts_with};
use vstd::prelude::*;
use vstd::string::*;

verus! {

/// An object that begins with `http://` or `https://`.
pub open spec fn is_web_url(object: Seq<char>) -> bool {
    "http://"@.is_prefix_of(object) || "https://"@.is_prefix_of(object)
}

/// An object that is rendered as a link: one that begins with
/// `gemini://`, `http://` or `https://`. Nothing more is asked of it.
pub open spec fn is_url(object: Seq<char>) -> bool {
    "gemini://"@.is_prefix_of(object) || is_web_url(object)
}

/// Where the link for `object` leads. In proxy mode a web URL leads to
/// this server's proxy endpoint, with the percent-encoded URL as the path;
/// any other link leads to the object itself.
pub open spec fn link_target(object: Seq<char>, proxy: bool) -> Seq<char> {
    if proxy && is_web_url(object) {
        "gemini://localhost/"@ + percent_encoded(object)
    } else {
        object
    }
}

/// The line for one property in the expanded layout.
pub open spec fn expanded_line(predicate: Seq<char>, object: Seq<char>, proxy: bool) -> Seq<char> {
    if is_url(object) {
        "=> "@ + link_target(object, proxy) + " "@ + predicate + " : "@ + object + "\n"@
    } else {
        "* "@ + predicate + ": "@ + object + "\n"@
    }
}

/// The line for one object under its predicate's heading in the condensed
/// layout.
pub open spec fn condensed_line(object: Seq<char>, proxy: bool) -> Seq<char> {
    if is_url(object) {
        if proxy && is_web_url(object) {
            "=> "@ + link_target(object, proxy) + " "@ + object + "\n"@
        } else {
            "=> "@ + object + "\n"@
        }
    } else {
        "* "@ + object + "\n"@
    }
}

/// `expanded_line` of a property, as a function to map with.
pub open spec fn expanded_line_of(proxy: bool) -> spec_fn((Seq<char>, Seq<char>)) -> Seq<char> {
    |property: (Seq<char>, Seq<char>)| expanded_line(property.0, property.1, proxy)
}

/// `condensed_line` of an object, as a function to map with.
pub open spec fn condensed_line_of(proxy: bool) -> spec_fn(Seq<char>) -> Seq<char> {
    |object: Seq<char>| condensed_line(object, proxy)
}

/// The expanded layout: the line of each property, in the order of the
/// properties.
pub open spec fn expanded_text(properties: Seq<(Seq<char>, Seq<char>)>, proxy: bool) -> Seq<char> {
    properties.map_values(expanded_line_of(proxy)).flatten()
}

/// The predicate of a property.
pub open spec fn predicate_of() -> spec_fn((Seq<char>, Seq<char>)) -> Seq<char> {
    |property: (Seq<char>, Seq<char>)| property.0
}

/// The object of a property.
pub open spec fn object_of() -> spec_fn((Seq<char>, Seq<char>)) -> Seq<char> {
    |property: (Seq<char>, Seq<char>)| property.1
}

/// The test that picks the properties with the given predicate.
pub open spec fn has_predicate(predicate: Seq<char>) -> spec_fn((Seq<char>, Seq<char>)) -> bool {
    |property: (Seq<char>, Seq<char>)| property.0 == predicate
}

/// The headings of the condensed layout: the distinct predicates of the
/// properties, in lexicographic order.
pub open spec fn headings(properties: Seq<(Seq<char>, Seq<char>)>) -> Seq<Seq<char>> {
    sorted_distinct(properties.map_values(predicate_of()))
}

/// The objects that the properties give for `predicate`, in the order of
/// the properties.
pub open spec fn objects_under(properties: Seq<(Seq<char>, Seq<char>)>, predicate: Seq<char>) -> Seq<
    Seq<char>,
> {
    properties.filter(has_predicate(predicate)).map_values(object_of())
}

/// One group of the condensed layout: the heading for `predicate`, the
/// line of each of its objects, and a blank line.
pub open spec fn group_text(
    properties: Seq<(Seq<char>, Seq<char>)>,
    predicate: Seq<char>,
    proxy: bool,
) -> Seq<char> {
    "## "@ + predicate + "\n"@ + objects_under(properties, predicate).map_values(
        condensed_line_of(proxy),
    ).flatten() + "\n"@
}

/// `group_text` of a predicate, as a function to map with.
pub open spec fn group_text_of(properties: Seq<(Seq<char>, Seq<char>)>, proxy: bool) -> spec_fn(
    Seq<char>,
) -> Seq<char> {
    |predicate: Seq<char>| group_text(properties, predicate, proxy)
}

/// The condensed layout: one group for each heading, in the order of the
/// headings.
pub open spec fn condensed_text(properties: Seq<(Seq<char>, Seq<char>)>, proxy: bool) -> Seq<char> {
    headings(properties).map_values(group_text_of(properties, proxy)).flatten()
}

/// The properties in the asked layout.
pub open spec fn properties_text(
    properties: Seq<(Seq<char>, Seq<char>)>,
    condensed: bool,
    proxy: bool,
) -> Seq<char> {
    if condensed {
        condensed_text(properties, proxy)
    } else {
        expanded_text(properties, proxy)
    }
}

/// The body that answers a local lookup with at least one property.
pub open spec fn resource_response(
    iri: Seq<char>,
    properties: Seq<(Seq<char>, Seq<char>)>,
    condensed: bool,
) -> Seq<char> {
    "# Resource: "@ + iri + "\n\n"@ + properties_text(properties, condensed, false)
        + "\n=> gemini://localhost/ Home\n"@
}

/// The body that answers a proxy lookup with at least one property.
pub open spec fn proxy_response(
    url: Seq<char>,
    properties: Seq<(Seq<char>, Seq<char>)>,
    condensed: bool,
) -> Seq<char> {
    "# Proxy: "@ + url + "\n\n"@ + properties_text(properties, condensed, true)
}

/// The body that answers a local lookup without properties.
pub open spec fn not_found_response(iri: Seq<char>) -> Seq<char> {
    "# Not Found\r\n\r\nResource not found in graph:\n=> "@ + iri + "\n"@
}

/// The bullet line for a subject in the debug listing.
pub open spec fn subject_line() -> spec_fn(Seq<char>) -> Seq<char> {
    |subject: Seq<char>| "* "@ + subject + "\n"@
}

/// The body that answers a proxy lookup whose document says nothing of
/// the requested IRI: the number of triples fetched and their subjects.
pub open spec fn debug_response(iri: Seq<char>, triple_count: nat, subjects: Seq<Seq<char>>) -> Seq<
    char,
> {
    "# No Data Found for "@ + iri + "\r\n\r\nLoaded "@ + decimal(triple_count)
        + " triples.\n\n## Available Subjects:\n"@ + subjects.map_values(subject_line()).flatten()
}

/// The body that reports a failure: a title and a message.
pub open spec fn error_response(title: Seq<char>, message: Seq<char>) -> Seq<char> {
    "# "@ + title + "\r\n\r\n"@ + message + "\n"@
}

/// A complete response: the success status line and the body.
pub open spec fn gemini_response(body: Seq<char>) -> Seq<char> {
    "20 text/gemini\r\n"@ + body
}

/// One more property adds its object under its own predicate and leaves
/// every other group as it was.
pub proof fn lemma_objects_under_push(
    properties: Seq<(Seq<char>, Seq<char>)>,
    property: (Seq<char>, Seq<char>),
    predicate: Seq<char>,
)
    ensures
        objects_under(properties.push(property), predicate) == if property.0 == predicate {
            objects_under(properties, predicate).push(property.1)
        } else {
            objects_under(properties, predicate)
        },
{
    properties.lemma_filter_push(property, has_predicate(predicate));
    if property.0 == predicate {
        let kept = properties.filter(has_predicate(predicate));
        assert(kept.push(property).map_values(object_of()) =~= kept.map_values(object_of()).push(
            property.1,
        ));
    }
}

/// The headings are strictly increasing in lexicographic order, so none
/// occurs twice, and they are exactly the predicates of the properties.
pub proof fn lemma_headings(properties: Seq<(Seq<char>, Seq<char>)>)
    ensures
        strictly_increasing(headings(properties)),
        forall|predicate: Seq<char>|
            headings(properties).contains(predicate) <==> exists|i: int|
                0 <= i < properties.len() && (#[trigger] properties[i]).0 == predicate,
{
    let predicates = properties.map_values(predicate_of());
    lemma_sorted_distinct(predicates);
    assert forall|predicate: Seq<char>|
        headings(properties).contains(predicate) <==> exists|i: int|
            0 <= i < properties.len() && (#[trigger] properties[i]).0 == predicate by {
        if headings(properties).contains(predicate) {
            assert(predicates.contains(predicate));
            let i = choose|i: int| 0 <= i < predicates.len() && predicates[i] == predicate;
            assert(properties[i].0 == predicate);
        }
        if exists|i: int| 0 <= i < properties.len() && (#[trigger] properties[i]).0 == predicate {
            let i = choose|i: int| 0 <= i < properties.len() && (#[trigger] properties[i]).0
                == predicate;
            assert(predicates[i] == predicate);
            assert(predicates.contains(predicate));
        }
    }
}

/// An object that begins with `gemini://`, `http://` or `https://` gives
/// a link line, in either layout and either mode, and any other object a
/// bullet line. A link leads to the object itself, except that in proxy
/// mode the link for a web URL leads to `gemini://localhost/` followed by
/// the percent-encoded URL.
pub proof fn lemma_link_or_bullet(predicate: Seq<char>, object: Seq<char>, proxy: bool)
    ensures
        is_url(object) ==> ("=> "@ + link_target(object, proxy)).is_prefix_of(
            expanded_line(predicate, object, proxy),
        ),
        is_url(object) ==> ("=> "@ + link_target(object, proxy)).is_prefix_of(
            condensed_line(object, proxy),
        ),
        !is_url(object) ==> expanded_line(predicate, object, proxy) == "* "@ + predicate + ": "@
            + object + "\n"@,
        !is_url(object) ==> condensed_line(object, proxy) == "* "@ + object + "\n"@,
        link_target(object, proxy) == if proxy && is_web_url(object) {
            "gemini://localhost/"@ + percent_encoded(object)
        } else {
            object
        },
{
    if is_url(object) {
        let link = "=> "@ + link_target(object, proxy);
        assert(expanded_line(predicate, object, proxy).subrange(0, link.len() as int) =~= link);
        assert(condensed_line(object, proxy).subrange(0, link.len() as int) =~= link);
    }
}

/// Whether `object` begins with `http://` or `https://`.
fn is_web_url_text(object: &str) -> (r: bool)
    ensures
        r == is_web_url(object@),
{
    starts_with(object, "http://") || starts_with(object, "https://")
}

/// Whether `object` is rendered as a link.
fn is_url_text(object: &str) -> (r: bool)
    ensures
        r == is_url(object@),
{
    starts_with(object, "gemini://") || is_web_url_text(object)
}

/// Appends to `out` where the link for `object` leads.
fn push_link_target(out: &mut String, object: &str, proxy: bool)
    ensures
        final(out)@ == old(out)@ + link_target(object@, proxy),
{
    if proxy && is_web_url_text(object) {
        out.append("gemini://localhost/");
        let encoded = percent_encode(object);
        out.append(encoded.as_str());
        assert(out@ =~= old(out)@ + link_target(object@, proxy));
    } else {
        out.append(object);
    }
}

/// A link line that leads to `object` itself and shows the predicate and
/// the object.
pub fn format_link(predicate: &str, object: &str) -> (line: String)
    ensures
        line@ == "=> "@ + object@ + " "@ + predicate@ + " : "@ + object@ + "\n"@,
{
    let mut line = String::new();
    line.append("=> ");
    line.append(object);
    line.append(" ");
    line.append(predicate);
    line.append(" : ");
    line.append(object);
    line.append("\n");
    assert(line@ =~= "=> "@ + object@ + " "@ + predicate@ + " : "@ + object@ + "\n"@);
    line
}

/// The line for one property in the expanded layout.
fn format_expanded_line(predicate: &str, object: &str, proxy: bool) -> (line: String)
    ensures
        line@ == expanded_line(predicate@, object@, proxy),
{
    if is_url_text(object) {
        if proxy && is_web_url_text(object) {
            let mut line = String::new();
            line.append("=> ");
            push_link_target(&mut line, object, proxy);
            line.append(" ");
            line.append(predicate);
            line.append(" : ");
            line.append(object);
            line.append("\n");
            assert(line@ =~= expanded_line(predicate@, object@, proxy));
            line
        } else {
            format_link(predicate, object)
        }
    } else {
        let mut line = String::new();
        line.append("* ");
        line.append(predicate);
        line.append(": ");
        line.append(object);
        line.append("\n");
        assert(line@ =~= expanded_line(predicate@, object@, proxy));
        line
    }
}

/// The expanded layout of `properties`.
fn format_expanded(properties: &[(String, String)], proxy: bool) -> (out: String)
    ensures
        out@ == expanded_text(properties.deep_view(), proxy),
{
    let ghost all = properties.deep_view();
    let mut out = String::new();
    let mut i: usize = 0;
    assert(all.take(0).map_values(expanded_line_of(proxy)) =~= Seq::<Seq<char>>::empty());
    while i < properties.len()
        invariant
            0 <= i <= properties.len(),
            all == properties.deep_view(),
            out@ == expanded_text(all.take(i as int), proxy),
        decreases properties.len() - i,
    {
        let property = &properties[i];
        let line = format_expanded_line(property.0.as_str(), property.1.as_str(), proxy);
        out.append(line.as_str());
        proof {
            let seen = all.take(i as int);
            assert(all.take(i + 1) =~= seen.push(all[i as int]));
            assert(seen.push(all[i as int]).map_values(expanded_line_of(proxy)) =~= seen.map_values(
                expanded_line_of(proxy),
            ).push(line@));
            seen.map_values(expanded_line_of(proxy)).lemma_flatten_push(line@);
        }
        i += 1;
    }
    assert(all.take(i as int) =~= all);
    out
}

/// The expanded layout of `properties`, links as they stand.
pub fn format_properties_expanded(properties: &[(String, String)]) -> (out: String)
    ensures
        out@ == expanded_text(properties.deep_view(), false),
{
    format_expanded(properties, false)
}

/// The expanded layout of `properties`, web links routed through the
/// proxy.
pub fn format_proxy_properties_expanded(properties: &[(String, String)]) -> (out: String)
    ensures
        out@ == expanded_text(properties.deep_view(), true),
{
    format_expanded(properties, true)
}

/// The line for one object in the condensed layout.
fn format_condensed_line(object: &str, proxy: bool) -> (line: String)
    ensures
        line@ == condensed_line(object@, proxy),
{
    let mut line = String::new();
    if is_url_text(object) {
        line.append("=> ");
        if proxy && is_web_url_text(object) {
            push_link_target(&mut line, object, proxy);
            line.append(" ");
        }
        line.append(object);
    } else {
        line.append("* ");
        line.append(object);
    }
    line.append("\n");
    assert(line@ =~= condensed_line(object@, proxy));
    line
}

/// The group of the condensed layout for `predicate`.
fn format_group(properties: &[(String, String)], predicate: &str, proxy: bool) -> (group: String)
    ensures
        group@ == group_text(properties.deep_view(), predicate@, proxy),
{
    let ghost all = properties.deep_view();
    let mut group = String::new();
    group.append("## ");
    group.append(predicate);
    group.append("\n");
    let ghost heading = group@;
    let mut i: usize = 0;
    proof {
        reveal(Seq::filter);
        assert(objects_under(all.take(0), predicate@) =~= Seq::<Seq<char>>::empty());
        assert(objects_under(all.take(0), predicate@).map_values(condensed_line_of(proxy))
            =~= Seq::<Seq<char>>::empty());
        assert(group@ =~= heading + Seq::<Seq<char>>::empty().flatten());
    }
    while i < properties.len()
        invariant
            0 <= i <= properties.len(),
            all == properties.deep_view(),
            heading == "## "@ + predicate@ + "\n"@,
            group@ == heading + objects_under(all.take(i as int), predicate@).map_values(
                condensed_line_of(proxy),
            ).flatten(),
        decreases properties.len() - i,
    {
        let property = &properties[i];
        proof {
            assert(all.take(i + 1) =~= all.take(i as int).push(all[i as int]));
            lemma_objects_under_push(all.take(i as int), all[i as int], predicate@);
        }
        if text_eq(property.0.as_str(), predicate) {
            let line = format_condensed_line(property.1.as_str(), proxy);
            group.append(line.as_str());
            proof {
                let objects = objects_under(all.take(i as int), predicate@);
                assert(objects.push(all[i as int].1).map_values(condensed_line_of(proxy))
                    =~= objects.map_values(condensed_line_of(proxy)).push(line@));
                objects.map_values(condensed_line_of(proxy)).lemma_flatten_push(line@);
                assert(group@ =~= heading + objects.push(all[i as int].1).map_values(
                    condensed_line_of(proxy),
                ).flatten());
            }
        }
        i += 1;
    }
    assert(all.take(i as int) =~= all);
    group.append("\n");
    group
}

/// The headings of the condensed layout of `properties`.
fn heading_list(properties: &[(String, String)]) -> (listing: Vec<String>)
    ensures
        listing.deep_view() == headings(properties.deep_view()),
{
    let ghost predicates = properties.deep_view().map_values(predicate_of());
    let mut listing: Vec<String> = Vec::new();
    let mut i: usize = 0;
    assert(lists_sorted_distinct(listing.deep_view(), predicates.take(0)));
    while i < properties.len()
        invariant
            0 <= i <= properties.len(),
            predicates == properties.deep_view().map_values(predicate_of()),
            lists_sorted_distinct(listing.deep_view(), predicates.take(i as int)),
        decreases properties.len() - i,
    {
        let ghost before = listing.deep_view();
        insert_sorted(&mut listing, properties[i].0.as_str());
        proof {
            assert(predicates.take(i + 1) =~= predicates.take(i as int).push(
                predicates[i as int],
            ));
            lemma_listing_step(
                before,
                listing.deep_view(),
                predicates.take(i as int),
                predicates[i as int],
            );
        }
        i += 1;
    }
    proof {
        assert(predicates.take(i as int) =~= predicates);
        lemma_sorted_distinct(predicates);
        lemma_sorted_distinct_unique(listing.deep_view(), sorted_distinct(predicates));
    }
    listing
}

/// The condensed layout of `properties`.
fn format_condensed(properties: &[(String, String)], proxy: bool) -> (out: String)
    ensures
        out@ == condensed_text(properties.deep_view(), proxy),
{
    let ghost all = properties.deep_view();
    let listing = heading_list(properties);
    let mut out = String::new();
    let mut k: usize = 0;
    assert(listing.deep_view().take(0).map_values(group_text_of(all, proxy)) =~= Seq::<
        Seq<char>,
    >::empty());
    while k < listing.len()
        invariant
            0 <= k <= listing.len(),
            all == properties.deep_view(),
            listing.deep_view() == headings(all),
            out@ == listing.deep_view().take(k as int).map_values(
                group_text_of(all, proxy),
            ).flatten(),
        decreases listing.len() - k,
    {
        let group = format_group(properties, listing[k].as_str(), proxy);
        out.append(group.as_str());
        proof {
            let done = listing.deep_view().take(k as int);
            let heading = listing.deep_view()[k as int];
            assert(listing.deep_view().take(k + 1) =~= done.push(heading));
            assert(done.push(heading).map_values(group_text_of(all, proxy)) =~= done.map_values(
                group_text_of(all, proxy),
            ).push(group@));
            done.map_values(group_text_of(all, proxy)).lemma_flatten_push(group@);
        }
        k += 1;
    }
    assert(listing.deep_view().take(k as int) =~= listing.deep_view());
    out
}

/// The condensed layout of `properties`, links as they stand.
pub fn format_properties_condensed(properties: &[(String, String)]) -> (out: String)
    ensures
        out@ == condensed_text(properties.deep_view(), false),
{
    format_condensed(properties, false)
}

/// The condensed layout of `properties`, web links routed through the
/// proxy.
pub fn format_proxy_properties_condensed(properties: &[(String, String)]) -> (out: String)
    ensures
        out@ == condensed_text(properties.deep_view(), true),
{
    format_condensed(properties, true)
}

/// The body for a resource of the local graph: a header that names it, its
/// properties in the asked layout, and a link back to the root.
pub fn generate_resource_response(
    resource_iri: &str,
    properties: &[(String, String)],
    condensed: bool,
) -> (body: String)
    ensures
        body@ == resource_response(resource_iri@, properties.deep_view(), condensed),
{
    let mut body = String::new();
    body.append("# Resource: ");
    body.append(resource_iri);
    body.append("\n\n");
    let formatted = if condensed {
        format_properties_condensed(properties)
    } else {
        format_properties_expanded(properties)
    };
    body.append(formatted.as_str());
    body.append("\n=> gemini://localhost/ Home\n");
    assert(body@ =~= resource_response(resource_iri@, properties.deep_view(), condensed));
    body
}

/// The body for a resource described by a fetched document: a header that
/// names the URL, and its properties in the asked layout with web links
/// routed through the proxy.
pub fn generate_proxy_response(
    url: &str,
    properties: &[(String, String)],
    condensed: bool,
) -> (body: String)
    ensures
        body@ == proxy_response(url@, properties.deep_view(), condensed),
{
    let mut body = String::new();
    body.append("# Proxy: ");
    body.append(url);
    body.append("\n\n");
    let formatted = if condensed {
        format_proxy_properties_condensed(properties)
    } else {
        format_proxy_properties_expanded(properties)
    };
    body.append(formatted.as_str());
    assert(body@ =~= proxy_response(url@, properties.deep_view(), condensed));
    body
}

/// The body for a resource that the local graph says nothing of.
pub fn generate_not_found_response(resource_iri: &str) -> (body: String)
    ensures
        body@ == not_found_response(resource_iri@),
{
    let mut body = String::new();
    body.append("# Not Found\r\n\r\nResource not found in graph:\n=> ");
    body.append(resource_iri);
    body.append("\n");
    body
}

/// The body for a fetched document that says nothing of the requested
/// IRI: how many triples it held, and their subjects.
pub fn generate_debug_response(requested_iri: &str, triple_count: usize, subjects: Vec<String>) -> (body:
    String)
    ensures
        body@ == debug_response(requested_iri@, triple_count as nat, subjects.deep_view()),
{
    let ghost all = subjects.deep_view();
    let mut body = String::new();
    body.append("# No Data Found for ");
    body.append(requested_iri);
    body.append("\r\n\r\nLoaded ");
    push_decimal(&mut body, triple_count as u64);
    body.append(" triples.\n\n## Available Subjects:\n");
    let ghost head = body@;
    let mut i: usize = 0;
    proof {
        assert(all.take(0).map_values(subject_line()) =~= Seq::<Seq<char>>::empty());
        assert(body@ =~= head + all.take(0).map_values(subject_line()).flatten());
    }
    while i < subjects.len()
        invariant
            0 <= i <= subjects.len(),
            all == subjects.deep_view(),
            body@ == head + all.take(i as int).map_values(subject_line()).flatten(),
        decreases subjects.len() - i,
    {
        let ghost before = body@;
        body.append("* ");
        body.append(subjects[i].as_str());
        body.append("\n");
        proof {
            let seen = all.take(i as int);
            let line = "* "@ + all[i as int] + "\n"@;
            assert(all.take(i + 1) =~= seen.push(all[i as int]));
            assert(seen.push(all[i as int]).map_values(subject_line()) =~= seen.map_values(
                subject_line(),
            ).push(line));
            seen.map_values(subject_line()).lemma_flatten_push(line);
            assert(body@ =~= before + line);
        }
        i += 1;
    }
    assert(all.take(i as int) =~= all);
    body
}

/// The body that reports a failure.
pub fn generate_error_response(title: &str, message: &str) -> (body: String)
    ensures
        body@ == error_response(title@, message@),
{
    let mut body = String::new();
    body.append("# ");
    body.append(title);
    body.append("\r\n\r\n");
    body.append(message);
    body.append("\n");
    body
}

/// A complete response: the status line `20 text/gemini` and the body.
pub fn format_gemini_response(body: &str) -> (response: String)
    ensures
        response@ == gemini_response(body@),
{
    let mut response = String::new();
    response.append("20 text/gemini\r\n");
    response.append(body);
    response
}

} // verus!
