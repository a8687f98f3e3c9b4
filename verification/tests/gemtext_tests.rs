use chaykin::gemtext::{
    format_gemini_response, format_link, format_properties_condensed, format_properties_expanded,
    format_proxy_properties_condensed, format_proxy_properties_expanded, generate_debug_response,
    generate_error_response, generate_not_found_response, generate_proxy_response,
    generate_resource_response,
};

fn pair(p: &str, o: &str) -> (String, String) {
    (p.to_string(), o.to_string())
}

fn mixed() -> Vec<(String, String)> {
    vec![
        pair("http://schema.org/name", "\"Alice\""),
        pair("http://schema.org/knows", "gemini://localhost/bob"),
        pair("http://schema.org/url", "https://example.org/alice?x=1"),
        pair("http://schema.org/knows", "http://example.org/carol"),
        pair("http://schema.org/age", "42"),
    ]
}

#[test]
fn literal_object_is_a_bullet_line() {
    assert_eq!(format_properties_expanded(&[pair("p", "42")]), "* p: 42\n");
    assert_eq!(format_proxy_properties_expanded(&[pair("p", "42")]), "* p: 42\n");
}

#[test]
fn url_object_is_a_link_line() {
    assert_eq!(
        format_properties_expanded(&[pair("p", "http://example.org/x")]),
        "=> http://example.org/x p : http://example.org/x\n"
    );
    assert_eq!(
        format_properties_expanded(&[pair("p", "https://example.org/x")]),
        "=> https://example.org/x p : https://example.org/x\n"
    );
    assert_eq!(
        format_properties_expanded(&[pair("p", "gemini://localhost/x")]),
        "=> gemini://localhost/x p : gemini://localhost/x\n"
    );
}

#[test]
fn link_detection_is_a_prefix_test() {
    assert_eq!(format_properties_expanded(&[pair("p", "see http://example.org/")]), "* p: see http://example.org/\n");
    assert_eq!(format_properties_expanded(&[pair("p", "http")]), "* p: http\n");
    assert_eq!(format_properties_expanded(&[pair("p", "httpd")]), "* p: httpd\n");
    assert_eq!(format_properties_expanded(&[pair("p", "http:/x")]), "* p: http:/x\n");
    assert_eq!(format_properties_expanded(&[pair("p", "https:/")]), "* p: https:/\n");
    assert_eq!(format_properties_expanded(&[pair("p", "gemini:/x")]), "* p: gemini:/x\n");
    assert_eq!(format_properties_expanded(&[pair("p", "HTTP://x")]), "* p: HTTP://x\n");
    assert_eq!(format_properties_expanded(&[pair("p", "")]), "* p: \n");
    assert_eq!(format_properties_expanded(&[pair("p", "http://")]), "=> http:// p : http://\n");
    assert_eq!(
        format_properties_expanded(&[pair("p", "gemini://not a url at all")]),
        "=> gemini://not a url at all p : gemini://not a url at all\n"
    );
}

#[test]
fn proxy_mode_routes_web_links_through_the_proxy() {
    assert_eq!(
        format_proxy_properties_expanded(&[pair("p", "http://example.org/x")]),
        "=> gemini://localhost/http%3A%2F%2Fexample%2Eorg%2Fx p : http://example.org/x\n"
    );
    assert_eq!(
        format_proxy_properties_expanded(&[pair("p", "https://example.org/a b?c=d&e#f")]),
        "=> gemini://localhost/https%3A%2F%2Fexample%2Eorg%2Fa%20b%3Fc%3Dd%26e%23f p : https://example.org/a b?c=d&e#f\n"
    );
}

#[test]
fn proxy_mode_escapes_every_byte_that_is_no_letter_or_digit() {
    assert_eq!(
        format_proxy_properties_condensed(&[pair("p", "http://AZaz09-_.~\u{e9}\u{20ac}\u{1f600}\n%")]),
        "## p\n=> gemini://localhost/http%3A%2F%2FAZaz09%2D%5F%2E%7E%C3%A9%E2%82%AC%F0%9F%98%80%0A%25 http://AZaz09-_.~\u{e9}\u{20ac}\u{1f600}\n%\n\n"
    );
}

#[test]
fn proxy_mode_leaves_gemini_links_direct() {
    assert_eq!(
        format_proxy_properties_expanded(&[pair("p", "gemini://example.org/x")]),
        "=> gemini://example.org/x p : gemini://example.org/x\n"
    );
    assert_eq!(
        format_proxy_properties_condensed(&[pair("p", "gemini://example.org/x")]),
        "## p\n=> gemini://example.org/x\n\n"
    );
}

#[test]
fn format_link_shows_predicate_and_object() {
    assert_eq!(format_link("p", "gemini://h/x"), "=> gemini://h/x p : gemini://h/x\n");
    assert_eq!(format_link("", ""), "=>   : \n");
}

#[test]
fn expanded_layout_keeps_the_order_of_the_properties() {
    assert_eq!(
        format_properties_expanded(&mixed()),
        "* http://schema.org/name: \"Alice\"\n\
         => gemini://localhost/bob http://schema.org/knows : gemini://localhost/bob\n\
         => https://example.org/alice?x=1 http://schema.org/url : https://example.org/alice?x=1\n\
         => http://example.org/carol http://schema.org/knows : http://example.org/carol\n\
         * http://schema.org/age: 42\n"
    );
    assert_eq!(format_properties_expanded(&[]), "");
}

#[test]
fn proxy_expanded_layout_keeps_the_order_of_the_properties() {
    assert_eq!(
        format_proxy_properties_expanded(&mixed()),
        "* http://schema.org/name: \"Alice\"\n\
         => gemini://localhost/bob http://schema.org/knows : gemini://localhost/bob\n\
         => gemini://localhost/https%3A%2F%2Fexample%2Eorg%2Falice%3Fx%3D1 http://schema.org/url : https://example.org/alice?x=1\n\
         => gemini://localhost/http%3A%2F%2Fexample%2Eorg%2Fcarol http://schema.org/knows : http://example.org/carol\n\
         * http://schema.org/age: 42\n"
    );
    assert_eq!(format_proxy_properties_expanded(&[]), "");
}

#[test]
fn condensed_layout_groups_by_sorted_predicate() {
    assert_eq!(
        format_properties_condensed(&mixed()),
        "## http://schema.org/age\n\
         * 42\n\
         \n\
         ## http://schema.org/knows\n\
         => gemini://localhost/bob\n\
         => http://example.org/carol\n\
         \n\
         ## http://schema.org/name\n\
         * \"Alice\"\n\
         \n\
         ## http://schema.org/url\n\
         => https://example.org/alice?x=1\n\
         \n"
    );
    assert_eq!(format_properties_condensed(&[]), "");
}

#[test]
fn proxy_condensed_layout_groups_by_sorted_predicate() {
    assert_eq!(
        format_proxy_properties_condensed(&mixed()),
        "## http://schema.org/age\n\
         * 42\n\
         \n\
         ## http://schema.org/knows\n\
         => gemini://localhost/bob\n\
         => gemini://localhost/http%3A%2F%2Fexample%2Eorg%2Fcarol http://example.org/carol\n\
         \n\
         ## http://schema.org/name\n\
         * \"Alice\"\n\
         \n\
         ## http://schema.org/url\n\
         => gemini://localhost/https%3A%2F%2Fexample%2Eorg%2Falice%3Fx%3D1 https://example.org/alice?x=1\n\
         \n"
    );
}

#[test]
fn condensed_headings_are_the_distinct_predicates_in_order() {
    let properties = vec![
        pair("b", "1"),
        pair("a", "2"),
        pair("c", "3"),
        pair("a", "4"),
        pair("B", "5"),
        pair("b", "6"),
        pair("ab", "7"),
        pair("a", "2"),
    ];
    let text = format_properties_condensed(&properties);
    let found: Vec<&str> = text.lines().filter(|line| line.starts_with("## ")).collect();
    assert_eq!(found, vec!["## B", "## a", "## ab", "## b", "## c"]);
    assert_eq!(
        text,
        "## B\n* 5\n\n## a\n* 2\n* 4\n* 2\n\n## ab\n* 7\n\n## b\n* 1\n* 6\n\n## c\n* 3\n\n"
    );
}

#[test]
fn condensed_layout_does_not_depend_on_where_a_predicate_first_shows() {
    let one = vec![pair("a", "1"), pair("b", "2"), pair("a", "3")];
    let other = vec![pair("b", "2"), pair("a", "1"), pair("a", "3")];
    assert_eq!(format_properties_condensed(&one), format_properties_condensed(&other));
    assert_eq!(format_properties_condensed(&one), "## a\n* 1\n* 3\n\n## b\n* 2\n\n");
}

#[test]
fn rendering_twice_gives_the_same_bytes() {
    let properties = mixed();
    for condensed in [false, true] {
        assert_eq!(
            generate_resource_response("gemini://localhost/alice", &properties, condensed),
            generate_resource_response("gemini://localhost/alice", &properties.clone(), condensed)
        );
        assert_eq!(
            generate_proxy_response("http://example.org/alice", &properties, condensed),
            generate_proxy_response("http://example.org/alice", &properties.clone(), condensed)
        );
    }
}

#[test]
fn resource_response_has_header_properties_and_home_link() {
    let properties = vec![pair("http://schema.org/name", "\"Alice\""), pair("p", "gemini://localhost/bob")];
    assert_eq!(
        generate_resource_response("gemini://localhost/alice", &properties, false),
        "# Resource: gemini://localhost/alice\n\n\
         * http://schema.org/name: \"Alice\"\n\
         => gemini://localhost/bob p : gemini://localhost/bob\n\
         \n=> gemini://localhost/ Home\n"
    );
    assert_eq!(
        generate_resource_response("gemini://localhost/alice", &properties, true),
        "# Resource: gemini://localhost/alice\n\n\
         ## http://schema.org/name\n* \"Alice\"\n\n\
         ## p\n=> gemini://localhost/bob\n\n\
         \n=> gemini://localhost/ Home\n"
    );
    assert_eq!(
        generate_resource_response("x", &[], false),
        "# Resource: x\n\n\n=> gemini://localhost/ Home\n"
    );
}

#[test]
fn resource_response_leaves_web_links_direct() {
    assert_eq!(
        generate_resource_response("s", &[pair("p", "http://example.org/x")], false),
        "# Resource: s\n\n=> http://example.org/x p : http://example.org/x\n\n=> gemini://localhost/ Home\n"
    );
    assert_eq!(
        generate_resource_response("s", &[pair("p", "http://example.org/x")], true),
        "# Resource: s\n\n## p\n=> http://example.org/x\n\n\n=> gemini://localhost/ Home\n"
    );
}

#[test]
fn proxy_response_has_header_and_properties_only() {
    let properties = vec![pair("p", "http://example.org/x"), pair("q", "plain")];
    assert_eq!(
        generate_proxy_response("http://example.org/", &properties, false),
        "# Proxy: http://example.org/\n\n\
         => gemini://localhost/http%3A%2F%2Fexample%2Eorg%2Fx p : http://example.org/x\n\
         * q: plain\n"
    );
    assert_eq!(
        generate_proxy_response("http://example.org/", &properties, true),
        "# Proxy: http://example.org/\n\n\
         ## p\n=> gemini://localhost/http%3A%2F%2Fexample%2Eorg%2Fx http://example.org/x\n\n\
         ## q\n* plain\n\n"
    );
    assert_eq!(generate_proxy_response("u", &[], true), "# Proxy: u\n\n");
}

#[test]
fn not_found_response_names_the_resource() {
    assert_eq!(
        generate_not_found_response("gemini://localhost/nobody"),
        "# Not Found\r\n\r\nResource not found in graph:\n=> gemini://localhost/nobody\n"
    );
}

#[test]
fn debug_response_lists_count_and_subjects() {
    assert_eq!(
        generate_debug_response(
            "http://example.org/x",
            12,
            vec!["http://example.org/a".to_string(), "http://example.org/b".to_string()]
        ),
        "# No Data Found for http://example.org/x\r\n\r\nLoaded 12 triples.\n\n## Available Subjects:\n\
         * http://example.org/a\n* http://example.org/b\n"
    );
    assert_eq!(
        generate_debug_response("u", 0, vec![]),
        "# No Data Found for u\r\n\r\nLoaded 0 triples.\n\n## Available Subjects:\n"
    );
}

#[test]
fn debug_response_writes_the_count_in_decimal() {
    for count in [0usize, 1, 9, 10, 11, 99, 100, 101, 1965, 10_000, 123_456_789, usize::MAX] {
        assert_eq!(
            generate_debug_response("u", count, vec![]),
            format!("# No Data Found for u\r\n\r\nLoaded {} triples.\n\n## Available Subjects:\n", count)
        );
    }
}

#[test]
fn error_response_has_title_and_message() {
    assert_eq!(
        generate_error_response("Fetch Error", "HTTP Status: 404"),
        "# Fetch Error\r\n\r\nHTTP Status: 404\n"
    );
    assert_eq!(generate_error_response("", ""), "# \r\n\r\n\n");
}

#[test]
fn gemini_response_puts_the_status_line_first() {
    assert_eq!(format_gemini_response("body\n"), "20 text/gemini\r\nbody\n");
    assert_eq!(format_gemini_response(""), "20 text/gemini\r\n");
}
