use hostswap::RewriteContext;
use hostswap::replace_cookie_domain_on_page;
use hostswap::replace_host;

fn acme_context(port: u16) -> RewriteContext {
    RewriteContext {
        host_to_replace: String::from("www.acme.com"),
        target_host: String::from("127.0.0.1"),
        target_port: port,
    }
}

#[test]
fn test_replace_cookie_domain_on_page() {
    let bytes = r#"
        <script type="text/x-magento-init">
            {
                "*": {
                    "mage/cookies": {
                        "expires": null,
                        "path": "/",
                        "domain": ".www.neomorganics.com",
                        "secure": false,
                        "lifetime": "10800"
                    }
                }
            }
        </script>
    "#;
    let replaced = replace_cookie_domain_on_page(
        &bytes,
        &RewriteContext {
            host_to_replace: String::from("www.neomorganics.com"),
            target_host: String::from("127.0.0.1"),
            target_port: 80,
        },
    );
    println!("-> {}", replaced);
}

#[test]
fn test_rewrites() {
    let bytes = "
    <a href=\"https://www.acme.com\">Home</a>
    <a href=\"http://www.acme.com\">Home</a>
    ";
    let expected = "
    <a href=\"https://127.0.0.1:8080\">Home</a>
    <a href=\"http://127.0.0.1:8080\">Home</a>
    ";
    let context = acme_context(8080);
    let actual = replace_host(bytes, &context);
    assert_eq!(actual, expected);
}

#[test]
fn test_rewrites_within_escaped_json() {
    let bytes = r#"
    {"url": "https:\/\/www.acme.com\/checkout\/cart\/\"}
    "#;
    let expected = r#"
    {"url": "https://127.0.0.1:8080\/checkout\/cart\/\"}
    "#;
    let context = acme_context(8080);
    let actual = replace_host(bytes, &context);
    println!("actual={}", actual);
    assert_eq!(actual, expected);
}

#[test]
fn no_op_without_origin_host() {
    let bytes = "<a href=\"https://other.example.com/x\">Elsewhere</a> plain text";
    let context = acme_context(8080);
    let actual = replace_host(bytes, &context);
    assert_eq!(actual, bytes);
}

#[test]
fn no_op_on_empty_input() {
    let context = acme_context(8080);
    assert_eq!(replace_host("", &context), "");
    assert_eq!(replace_cookie_domain_on_page("", &context), "");
}

#[test]
fn no_op_on_bare_host_without_scheme() {
    let bytes = "see www.acme.com for details";
    let context = acme_context(8080);
    assert_eq!(replace_host(bytes, &context), bytes);
}

#[test]
fn plain_rewrite_both_schemes() {
    let bytes = "<a href=\"https://www.acme.com\">Home</a><a href=\"http://www.acme.com\">Home</a>";
    let expected =
        "<a href=\"https://127.0.0.1:8080\">Home</a><a href=\"http://127.0.0.1:8080\">Home</a>";
    let context = acme_context(8080);
    assert_eq!(replace_host(bytes, &context), expected);
}

#[test]
fn trailing_path_is_left_untouched() {
    let bytes = "<a href=\"https://www.acme.com/checkout/cart/\">Cart</a>";
    let expected = "<a href=\"https://127.0.0.1:8080/checkout/cart/\">Cart</a>";
    let context = acme_context(8080);
    assert_eq!(replace_host(bytes, &context), expected);
}

#[test]
fn spans_are_rewritten_independently() {
    let bytes = r#"a https://www.acme.com b {"u": "http:\/\/www.acme.com\/x"} c https://www.acme.com d"#;
    let expected =
        r#"a https://127.0.0.1:8080 b {"u": "http://127.0.0.1:8080\/x"} c https://127.0.0.1:8080 d"#;
    let context = acme_context(8080);
    assert_eq!(replace_host(bytes, &context), expected);
}

#[test]
fn default_port_is_omitted_from_the_rewritten_url() {
    let bytes = "<p>http://www.acme.com</p>";
    let expected = "<p>http://127.0.0.1</p>";
    let context = acme_context(80);
    assert_eq!(replace_host(bytes, &context), expected);
}

#[test]
fn dot_in_host_matches_any_character() {
    let bytes = "<a href=\"https://wwwXacmeYcom\">Home</a>";
    let expected = "<a href=\"https://127.0.0.1:8080\">Home</a>";
    let context = acme_context(8080);
    assert_eq!(replace_host(bytes, &context), expected);
}

#[test]
fn malformed_span_is_deleted_not_kept() {
    // '^' is matched by the wildcard dots of the host pattern but is rejected
    // by the URL parser, so the whole span is dropped from the output.
    let bytes = "<a href=\"https://www^acme^com\">Home</a>";
    let expected = "<a href=\"\">Home</a>";
    let context = acme_context(8080);
    assert_eq!(replace_host(bytes, &context), expected);
}

#[test]
fn cookie_domain_is_deleted_with_trailing_comma() {
    let bytes = r#"{"path": "/", "domain": ".www.neomorganics.com", "secure": false}"#;
    let expected = r#"{"path": "/",  "secure": false}"#;
    let context = RewriteContext {
        host_to_replace: String::from("www.neomorganics.com"),
        target_host: String::from("127.0.0.1"),
        target_port: 80,
    };
    assert_eq!(replace_cookie_domain_on_page(bytes, &context), expected);
}

#[test]
fn cookie_pass_without_declaration_is_identity() {
    let bytes = r#"{"path": "/", "domain": ".other.example.com", "secure": false}"#;
    let context = RewriteContext {
        host_to_replace: String::from("www.neomorganics.com"),
        target_host: String::from("127.0.0.1"),
        target_port: 80,
    };
    assert_eq!(replace_cookie_domain_on_page(bytes, &context), bytes);
}

#[test]
fn cookie_host_dots_are_wildcards_too() {
    let bytes = r#"a "domain": ".wwwXneomorganicsYcom", b"#;
    let expected = "a  b";
    let context = RewriteContext {
        host_to_replace: String::from("www.neomorganics.com"),
        target_host: String::from("127.0.0.1"),
        target_port: 80,
    };
    assert_eq!(replace_cookie_domain_on_page(bytes, &context), expected);
}

#[test]
fn span_output_strips_exactly_one_trailing_character() {
    let rewritten = Some(String::from("https://127.0.0.1:8080/"));
    assert_eq!(hostswap::hosts::span_output(rewritten), "https://127.0.0.1:8080");
    assert_eq!(hostswap::hosts::span_output(Some(String::new())), "");
}

#[test]
fn span_output_of_rejected_span_is_empty() {
    assert_eq!(hostswap::hosts::span_output(None), "");
}

#[test]
fn cookie_leading_dot_is_literal() {
    let bytes = r#"a "domain": "Xwww.neomorganics.com", b"#;
    let context = RewriteContext {
        host_to_replace: String::from("www.neomorganics.com"),
        target_host: String::from("127.0.0.1"),
        target_port: 80,
    };
    assert_eq!(replace_cookie_domain_on_page(bytes, &context), bytes);
}
