use vault_market::cors::{allowed_origins, cors_layer};
use vault_market::security_headers::security_headers;

fn strings(v: &[&str]) -> Vec<String> {
    v.iter().map(|s| s.to_string()).collect()
}

#[test]
fn origins_are_normalized_sorted_and_unique() {
    let configured = strings(&[
        "https://b.example/",
        "https://a.example",
        "https://b.example",
        "https://a.example//",
    ]);
    assert_eq!(
        allowed_origins(&configured, "https://front.example/", false),
        strings(&["https://a.example", "https://b.example", "https://front.example"])
    );
}

#[test]
fn production_adds_the_service_itself() {
    let configured = strings(&["https://z.example"]);
    assert_eq!(
        allowed_origins(&configured, "", true),
        strings(&[
            "https://admin.ignition.ecent.online",
            "https://ignition.ecent.online",
            "https://z.example"
        ])
    );
    assert_eq!(
        allowed_origins(&strings(&["https://ignition.ecent.online/"]), "", true),
        strings(&["https://admin.ignition.ecent.online", "https://ignition.ecent.online"])
    );
}

#[test]
fn empty_frontend_is_left_out_but_empty_configured_is_not() {
    assert_eq!(allowed_origins(&vec![], "", false), Vec::<String>::new());
    assert_eq!(allowed_origins(&vec![], "///", false), Vec::<String>::new());
    assert_eq!(allowed_origins(&strings(&["/"]), "", false), strings(&[""]));
}

#[test]
fn origins_that_cannot_stand_in_a_header_are_dropped() {
    let configured = strings(&[
        "https://ok.example",
        "https://bad\n.example",
        "https://del\u{7f}.example",
        "https://tab\t.example",
        "https://caf\u{e9}.example",
        "https://nul\u{0}.example",
    ]);
    assert_eq!(
        allowed_origins(&configured, "https://front\r.example", false),
        strings(&["https://caf\u{e9}.example", "https://ok.example", "https://tab\t.example"])
    );
}

#[test]
fn order_is_that_of_strings() {
    let configured = strings(&["b", "B", "a", "ab", "a ", "\u{e9}", "z", "aa", "Z"]);
    assert_eq!(
        allowed_origins(&configured, "", false),
        strings(&["B", "Z", "a", "a ", "aa", "ab", "b", "z", "\u{e9}"])
    );
}

#[test]
fn policy() {
    let p = cors_layer(&strings(&["https://a.example/"]), "https://f.example", false);
    assert!(p.allow_credentials);
    assert_eq!(
        p.allowed_headers,
        vec![
            "accept",
            "accept-language",
            "authorization",
            "content-language",
            "content-type",
            "origin"
        ]
    );
    assert_eq!(p.allowed_methods, vec!["GET", "POST", "PUT", "PATCH", "DELETE", "OPTIONS"]);
    assert_eq!(p.exposed_headers, vec!["content-type", "content-length"]);
    assert_eq!(p.allowed_origins, strings(&["https://a.example", "https://f.example"]));
}

#[test]
fn headers_of_every_answer() {
    assert_eq!(
        security_headers(),
        vec![
            ("X-Content-Type-Options", "nosniff"),
            ("X-Frame-Options", "DENY"),
            ("Strict-Transport-Security", "max-age=31536000; includeSubDomains"),
            ("X-XSS-Protection", "1; mode=block"),
        ]
    );
}
