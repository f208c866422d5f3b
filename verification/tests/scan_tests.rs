use zitro::country_data::CountryFactors;
use zitro::scan::{
    check_page_status, is_success_status, resolve_url, resources_to_fetch, FetchOutcome,
    ScanError, ScanSession,
};

const PAGE: &str = r#"<!DOCTYPE html>
<html>
<head>
<link rel="stylesheet" href="/css/main.css">
<link rel="icon" href="/favicon.ico">
<link rel="stylesheet" href="https://cdn.example.org/lib.css">
<link rel="stylesheet">
<script src="app.js"></script>
<script>var inline = 1;</script>
</head>
<body>
<img src="data:image/png;base64,AAAA">
<img src="img/logo.png">
<img alt="no source">
</body>
</html>"#;

#[test]
fn absolute_links_are_kept() {
    assert_eq!(resolve_url("https://example.com/a/", "http://other.org/x.js"), "http://other.org/x.js");
    assert_eq!(resolve_url("not a url", "https://other.org/y.css"), "https://other.org/y.css");
}

#[test]
fn relative_links_are_joined() {
    assert_eq!(
        resolve_url("https://example.com/dir/page.html", "style.css"),
        "https://example.com/dir/style.css"
    );
    assert_eq!(resolve_url("https://example.com/dir/page.html", "/a.js"), "https://example.com/a.js");
    assert_eq!(resolve_url("http://localhost:3000", "img/x.png"), "http://localhost:3000/img/x.png");
}

#[test]
fn unresolvable_links_are_kept_as_they_are() {
    assert_eq!(resolve_url("not a url", "x.css"), "x.css");
}

#[test]
fn resources_in_order_without_data_uris() {
    let urls = resources_to_fetch("https://example.com/index.html", PAGE);
    assert_eq!(
        urls,
        vec![
            "https://example.com/css/main.css".to_string(),
            "https://cdn.example.org/lib.css".to_string(),
            "https://example.com/app.js".to_string(),
            "https://example.com/img/logo.png".to_string(),
        ]
    );
}

#[test]
fn page_without_resources() {
    assert!(resources_to_fetch("https://example.com/", "<p>hello</p>").is_empty());
}

#[test]
fn page_status() {
    assert_eq!(check_page_status(200), Ok(()));
    assert_eq!(check_page_status(204), Ok(()));
    assert_eq!(check_page_status(404), Err(ScanError::HttpStatus(404)));
    assert_eq!(check_page_status(500), Err(ScanError::HttpStatus(500)));
    assert_eq!(check_page_status(301), Err(ScanError::HttpStatus(301)));
    assert!(is_success_status(299));
    assert!(!is_success_status(199));
}

#[test]
fn session_counts_what_answered() {
    let html = "<html><head></head><body><p>x</p></body></html>";
    let mut s = ScanSession::new("https://example.com/", html);
    assert_eq!(s.total_size_bytes(), html.len());
    assert_eq!(s.nb_requests(), 1);
    s.record_fetch("https://example.com/a.css".to_string(), FetchOutcome::Answered { status: 200, body_len: 3000 });
    s.record_fetch("https://example.com/gone.js".to_string(), FetchOutcome::Answered { status: 404, body_len: 0 });
    s.record_fetch("https://unreachable.invalid/b.js".to_string(), FetchOutcome::Failed);
    assert_eq!(s.total_size_bytes(), html.len() + 3000);
    assert_eq!(s.nb_requests(), 3);
    let factors = CountryFactors::new(475_000);
    let r = s.finish(None, &factors);
    assert_eq!(r.metrics.nb_requests, 3);
    assert_eq!(r.metrics.page_size_bytes, html.len() + 3000);
    // The document, html, head, body, p and the text node.
    assert_eq!(r.metrics.dom_size, 6);
    assert_eq!(r.heaviest_resources.len(), 3);
    assert_eq!(r.heaviest_resources[0].url, "https://example.com/a.css");
    assert_eq!(r.heaviest_resources[1].url, "https://example.com/");
    assert_eq!(r.heaviest_resources[2].url, "https://example.com/gone.js");
    assert_eq!(r.heaviest_resources[2].size_bytes, 0);
}

#[test]
fn session_records_a_run_of_requests() {
    let html = "<p>x</p>";
    let mut s = ScanSession::new("http://localhost:3000/", html);
    let urls = vec![
        "http://localhost:3000/a.css".to_string(),
        "http://localhost:3000/b.js".to_string(),
        "http://localhost:3000/c.png".to_string(),
        "http://localhost:3000/d.png".to_string(),
    ];
    let outcomes = vec![
        FetchOutcome::Answered { status: 200, body_len: 100 },
        FetchOutcome::Failed,
        FetchOutcome::Answered { status: 500, body_len: 0 },
        FetchOutcome::Answered { status: 200, body_len: 7 },
    ];
    s.record_all(urls, outcomes);
    assert_eq!(s.nb_requests(), 4);
    assert_eq!(s.total_size_bytes(), html.len() + 107);
    let r = s.finish(Some("FR".to_string()), &CountryFactors::new(475_000));
    let urls: Vec<&str> = r.heaviest_resources.iter().map(|i| i.url.as_str()).collect();
    assert_eq!(
        urls,
        vec![
            "http://localhost:3000/a.css",
            "http://localhost:3000/",
            "http://localhost:3000/d.png",
            "http://localhost:3000/c.png",
        ]
    );
}

#[test]
fn session_survives_only_failures() {
    let mut s = ScanSession::new("http://x/", "");
    s.record_all(
        vec!["http://x/a.js".to_string(), "http://x/b.js".to_string()],
        vec![FetchOutcome::Failed, FetchOutcome::Failed],
    );
    assert_eq!(s.nb_requests(), 1);
    assert_eq!(s.total_size_bytes(), 0);
}
