use leadscraper::commits::Mining;
use leadscraper::config::PatternsConfig;
use leadscraper::errors::ScrapingError;
use leadscraper::extractors::DataExtractor;
use leadscraper::http::Reply;
use leadscraper::models::{ScrapedData, Source};
use leadscraper::scrapers::base::BaseScraper;

fn base() -> BaseScraper {
    BaseScraper::new(DataExtractor::new(&PatternsConfig::default(), None).unwrap())
}

#[test]
fn page_replies_become_results() {
    let base = base();
    let url = "https://x.example.org/p";
    assert_eq!(base.fetch_html(url, Reply::Received("<p>hi</p>".to_string())).unwrap(), "<p>hi</p>");
    match base.fetch_html(url, Reply::Unreachable("timeout".to_string())) {
        Err(ScrapingError::NetworkError(m)) => {
            assert_eq!(m, "HTTP request failed for 'https://x.example.org/p': timeout")
        }
        other => panic!("unexpected {:?}", other),
    }
    match base.fetch_html(url, Reply::Refused("500 Internal Server Error".to_string())) {
        Err(ScrapingError::NetworkError(m)) => {
            assert_eq!(m, "HTTP 500 Internal Server Error: https://x.example.org/p")
        }
        other => panic!("unexpected {:?}", other),
    }
    match base.fetch_html(url, Reply::Unreadable("truncated".to_string())) {
        Err(ScrapingError::NetworkError(m)) => {
            assert_eq!(m, "Failed to read response body from 'https://x.example.org/p': truncated")
        }
        other => panic!("unexpected {:?}", other),
    }
}

#[test]
fn readme_content_is_stripped_and_decoded() {
    let base = base();
    assert_eq!(base.decode_readme("aGVs\nbG8g d29y\tbGQ=\n").unwrap(), "hello world");
    assert_eq!(base.decode_readme("").unwrap(), "");
    match base.decode_readme("aGVsbG8") {
        Err(ScrapingError::ParseError(m)) => assert!(m.starts_with("Failed to decode base64 content: ")),
        other => panic!("unexpected {:?}", other),
    }
    match base.decode_readme("/w==") {
        Err(ScrapingError::ParseError(m)) => assert!(m.starts_with("Invalid UTF-8 in README: ")),
        other => panic!("unexpected {:?}", other),
    }
}

#[test]
fn readme_replies_become_results() {
    let base = base();
    let url = "https://api.github.com/repos/a/b/contents/readme.md";
    assert_eq!(base.fetch_github_readme(url, Reply::Received("SGk=".to_string())).unwrap(), "Hi");
    match base.fetch_github_readme(url, Reply::Unreachable("dns".to_string())) {
        Err(ScrapingError::NetworkError(m)) => assert_eq!(
            m,
            "GitHub API request failed for 'https://api.github.com/repos/a/b/contents/readme.md': dns"
        ),
        other => panic!("unexpected {:?}", other),
    }
    match base.fetch_github_readme(url, Reply::Refused("404 Not Found".to_string())) {
        Err(ScrapingError::NetworkError(m)) => assert_eq!(
            m,
            "GitHub API error 404 Not Found: https://api.github.com/repos/a/b/contents/readme.md"
        ),
        other => panic!("unexpected {:?}", other),
    }
    match base.fetch_github_readme(url, Reply::Unreadable("missing field".to_string())) {
        Err(ScrapingError::ParseError(m)) => {
            assert_eq!(m, "Failed to parse GitHub API response: missing field")
        }
        other => panic!("unexpected {:?}", other),
    }
    let request = base.readme_request(url);
    assert_eq!(request.url, url);
    assert_eq!(request.authorization, None);
}

#[test]
fn pause_is_skipped_for_zero_delay() {
    let base = base();
    assert_eq!(base.rate_limit(0), None);
    assert_eq!(base.rate_limit(800), Some(800));
}

#[test]
fn lead_is_assembled_from_record() {
    let base = base();
    let data = ScrapedData {
        name: "Acme".to_string(),
        website: Some("https://acme.io".to_string()),
        raw_text: "Acme is based in Norway. Follow @acme_hq".to_string(),
        html: r#"<div><a href="mailto:team@acme.io">mail</a> linkedin.com/company/acme</div>"#.to_string(),
    };
    let (lead, mining) = base.create_lead_from_scraped_data(data, Source::BetaList);
    assert_eq!(lead.name, "Acme");
    assert_eq!(lead.website, Some("https://acme.io".to_string()));
    assert_eq!(lead.email, Some("team@acme.io".to_string()));
    assert_eq!(lead.country, Some("Norway".to_string()));
    assert_eq!(lead.linkedin, Some("https://linkedin.com/company/acme".to_string()));
    assert_eq!(lead.twitter, Some("https://twitter.com/acme".to_string()));
    assert_eq!(lead.github_email, None);
    assert_eq!(lead.description, Some("Acme is based in Norway. Follow @acme_hq".to_string()));
    assert!(lead.scraped_at > 1_600_000_000_000);
    match mining {
        Mining::Done { emails } => assert!(emails.is_empty()),
        other => panic!("unexpected {:?}", other),
    }
}

#[test]
fn lead_on_the_code_host_calls_for_mining() {
    let base = base();
    let data = ScrapedData {
        name: "Tool".to_string(),
        website: Some("https://github.com/acme/tool".to_string()),
        raw_text: "a tool".to_string(),
        html: "<a href='https://github.com/acme/tool'>Tool</a> - a tool".to_string(),
    };
    let (lead, mining) = base.create_lead_from_scraped_data(data, Source::YCombinator);
    assert!(matches!(mining, Mining::NeedRepoInfo { .. }));
    let same = base.attach_commit_emails(lead.clone(), Vec::new());
    assert_eq!(same.github_email, None);
    let mined = base.attach_commit_emails(lead, vec!["dev@acme.io".to_string(), "x@y.io".to_string()]);
    assert_eq!(mined.github_email, Some("dev@acme.io".to_string()));
    assert_eq!(mined.contact_score(), 2);
}

fn mining_for(website: &str) -> Mining {
    let data = ScrapedData {
        name: "Tool".to_string(),
        website: Some(website.to_string()),
        raw_text: "a tool".to_string(),
        html: "<p>a tool</p>".to_string(),
    };
    base().create_lead_from_scraped_data(data, Source::YCombinator).1
}

#[test]
fn commits_are_mined_only_where_the_host_is_the_code_host() {
    assert!(matches!(mining_for("https://github.com/acme/tool"), Mining::NeedRepoInfo { .. }));
    assert!(matches!(mining_for("https://gist.github.com/acme/tool"), Mining::NeedRepoInfo { .. }));
    for other in [
        "https://example.com/a/b?x=github.com",
        "https://example.com/github.com/b",
        "https://notgithub.com/a/b",
        "https://github.com.example.org/a/b",
        "github.com/acme/tool",
    ] {
        match mining_for(other) {
            Mining::Done { emails } => assert!(emails.is_empty(), "{}", other),
            _ => panic!("no mining expected for {}", other),
        }
    }
}

#[test]
fn outside_errors_become_engine_errors() {
    let bad_pattern = regex::Regex::new("foo(bar").unwrap_err();
    assert!(matches!(ScrapingError::from(bad_pattern), ScrapingError::RegexError(_)));
    let bad_base64 =
        base64::Engine::decode(&base64::engine::general_purpose::STANDARD, "@@@").unwrap_err();
    match ScrapingError::from(bad_base64) {
        ScrapingError::ParseError(m) => assert!(m.starts_with("Base64 decode error: ")),
        other => panic!("unexpected {:?}", other),
    }
    let bad_utf8 = String::from_utf8(vec![0xff]).unwrap_err();
    match ScrapingError::from(bad_utf8) {
        ScrapingError::ParseError(m) => assert!(m.starts_with("UTF-8 conversion error: ")),
        other => panic!("unexpected {:?}", other),
    }
}
