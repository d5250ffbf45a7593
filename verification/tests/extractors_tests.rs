use leadscraper::config::{PatternsConfig, TldEntry};
use leadscraper::extractors::DataExtractor;

fn extractor() -> DataExtractor {
    DataExtractor::new(&PatternsConfig::default(), None).expect("Failed to create extractor")
}

#[test]
fn extractors_test_email_extraction() {
    let extractor = extractor();

    let html = r#"<a href="mailto:test@example.com">Contact</a>"#;
    let text = "Contact us at test@example.com";

    let email = extractor.extract_email(text, html);
    assert_eq!(email, Some("test@example.com".to_string()));
}

#[test]
fn lib_test_email_extraction() {
    let extractor = extractor();

    let html = r#"<a href="mailto:test@example.com">Contact</a>"#;
    let text = "Contact us at test@example.com";

    let email = extractor.extract_email(text, html);
    assert_eq!(email, Some("test@example.com".to_string()));
}

#[test]
fn test_website_extraction() {
    let extractor = extractor();

    let html = r#"<a href="https://example.com">Visit Website</a>"#;
    let website = extractor.extract_website(html, None);

    assert_eq!(website, Some("https://example.com".to_string()));
}

#[test]
fn mailto_link_outranks_address_in_text() {
    let extractor = extractor();
    let html = r#"<p>sales@corp.io</p><a href="mailto:founder@acme.io">Mail</a>"#;
    let email = extractor.extract_email("write to sales@corp.io", html);
    assert_eq!(email, Some("founder@acme.io".to_string()));
}

#[test]
fn placeholder_addresses_in_text_are_rejected() {
    let extractor = extractor();
    assert_eq!(extractor.extract_email("mail me: joe@example.org", "<p></p>"), None);
    assert_eq!(extractor.extract_email("mail me: placeholder@corp.io", "<p></p>"), None);
    assert_eq!(
        extractor.extract_email("mail me: joe@corp.io", "<p></p>"),
        Some("joe@corp.io".to_string())
    );
    assert_eq!(extractor.extract_email("no address here", "<p></p>"), None);
}

#[test]
fn clean_text_trims_joins_and_strips() {
    let extractor = extractor();
    assert_eq!(extractor.clean_text("  Hello \n\n World\u{1F600} "), "Hello World");
    assert_eq!(extractor.clean_text("  Hello \n\n World \u{1F600} "), "Hello World ");
    assert_eq!(extractor.clean_text("a\r\nb\n"), "a b");
    assert_eq!(extractor.clean_text(""), "");
    assert_eq!(extractor.clean_text(" \n \n"), "");
}

#[test]
fn country_from_indicator_in_text() {
    let extractor = extractor();
    assert_eq!(
        extractor.extract_country("We are based in New Zealand", None),
        Some("New Zealand".to_string())
    );
    assert_eq!(extractor.extract_country("Nothing to see", None), None);
}

#[test]
fn country_from_host_suffix_takes_first_row() {
    let mut patterns = PatternsConfig::default();
    patterns.tld_mapping.push(TldEntry { suffix: ".de".to_string(), country: "Germany".to_string() });
    patterns.tld_mapping.push(TldEntry { suffix: ".co.uk".to_string(), country: "United Kingdom".to_string() });
    patterns.tld_mapping.push(TldEntry { suffix: ".uk".to_string(), country: "Britain".to_string() });
    let extractor = DataExtractor::new(&patterns, None).expect("Failed to create extractor");
    assert_eq!(
        extractor.extract_country("no hint", Some("https://shop.example.co.uk/about")),
        Some("United Kingdom".to_string())
    );
    assert_eq!(
        extractor.extract_country("no hint", Some("https://firma.de")),
        Some("Germany".to_string())
    );
    assert_eq!(extractor.extract_country("no hint", Some("https://firma.fr")), None);
    assert_eq!(extractor.extract_country("no hint", Some("not a url")), None);
    assert_eq!(
        extractor.extract_country("based in Chile", Some("https://firma.de")),
        Some("Chile".to_string())
    );
}

#[test]
fn website_skips_social_links_and_non_web_schemes() {
    let extractor = extractor();
    let html = r#"<a href="https://twitter.com/acme">t</a><a href="ftp://http.example.org/x">f</a><a href="http://acme.io/">site</a>"#;
    assert_eq!(extractor.extract_website(html, None), Some("http://acme.io/".to_string()));
    assert_eq!(extractor.extract_website(r#"<a href="/relative">x</a>"#, None), None);
    let scoped = r#"<div class="website"><a href="HTTPS://Acme.io">x</a></div>"#;
    assert_eq!(extractor.extract_website(scoped, None), Some("HTTPS://Acme.io".to_string()));
}

#[test]
fn linkedin_is_normalised_to_full_url() {
    let extractor = extractor();
    let (linkedin, _) = extractor.extract_social_media("see linkedin.com/company/acme-inc now", "<p></p>");
    assert_eq!(linkedin, Some("https://linkedin.com/company/acme-inc".to_string()));
    let (linkedin, _) = extractor.extract_social_media(
        "",
        r#"<a href="http://www.linkedin.com/in/jane-doe">in</a>"#,
    );
    assert_eq!(linkedin, Some("http://www.linkedin.com/in/jane-doe".to_string()));
    let (linkedin, _) = extractor.extract_social_media("nothing", "<p></p>");
    assert_eq!(linkedin, None);
}

#[test]
fn twitter_handles_and_rejected_site_names() {
    let extractor = extractor();
    let (_, twitter) = extractor.extract_social_media("", r#"<a href="https://x.com/acme_hq">x</a>"#);
    assert_eq!(twitter, Some("https://twitter.com/acme_hq".to_string()));
    let (_, twitter) = extractor.extract_social_media("follow @acme", "<p></p>");
    assert_eq!(twitter, Some("https://twitter.com/acme".to_string()));
    let (_, twitter) = extractor.extract_social_media("follow @twitter", "<p></p>");
    assert_eq!(twitter, None);
    let (_, twitter) = extractor.extract_social_media("follow @x", "<p></p>");
    assert_eq!(twitter, None);
}

#[test]
fn invalid_pattern_is_a_regex_error() {
    let mut patterns = PatternsConfig::default();
    patterns.email.generic = "foo(bar".to_string();
    let err = DataExtractor::new(&patterns, None).err().expect("must fail");
    assert!(matches!(err, leadscraper::errors::ScrapingError::RegexError(_)));
    assert!(err.to_text().starts_with("Regex error: "));
}

#[test]
fn cleaned_text_keeps_exactly_the_visible_ascii() {
    let extractor = extractor();
    let samples = [
        "  Hello \n\n World \u{1F600} ",
        "a\r\nb\rc\n\u{2003}d\u{e9}e\t f\n",
        "\n\n",
        "x",
        "\u{a0}caf\u{e9} \u{3000}\n\tbar\u{85}",
    ];
    for sample in samples {
        let cleaned = extractor.clean_text(sample);
        assert!(cleaned.chars().all(|c| c.is_ascii() || c.is_whitespace()), "{:?}", sample);
        assert!(!cleaned.contains('\n'), "{:?}", sample);
        let visible = |s: &str| -> String {
            s.chars().filter(|c| c.is_ascii() && !c.is_whitespace()).collect()
        };
        assert_eq!(visible(&cleaned), visible(sample), "{:?}", sample);
    }
}
