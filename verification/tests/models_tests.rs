use leadscraper::config::Config;
use leadscraper::errors::ScrapingError;
use leadscraper::models::{Lead, Source};

#[test]
fn contact_score_counts_each_field_by_weight() {
    let lead = Lead::at("Acme".to_string(), Source::BetaList, 0)
        .with_email(Some("a@acme.io".to_string()))
        .with_twitter(Some("https://twitter.com/acme".to_string()));
    assert_eq!(lead.contact_score(), 4);
    assert!(lead.has_contact());
}

#[test]
fn contact_score_grows_with_each_field_up_to_seven() {
    let lead = Lead::at("Acme".to_string(), Source::YCombinator, 0);
    assert_eq!(lead.contact_score(), 0);
    assert!(!lead.has_contact());
    let lead = lead.with_linkedin(Some("l".to_string()));
    assert_eq!(lead.contact_score(), 1);
    assert!(!lead.has_contact());
    let lead = lead.with_twitter(Some("t".to_string()));
    assert_eq!(lead.contact_score(), 2);
    assert!(!lead.has_contact());
    let lead = lead.with_github_email(Some("g@x.io".to_string()));
    assert_eq!(lead.contact_score(), 4);
    assert!(lead.has_contact());
    let lead = lead.with_email(Some("e@x.io".to_string()));
    assert_eq!(lead.contact_score(), 7);
    let lead = lead.with_website(Some("w".to_string())).with_country(Some("c".to_string())).with_description(None);
    assert_eq!(lead.contact_score(), 7);
    assert_eq!(lead.name, "Acme");
    assert_eq!(lead.scraped_at, 0);
}

#[test]
fn new_lead_is_blank_and_stamped() {
    let lead = Lead::new("Acme".to_string(), Source::BetaList);
    assert_eq!(lead.name, "Acme");
    assert!(lead.website.is_none() && lead.email.is_none() && lead.github_email.is_none());
    assert!(lead.linkedin.is_none() && lead.twitter.is_none() && lead.country.is_none());
    assert!(lead.description.is_none());
    assert!(lead.scraped_at > 1_600_000_000_000);
}

#[test]
fn source_texts_and_buckets() {
    assert_eq!(Source::YCombinator.to_text(), "Y Combinator");
    assert_eq!(Source::BetaList.to_text(), "BetaList");
    assert_eq!(Source::GitHubAwesome { repository: "a/b".to_string() }.to_text(), "GitHub/a/b");
    assert_eq!(Source::Website { url: "https://x.io".to_string() }.to_text(), "Website: https://x.io");
    assert_eq!(Source::Website { url: "https://x.io".to_string() }.bucket_name(), "Website");
    assert_eq!(Source::Website { url: "https://github.com/a/b".to_string() }.bucket_name(), "GitHub Project");
    assert_eq!(Source::GitHubAwesome { repository: "a/b".to_string() }.bucket_name(), "GitHub/a/b");
    assert_eq!(Source::YCombinator.bucket_name(), "Y Combinator");
    assert_eq!(Source::Website { url: "https://x.io/?ref=github.com".to_string() }.bucket_name(), "Website");
    assert_eq!(Source::Website { url: "unknown".to_string() }.bucket_name(), "Website");
}

#[test]
fn error_texts_carry_the_label_of_their_kind() {
    assert_eq!(ScrapingError::ConfigError("x".to_string()).to_text(), "Configuration error: x");
    assert_eq!(ScrapingError::NetworkError("x".to_string()).to_text(), "Network error: x");
    assert_eq!(ScrapingError::ParseError("x".to_string()).to_text(), "Parse error: x");
    assert_eq!(ScrapingError::ExtractionError("x".to_string()).to_text(), "Extraction error: x");
    assert_eq!(ScrapingError::IoError("x".to_string()).to_text(), "IO error: x");
    assert_eq!(ScrapingError::RegexError("x".to_string()).to_text(), "Regex error: x");
}

#[test]
fn default_configuration() {
    let config = Config::default();
    assert_eq!(config.scraper.timeout_seconds, 30);
    assert_eq!(config.scraper.max_concurrent_requests, 10);
    assert!(config.scraper.github_token.is_none());
    assert!(config.sources.ycombinator.enabled);
    assert_eq!(config.sources.ycombinator.endpoints, vec!["/companies".to_string()]);
    assert_eq!(config.sources.github_awesome.repositories, vec!["awesome-startup-tools".to_string()]);
    assert_eq!(config.sources.github_awesome.api_base, "https://api.github.com/repos");
    assert_eq!(config.sources.betalist.base_url, "https://betalist.com");
    assert_eq!(config.patterns.email.generic, r"[a-zA-Z0-9._%+-]+@[a-zA-Z0-9.-]+\.[a-zA-Z]{2,}");
    assert_eq!(config.patterns.location.country_indicators, vec![r"based in ([A-Za-z\s]+)".to_string()]);
    assert!(config.patterns.tld_mapping.is_empty());
}
