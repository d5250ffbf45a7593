use leadscraper::config::{BetaListConfig, GitHubAwesomeConfig, PatternsConfig, YCombinatorConfig};
use leadscraper::extractors::DataExtractor;
use leadscraper::markup::{Anchor, Element};
use leadscraper::scrapers::betalist::BetaListScraper;
use leadscraper::scrapers::github_awesome::GitHubAwesomeScraper;
use leadscraper::scrapers::ycombinator::YCombinatorScraper;
use leadscraper::scrapers::SourceScraper;

fn rules() -> DataExtractor {
    DataExtractor::new(&PatternsConfig::default(), None).expect("Failed to create extractor")
}

fn betalist() -> BetaListScraper {
    let config = BetaListConfig {
        enabled: true,
        base_url: "https://betalist.com".to_string(),
        endpoints: vec!["/startups".to_string()],
        selectors: Vec::new(),
    };
    BetaListScraper::new(config, rules())
}

fn github_awesome() -> GitHubAwesomeScraper {
    let config = GitHubAwesomeConfig {
        enabled: true,
        repositories: vec!["sindresorhus/awesome".to_string()],
        api_base: "https://api.github.com/repos".to_string(),
    };
    GitHubAwesomeScraper::new(config, rules())
}

fn ycombinator() -> YCombinatorScraper {
    let config = YCombinatorConfig {
        enabled: true,
        base_url: "https://www.ycombinator.com".to_string(),
        endpoints: vec!["/companies?batch=W24".to_string()],
        selectors: Vec::new(),
    };
    YCombinatorScraper::new(config, rules())
}

#[test]
fn betalist_test_source_name() {
    let scraper = betalist();
    assert_eq!(scraper.source_name(), "BetaList");
}

#[test]
fn betalist_test_is_enabled() {
    let scraper = betalist();
    assert!(scraper.is_enabled());
}

#[test]
fn test_parse_betalist_page() {
    let scraper = betalist();

    let sample_html = r#"
            <div id="startup-123456">
                <a href="/startups/test-startup">
                    <div class="font-medium">Test Startup</div>
                </a>
                <p>This is a test startup that does amazing things</p>
                <a href="https://teststartup.com">Visit Website</a>
            </div>
        "#;

    let result = scraper.parse_betalist_page(sample_html);
    assert!(result.is_ok());

    let scraped_data = result.unwrap();
    assert!(!scraped_data.is_empty());
    assert_eq!(scraped_data[0].name, "Test Startup");
    assert_eq!(scraped_data.len(), 1);
    assert_eq!(scraped_data[0].website, Some("https://teststartup.com".to_string()));
    assert_eq!(
        scraped_data[0].raw_text,
        "Test Startup This is a test startup that does amazing things Visit Website"
    );
}

#[test]
fn test_extract_betalist_data() {
    let scraper = betalist();
    let markup = r#"<div id="startup-123">
                <a href="/startups/cool-app">
                    <span class="font-medium">Cool App</span>
                </a>
                <p>A revolutionary app for cool people</p>
                <a href="https://coolapp.io">Website</a>
            </div>"#;
    let link_text = "\n                    Cool App\n                ";
    let element = Element {
        html: markup.to_string(),
        text: "\n                \n                    Cool App\n                \n                A revolutionary app for cool people\n                Website\n            ".to_string(),
        href: None,
        firsts: vec![
            Some(Anchor { text: "Cool App".to_string(), href: None }),
            Some(Anchor { text: link_text.to_string(), href: Some("/startups/cool-app".to_string()) }),
            Some(Anchor { text: "Cool App".to_string(), href: None }),
            None,
            None,
            None,
        ],
    };

    let result = scraper.extract_betalist_data(&element);
    assert!(result.is_some());

    let data = result.unwrap();
    assert_eq!(data.name, "Cool App");
    assert!(data.website.is_some());
    assert_eq!(data.website, Some("https://coolapp.io".to_string()));
    assert_eq!(data.raw_text, "Cool App A revolutionary app for cool people Website");
}

#[test]
fn startup_detail_page_is_the_fallback_website() {
    let scraper = betalist();
    let element = Element {
        html: r#"<div id="startup-9"><a href="/startups/zed">Zed</a></div>"#.to_string(),
        text: "Zed".to_string(),
        href: None,
        firsts: vec![
            None,
            Some(Anchor { text: "Zed".to_string(), href: Some("/startups/zed".to_string()) }),
            None,
            None,
            None,
            None,
        ],
    };
    let data = scraper.extract_betalist_data(&element).unwrap();
    assert_eq!(data.name, "Zed");
    assert_eq!(data.website, Some("https://betalist.com/startups/zed".to_string()));
}

#[test]
fn startup_names_of_two_bytes_are_passed_over() {
    let scraper = betalist();
    let element = Element {
        html: "<div><h3>Go</h3><h2>Gopher Labs</h2></div>".to_string(),
        text: "GoGopher Labs".to_string(),
        href: None,
        firsts: vec![
            None,
            None,
            None,
            Some(Anchor { text: " Go ".to_string(), href: None }),
            Some(Anchor { text: "Gopher Labs".to_string(), href: None }),
            None,
        ],
    };
    let data = scraper.extract_betalist_data(&element).unwrap();
    assert_eq!(data.name, "Gopher Labs");
    assert_eq!(data.website, None);

    let nameless = Element {
        html: "<div><h3>Go</h3></div>".to_string(),
        text: "Go".to_string(),
        href: None,
        firsts: vec![None, None, None, Some(Anchor { text: "Go".to_string(), href: None }), None, None],
    };
    assert!(scraper.extract_betalist_data(&nameless).is_none());
}

#[test]
fn startup_page_falls_through_invalid_selector() {
    let scraper = betalist();
    let html = r#"<div id="my-startup-box"><h3>Widget Works</h3><a href="https://widget.works">w</a></div>"#;
    let records = scraper.parse_betalist_page(html).unwrap();
    assert_eq!(records.len(), 1);
    assert_eq!(records[0].name, "Widget Works");
    assert_eq!(records[0].website, Some("https://widget.works".to_string()));
    assert!(scraper.parse_betalist_page("<p>nothing</p>").unwrap().is_empty());
}

#[test]
fn github_awesome_test_source_name() {
    let scraper = github_awesome();
    assert_eq!(scraper.source_name(), "GitHub Awesome");
}

#[test]
fn github_awesome_test_is_enabled() {
    let scraper = github_awesome();
    assert!(scraper.is_enabled());
}

#[test]
fn ycombinator_test_source_name() {
    let scraper = ycombinator();
    assert_eq!(scraper.source_name(), "Y Combinator");
}

#[test]
fn ycombinator_test_is_enabled() {
    let scraper = ycombinator();
    assert!(scraper.is_enabled());
}

#[test]
fn test_parse_ycombinator_page() {
    let scraper = ycombinator();

    let sample_html = r#"
            <div class="company-row">
                <h2>Test Company</h2>
                <p>A great startup doing amazing things</p>
                <a href="https://testcompany.com">Website</a>
            </div>
        "#;

    let result = scraper.parse_ycombinator_page(sample_html);
    assert!(result.is_ok());

    let scraped_data = result.unwrap();
    assert!(!scraped_data.is_empty());
    assert_eq!(scraped_data[0].name, "Test Company");
    assert_eq!(scraped_data.len(), 1);
    assert_eq!(scraped_data[0].website, Some("https://testcompany.com".to_string()));
    assert_eq!(
        scraped_data[0].raw_text,
        "Test Company A great startup doing amazing things Website"
    );
}

// Known edge case: a selector that matches elements of which none yields a
// record does not decide; the next selector is tried.
#[test]
fn directory_page_first_selector_with_records_decides() {
    let scraper = ycombinator();
    let html = r#"
        <div class="company-row"><p>no heading here</p></div>
        <div class="company"><h3>Second Co</h3></div>
        <div class="company"><span class="name"> Third Co </span></div>
        <table><tr><td><h3>Row Co</h3></td></tr></table>
    "#;
    let records = scraper.parse_ycombinator_page(html).unwrap();
    assert_eq!(records.len(), 2);
    assert_eq!(records[0].name, "Second Co");
    assert_eq!(records[1].name, "Third Co");
    assert_eq!(records[0].website, None);
}

#[test]
fn generic_record_takes_first_heading_with_text() {
    let scraper = ycombinator();
    let element = Element {
        html: r#"<div><h3> </h3><h2>Named</h2><a href="https://named.io">n</a></div>"#.to_string(),
        text: " Named n".to_string(),
        href: None,
        firsts: vec![
            Some(Anchor { text: " ".to_string(), href: None }),
            Some(Anchor { text: " Named ".to_string(), href: None }),
            None,
            None,
            None,
        ],
    };
    let data = scraper.base.extract_company_data(&element).unwrap();
    assert_eq!(data.name, "Named");
    assert_eq!(data.website, Some("https://named.io".to_string()));
    assert_eq!(data.raw_text, "Named n");
    let empty = Element { html: "<div></div>".to_string(), text: String::new(), href: None, firsts: vec![None, None, None, None, None] };
    assert!(scraper.base.extract_company_data(&empty).is_none());
}

#[test]
fn expected_lead_counts_scale_with_targets() {
    assert_eq!(ycombinator().expected_leads_count(), Some(100));
    assert_eq!(betalist().expected_leads_count(), Some(30));
    assert_eq!(github_awesome().expected_leads_count(), Some(200));
}

#[test]
fn page_addresses_and_pauses() {
    assert_eq!(ycombinator().page_urls(), vec!["https://www.ycombinator.com/companies?batch=W24".to_string()]);
    assert_eq!(betalist().page_urls(), vec!["https://betalist.com/startups".to_string()]);
    assert_eq!(ycombinator().pause_millis(), 500);
    assert_eq!(betalist().pause_millis(), 800);
    let curated = github_awesome();
    assert_eq!(curated.pause_millis(), 1000);
    assert_eq!(
        curated.readme_url_of("sindresorhus/awesome"),
        "https://api.github.com/repos/sindresorhus/awesome/contents/readme.md"
    );
    assert_eq!(
        curated.fallback_readme_url_of("sindresorhus/awesome"),
        "https://api.github.com/repos/sindresorhus/awesome/contents/README.md"
    );
}
