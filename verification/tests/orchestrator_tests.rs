use leadscraper::config::Config;
use leadscraper::errors::ScrapingError;
use leadscraper::models::{Lead, Source};
use leadscraper::scraper_util::LeadScraper;
use leadscraper::scrapers::SourceScraper;
use leadscraper::stats::LeadStats;

fn lead(name: &str, source: Source) -> Lead {
    Lead::at(name.to_string(), source, 1_700_000_000_000)
}

#[test]
fn failing_source_adds_nothing_and_the_run_never_fails() {
    let engine = LeadScraper::new(Config::default()).unwrap();
    let run = engine.scrape_all_sources();
    assert_eq!(run.scrapers.len(), 3);
    assert_eq!(run.current().unwrap().source_name(), "Y Combinator");
    let run = run.record(Err(ScrapingError::NetworkError("always fails".to_string())));
    assert_eq!(run.current().unwrap().source_name(), "GitHub Awesome");
    let found = vec![
        lead("One", Source::BetaList),
        lead("Two", Source::BetaList),
        lead("Three", Source::BetaList),
    ];
    let run = run.record(Ok(found));
    assert!(!run.is_finished());
    let run = run.record(Ok(Vec::new()));
    assert!(run.is_finished());
    assert!(run.current().is_none());
    assert_eq!(run.failures.len(), 1);
    assert_eq!(run.failures[0].source, "Y Combinator");
    assert_eq!(run.failures[0].error.to_text(), "Network error: always fails");
    let leads = run.finish().unwrap();
    let names: Vec<&str> = leads.iter().map(|l| l.name.as_str()).collect();
    assert_eq!(names, vec!["One", "Two", "Three"]);
}

#[test]
fn leads_of_all_sources_are_kept_in_order_without_deduplication() {
    let engine = LeadScraper::new(Config::default()).unwrap();
    let run = engine.scrape_all_sources();
    let run = run.record(Ok(vec![lead("Same", Source::YCombinator)]));
    let run = run.record(Ok(vec![lead("Other", Source::Website { url: "https://o.example.org".to_string() })]));
    let run = run.record(Ok(vec![lead("Same", Source::BetaList)]));
    let leads = run.finish().unwrap();
    let names: Vec<&str> = leads.iter().map(|l| l.name.as_str()).collect();
    assert_eq!(names, vec!["Same", "Other", "Same"]);
}

#[test]
fn engine_rejects_invalid_patterns() {
    let mut config = Config::default();
    config.patterns.location.country_indicators.push("based in ([A-Z".to_string());
    match LeadScraper::new(config) {
        Err(ScrapingError::ExtractionError(m)) => {
            assert!(m.starts_with("Failed to initialize data extractor: Regex error: "))
        }
        _ => panic!("expected an extraction error"),
    }
}

#[test]
fn export_splits_leads_and_counts_them() {
    let engine = LeadScraper::new(Config::default()).unwrap();
    let leads = vec![
        lead("A", Source::YCombinator).with_email(Some("a@a.io".to_string())).with_country(Some("Chile".to_string())),
        lead("B", Source::YCombinator),
        lead("C", Source::Website { url: "https://github.com/c/c".to_string() })
            .with_github_email(Some("c@c.io".to_string()))
            .with_country(Some("Peru".to_string())),
        lead("D", Source::Website { url: "https://d.example.org".to_string() }).with_country(Some("Chile".to_string())),
        lead("E", Source::GitHubAwesome { repository: "lists/tools".to_string() })
            .with_email(Some("e@e.io".to_string()))
            .with_github_email(Some("e2@e.io".to_string())),
        lead("F", Source::BetaList).with_linkedin(Some("https://linkedin.com/in/f".to_string())),
    ];
    let export = engine.save_leads(&leads);
    let contactable: Vec<&str> = export.contactable.iter().map(|l| l.name.as_str()).collect();
    let research: Vec<&str> = export.research.iter().map(|l| l.name.as_str()).collect();
    assert_eq!(contactable, vec!["A", "C", "E"]);
    assert_eq!(research, vec!["B", "D", "F"]);

    let stats = &export.stats;
    assert_eq!(stats.total_leads, 6);
    assert_eq!(stats.contactable_leads, 3);
    assert_eq!(stats.research_leads, 3);
    assert_eq!(stats.email_types.direct_emails, 2);
    assert_eq!(stats.email_types.github_emails, 1);
    assert_eq!(stats.email_types.no_emails, 3);
    let sources: Vec<(&str, usize, usize)> = stats
        .sources_breakdown
        .iter()
        .map(|s| (s.name.as_str(), s.total, s.with_contact))
        .collect();
    assert_eq!(
        sources,
        vec![
            ("Y Combinator", 2, 1),
            ("GitHub Project", 1, 1),
            ("GitHub/lists/tools", 1, 1),
            ("Website", 1, 0),
            ("BetaList", 1, 0),
        ]
    );
    let countries: Vec<(&str, usize)> =
        stats.countries_breakdown.iter().map(|c| (c.country.as_str(), c.leads)).collect();
    assert_eq!(countries, vec![("Chile", 2), ("Peru", 1)]);

    let paths = engine.export_paths("results/run1");
    assert_eq!(paths.contactable, "results/run1/contactable_leads.json");
    assert_eq!(paths.research, "results/run1/research_leads.json");
    assert_eq!(paths.stats, "results/run1/stats.json");
    assert_eq!(paths.all, "results/run1/all_leads.json");
}

#[test]
fn statistics_of_no_leads_are_empty() {
    let stats = LeadStats::new(&[], &[]);
    assert_eq!(stats.total_leads, 0);
    assert!(stats.sources_breakdown.is_empty());
    assert!(stats.countries_breakdown.is_empty());
    assert_eq!(stats.email_types.no_emails, 0);
}
