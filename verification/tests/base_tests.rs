use leadscraper::config::{GitHubAwesomeConfig, PatternsConfig};
use leadscraper::extractors::DataExtractor;
use leadscraper::models::Source;
use leadscraper::scrapers::base::BaseScraper;
use leadscraper::scrapers::github_awesome::GitHubAwesomeScraper;

fn base() -> BaseScraper {
    let extractor =
        DataExtractor::new(&PatternsConfig::default(), None).expect("Failed to create extractor");
    BaseScraper::new(extractor)
}

fn create_test_scraper() -> GitHubAwesomeScraper {
    let config = GitHubAwesomeConfig {
        enabled: true,
        repositories: vec!["sindresorhus/awesome".to_string()],
        api_base: "https://api.github.com/repos".to_string(),
    };
    let extractor =
        DataExtractor::new(&PatternsConfig::default(), None).expect("Failed to create extractor");
    GitHubAwesomeScraper::new(config, extractor)
}

#[test]
fn test_clean_project_name() {
    let base = base();

    assert_eq!(
        base.clean_project_name("🚀 Awesome Project 🎉"),
        "Awesome Project"
    );
    assert_eq!(
        base.clean_project_name("  spaced-name_123  "),
        "spaced-name_123"
    );
}

#[test]
fn test_is_valid_project_link() {
    let base = base();

    // Valid links
    assert!(base.is_valid_project_link(
        "MyProject",
        &Some("https://github.com/user/project".to_string())
    ));
    assert!(base.is_valid_project_link("CoolApp", &Some("https://example.com".to_string())));

    // Invalid links
    assert!(!base.is_valid_project_link("contents", &Some("https://example.com".to_string())));
    assert!(!base.is_valid_project_link("MyProject", &Some("#anchor".to_string())));
    assert!(!base.is_valid_project_link("MyProject", &Some("x".to_string())));
    assert!(!base.is_valid_project_link("", &Some("https://example.com".to_string())));
    assert!(!base.is_valid_project_link("MyProject", &None));
}

#[test]
fn category_names_and_readme_links_are_navigation() {
    let base = base();
    let url = Some("https://example.com/page".to_string());
    assert!(!base.is_valid_project_link("Databases", &url));
    assert!(!base.is_valid_project_link("Big Data tools", &url));
    assert!(base.is_valid_project_link("Workflow", &url));
    assert!(!base.is_valid_project_link("Tool", &Some("https://github.com/a/b#readme".to_string())));
    assert!(!base.is_valid_project_link("Tool", &Some("http://ab".to_string())));
    assert!(base.is_valid_project_link("Tool", &Some("http://a.b".to_string())));
}

#[test]
fn source_of_curated_record_is_its_link() {
    let base = base();
    match base.determine_source_from_url(&Some("https://github.com/a/b".to_string())) {
        Source::Website { url } => assert_eq!(url, "https://github.com/a/b"),
        other => panic!("unexpected source {:?}", other),
    }
    match base.determine_source_from_url(&None) {
        Source::Website { url } => assert_eq!(url, "unknown"),
        other => panic!("unexpected source {:?}", other),
    }
}

#[test]
fn test_parse_github_awesome_content() {
    let scraper = create_test_scraper();

    let sample_content = r#"
# Awesome List

## Projects

- [Awesome Project](https://github.com/user/awesome-project) - A really awesome project
- [Cool Tool](https://cooltool.com) - Tool for doing cool things
- [Contents](#contents) - Navigation link (should be filtered)
        "#;

    let result = scraper.parse_github_awesome_content(sample_content);
    assert!(result.is_ok());

    let scraped_data = result.unwrap();
    // The first link stands on a line that mentions another curated list
    // ("awesome-"), and the last on one that mentions the table of contents:
    // both lines are navigation.
    assert_eq!(scraped_data.len(), 1);
    assert_eq!(scraped_data[0].name, "Cool Tool");
    assert_eq!(scraped_data[0].website, Some("https://cooltool.com".to_string()));
    assert_eq!(scraped_data[0].raw_text, "Tool for doing cool things");
    assert_eq!(
        scraped_data[0].html,
        "<a href='https://cooltool.com'>Cool Tool</a> - Tool for doing cool things"
    );
}

#[test]
fn curated_list_keeps_project_and_drops_contents_anchor() {
    let scraper = create_test_scraper();
    let content = "- [Awesome Project](https://github.com/user/great-project) - desc\n- [Contents](#contents)\n";
    let records = scraper.parse_github_awesome_content(content).unwrap();
    assert_eq!(records.len(), 1);
    assert_eq!(records[0].name, "Awesome Project");
    assert_eq!(records[0].raw_text, "desc");
}

#[test]
fn curated_list_line_naming_another_list_is_navigation() {
    let scraper = create_test_scraper();
    let content = "- [Awesome Project](https://github.com/user/awesome-project) - desc\n- [Contents](#contents)\n";
    let records = scraper.parse_github_awesome_content(content).unwrap();
    assert_eq!(records.len(), 0);
}

#[test]
fn curated_list_without_description_and_with_emoji_name() {
    let scraper = create_test_scraper();
    let content = "* \u{1F680} [Rocket \u{1F680} App](https://rocket.example.org)\n";
    let records = scraper.parse_github_awesome_content(content).unwrap();
    assert_eq!(records.len(), 1);
    assert_eq!(records[0].name, "Rocket  App");
    assert_eq!(records[0].raw_text, "No description");
}

#[test]
fn curated_link_whose_name_cleans_to_nothing_is_no_record() {
    let scraper = create_test_scraper();
    let content = "- [\u{1F680}](https://example.com/x) - rocket\n- [\u{1F680} Real](https://example.com/real) - real\n";
    let records = scraper.parse_github_awesome_content(content).unwrap();
    assert_eq!(records.len(), 1);
    assert_eq!(records[0].name, "Real");
    assert!(records.iter().all(|r| !r.name.is_empty()));
}
