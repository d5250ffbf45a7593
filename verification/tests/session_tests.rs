use leadscraper::commits::{CommitRecord, RepoInfo};
use leadscraper::config::Config;
use leadscraper::http::Reply;
use leadscraper::models::{Lead, Source};
use leadscraper::scraper_util::LeadScraper;
use leadscraper::scrapers::session::{Action, Event, Scraper, Session, Stage};
use leadscraper::scrapers::{create_scrapers, SourceScraper};

fn engine(config: Config) -> LeadScraper {
    LeadScraper::new(config).expect("engine")
}

fn encode(text: &str) -> String {
    base64::Engine::encode(&base64::engine::general_purpose::STANDARD, text)
}

#[test]
fn factory_builds_enabled_adapters_in_fixed_order() {
    let mut config = Config::default();
    let engine_all = engine(config.clone());
    let all = create_scrapers(&engine_all.config, &engine_all.extractor);
    let names: Vec<&str> = all.iter().map(|s| s.source_name()).collect();
    assert_eq!(names, vec!["Y Combinator", "GitHub Awesome", "BetaList"]);

    config.sources.github_awesome.enabled = false;
    let engine_two = engine(config.clone());
    let two = create_scrapers(&engine_two.config, &engine_two.extractor);
    let names: Vec<&str> = two.iter().map(|s| s.source_name()).collect();
    assert_eq!(names, vec!["Y Combinator", "BetaList"]);
    assert!(two.iter().all(|s| s.is_enabled()));

    config.sources.ycombinator.enabled = false;
    config.sources.betalist.enabled = false;
    let engine_none = engine(config);
    assert!(create_scrapers(&engine_none.config, &engine_none.extractor).is_empty());
}

#[test]
fn directory_run_fetches_parses_pauses_and_finishes() {
    let mut config = Config::default();
    config.sources.ycombinator.endpoints = vec!["/a".to_string(), "/b".to_string()];
    let engine = engine(config);
    let scrapers = create_scrapers(&engine.config, &engine.extractor);
    let scraper = &scrapers[0];
    assert!(matches!(scraper, Scraper::YCombinator(_)));

    let run = Session::begin(scraper);
    let (run, action) = run.step(scraper, Event::Go);
    match action {
        Action::Fetch(request) => {
            assert_eq!(request.url, "https://www.ycombinator.com/a");
            assert_eq!(request.accept, None);
            assert_eq!(request.authorization, None);
        }
        _ => panic!("expected a fetch"),
    }
    let page = r#"<div class="company"><h3>Acme</h3><p>based in Chile, mail hi@acme.io</p>
        <a href="https://acme.io">site</a></div>
        <div class="company"><h3>Bolt</h3></div>"#;
    let (run, action) = run.step(scraper, Event::Page(Reply::Received(page.to_string())));
    assert!(matches!(action, Action::Continue));
    assert_eq!(run.records.len(), 2);
    let (run, action) = run.step(scraper, Event::Go);
    assert!(matches!(action, Action::Continue));
    assert_eq!(run.leads.len(), 1);
    let (run, action) = run.step(scraper, Event::Go);
    assert!(matches!(action, Action::Continue));
    assert_eq!(run.leads.len(), 2);
    let (run, action) = run.step(scraper, Event::Go);
    assert!(matches!(action, Action::Pause(500)));
    assert!(matches!(run.stage, Stage::Pausing));

    // The second page cannot be fetched: nothing is added, nothing is lost.
    let (run, action) = run.step(scraper, Event::Go);
    match action {
        Action::Fetch(request) => assert_eq!(request.url, "https://www.ycombinator.com/b"),
        _ => panic!("expected a fetch"),
    }
    let (run, action) = run.step(scraper, Event::Page(Reply::Refused("503 Service Unavailable".to_string())));
    assert!(matches!(action, Action::Pause(500)));
    assert_eq!(run.leads.len(), 2);
    let (run, action) = run.step(scraper, Event::Go);
    assert!(matches!(action, Action::Finish));
    assert!(matches!(run.stage, Stage::Finished));

    let lead: &Lead = &run.leads[0];
    assert_eq!(lead.name, "Acme");
    assert_eq!(lead.website, Some("https://acme.io".to_string()));
    assert_eq!(lead.email, Some("hi@acme.io".to_string()));
    assert_eq!(lead.country, Some("Chile".to_string()));
    assert_eq!(lead.github_email, None);
    assert!(matches!(lead.source, Source::YCombinator));
    assert_eq!(lead.description, Some("Acmebased in Chile, mail hi@acme.io site".to_string()));
    assert_eq!(run.leads[1].name, "Bolt");
    assert!(!run.leads[1].has_contact());
}

#[test]
fn curated_run_tries_second_address_and_mines_commits() {
    let mut config = Config::default();
    config.scraper.github_token = Some("SECRET-REDACTED".to_string());
    config.sources.github_awesome.repositories = vec!["lists/tools".to_string()];
    let engine = engine(config);
    let scrapers = create_scrapers(&engine.config, &engine.extractor);
    let scraper = &scrapers[1];
    assert!(matches!(scraper, Scraper::GitHubAwesome(_)));

    let run = Session::begin(scraper);
    let (run, action) = run.step(scraper, Event::Go);
    match action {
        Action::Fetch(request) => {
            assert_eq!(request.url, "https://api.github.com/repos/lists/tools/contents/readme.md");
            assert_eq!(request.accept, Some("application/vnd.github.v3+json".to_string()));
            assert_eq!(request.user_agent, Some("Lead-Scraper/1.0".to_string()));
            assert_eq!(request.authorization, Some("token SECRET-REDACTED".to_string()));
        }
        _ => panic!("expected a fetch"),
    }
    let (run, action) = run.step(scraper, Event::Page(Reply::Refused("404 Not Found".to_string())));
    match action {
        Action::Fetch(request) => {
            assert_eq!(request.url, "https://api.github.com/repos/lists/tools/contents/README.md");
        }
        _ => panic!("expected the second address"),
    }
    assert!(matches!(run.stage, Stage::AwaitFallback));

    let document = "# Tools\n\n- [Forked](https://github.com/acme/forked) - a fork\n- [Tool](https://github.com/acme/tool) - a tool\n- [Site](https://site.example.org) - a site\n";
    let mut content = encode(document);
    content.insert(8, '\n');
    let (run, action) = run.step(scraper, Event::Page(Reply::Received(content)));
    assert!(matches!(action, Action::Continue));
    assert_eq!(run.records.len(), 3);

    // First record: its repository is a fork.
    let (run, action) = run.step(scraper, Event::Go);
    match action {
        Action::FetchRepoInfo(request) => assert_eq!(request.url, "https://api.github.com/repos/acme/forked"),
        _ => panic!("expected the metadata request"),
    }
    assert!(run.draft.is_some());
    let fork = RepoInfo { fork: true, default_branch: "main".to_string() };
    let (run, action) = run.step(scraper, Event::RepoInfo(Reply::Received(fork)));
    assert!(matches!(action, Action::Continue));
    assert_eq!(run.leads.len(), 1);
    assert_eq!(run.leads[0].github_email, None);

    // Second record: commits are mined.
    let (run, action) = run.step(scraper, Event::Go);
    assert!(matches!(action, Action::FetchRepoInfo(_)));
    let info = RepoInfo { fork: false, default_branch: "trunk".to_string() };
    let (run, action) = run.step(scraper, Event::RepoInfo(Reply::Received(info)));
    match action {
        Action::FetchCommits(request) => {
            assert_eq!(request.url, "https://api.github.com/repos/acme/tool/commits?sha=trunk&per_page=15");
            assert_eq!(request.authorization, Some("token SECRET-REDACTED".to_string()));
        }
        _ => panic!("expected the commits request"),
    }
    let commits = vec![
        CommitRecord { author_email: "alice@gmail.com".to_string(), committer_email: "noreply@github.com".to_string() },
        CommitRecord { author_email: "dev@acme.io".to_string(), committer_email: "dev@acme.io".to_string() },
    ];
    let (run, action) = run.step(scraper, Event::Commits(Reply::Received(commits)));
    assert!(matches!(action, Action::Continue));
    assert_eq!(run.leads.len(), 2);
    assert_eq!(run.leads[1].name, "Tool");
    assert_eq!(run.leads[1].github_email, Some("dev@acme.io".to_string()));
    assert!(run.draft.is_none());

    // Third record: no repository, no mining.
    let (run, action) = run.step(scraper, Event::Go);
    assert!(matches!(action, Action::Continue));
    assert_eq!(run.leads.len(), 3);
    match &run.leads[2].source {
        Source::Website { url } => assert_eq!(url, "https://site.example.org"),
        other => panic!("unexpected source {:?}", other),
    }
    let (run, action) = run.step(scraper, Event::Go);
    assert!(matches!(action, Action::Pause(1000)));
    let (run, action) = run.step(scraper, Event::Go);
    assert!(matches!(action, Action::Finish));
    assert_eq!(run.leads.len(), 3);
}

#[test]
fn curated_run_passes_over_a_repository_whose_addresses_both_fail() {
    let engine = engine(Config::default());
    let scrapers = create_scrapers(&engine.config, &engine.extractor);
    let scraper = &scrapers[1];
    let run = Session::begin(scraper);
    let (run, _) = run.step(scraper, Event::Go);
    let (run, action) = run.step(scraper, Event::Page(Reply::Unreachable("dns".to_string())));
    assert!(matches!(action, Action::Fetch(_)));
    let (run, action) = run.step(scraper, Event::Page(Reply::Received("not base64 at all!".to_string())));
    assert!(matches!(action, Action::Pause(1000)));
    let (run, action) = run.step(scraper, Event::Go);
    assert!(matches!(action, Action::Finish));
    assert!(run.leads.is_empty());
}

#[test]
fn commits_request_that_fails_leaves_the_lead_without_mined_email() {
    let mut config = Config::default();
    config.sources.ycombinator.endpoints = vec!["/a".to_string()];
    let engine = engine(config);
    let scrapers = create_scrapers(&engine.config, &engine.extractor);
    let scraper = &scrapers[0];
    let run = Session::begin(scraper);
    let (run, _) = run.step(scraper, Event::Go);
    let page = r#"<div class="company"><h3>Repo Co</h3><a href="https://github.com/repo/co">code</a></div>"#;
    let (run, _) = run.step(scraper, Event::Page(Reply::Received(page.to_string())));
    let (run, action) = run.step(scraper, Event::Go);
    assert!(matches!(action, Action::FetchRepoInfo(_)));
    let info = RepoInfo { fork: false, default_branch: "main".to_string() };
    let (run, action) = run.step(scraper, Event::RepoInfo(Reply::Received(info)));
    assert!(matches!(action, Action::FetchCommits(_)));
    let (run, action) = run.step(scraper, Event::Commits(Reply::Unreachable("reset".to_string())));
    assert!(matches!(action, Action::Continue));
    assert_eq!(run.leads.len(), 1);
    assert_eq!(run.leads[0].github_email, None);
    assert_eq!(run.leads[0].website, Some("https://github.com/repo/co".to_string()));
}

#[test]
fn run_without_targets_finishes_at_once() {
    let mut config = Config::default();
    config.sources.betalist.endpoints = Vec::new();
    let engine = engine(config);
    let scrapers = create_scrapers(&engine.config, &engine.extractor);
    let scraper = &scrapers[2];
    let run = Session::begin(scraper);
    let (run, action) = run.step(scraper, Event::Go);
    assert!(matches!(action, Action::Finish));
    assert!(run.leads.is_empty());
}
