use leadscraper::commits::{CommitRecord, Mining, RepoInfo};
use leadscraper::config::PatternsConfig;
use leadscraper::errors::ScrapingError;
use leadscraper::extractors::DataExtractor;
use leadscraper::http::Reply;

fn rules() -> DataExtractor {
    DataExtractor::new(&PatternsConfig::default(), None).expect("Failed to create extractor")
}

fn commit(author: &str, committer: &str) -> CommitRecord {
    CommitRecord { author_email: author.to_string(), committer_email: committer.to_string() }
}

#[test]
fn mining_ranks_custom_domain_before_webmail_and_drops_automation() {
    let rules = rules();
    let commits = vec![
        commit("noreply@github.com", "noreply@github.com"),
        commit("dev@acme.io", "dev@acme.io"),
        commit("alice@gmail.com", "alice@gmail.com"),
    ];
    let emails = rules.extract_valid_emails_from_commits(commits);
    assert_eq!(emails, vec!["dev@acme.io".to_string(), "alice@gmail.com".to_string()]);
}

#[test]
fn mining_returns_at_most_two_and_keeps_first_seen_order_among_equals() {
    let rules = rules();
    let commits = vec![
        commit("zoe@gmail.com", "bob@google.com"),
        commit("b@beta.io", "a@alpha.io"),
        commit("b@beta.io", "c@gamma.io"),
    ];
    let emails = rules.extract_valid_emails_from_commits(commits);
    assert_eq!(emails, vec!["b@beta.io".to_string(), "a@alpha.io".to_string()]);

    let commits = vec![commit("zoe@gmail.com", "bob@google.com")];
    let emails = rules.extract_valid_emails_from_commits(commits);
    assert_eq!(emails, vec!["bob@google.com".to_string(), "zoe@gmail.com".to_string()]);

    assert!(rules.extract_valid_emails_from_commits(Vec::new()).is_empty());
}

#[test]
fn commit_address_validity() {
    let rules = rules();
    assert!(rules.is_valid_commit_email("dev@acme.io"));
    assert!(!rules.is_valid_commit_email("dev.acme.io"));
    assert!(!rules.is_valid_commit_email("dev@acme"));
    assert!(!rules.is_valid_commit_email("first.last@host"));
    assert!(!rules.is_valid_commit_email("NoReply@GitHub.com"));
    assert!(!rules.is_valid_commit_email("someone@users.noreply.github.com"));
    assert!(!rules.is_valid_commit_email("me@test.com"));
    assert!(!rules.is_valid_commit_email("me@contest.com"));
    assert!(!rules.is_valid_commit_email("x@localhost"));
    assert!(!rules.is_valid_commit_email("robot@corp.io"));
    assert!(!rules.is_valid_commit_email("ci[bot]@corp.io"));
    assert!(!rules.is_valid_commit_email("a@@b.com"));
    assert!(!rules.is_valid_commit_email("a@b@c.com"));
    assert!(rules.is_valid_commit_email("Alice@Example.org"));
}

#[test]
fn address_priorities() {
    let rules = rules();
    assert_eq!(rules.email_priority("dev@acme.io"), 5);
    assert_eq!(rules.email_priority("bob@google.com"), 4);
    assert_eq!(rules.email_priority("me@meta.com"), 4);
    assert_eq!(rules.email_priority("alice@gmail.com"), 2);
    assert_eq!(rules.email_priority("a@icloud.com"), 2);
    assert_eq!(rules.email_priority("ci@automated.io"), 0);
    assert_eq!(rules.email_priority("pay@transaction.com"), 0);
    assert_eq!(rules.email_priority("x@noreply.corp.io"), 0);
}

#[test]
fn repository_path_is_the_first_two_segments() {
    let rules = rules();
    assert_eq!(rules.parse_github_url("https://github.com/acme/tool/tree/main").unwrap(), "acme/tool");
    assert_eq!(rules.parse_github_url("https://github.com/acme/tool").unwrap(), "acme/tool");
    match rules.parse_github_url("https://github.com/acme") {
        Err(ScrapingError::ParseError(m)) => assert_eq!(m, "Invalid GitHub URL: https://github.com/acme"),
        other => panic!("unexpected {:?}", other),
    }
    assert!(rules.parse_github_url("github.com/acme/tool").is_err());
    assert!(rules.parse_github_url("mailto:acme@tool.io").is_err());
}

#[test]
fn mining_asks_for_metadata_then_commits() {
    let rules = DataExtractor::new(&PatternsConfig::default(), Some("SECRET-REDACTED".to_string())).unwrap();
    let repo_path = match rules.extract_github_commit_emails("https://github.com/acme/tool") {
        Mining::NeedRepoInfo { repo_path, request } => {
            assert_eq!(request.url, "https://api.github.com/repos/acme/tool");
            assert_eq!(request.authorization, Some("token SECRET-REDACTED".to_string()));
            assert_eq!(request.user_agent, Some("Lead-Scraper/1.0".to_string()));
            assert_eq!(request.accept, None);
            repo_path
        }
        other => panic!("unexpected {:?}", other),
    };
    assert_eq!(repo_path, "acme/tool");
    let info = RepoInfo { fork: false, default_branch: "main".to_string() };
    match rules.on_repo_info(&repo_path, Ok(info)) {
        Mining::NeedCommits { request } => {
            assert_eq!(request.url, "https://api.github.com/repos/acme/tool/commits?sha=main&per_page=15");
        }
        other => panic!("unexpected {:?}", other),
    }
    let commits = vec![CommitRecord { author_email: "dev@acme.io".to_string(), committer_email: "noreply@github.com".to_string() }];
    match rules.on_commits(Ok(commits)) {
        Mining::Done { emails } => assert_eq!(emails, vec!["dev@acme.io".to_string()]),
        other => panic!("unexpected {:?}", other),
    }
}

#[test]
fn mining_a_fork_ends_with_nothing() {
    let rules = rules();
    let info = RepoInfo { fork: true, default_branch: "main".to_string() };
    match rules.on_repo_info("acme/tool", Ok(info)) {
        Mining::Done { emails } => assert!(emails.is_empty()),
        other => panic!("unexpected {:?}", other),
    }
}

#[test]
fn mining_failures_end_with_nothing() {
    let rules = rules();
    match rules.extract_github_commit_emails("not a url") {
        Mining::Done { emails } => assert!(emails.is_empty()),
        other => panic!("unexpected {:?}", other),
    }
    match rules.on_repo_info("acme/tool", Err(ScrapingError::NetworkError("down".to_string()))) {
        Mining::Done { emails } => assert!(emails.is_empty()),
        other => panic!("unexpected {:?}", other),
    }
    match rules.on_commits(Err(ScrapingError::ParseError("bad".to_string()))) {
        Mining::Done { emails } => assert!(emails.is_empty()),
        other => panic!("unexpected {:?}", other),
    }
}

#[test]
fn api_replies_become_results() {
    let rules = rules();
    match rules.repo_info_result(Reply::Unreachable("timeout".to_string())) {
        Err(ScrapingError::NetworkError(m)) => assert_eq!(m, "Failed to get repo info: timeout"),
        other => panic!("unexpected {:?}", other),
    }
    match rules.repo_info_result(Reply::Refused("404 Not Found".to_string())) {
        Err(ScrapingError::NetworkError(m)) => assert_eq!(m, "GitHub API error: 404 Not Found"),
        other => panic!("unexpected {:?}", other),
    }
    match rules.repo_info_result(Reply::Unreadable("eof".to_string())) {
        Err(ScrapingError::ParseError(m)) => assert_eq!(m, "Failed to parse repo info: eof"),
        other => panic!("unexpected {:?}", other),
    }
    assert!(rules.repo_info_result(Reply::Received(RepoInfo { fork: true, default_branch: "m".to_string() })).unwrap().fork);
    assert!(rules.commits_result(Reply::Refused("403 Forbidden".to_string())).unwrap().is_empty());
    match rules.commits_result(Reply::Unreachable("reset".to_string())) {
        Err(ScrapingError::NetworkError(m)) => assert_eq!(m, "Failed to get commits: reset"),
        other => panic!("unexpected {:?}", other),
    }
    match rules.commits_result(Reply::Unreadable("eof".to_string())) {
        Err(ScrapingError::ParseError(m)) => assert_eq!(m, "Failed to parse commits: eof"),
        other => panic!("unexpected {:?}", other),
    }
    assert_eq!(rules.commits_result(Reply::Received(vec![commit("a@b.io", "a@b.io")])).unwrap().len(), 1);
}
