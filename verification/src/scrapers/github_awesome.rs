//! The curated-list adapter: project links mined from markdown documents.

use crate::config::GitHubAwesomeConfig;
use crate::errors::ScrapingError;
use crate::extractors::DataExtractor;
use crate::http::Reply;
use crate::models::{record_views, RecordView, ScrapedData};
use crate::pattern::{first_match, group, group_of, match_view, pattern_compiles, Pattern};
use crate::scrapers::base::{
    all_named,
    clean_name,
    is_project_link,
    lemma_filter_map_is_named,
    readme_text,
    BaseScraper,
};
use crate::scrapers::SourceScraper;
use crate::text;
use crate::text::{contains, lines, starts_with, string_views, trim};
use vstd::prelude::*;
use vstd::string::StringExecFns;

verus! {

/// The adapter for curated lists.
pub struct GitHubAwesomeScraper {
    pub config: GitHubAwesomeConfig,
    pub base: BaseScraper,
}

/// The patterns of a markdown link, tried in this order: a link with an optional
/// description after a dash, the same behind a bullet, and a bare link.
pub open spec fn link_patterns() -> Seq<Seq<char>> {
    seq![
        "\\[([^\\]]+)\\]\\(([^)]+)\\)(?:\\s*[-\u{2013}\u{2014}]\\s*(.+))?"@,
        "[-*]\\s*(?:[^\\[\\]]*\\s+)?\\[([^\\]]+)\\]\\(([^)]+)\\)(?:\\s*[-\u{2013}\u{2014}]\\s*(.+))?"@,
        "\\[([^\\]]+)\\]\\(([^)]+)\\)"@,
    ]
}

/// Whether a line is navigation rather than a project: a header, or a line that
/// mentions the table of contents, another curated list, or the root list.
pub open spec fn is_navigation_line(line: Seq<char>) -> bool {
    ||| starts_with(trim(line), seq!['#'])
    ||| contains(line, "contents"@)
    ||| contains(line, "awesome-"@)
    ||| contains(line, "github.com/sindresorhus"@)
}

/// The display name that a link match captures.
pub open spec fn link_name(groups: Seq<Option<Seq<char>>>) -> Seq<char> {
    match group(groups, 1) {
        Some(name) => trim(name),
        None => "Unknown"@,
    }
}

/// The target that a link match captures.
pub open spec fn link_url(groups: Seq<Option<Seq<char>>>) -> Option<Seq<char>> {
    match group(groups, 2) {
        Some(url) => Some(trim(url)),
        None => None,
    }
}

/// The description that a link match captures.
pub open spec fn link_description(groups: Seq<Option<Seq<char>>>) -> Seq<char> {
    match group(groups, 3) {
        Some(description) => trim(description),
        None => "No description"@,
    }
}

/// The markup fragment that stands for a link in its record.
pub open spec fn link_html(name: Seq<char>, url: Option<Seq<char>>, description: Seq<char>) -> Seq<
    char,
> {
    "<a href='"@ + (match url {
        Some(u) => u,
        None => Seq::empty(),
    }) + "'>"@ + name + "</a> - "@ + description
}

/// The record of a link match, where the link names a project and its cleaned
/// name is not empty.
pub open spec fn link_record(found: Option<Seq<Option<Seq<char>>>>) -> Option<RecordView> {
    match found {
        None => None,
        Some(groups) => {
            let name = link_name(groups);
            let url = link_url(groups);
            let description = link_description(groups);
            if is_project_link(name, url) && clean_name(name).len() > 0 {
                Some(
                    RecordView {
                        name: clean_name(name),
                        website: url,
                        raw_text: description,
                        html: link_html(name, url, description),
                    },
                )
            } else {
                None
            }
        },
    }
}

/// The record that `pattern` finds in a line, where the line is no navigation.
pub open spec fn line_record(pattern: Seq<char>) -> spec_fn(Seq<char>) -> Option<RecordView> {
    |line: Seq<char>|
        if is_navigation_line(line) {
            None
        } else {
            link_record(first_match(pattern, line))
        }
}

/// The records of a document under the first pattern that yields any; an error
/// where a pattern that is reached does not compile.
pub open spec fn records_by(patterns: Seq<Seq<char>>, ls: Seq<Seq<char>>) -> Result<
    Seq<RecordView>,
    (),
>
    decreases patterns.len(),
{
    if patterns.len() == 0 {
        Ok(Seq::empty())
    } else if !pattern_compiles(patterns[0]) {
        Err(())
    } else {
        let records = ls.filter_map(line_record(patterns[0]));
        if records.len() > 0 {
            Ok(records)
        } else {
            records_by(patterns.drop_first(), ls)
        }
    }
}

/// Every record of a link has a name.
pub proof fn lemma_link_record_is_named(found: Option<Seq<Option<Seq<char>>>>)
    ensures
        link_record(found) matches Some(record) ==> record.name.len() > 0,
{
}

/// Every record of a curated list has a name.
pub proof fn lemma_records_by_are_named(patterns: Seq<Seq<char>>, ls: Seq<Seq<char>>)
    ensures
        records_by(patterns, ls) matches Ok(records) ==> all_named(records),
    decreases patterns.len(),
{
    if patterns.len() > 0 {
        assert forall|line: Seq<char>| (#[trigger] line_record(patterns[0])(line)) matches Some(r)
            ==> r.name.len() > 0 by {
            lemma_link_record_is_named(first_match(patterns[0], line));
        }
        lemma_filter_map_is_named(ls, line_record(patterns[0]));
        lemma_records_by_are_named(patterns.drop_first(), ls);
    }
}

/// The link patterns.
fn link_pattern_list() -> (v: Vec<String>)
    ensures
        string_views(v@) == link_patterns(),
{
    let mut v: Vec<String> = Vec::new();
    v.push(String::from_str("\\[([^\\]]+)\\]\\(([^)]+)\\)(?:\\s*[-\u{2013}\u{2014}]\\s*(.+))?"));
    v.push(
        String::from_str(
            "[-*]\\s*(?:[^\\[\\]]*\\s+)?\\[([^\\]]+)\\]\\(([^)]+)\\)(?:\\s*[-\u{2013}\u{2014}]\\s*(.+))?",
        ),
    );
    v.push(String::from_str("\\[([^\\]]+)\\]\\(([^)]+)\\)"));
    assert(string_views(v@) =~= link_patterns());
    v
}

/// Whether a line is navigation rather than a project.
pub fn is_navigation(line: &Vec<char>) -> (b: bool)
    ensures
        b == is_navigation_line(line@),
{
    let trimmed = text::trim_chars(line);
    let mut hash: Vec<char> = Vec::new();
    hash.push('#');
    assert(hash@ =~= seq!['#']);
    if text::starts_with_chars(&trimmed, &hash) {
        return true;
    }
    let contents = text::to_chars("contents");
    if text::contains_chars(line, &contents) {
        return true;
    }
    let awesome = text::to_chars("awesome-");
    if text::contains_chars(line, &awesome) {
        return true;
    }
    let root = text::to_chars("github.com/sindresorhus");
    text::contains_chars(line, &root)
}

/// What a reply to the request for a readme yields: the records of the curated
/// list, or nothing where the request failed, the content was not understood, or
/// a link pattern did not compile.
pub open spec fn readme_records(reply: Reply<String>) -> Option<Seq<RecordView>> {
    match reply {
        Reply::Received(content) => match readme_text(content@) {
            Some(document) => match records_by(link_patterns(), lines(document)) {
                Ok(records) => Some(records),
                Err(_) => None,
            },
            None => None,
        },
        _ => None,
    }
}

/// The address of the readme of a repository, in lower case.
pub open spec fn readme_url(api_base: Seq<char>, repository: Seq<char>) -> Seq<char> {
    api_base + "/"@ + repository + "/contents/readme.md"@
}

/// The address of the readme of a repository, in capitals: tried where the first
/// address fails.
pub open spec fn fallback_readme_url(api_base: Seq<char>, repository: Seq<char>) -> Seq<char> {
    api_base + "/"@ + repository + "/contents/README.md"@
}

impl SourceScraper for GitHubAwesomeScraper {
    open spec fn name(&self) -> Seq<char> {
        "GitHub Awesome"@
    }

    open spec fn enabled(&self) -> bool {
        self.config.enabled
    }

    open spec fn estimate(&self) -> nat {
        self.config.repositories@.len() * 200
    }

    fn source_name(&self) -> &'static str {
        "GitHub Awesome"
    }

    fn is_enabled(&self) -> bool {
        self.config.enabled
    }

    fn expected_leads_count(&self) -> Option<usize> {
        match self.config.repositories.len().checked_mul(200) {
            Some(n) => Some(n),
            None => Some(usize::MAX),
        }
    }
}

impl GitHubAwesomeScraper {
    /// The address of the readme of `repository`, in lower case.
    pub fn readme_url_of(&self, repository: &str) -> (url: String)
        ensures
            url@ == readme_url(self.config.api_base@, repository@),
    {
        self.config.api_base.clone().concat("/").concat(repository).concat("/contents/readme.md")
    }

    /// The address of the readme of `repository`, in capitals.
    pub fn fallback_readme_url_of(&self, repository: &str) -> (url: String)
        ensures
            url@ == fallback_readme_url(self.config.api_base@, repository@),
    {
        self.config.api_base.clone().concat("/").concat(repository).concat("/contents/README.md")
    }

    /// The pause after each repository, in milliseconds.
    pub fn pause_millis(&self) -> (millis: u64)
        ensures
            millis == 1000,
    {
        1000
    }

    /// The records that a reply to the request for the readme at `url` yields; an
    /// error where the request failed or the document was not understood.
    pub fn records_of_reply(&self, url: &str, reply: Reply<String>) -> (r: Result<
        Vec<ScrapedData>,
        ScrapingError,
    >)
        ensures
            match readme_records(reply) {
                Some(records) => r matches Ok(found) && record_views(found@) == records,
                None => r is Err,
            },
            r matches Ok(found) ==> all_named(record_views(found@)),
    {
        match self.base.fetch_github_readme(url, reply) {
            Ok(document) => self.parse_github_awesome_content(document.as_str()),
            Err(e) => Err(e),
        }
    }

    /// The adapter for `config` with the rules `extractor`.
    pub fn new(config: GitHubAwesomeConfig, extractor: DataExtractor) -> (scraper:
        GitHubAwesomeScraper)
        ensures
            scraper.config == config,
            scraper.base.extractor == extractor,
    {
        GitHubAwesomeScraper { config, base: BaseScraper::new(extractor) }
    }

    /// The record of a link match, where the link names a project and its cleaned
    /// name is not empty.
    pub fn link_record_of(&self, found: &Option<Vec<Option<String>>>) -> (record: Option<
        ScrapedData,
    >)
        ensures
            match record {
                Some(r) => link_record(match_view(*found)) == Some(r@),
                None => link_record(match_view(*found)) is None,
            },
    {
        let groups = match found {
            Some(groups) => groups,
            None => {
                return None;
            },
        };
        let name = match group_of(groups, 1) {
            Some(n) => text::str_trim(n.as_str()),
            None => String::from_str("Unknown"),
        };
        let url = match group_of(groups, 2) {
            Some(u) => Some(text::str_trim(u.as_str())),
            None => None,
        };
        let description = match group_of(groups, 3) {
            Some(d) => text::str_trim(d.as_str()),
            None => String::from_str("No description"),
        };
        if !self.base.is_valid_project_link(name.as_str(), &url) {
            return None;
        }
        let cleaned = self.base.clean_project_name(name.as_str());
        if cleaned.as_str().is_empty() {
            return None;
        }
        let html = String::from_str("<a href='");
        let html = match &url {
            Some(u) => html.concat(u.as_str()),
            None => {
                assert(html@ + Seq::<char>::empty() =~= html@);
                html
            },
        };
        let html = html.concat("'>").concat(name.as_str()).concat("</a> - ").concat(
            description.as_str(),
        );
        Some(
            ScrapedData {
                name: cleaned,
                website: url,
                raw_text: description,
                html,
            },
        )
    }

    /// The project records of a curated list: the document is read line by line,
    /// navigation lines are passed over, and of the link patterns the first that
    /// yields a record decides. Fails with a regex error where a pattern that is
    /// reached does not compile.
    pub fn parse_github_awesome_content(&self, content: &str) -> (r: Result<
        Vec<ScrapedData>,
        ScrapingError,
    >)
        ensures
            match records_by(link_patterns(), lines(content@)) {
                Ok(records) => r matches Ok(found) && record_views(found@) == records,
                Err(_) => r matches Err(ScrapingError::RegexError(m)) && starts_with(
                    m@,
                    "Failed to compile GitHub regex: "@,
                ),
            },
            r matches Ok(found) ==> all_named(record_views(found@)),
    {
        proof {
            lemma_records_by_are_named(link_patterns(), lines(content@));
        }
        let chars = text::to_chars(content);
        let ls = text::split_lines(&chars);
        let ghost all_lines = lines(content@);
        let patterns = link_pattern_list();
        let ghost all = link_patterns();
        let mut p: usize = 0;
        assert(all.skip(0) =~= all);
        while p < patterns.len()
            invariant
                p <= patterns.len(),
                all == link_patterns(),
                all == string_views(patterns@),
                all_lines == text::views(ls@),
                all_lines == lines(content@),
                records_by(link_patterns(), lines(content@)) matches Ok(records) ==> all_named(
                    records,
                ),
                records_by(all, all_lines) == records_by(all.skip(p as int), all_lines),
            decreases patterns.len() - p,
        {
            proof {
                assert(all.skip(p as int)[0] == patterns@[p as int]@);
                assert(all.skip(p as int).drop_first() =~= all.skip(p + 1));
            }
            let pattern = match Pattern::new(patterns[p].as_str()) {
                Ok(pattern) => pattern,
                Err(e) => {
                    let why = match e {
                        ScrapingError::RegexError(why) => why,
                        _ => String::new(),
                    };
                    let message = String::from_str("Failed to compile GitHub regex: ").concat(
                        why.as_str(),
                    );
                    proof {
                        text::lemma_begins_with_prefix("Failed to compile GitHub regex: "@, why@);
                    }
                    return Err(ScrapingError::RegexError(message));
                },
            };
            let ghost f = line_record(pattern.source());
            let mut found: Vec<ScrapedData> = Vec::new();
            let mut i: usize = 0;
            proof {
                assert(all_lines.take(0) =~= Seq::<Seq<char>>::empty());
                assert(record_views(found@) =~= all_lines.take(0).filter_map(f));
            }
            while i < ls.len()
                invariant
                    i <= ls.len(),
                    all_lines == text::views(ls@),
                    f == line_record(pattern.source()),
                    record_views(found@) == all_lines.take(i as int).filter_map(f),
                decreases ls.len() - i,
            {
                let ghost before = record_views(found@);
                proof {
                    all_lines.lemma_filter_map_take_succ(f, i as int);
                    assert(all_lines[i as int] == ls@[i as int]@);
                }
                if !is_navigation(&ls[i]) {
                    let line = text::string_of(&ls[i]);
                    let caps = pattern.captures(line.as_str());
                    match self.link_record_of(&caps) {
                        Some(record) => {
                            found.push(record);
                            assert(record_views(found@) =~= before + seq![record@]);
                        },
                        None => {
                            assert(before + Seq::<RecordView>::empty() =~= before);
                        },
                    }
                } else {
                    assert(before + Seq::<RecordView>::empty() =~= before);
                }
                i += 1;
            }
            assert(all_lines.take(ls.len() as int) =~= all_lines);
            if found.len() > 0 {
                return Ok(found);
            }
            p += 1;
        }
        let none: Vec<ScrapedData> = Vec::new();
        assert(record_views(none@) =~= Seq::<RecordView>::empty());
        Ok(none)
    }
}

} // verus!
