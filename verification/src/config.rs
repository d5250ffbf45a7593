//! Configuration of a run: read once at start-up and not changed afterwards.

use crate::text::{copy_strings, string_views};
use vstd::prelude::*;
use vstd::string::StringExecFns;

verus! {

/// Settings of the HTTP client and of the code-host API.
#[derive(Debug, Clone)]
pub struct ScraperConfig {
    pub timeout_seconds: u64,
    pub max_concurrent_requests: usize,
    pub user_agent: String,
    /// Optional token that raises the rate limits of the code-host API.
    pub github_token: Option<String>,
}

/// One named selector of a source.
#[derive(Debug, Clone)]
pub struct SelectorEntry {
    pub name: String,
    pub selector: String,
}

/// The company directory: where its pages are.
#[derive(Debug, Clone)]
pub struct YCombinatorConfig {
    pub enabled: bool,
    pub base_url: String,
    pub endpoints: Vec<String>,
    pub selectors: Vec<SelectorEntry>,
}

/// The curated lists: which repositories hold them.
#[derive(Debug, Clone)]
pub struct GitHubAwesomeConfig {
    pub enabled: bool,
    pub repositories: Vec<String>,
    pub api_base: String,
}

/// The startup directory: where its pages are.
#[derive(Debug, Clone)]
pub struct BetaListConfig {
    pub enabled: bool,
    pub base_url: String,
    pub endpoints: Vec<String>,
    pub selectors: Vec<SelectorEntry>,
}

/// The three sources.
#[derive(Debug, Clone)]
pub struct SourcesConfig {
    pub ycombinator: YCombinatorConfig,
    pub github_awesome: GitHubAwesomeConfig,
    pub betalist: BetaListConfig,
}

/// The patterns that find an email address.
#[derive(Debug, Clone)]
pub struct EmailPatterns {
    pub mailto: String,
    pub contact: String,
    pub generic: String,
}

/// The patterns that find a country in running text.
#[derive(Debug, Clone)]
pub struct LocationPatterns {
    pub country_indicators: Vec<String>,
}

/// One row of the table from host suffix to country.
#[derive(Debug, Clone)]
pub struct TldEntry {
    pub suffix: String,
    pub country: String,
}

/// The patterns and the table that the extraction rules are built from.
#[derive(Debug, Clone)]
pub struct PatternsConfig {
    pub email: EmailPatterns,
    pub location: LocationPatterns,
    /// Rows are tried in this order; the first suffix that fits wins.
    pub tld_mapping: Vec<TldEntry>,
}

/// The configuration of a run.
#[derive(Debug, Clone)]
pub struct Config {
    pub scraper: ScraperConfig,
    pub sources: SourcesConfig,
    pub patterns: PatternsConfig,
}

/// The named selectors of a list as pairs of name and selector.
pub open spec fn selector_views(list: Seq<SelectorEntry>) -> Seq<(Seq<char>, Seq<char>)> {
    list.map_values(|e: SelectorEntry| (e.name@, e.selector@))
}

/// A copy of a list of named selectors.
fn copy_selectors(list: &Vec<SelectorEntry>) -> (copy: Vec<SelectorEntry>)
    ensures
        selector_views(copy@) == selector_views(list@),
{
    let mut copy: Vec<SelectorEntry> = Vec::new();
    let mut i: usize = 0;
    while i < list.len()
        invariant
            i <= list.len(),
            copy@.len() == i,
            forall|j: int|
                0 <= j < i ==> (#[trigger] copy@[j]).name@ == list@[j].name@ && copy@[j].selector@
                    == list@[j].selector@,
        decreases list.len() - i,
    {
        copy.push(
            SelectorEntry { name: list[i].name.clone(), selector: list[i].selector.clone() },
        );
        i += 1;
    }
    assert(selector_views(copy@) =~= selector_views(list@));
    copy
}

impl YCombinatorConfig {
    /// Whether two configurations say the same.
    pub open spec fn agrees(self, other: YCombinatorConfig) -> bool {
        &&& self.enabled == other.enabled
        &&& self.base_url@ == other.base_url@
        &&& string_views(self.endpoints@) == string_views(other.endpoints@)
        &&& selector_views(self.selectors@) == selector_views(other.selectors@)
    }

    /// A copy of this configuration.
    pub fn copy(&self) -> (copy: YCombinatorConfig)
        ensures
            copy.agrees(*self),
    {
        YCombinatorConfig {
            enabled: self.enabled,
            base_url: self.base_url.clone(),
            endpoints: copy_strings(&self.endpoints),
            selectors: copy_selectors(&self.selectors),
        }
    }
}

impl BetaListConfig {
    /// Whether two configurations say the same.
    pub open spec fn agrees(self, other: BetaListConfig) -> bool {
        &&& self.enabled == other.enabled
        &&& self.base_url@ == other.base_url@
        &&& string_views(self.endpoints@) == string_views(other.endpoints@)
        &&& selector_views(self.selectors@) == selector_views(other.selectors@)
    }

    /// A copy of this configuration.
    pub fn copy(&self) -> (copy: BetaListConfig)
        ensures
            copy.agrees(*self),
    {
        BetaListConfig {
            enabled: self.enabled,
            base_url: self.base_url.clone(),
            endpoints: copy_strings(&self.endpoints),
            selectors: copy_selectors(&self.selectors),
        }
    }
}

impl GitHubAwesomeConfig {
    /// Whether two configurations say the same.
    pub open spec fn agrees(self, other: GitHubAwesomeConfig) -> bool {
        &&& self.enabled == other.enabled
        &&& self.api_base@ == other.api_base@
        &&& string_views(self.repositories@) == string_views(other.repositories@)
    }

    /// A copy of this configuration.
    pub fn copy(&self) -> (copy: GitHubAwesomeConfig)
        ensures
            copy.agrees(*self),
    {
        GitHubAwesomeConfig {
            enabled: self.enabled,
            repositories: copy_strings(&self.repositories),
            api_base: self.api_base.clone(),
        }
    }
}

/// A list with the one entry `s`.
fn single(s: &str) -> (v: Vec<String>)
    ensures
        v@.len() == 1,
        v@[0]@ == s@,
{
    let mut v: Vec<String> = Vec::new();
    v.push(String::from_str(s));
    v
}

impl Default for PatternsConfig {
    /// The built-in patterns: a `mailto:` link, a generic address, one country
    /// indicator, and an empty suffix table.
    fn default() -> (p: PatternsConfig)
        ensures
            p.email.mailto@ == "mailto:([a-zA-Z0-9._%+-]+@[a-zA-Z0-9.-]+\\.[a-zA-Z]{2,})"@,
            p.email.contact@ == "contact@|info@|hello@"@,
            p.email.generic@ == "[a-zA-Z0-9._%+-]+@[a-zA-Z0-9.-]+\\.[a-zA-Z]{2,}"@,
            p.location.country_indicators@.len() == 1,
            p.location.country_indicators@[0]@ == "based in ([A-Za-z\\s]+)"@,
            p.tld_mapping@.len() == 0,
    {
        PatternsConfig {
            email: EmailPatterns {
                mailto: String::from_str(
                    "mailto:([a-zA-Z0-9._%+-]+@[a-zA-Z0-9.-]+\\.[a-zA-Z]{2,})",
                ),
                contact: String::from_str("contact@|info@|hello@"),
                generic: String::from_str("[a-zA-Z0-9._%+-]+@[a-zA-Z0-9.-]+\\.[a-zA-Z]{2,}"),
            },
            location: LocationPatterns {
                country_indicators: single("based in ([A-Za-z\\s]+)"),
            },
            tld_mapping: Vec::new(),
        }
    }
}

impl Default for Config {
    /// Every source enabled with its one standard endpoint, a 30 second timeout,
    /// no token, and the built-in patterns.
    fn default() -> (c: Config)
        ensures
            c.scraper.timeout_seconds == 30,
            c.scraper.max_concurrent_requests == 10,
            c.scraper.user_agent@ == "Mozilla/5.0 (X11; Linux x86_64) AppleWebKit/537.36"@,
            c.scraper.github_token is None,
            c.sources.ycombinator.enabled,
            c.sources.ycombinator.base_url@ == "https://www.ycombinator.com"@,
            c.sources.ycombinator.endpoints@.len() == 1,
            c.sources.ycombinator.endpoints@[0]@ == "/companies"@,
            c.sources.ycombinator.selectors@.len() == 0,
            c.sources.github_awesome.enabled,
            c.sources.github_awesome.repositories@.len() == 1,
            c.sources.github_awesome.repositories@[0]@ == "awesome-startup-tools"@,
            c.sources.github_awesome.api_base@ == "https://api.github.com/repos"@,
            c.sources.betalist.enabled,
            c.sources.betalist.base_url@ == "https://betalist.com"@,
            c.sources.betalist.endpoints@.len() == 1,
            c.sources.betalist.endpoints@[0]@ == "/startups"@,
            c.sources.betalist.selectors@.len() == 0,
            c.patterns.email.mailto@ == "mailto:([a-zA-Z0-9._%+-]+@[a-zA-Z0-9.-]+\\.[a-zA-Z]{2,})"@,
            c.patterns.email.contact@ == "contact@|info@|hello@"@,
            c.patterns.email.generic@ == "[a-zA-Z0-9._%+-]+@[a-zA-Z0-9.-]+\\.[a-zA-Z]{2,}"@,
            c.patterns.location.country_indicators@.len() == 1,
            c.patterns.location.country_indicators@[0]@ == "based in ([A-Za-z\\s]+)"@,
            c.patterns.tld_mapping@.len() == 0,
    {
        Config {
            scraper: ScraperConfig {
                timeout_seconds: 30,
                max_concurrent_requests: 10,
                user_agent: String::from_str("Mozilla/5.0 (X11; Linux x86_64) AppleWebKit/537.36"),
                github_token: None,
            },
            sources: SourcesConfig {
                ycombinator: YCombinatorConfig {
                    enabled: true,
                    base_url: String::from_str("https://www.ycombinator.com"),
                    endpoints: single("/companies"),
                    selectors: Vec::new(),
                },
                github_awesome: GitHubAwesomeConfig {
                    enabled: true,
                    repositories: single("awesome-startup-tools"),
                    api_base: String::from_str("https://api.github.com/repos"),
                },
                betalist: BetaListConfig {
                    enabled: true,
                    base_url: String::from_str("https://betalist.com"),
                    endpoints: single("/startups"),
                    selectors: Vec::new(),
                },
            },
            patterns: PatternsConfig::default(),
        }
    }
}

} // verus!
