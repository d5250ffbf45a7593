//! The source adapters and what they share.

use crate::config::Config;
use crate::extractors::DataExtractor;
use crate::scrapers::betalist::BetaListScraper;
use crate::scrapers::github_awesome::GitHubAwesomeScraper;
use crate::scrapers::session::Scraper;
use crate::scrapers::ycombinator::YCombinatorScraper;
use vstd::prelude::*;

pub mod base;
pub mod betalist;
pub mod github_awesome;
pub mod session;
pub mod ycombinator;

verus! {

/// What every source adapter tells of itself.
pub trait SourceScraper {
    /// The human-readable name of the source.
    spec fn name(&self) -> Seq<char>;

    /// Whether the configuration enables the source.
    spec fn enabled(&self) -> bool;

    /// The number of leads to expect, before any bound of the machine.
    spec fn estimate(&self) -> nat;

    /// The human-readable name of the source.
    fn source_name(&self) -> (name: &'static str)
        ensures
            name@ == self.name(),
    ;

    /// Whether the configuration enables the source.
    fn is_enabled(&self) -> (enabled: bool)
        ensures
            enabled == self.enabled(),
    ;

    /// A rough number of leads to expect, for progress reports.
    fn expected_leads_count(&self) -> (count: Option<usize>)
        ensures
            count == Some(
                if self.estimate() <= usize::MAX {
                    self.estimate() as usize
                } else {
                    usize::MAX
                },
            ),
    ;
}

/// Whether two sets of extraction rules are the same rules.
pub open spec fn same_rules(a: DataExtractor, b: DataExtractor) -> bool {
    &&& a.mailto() == b.mailto()
    &&& a.generic() == b.generic()
    &&& a.indicators() == b.indicators()
    &&& a.suffixes() == b.suffixes()
    &&& a.token() == b.token()
}

/// Whether `scraper` is the adapter that `config` describes for its source, with
/// the rules `rules`.
pub open spec fn is_configured(scraper: Scraper, config: Config, rules: DataExtractor) -> bool {
    match scraper {
        Scraper::YCombinator(s) => s.config.agrees(config.sources.ycombinator) && same_rules(
            s.base.extractor,
            rules,
        ),
        Scraper::GitHubAwesome(s) => s.config.agrees(config.sources.github_awesome) && same_rules(
            s.base.extractor,
            rules,
        ),
        Scraper::BetaList(s) => s.config.agrees(config.sources.betalist) && same_rules(
            s.base.extractor,
            rules,
        ),
    }
}

/// The index of a source in the fixed order of the adapters.
pub open spec fn rank(scraper: Scraper) -> int {
    match scraper {
        Scraper::YCombinator(_) => 0,
        Scraper::GitHubAwesome(_) => 1,
        Scraper::BetaList(_) => 2,
    }
}

/// Whether the configuration enables the source of rank `r`.
pub open spec fn enables(config: Config, r: int) -> bool {
    if r == 0 {
        config.sources.ycombinator.enabled
    } else if r == 1 {
        config.sources.github_awesome.enabled
    } else {
        r == 2 && config.sources.betalist.enabled
    }
}

/// The adapters of the enabled sources, in the fixed order: the company
/// directory, the curated lists, the startup directory.
pub fn create_scrapers(config: &Config, extractor: &DataExtractor) -> (scrapers: Vec<Scraper>)
    ensures
        forall|i: int|
            0 <= i < scrapers@.len() ==> is_configured(#[trigger] scrapers@[i], *config, *extractor)
                && enables(*config, rank(scrapers@[i])),
        forall|i: int, j: int|
            0 <= i < j < scrapers@.len() ==> rank(#[trigger] scrapers@[i]) < rank(
                #[trigger] scrapers@[j],
            ),
        forall|r: int|
            0 <= r <= 2 && enables(*config, r) ==> exists|i: int|
                0 <= i < scrapers@.len() && rank(#[trigger] scrapers@[i]) == r,
{
    let mut scrapers: Vec<Scraper> = Vec::new();
    let ghost mut first: int = 0;
    let ghost mut second: int = 0;
    let ghost mut third: int = 0;
    if config.sources.ycombinator.enabled {
        scrapers.push(
            Scraper::YCombinator(
                YCombinatorScraper::new(config.sources.ycombinator.copy(), extractor.clone()),
            ),
        );
        proof {
            first = scrapers@.len() - 1;
        }
    }
    if config.sources.github_awesome.enabled {
        scrapers.push(
            Scraper::GitHubAwesome(
                GitHubAwesomeScraper::new(config.sources.github_awesome.copy(), extractor.clone()),
            ),
        );
        proof {
            second = scrapers@.len() - 1;
        }
    }
    if config.sources.betalist.enabled {
        scrapers.push(
            Scraper::BetaList(
                BetaListScraper::new(config.sources.betalist.copy(), extractor.clone()),
            ),
        );
        proof {
            third = scrapers@.len() - 1;
        }
    }
    proof {
        assert forall|r: int| 0 <= r <= 2 && enables(*config, r) implies exists|i: int|
            0 <= i < scrapers@.len() && rank(#[trigger] scrapers@[i]) == r by {
            if r == 0 {
                assert(rank(scrapers@[first]) == 0);
            } else if r == 1 {
                assert(rank(scrapers@[second]) == 1);
            } else {
                assert(rank(scrapers@[third]) == 2);
            }
        }
    }
    scrapers
}

} // verus!
