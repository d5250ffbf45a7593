//! The directory adapter: companies listed on directory pages.

use crate::config::YCombinatorConfig;
use crate::errors::ScrapingError;
use crate::extractors::DataExtractor;
use crate::http::Reply;
use crate::markup;
use crate::markup::element_views;
use crate::models::{record_views, RecordView, ScrapedData};
use crate::scrapers::base::{
    all_named,
    generic_record,
    lemma_page_records_are_named,
    name_selector_list,
    name_selectors,
    page_records,
    page_urls,
    page_urls_of,
    BaseScraper,
};
use crate::scrapers::SourceScraper;
use crate::text::string_views;
use vstd::prelude::*;
use vstd::string::StringExecFns;

verus! {

/// The adapter for the company directory.
pub struct YCombinatorScraper {
    pub config: YCombinatorConfig,
    pub base: BaseScraper,
}

/// The selectors that locate a listed company, in order of trial.
pub open spec fn company_selectors() -> Seq<Seq<char>> {
    seq![".company-row"@, ".company"@, ".startup-item"@, "[data-company]"@, "tr"@]
}

fn company_selector_list() -> (v: Vec<String>)
    ensures
        string_views(v@) == company_selectors(),
{
    let mut v: Vec<String> = Vec::new();
    v.push(String::from_str(".company-row"));
    v.push(String::from_str(".company"));
    v.push(String::from_str(".startup-item"));
    v.push(String::from_str("[data-company]"));
    v.push(String::from_str("tr"));
    assert(string_views(v@) =~= company_selectors());
    v
}

/// What a reply to the request for a directory page yields: the records of the
/// page, or nothing where the request failed.
pub open spec fn directory_records(reply: Reply<String>) -> Option<Seq<RecordView>> {
    match reply {
        Reply::Received(body) => Some(
            page_records(company_selectors(), body@, name_selectors(), generic_record()),
        ),
        _ => None,
    }
}

impl SourceScraper for YCombinatorScraper {
    open spec fn name(&self) -> Seq<char> {
        "Y Combinator"@
    }

    open spec fn enabled(&self) -> bool {
        self.config.enabled
    }

    open spec fn estimate(&self) -> nat {
        self.config.endpoints@.len() * 100
    }

    fn source_name(&self) -> &'static str {
        "Y Combinator"
    }

    fn is_enabled(&self) -> bool {
        self.config.enabled
    }

    fn expected_leads_count(&self) -> Option<usize> {
        match self.config.endpoints.len().checked_mul(100) {
            Some(n) => Some(n),
            None => Some(usize::MAX),
        }
    }
}

impl YCombinatorScraper {
    /// The pages to fetch, in configured order.
    pub fn page_urls(&self) -> (urls: Vec<String>)
        ensures
            string_views(urls@) == page_urls_of(self.config.base_url@, string_views(
                self.config.endpoints@,
            )),
    {
        page_urls(&self.config.base_url, &self.config.endpoints)
    }

    /// The pause after each page, in milliseconds.
    pub fn pause_millis(&self) -> (millis: u64)
        ensures
            millis == 500,
    {
        500
    }

    /// The records that a reply to the request for `url` yields; an error where
    /// the request failed.
    pub fn records_of_reply(&self, url: &str, reply: Reply<String>) -> (r: Result<
        Vec<ScrapedData>,
        ScrapingError,
    >)
        ensures
            match directory_records(reply) {
                Some(records) => r matches Ok(found) && record_views(found@) == records,
                None => r matches Err(ScrapingError::NetworkError(_)),
            },
            r matches Ok(found) ==> all_named(record_views(found@)),
    {
        match self.base.fetch_html(url, reply) {
            Ok(body) => self.parse_ycombinator_page(body.as_str()),
            Err(e) => Err(e),
        }
    }

    /// The adapter for `config` with the rules `extractor`.
    pub fn new(config: YCombinatorConfig, extractor: DataExtractor) -> (scraper: YCombinatorScraper)
        ensures
            scraper.config == config,
            scraper.base.extractor == extractor,
    {
        YCombinatorScraper { config, base: BaseScraper::new(extractor) }
    }

    /// The records of a directory page: the elements of the first company
    /// selector under which any element yields a record, each turned into its
    /// record, in the order of the query.
    pub fn parse_ycombinator_page(&self, html: &str) -> (r: Result<Vec<ScrapedData>, ScrapingError>)
        ensures
            r matches Ok(found) && record_views(found@) == page_records(
                company_selectors(),
                html@,
                name_selectors(),
                generic_record(),
            ),
            r matches Ok(found) ==> all_named(record_views(found@)),
    {
        proof {
            lemma_page_records_are_named(
                company_selectors(),
                html@,
                name_selectors(),
                generic_record(),
            );
        }
        let selectors = company_selector_list();
        let inner = name_selector_list();
        let ghost all = company_selectors();
        let mut s: usize = 0;
        assert(all.skip(0) =~= all);
        while s < selectors.len()
            invariant
                s <= selectors.len(),
                all == company_selectors(),
                all == string_views(selectors@),
                string_views(inner@) == name_selectors(),
                all_named(
                    page_records(company_selectors(), html@, name_selectors(), generic_record()),
                ),
                page_records(all, html@, name_selectors(), generic_record()) == page_records(
                    all.skip(s as int),
                    html@,
                    name_selectors(),
                    generic_record(),
                ),
            decreases selectors.len() - s,
        {
            proof {
                assert(all.skip(s as int)[0] == selectors@[s as int]@);
                assert(all.skip(s as int).drop_first() =~= all.skip(s + 1));
            }
            match markup::select(html, selectors[s].as_str(), &inner) {
                Some(elements) => {
                    let ghost views = element_views(elements@);
                    let mut found: Vec<ScrapedData> = Vec::new();
                    let mut i: usize = 0;
                    proof {
                        assert(views.take(0) =~= Seq::<markup::ElementView>::empty());
                        assert(record_views(found@) =~= views.take(0).filter_map(generic_record()));
                    }
                    while i < elements.len()
                        invariant
                            i <= elements.len(),
                            views == element_views(elements@),
                            record_views(found@) == views.take(i as int).filter_map(
                                generic_record(),
                            ),
                        decreases elements.len() - i,
                    {
                        let ghost before = record_views(found@);
                        proof {
                            views.lemma_filter_map_take_succ(generic_record(), i as int);
                            assert(views[i as int] == elements@[i as int]@);
                        }
                        match self.base.extract_company_data(&elements[i]) {
                            Some(record) => {
                                found.push(record);
                                assert(record_views(found@) =~= before + seq![record@]);
                            },
                            None => {
                                assert(before + Seq::<RecordView>::empty() =~= before);
                            },
                        }
                        i += 1;
                    }
                    assert(views.take(elements.len() as int) =~= views);
                    if found.len() > 0 {
                        return Ok(found);
                    }
                },
                None => {},
            }
            s += 1;
        }
        let none: Vec<ScrapedData> = Vec::new();
        assert(record_views(none@) =~= Seq::<RecordView>::empty());
        Ok(none)
    }
}

} // verus!
