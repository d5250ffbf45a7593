//! The startup-directory adapter: startups listed on directory pages, with the
//! detail page of the directory as a fallback website.

use crate::config::BetaListConfig;
use crate::errors::ScrapingError;
use crate::extractors::{website_by, website_selectors, DataExtractor};
use crate::http::Reply;
use crate::markup;
use crate::markup::{element_views, AnchorView, Element, ElementView};
use crate::models::{record_views, RecordView, ScrapedData};
use crate::scrapers::base::{
    all_named,
    lemma_page_records_are_named,
    page_records,
    page_urls,
    page_urls_of,
    BaseScraper,
};
use crate::scrapers::SourceScraper;
use crate::text;
use crate::text::{contains, string_views};
use vstd::prelude::*;
use vstd::string::StringExecFns;
use vstd::utf8::encode_utf8;

verus! {

/// The adapter for the startup directory.
pub struct BetaListScraper {
    pub config: BetaListConfig,
    pub base: BaseScraper,
}

/// The selectors that locate a listed startup, in order of trial.
pub open spec fn startup_selectors() -> Seq<Seq<char>> {
    seq!["#startup-[0-9]+"@, ".block[id^='startup-']"@, "div[id*='startup']"@]
}

/// The selectors that locate the name of a listed startup, in order of trial.
pub open spec fn startup_name_selectors() -> Seq<Seq<char>> {
    seq![
        "a[href*='/startups/'] .font-medium"@,
        "a[href*='/startups/']"@,
        ".font-medium"@,
        "h3"@,
        "h2"@,
        ".name"@,
    ]
}

/// Whether a trimmed text is taken for a name: it is longer than two bytes.
pub open spec fn is_startup_name(name: Seq<char>) -> bool {
    name.len() > 0 && encode_utf8(name).len() > 2
}

/// The first name element whose trimmed text is taken for a name.
pub open spec fn startup_anchor(firsts: Seq<Option<AnchorView>>) -> Option<AnchorView>
    decreases firsts.len(),
{
    if firsts.len() == 0 {
        None
    } else {
        match firsts[0] {
            Some(a) => if is_startup_name(text::trim(a.text)) {
                Some(a)
            } else {
                startup_anchor(firsts.drop_first())
            },
            None => startup_anchor(firsts.drop_first()),
        }
    }
}

/// The detail page that a name element links to, where it links to one.
pub open spec fn detail_page(href: Option<Seq<char>>) -> Option<Seq<char>> {
    match href {
        Some(h) => if contains(h, "/startups/"@) {
            Some("https://betalist.com"@ + h)
        } else {
            None
        },
        None => None,
    }
}

/// The record of a listed startup, where its element yields a name: an outside
/// link in the element's markup is its website, else the detail page.
pub open spec fn startup_record() -> spec_fn(ElementView) -> Option<RecordView> {
    |e: ElementView|
        match startup_anchor(e.firsts) {
            Some(a) => Some(
                RecordView {
                    name: text::trim(a.text),
                    website: match website_by(website_selectors(), e.html) {
                        Some(w) => Some(w),
                        None => detail_page(a.href),
                    },
                    raw_text: text::cleaned(e.text),
                    html: e.html,
                },
            ),
            None => None,
        }
}

/// Every record of a listed startup has a name.
pub proof fn lemma_startup_record_is_named(element: ElementView)
    ensures
        startup_record()(element) matches Some(record) ==> record.name.len() > 0,
{
    lemma_startup_anchor_is_named(element.firsts);
}

/// The name element that is taken has a text that is taken for a name.
pub proof fn lemma_startup_anchor_is_named(firsts: Seq<Option<AnchorView>>)
    ensures
        startup_anchor(firsts) matches Some(a) ==> is_startup_name(text::trim(a.text)),
    decreases firsts.len(),
{
    if firsts.len() > 0 {
        lemma_startup_anchor_is_named(firsts.drop_first());
    }
}

fn startup_selector_list() -> (v: Vec<String>)
    ensures
        string_views(v@) == startup_selectors(),
{
    let mut v: Vec<String> = Vec::new();
    v.push(String::from_str("#startup-[0-9]+"));
    v.push(String::from_str(".block[id^='startup-']"));
    v.push(String::from_str("div[id*='startup']"));
    assert(string_views(v@) =~= startup_selectors());
    v
}

/// The name selectors of a startup.
pub fn startup_name_selector_list() -> (v: Vec<String>)
    ensures
        string_views(v@) == startup_name_selectors(),
{
    let mut v: Vec<String> = Vec::new();
    v.push(String::from_str("a[href*='/startups/'] .font-medium"));
    v.push(String::from_str("a[href*='/startups/']"));
    v.push(String::from_str(".font-medium"));
    v.push(String::from_str("h3"));
    v.push(String::from_str("h2"));
    v.push(String::from_str(".name"));
    assert(string_views(v@) =~= startup_name_selectors());
    v
}

/// What a reply to the request for a directory page yields: the records of the
/// page, or nothing where the request failed.
pub open spec fn startup_page_records(reply: Reply<String>) -> Option<Seq<RecordView>> {
    match reply {
        Reply::Received(body) => Some(
            page_records(startup_selectors(), body@, startup_name_selectors(), startup_record()),
        ),
        _ => None,
    }
}

impl SourceScraper for BetaListScraper {
    open spec fn name(&self) -> Seq<char> {
        "BetaList"@
    }

    open spec fn enabled(&self) -> bool {
        self.config.enabled
    }

    open spec fn estimate(&self) -> nat {
        self.config.endpoints@.len() * 30
    }

    fn source_name(&self) -> &'static str {
        "BetaList"
    }

    fn is_enabled(&self) -> bool {
        self.config.enabled
    }

    fn expected_leads_count(&self) -> Option<usize> {
        match self.config.endpoints.len().checked_mul(30) {
            Some(n) => Some(n),
            None => Some(usize::MAX),
        }
    }
}

impl BetaListScraper {
    /// The pages to fetch, in configured order.
    pub fn page_urls(&self) -> (urls: Vec<String>)
        ensures
            string_views(urls@) == page_urls_of(self.config.base_url@, string_views(
                self.config.endpoints@,
            )),
    {
        page_urls(&self.config.base_url, &self.config.endpoints)
    }

    /// The pause after each page, in milliseconds.
    pub fn pause_millis(&self) -> (millis: u64)
        ensures
            millis == 800,
    {
        800
    }

    /// The records that a reply to the request for `url` yields; an error where
    /// the request failed.
    pub fn records_of_reply(&self, url: &str, reply: Reply<String>) -> (r: Result<
        Vec<ScrapedData>,
        ScrapingError,
    >)
        ensures
            match startup_page_records(reply) {
                Some(records) => r matches Ok(found) && record_views(found@) == records,
                None => r matches Err(ScrapingError::NetworkError(_)),
            },
            r matches Ok(found) ==> all_named(record_views(found@)),
    {
        match self.base.fetch_html(url, reply) {
            Ok(body) => self.parse_betalist_page(body.as_str()),
            Err(e) => Err(e),
        }
    }

    /// The adapter for `config` with the rules `extractor`.
    pub fn new(config: BetaListConfig, extractor: DataExtractor) -> (scraper: BetaListScraper)
        ensures
            scraper.config == config,
            scraper.base.extractor == extractor,
    {
        BetaListScraper { config, base: BaseScraper::new(extractor) }
    }

    /// The record of a listed startup, where its element yields a name. The
    /// element is one of a query whose inner selectors are the startup name
    /// selectors.
    pub fn extract_betalist_data(&self, element: &Element) -> (record: Option<ScrapedData>)
        ensures
            match record {
                Some(r) => startup_record()(element@) == Some(r@),
                None => startup_record()(element@) is None,
            },
    {
        let ghost all = element@.firsts;
        let mut i: usize = 0;
        assert(all.skip(0) =~= all);
        while i < element.firsts.len()
            invariant
                i <= element.firsts.len(),
                all == element@.firsts,
                startup_anchor(all) == startup_anchor(all.skip(i as int)),
            decreases element.firsts.len() - i,
        {
            proof {
                assert(all.skip(i as int).drop_first() =~= all.skip(i + 1));
                assert(all.skip(i as int)[0] == all[i as int]);
            }
            match &element.firsts[i] {
                Some(anchor) => {
                    assert(all[i as int] == Some(anchor@));
                    let name = text::str_trim(anchor.text.as_str());
                    if !name.as_str().is_empty() && name.as_str().as_bytes().len() > 2 {
                        let link = match &anchor.href {
                            Some(href) => {
                                if text::str_contains(href.as_str(), "/startups/") {
                                    Some(
                                        String::from_str("https://betalist.com").concat(
                                            href.as_str(),
                                        ),
                                    )
                                } else {
                                    None
                                }
                            },
                            None => None,
                        };
                        let outside = self.base.extractor.extract_website(
                            element.html.as_str(),
                            None,
                        );
                        let website = match outside {
                            Some(w) => Some(w),
                            None => link,
                        };
                        return Some(
                            ScrapedData {
                                name,
                                website,
                                raw_text: self.base.extractor.clean_text(element.text.as_str()),
                                html: element.html.clone(),
                            },
                        );
                    }
                },
                None => {
                    assert(all[i as int] is None);
                },
            }
            i += 1;
        }
        None
    }

    /// The records of a directory page: the elements of the first startup
    /// selector under which any element yields a record, each turned into its
    /// record, in the order of the query.
    pub fn parse_betalist_page(&self, html: &str) -> (r: Result<Vec<ScrapedData>, ScrapingError>)
        ensures
            r matches Ok(found) && record_views(found@) == page_records(
                startup_selectors(),
                html@,
                startup_name_selectors(),
                startup_record(),
            ),
            r matches Ok(found) ==> all_named(record_views(found@)),
    {
        proof {
            assert forall|e: ElementView| (#[trigger] startup_record()(e)) matches Some(r)
                ==> r.name.len() > 0 by {
                lemma_startup_record_is_named(e);
            }
            lemma_page_records_are_named(
                startup_selectors(),
                html@,
                startup_name_selectors(),
                startup_record(),
            );
        }
        let selectors = startup_selector_list();
        let inner = startup_name_selector_list();
        let ghost all = startup_selectors();
        let mut s: usize = 0;
        assert(all.skip(0) =~= all);
        while s < selectors.len()
            invariant
                s <= selectors.len(),
                all == startup_selectors(),
                all == string_views(selectors@),
                string_views(inner@) == startup_name_selectors(),
                all_named(
                    page_records(
                        startup_selectors(),
                        html@,
                        startup_name_selectors(),
                        startup_record(),
                    ),
                ),
                page_records(all, html@, startup_name_selectors(), startup_record())
                    == page_records(
                    all.skip(s as int),
                    html@,
                    startup_name_selectors(),
                    startup_record(),
                ),
            decreases selectors.len() - s,
        {
            proof {
                assert(all.skip(s as int)[0] == selectors@[s as int]@);
                assert(all.skip(s as int).drop_first() =~= all.skip(s + 1));
            }
            match markup::select(html, selectors[s].as_str(), &inner) {
                Some(elements) => {
                    let ghost views = element_views(elements@);
                    let mut found: Vec<ScrapedData> = Vec::new();
                    let mut i: usize = 0;
                    proof {
                        assert(views.take(0) =~= Seq::<ElementView>::empty());
                        assert(record_views(found@) =~= views.take(0).filter_map(startup_record()));
                    }
                    while i < elements.len()
                        invariant
                            i <= elements.len(),
                            views == element_views(elements@),
                            record_views(found@) == views.take(i as int).filter_map(
                                startup_record(),
                            ),
                        decreases elements.len() - i,
                    {
                        let ghost before = record_views(found@);
                        proof {
                            views.lemma_filter_map_take_succ(startup_record(), i as int);
                            assert(views[i as int] == elements@[i as int]@);
                        }
                        match self.extract_betalist_data(&elements[i]) {
                            Some(record) => {
                                found.push(record);
                                assert(record_views(found@) =~= before + seq![record@]);
                            },
                            None => {
                                assert(before + Seq::<RecordView>::empty() =~= before);
                            },
                        }
                        i += 1;
                    }
                    assert(views.take(elements.len() as int) =~= views);
                    if found.len() > 0 {
                        return Ok(found);
                    }
                },
                None => {},
            }
            s += 1;
        }
        let none: Vec<ScrapedData> = Vec::new();
        assert(record_views(none@) =~= Seq::<RecordView>::empty());
        Ok(none)
    }
}

} // verus!
