//! What all source adapters share: the rules on project links and names, and the
//! assembly of records and leads.

use crate::commits::{is_mining_start, Mining};
use crate::encoding;
use crate::encoding::base64_decoded;
use crate::errors::ScrapingError;
use crate::extractors::{
    country_of,
    email_of,
    host_of,
    linkedin_by,
    linkedin_patterns,
    twitter_by,
    twitter_patterns,
    website_by,
    website_selectors,
    DataExtractor,
};
use crate::http::{HttpRequest, Reply};
use crate::models::Lead;
use crate::markup::{AnchorView, Element, ElementView};
use crate::models::{RecordView, ScrapedData, Source};
use crate::text;
use crate::weburl::{is_code_host, is_on_code_host};
use crate::text::{char_is_alphanumeric, char_is_whitespace, contains, lowercase_of, starts_with};
use vstd::prelude::*;
use vstd::string::StringExecFns;
use vstd::utf8::{decode_utf8, valid_utf8};

verus! {

/// The helpers shared by the adapters.
pub struct BaseScraper {
    pub extractor: DataExtractor,
}

/// The category names that curated lists use as section headers.
pub open spec fn skip_names() -> Seq<Seq<char>> {
    seq![
        "platforms"@,
        "programming languages"@,
        "front-end development"@,
        "back-end development"@,
        "computer science"@,
        "big data"@,
        "theory"@,
        "books"@,
        "editors"@,
        "gaming"@,
        "development environment"@,
        "entertainment"@,
        "databases"@,
        "media"@,
        "learn"@,
        "security"@,
        "content management systems"@,
        "hardware"@,
        "business"@,
        "work"@,
        "networking"@,
        "decentralized systems"@,
        "health and social science"@,
        "events"@,
        "testing"@,
        "miscellaneous"@,
        "related"@,
        "contents"@,
    ]
}

/// Whether the lower-cased name `lower` is the category `skip` or holds it as a
/// word followed by a space.
pub open spec fn names_category(lower: Seq<char>, skip: Seq<char>) -> bool {
    lower == skip || contains(lower, skip.push(' '))
}

/// Whether `name` is a category name rather than a project.
pub open spec fn is_category_name(name: Seq<char>) -> bool {
    exists|i: int|
        0 <= i < skip_names().len() && names_category(lowercase_of(name), #[trigger] skip_names()[i])
}

/// Whether a link of a curated list names a project: it has a name and a target,
/// the target is no anchor, no link to a readme, and at least 10 characters long,
/// and the name is no category name.
pub open spec fn is_project_link(name: Seq<char>, url: Option<Seq<char>>) -> bool {
    match url {
        None => false,
        Some(u) => {
            &&& name.len() > 0
            &&& !starts_with(u, seq!['#'])
            &&& !contains(u, "#readme"@)
            &&& !is_category_name(name)
            &&& u.len() >= 10
        },
    }
}

/// Whether a character may stand in a project name.
pub open spec fn is_name_char() -> spec_fn(char) -> bool {
    |c: char| char_is_alphanumeric(c) || char_is_whitespace(c) || c == '-' || c == '_' || c == '.'
}

/// The clean form of a project name: only letters, digits, white space, `-`, `_`
/// and `.` stay, and the result is trimmed.
pub open spec fn clean_name(name: Seq<char>) -> Seq<char> {
    text::trim(name.filter(is_name_char()))
}

/// The selectors that locate the name of a listed company, in order of trial.
pub open spec fn name_selectors() -> Seq<Seq<char>> {
    seq!["h3"@, "h2"@, ".name"@, ".company-name"@, ".startup-name"@]
}

/// The name of a listed company: the trimmed text of the first name element that
/// has any, or the empty text where none has.
pub open spec fn generic_name(firsts: Seq<Option<AnchorView>>) -> Seq<char>
    decreases firsts.len(),
{
    if firsts.len() == 0 {
        Seq::empty()
    } else {
        match firsts[0] {
            Some(a) => if text::trim(a.text).len() > 0 {
                text::trim(a.text)
            } else {
                generic_name(firsts.drop_first())
            },
            None => generic_name(firsts.drop_first()),
        }
    }
}

/// The record of a listed company, where its element yields a name: the website
/// is looked up in the element's own markup, and the text is cleaned.
pub open spec fn generic_record() -> spec_fn(ElementView) -> Option<RecordView> {
    |e: ElementView|
        {
            let name = generic_name(e.firsts);
            if name.len() == 0 {
                None
            } else {
                Some(
                    RecordView {
                        name,
                        website: website_by(website_selectors(), e.html),
                        raw_text: text::cleaned(e.text),
                        html: e.html,
                    },
                )
            }
        }
}

/// The records of a page: of the element selectors, in order, the first under
/// which `record` yields any record decides; a selector that is not valid is
/// passed over.
pub open spec fn page_records(
    selectors: Seq<Seq<char>>,
    html: Seq<char>,
    inner: Seq<Seq<char>>,
    record: spec_fn(ElementView) -> Option<RecordView>,
) -> Seq<RecordView>
    decreases selectors.len(),
{
    if selectors.len() == 0 {
        Seq::empty()
    } else {
        let found = match crate::markup::selected(html, selectors[0], inner) {
            Some(elements) => elements.filter_map(record),
            None => Seq::empty(),
        };
        if found.len() > 0 {
            found
        } else {
            page_records(selectors.drop_first(), html, inner, record)
        }
    }
}

/// Every record of a listed company has a name.
pub proof fn lemma_generic_record_is_named(element: ElementView)
    ensures
        generic_record()(element) matches Some(record) ==> record.name.len() > 0,
{
}

/// Whether every record of a list has a name.
pub open spec fn all_named(records: Seq<RecordView>) -> bool {
    forall|i: int| 0 <= i < records.len() ==> (#[trigger] records[i]).name.len() > 0
}

/// Where a rule only yields records with a name, the records that it yields of a
/// list all have one.
pub proof fn lemma_filter_map_is_named<A>(list: Seq<A>, record: spec_fn(A) -> Option<RecordView>)
    requires
        forall|a: A| (#[trigger] record(a)) matches Some(r) ==> r.name.len() > 0,
    ensures
        all_named(list.filter_map(record)),
    decreases list.len(),
{
    if list.len() > 0 {
        lemma_filter_map_is_named(list.drop_last(), record);
        let before = list.drop_last().filter_map(record);
        match record(list.last()) {
            Some(r) => {
                assert forall|i: int| 0 <= i < list.filter_map(record).len() implies (
                #[trigger] list.filter_map(record)[i]).name.len() > 0 by {
                    if i < before.len() {
                        assert(list.filter_map(record)[i] == before[i]);
                    } else {
                        assert(list.filter_map(record)[i] == r);
                    }
                }
            },
            None => {},
        }
    }
}

/// Where a rule only yields records with a name, every record of a page has one.
pub proof fn lemma_page_records_are_named(
    selectors: Seq<Seq<char>>,
    html: Seq<char>,
    inner: Seq<Seq<char>>,
    record: spec_fn(ElementView) -> Option<RecordView>,
)
    requires
        forall|e: ElementView| (#[trigger] record(e)) matches Some(r) ==> r.name.len() > 0,
    ensures
        all_named(page_records(selectors, html, inner, record)),
    decreases selectors.len(),
{
    if selectors.len() > 0 {
        match crate::markup::selected(html, selectors[0], inner) {
            Some(elements) => {
                lemma_filter_map_is_named(elements, record);
            },
            None => {},
        }
        lemma_page_records_are_named(selectors.drop_first(), html, inner, record);
    }
}

/// The name selectors.
pub fn name_selector_list() -> (v: Vec<String>)
    ensures
        text::string_views(v@) == name_selectors(),
{
    let mut v: Vec<String> = Vec::new();
    v.push(String::from_str("h3"));
    v.push(String::from_str("h2"));
    v.push(String::from_str(".name"));
    v.push(String::from_str(".company-name"));
    v.push(String::from_str(".startup-name"));
    assert(text::string_views(v@) =~= name_selectors());
    v
}

/// The condition of being no white space.
pub open spec fn is_not_white() -> spec_fn(char) -> bool {
    |c: char| !char_is_whitespace(c)
}

/// The text of a readme from the content field of the API: the white space is
/// taken out, what remains is decoded as base64, and the bytes as UTF-8.
pub open spec fn readme_text(content: Seq<char>) -> Option<Seq<char>> {
    match base64_decoded(content.filter(is_not_white())) {
        Some(bytes) => if valid_utf8(bytes) {
            Some(decode_utf8(bytes))
        } else {
            None
        },
        None => None,
    }
}

/// Whether `lead` is what the extraction rules make of `data`: a well-formed lead
/// whose name, website and description are taken over, whose email, country and
/// social pages are extracted from text and markup, and which has no mined email
/// yet.
pub open spec fn is_draft_of(lead: Lead, data: ScrapedData, source: Source, rules: DataExtractor)
    -> bool {
    &&& lead.wf()
    &&& lead.name == data.name
    &&& lead.website == data.website
    &&& lead.source == source
    &&& lead.description == Some(data.raw_text)
    &&& lead.github_email is None
    &&& text::opt_view(lead.email) == email_of(
        rules.mailto(),
        rules.generic(),
        data.raw_text@,
        data.html@,
    )
    &&& text::opt_view(lead.country) == country_of(
        rules.indicators(),
        rules.suffixes(),
        data.raw_text@,
        text::opt_view(data.website),
    )
    &&& text::opt_view(lead.linkedin) == linkedin_by(
        linkedin_patterns(),
        data.raw_text@,
        data.html@,
    )
    &&& text::opt_view(lead.twitter) == twitter_by(twitter_patterns(), data.raw_text@, data.html@)
}

/// Whether `mining` is the mining that the website of a record calls for: that of
/// the repository where the host of the website is the code host, else none.
pub open spec fn is_mining_for(mining: Mining, website: Option<Seq<char>>, token: Option<Seq<char>>)
    -> bool {
    match host_of(website) {
        Some(host) => if is_code_host(host) {
            is_mining_start(mining, website->0, token)
        } else {
            mining matches Mining::Done { emails } && emails@.len() == 0
        },
        None => mining matches Mining::Done { emails } && emails@.len() == 0,
    }
}

/// The addresses of the pages of a directory: the base address followed by each
/// endpoint, in configured order.
pub open spec fn page_urls_of(base_url: Seq<char>, endpoints: Seq<Seq<char>>) -> Seq<Seq<char>> {
    endpoints.map_values(|e: Seq<char>| base_url + e)
}

/// The addresses of the pages of a directory.
pub fn page_urls(base_url: &String, endpoints: &Vec<String>) -> (urls: Vec<String>)
    ensures
        text::string_views(urls@) == page_urls_of(base_url@, text::string_views(endpoints@)),
{
    let mut urls: Vec<String> = Vec::new();
    let mut i: usize = 0;
    while i < endpoints.len()
        invariant
            i <= endpoints.len(),
            urls@.len() == i,
            forall|j: int| 0 <= j < i ==> (#[trigger] urls@[j])@ == base_url@ + endpoints@[j]@,
        decreases endpoints.len() - i,
    {
        urls.push(base_url.clone().concat(endpoints[i].as_str()));
        i += 1;
    }
    assert(text::string_views(urls@) =~= page_urls_of(base_url@, text::string_views(endpoints@)));
    urls
}

/// The category names.
fn skip_name_list() -> (v: Vec<String>)
    ensures
        text::string_views(v@) == skip_names(),
{
    let mut v: Vec<String> = Vec::new();
    v.push(String::from_str("platforms"));
    v.push(String::from_str("programming languages"));
    v.push(String::from_str("front-end development"));
    v.push(String::from_str("back-end development"));
    v.push(String::from_str("computer science"));
    v.push(String::from_str("big data"));
    v.push(String::from_str("theory"));
    v.push(String::from_str("books"));
    v.push(String::from_str("editors"));
    v.push(String::from_str("gaming"));
    v.push(String::from_str("development environment"));
    v.push(String::from_str("entertainment"));
    v.push(String::from_str("databases"));
    v.push(String::from_str("media"));
    v.push(String::from_str("learn"));
    v.push(String::from_str("security"));
    v.push(String::from_str("content management systems"));
    v.push(String::from_str("hardware"));
    v.push(String::from_str("business"));
    v.push(String::from_str("work"));
    v.push(String::from_str("networking"));
    v.push(String::from_str("decentralized systems"));
    v.push(String::from_str("health and social science"));
    v.push(String::from_str("events"));
    v.push(String::from_str("testing"));
    v.push(String::from_str("miscellaneous"));
    v.push(String::from_str("related"));
    v.push(String::from_str("contents"));
    assert(text::string_views(v@) =~= skip_names());
    v
}

/// Whether the lower-cased name `lower` is a category name.
pub fn names_some_category(lower: &str) -> (b: bool)
    ensures
        b == exists|i: int|
            0 <= i < skip_names().len() && names_category(lower@, #[trigger] skip_names()[i]),
{
    let skips = skip_name_list();
    let chars = text::to_chars(lower);
    let mut i: usize = 0;
    while i < skips.len()
        invariant
            i <= skips.len(),
            chars@ == lower@,
            text::string_views(skips@) == skip_names(),
            forall|j: int| 0 <= j < i ==> !names_category(lower@, #[trigger] skip_names()[j]),
        decreases skips.len() - i,
    {
        let mut word = text::to_chars(skips[i].as_str());
        assert(word@ == skip_names()[i as int]) by {
            assert(text::string_views(skips@)[i as int] == skips@[i as int]@);
        }
        if text::same_chars(&chars, &word) {
            return true;
        }
        word.push(' ');
        if text::contains_chars(&chars, &word) {
            return true;
        }
        i += 1;
    }
    false
}

impl BaseScraper {
    /// The helpers around `extractor`.
    pub fn new(extractor: DataExtractor) -> (base: BaseScraper)
        ensures
            base.extractor == extractor,
    {
        BaseScraper { extractor }
    }

    /// The clean form of a project name.
    pub fn clean_project_name(&self, name: &str) -> (out: String)
        ensures
            out@ == clean_name(name@),
    {
        let chars = text::to_chars(name);
        let mut kept: Vec<char> = Vec::new();
        let mut i: usize = 0;
        assert(chars@.take(0) =~= Seq::<char>::empty());
        while i < chars.len()
            invariant
                i <= chars.len(),
                kept@ == chars@.take(i as int).filter(is_name_char()),
            decreases chars.len() - i,
        {
            let c = chars[i];
            proof {
                assert(chars@.take(i + 1) =~= chars@.take(i as int).push(c));
                chars@.take(i as int).lemma_filter_push(c, is_name_char());
            }
            let alnum = text::is_alphanumeric(c);
            let white = text::is_whitespace(c);
            if alnum || white || c == '-' || c == '_' || c == '.' {
                kept.push(c);
            }
            i += 1;
        }
        assert(chars@.take(chars.len() as int) =~= chars@);
        let trimmed = text::trim_chars(&kept);
        text::string_of(&trimmed)
    }

    /// The record of a listed company, where its element yields a name. The
    /// element is one of a query whose inner selectors are the name selectors.
    pub fn extract_company_data(&self, element: &Element) -> (record: Option<ScrapedData>)
        ensures
            match record {
                Some(r) => generic_record()(element@) == Some(r@),
                None => generic_record()(element@) is None,
            },
    {
        let ghost all = element@.firsts;
        let mut name: Vec<char> = Vec::new();
        let mut i: usize = 0;
        assert(all.skip(0) =~= all);
        while i < element.firsts.len()
            invariant_except_break
                i <= element.firsts.len(),
                name@.len() == 0,
                generic_name(all) == generic_name(all.skip(i as int)),
            invariant
                all == element@.firsts,
            ensures
                name@ == generic_name(all),
            decreases element.firsts.len() - i,
        {
            proof {
                assert(all.skip(i as int).drop_first() =~= all.skip(i + 1));
                assert(all.skip(i as int)[0] == all[i as int]);
            }
            match &element.firsts[i] {
                Some(anchor) => {
                    assert(all[i as int] == Some(anchor@));
                    let chars = text::to_chars(anchor.text.as_str());
                    let trimmed = text::trim_chars(&chars);
                    if trimmed.len() > 0 {
                        name = trimmed;
                        break;
                    }
                },
                None => {
                    assert(all[i as int] is None);
                },
            }
            i += 1;
        }
        if name.len() == 0 {
            return None;
        }
        let website = self.extractor.extract_website(element.html.as_str(), None);
        Some(
            ScrapedData {
                name: text::string_of(&name),
                website,
                raw_text: self.extractor.clean_text(element.text.as_str()),
                html: element.html.clone(),
            },
        )
    }

    /// What a reply to a page request amounts to: the body, or a network error
    /// that names the URL.
    pub fn fetch_html(&self, url: &str, reply: Reply<String>) -> (r: Result<String, ScrapingError>)
        ensures
            match reply {
                Reply::Unreachable(why) => r matches Err(ScrapingError::NetworkError(m)) && m@
                    == "HTTP request failed for '"@ + url@ + "': "@ + why@,
                Reply::Refused(status) => r matches Err(ScrapingError::NetworkError(m)) && m@
                    == "HTTP "@ + status@ + ": "@ + url@,
                Reply::Unreadable(why) => r matches Err(ScrapingError::NetworkError(m)) && m@
                    == "Failed to read response body from '"@ + url@ + "': "@ + why@,
                Reply::Received(body) => r == Ok::<String, ScrapingError>(body),
            },
    {
        match reply {
            Reply::Unreachable(why) => Err(
                ScrapingError::NetworkError(
                    String::from_str("HTTP request failed for '").concat(url).concat("': ").concat(
                        why.as_str(),
                    ),
                ),
            ),
            Reply::Refused(status) => Err(
                ScrapingError::NetworkError(
                    String::from_str("HTTP ").concat(status.as_str()).concat(": ").concat(url),
                ),
            ),
            Reply::Unreadable(why) => Err(
                ScrapingError::NetworkError(
                    String::from_str("Failed to read response body from '").concat(url).concat(
                        "': ",
                    ).concat(why.as_str()),
                ),
            ),
            Reply::Received(body) => Ok(body),
        }
    }

    /// The request for a readme through the content API of the code host.
    pub fn readme_request(&self, url: &str) -> (request: HttpRequest)
        ensures
            request.url@ == url@,
            text::opt_view(request.accept) == Some("application/vnd.github.v3+json"@),
            text::opt_view(request.user_agent) == Some("Lead-Scraper/1.0"@),
            text::opt_view(request.authorization) == crate::commits::authorization_for(
                self.extractor.token(),
            ),
    {
        let authorization = match self.extractor.github_token() {
            Some(token) => Some(String::from_str("token ").concat(token.as_str())),
            None => None,
        };
        HttpRequest {
            url: String::from_str(url),
            accept: Some(String::from_str("application/vnd.github.v3+json")),
            authorization,
            user_agent: Some(String::from_str("Lead-Scraper/1.0")),
        }
    }

    /// The text of a readme from its content field.
    pub fn decode_readme(&self, content: &str) -> (r: Result<String, ScrapingError>)
        ensures
            match readme_text(content@) {
                Some(t) => r matches Ok(s) && s@ == t,
                None => r matches Err(ScrapingError::ParseError(m)) && starts_with(
                    m@,
                    if base64_decoded(content@.filter(is_not_white())) is None {
                        "Failed to decode base64 content: "@
                    } else {
                        "Invalid UTF-8 in README: "@
                    },
                ),
            },
    {
        let chars = text::to_chars(content);
        let mut kept: Vec<char> = Vec::new();
        let mut i: usize = 0;
        assert(chars@.take(0) =~= Seq::<char>::empty());
        while i < chars.len()
            invariant
                i <= chars.len(),
                kept@ == chars@.take(i as int).filter(is_not_white()),
            decreases chars.len() - i,
        {
            let c = chars[i];
            proof {
                assert(chars@.take(i + 1) =~= chars@.take(i as int).push(c));
                chars@.take(i as int).lemma_filter_push(c, is_not_white());
            }
            if !text::is_whitespace(c) {
                kept.push(c);
            }
            i += 1;
        }
        assert(chars@.take(chars.len() as int) =~= chars@);
        let cleaned = text::string_of(&kept);
        let bytes = match encoding::decode_base64(cleaned.as_str()) {
            Ok(bytes) => bytes,
            Err(e) => {
                let why = encoding::decode_error_text(&e);
                proof {
                    text::lemma_begins_with_prefix("Failed to decode base64 content: "@, why@);
                }
                return Err(
                    ScrapingError::ParseError(
                        String::from_str("Failed to decode base64 content: ").concat(why.as_str()),
                    ),
                );
            },
        };
        match encoding::utf8_text(bytes) {
            Ok(s) => Ok(s),
            Err(e) => {
                let why = encoding::utf8_error_text(&e);
                proof {
                    text::lemma_begins_with_prefix("Invalid UTF-8 in README: "@, why@);
                }
                Err(
                    ScrapingError::ParseError(
                        String::from_str("Invalid UTF-8 in README: ").concat(why.as_str()),
                    ),
                )
            },
        }
    }

    /// What a reply to a readme request amounts to: the decoded text, or a network
    /// error where the request failed or was refused, or a parse error where the
    /// body or its content was not understood.
    pub fn fetch_github_readme(&self, url: &str, reply: Reply<String>) -> (r: Result<
        String,
        ScrapingError,
    >)
        ensures
            match reply {
                Reply::Unreachable(why) => r matches Err(ScrapingError::NetworkError(m)) && m@
                    == "GitHub API request failed for '"@ + url@ + "': "@ + why@,
                Reply::Refused(status) => r matches Err(ScrapingError::NetworkError(m)) && m@
                    == "GitHub API error "@ + status@ + ": "@ + url@,
                Reply::Unreadable(why) => r matches Err(ScrapingError::ParseError(m)) && m@
                    == "Failed to parse GitHub API response: "@ + why@,
                Reply::Received(content) => match readme_text(content@) {
                    Some(t) => r matches Ok(s) && s@ == t,
                    None => r matches Err(ScrapingError::ParseError(_)),
                },
            },
    {
        match reply {
            Reply::Unreachable(why) => Err(
                ScrapingError::NetworkError(
                    String::from_str("GitHub API request failed for '").concat(url).concat(
                        "': ",
                    ).concat(why.as_str()),
                ),
            ),
            Reply::Refused(status) => Err(
                ScrapingError::NetworkError(
                    String::from_str("GitHub API error ").concat(status.as_str()).concat(
                        ": ",
                    ).concat(url),
                ),
            ),
            Reply::Unreadable(why) => Err(
                ScrapingError::ParseError(
                    String::from_str("Failed to parse GitHub API response: ").concat(why.as_str()),
                ),
            ),
            Reply::Received(content) => self.decode_readme(content.as_str()),
        }
    }

    /// The pause to make between two requests: none for a delay of zero.
    pub fn rate_limit(&self, delay_ms: u64) -> (pause: Option<u64>)
        ensures
            pause == if delay_ms > 0 {
                Some(delay_ms)
            } else {
                None
            },
    {
        if delay_ms > 0 {
            Some(delay_ms)
        } else {
            None
        }
    }

    /// The lead of a named record, with every field that text and markup yield, and
    /// the mining that its website calls for: commits are mined only where the
    /// host of the website is the code host. The mined email is attached
    /// afterwards with `attach_commit_emails`.
    pub fn create_lead_from_scraped_data(&self, data: ScrapedData, source: Source) -> (out: (
        Lead,
        Mining,
    ))
        requires
            data.name@.len() > 0,
        ensures
            is_draft_of(out.0, data, source, self.extractor),
            is_mining_for(out.1, text::opt_view(data.website), self.extractor.token()),
    {
        let email = self.extractor.extract_email(data.raw_text.as_str(), data.html.as_str());
        let country = match &data.website {
            Some(w) => self.extractor.extract_country(data.raw_text.as_str(), Some(w.as_str())),
            None => self.extractor.extract_country(data.raw_text.as_str(), None),
        };
        let (linkedin, twitter) = self.extractor.extract_social_media(
            data.raw_text.as_str(),
            data.html.as_str(),
        );
        let mining = match &data.website {
            Some(w) => {
                if is_on_code_host(w.as_str()) {
                    self.extractor.extract_github_commit_emails(w.as_str())
                } else {
                    Mining::Done { emails: Vec::new() }
                }
            },
            None => Mining::Done { emails: Vec::new() },
        };
        let lead = Lead::new(data.name, source).with_website(data.website).with_email(
            email,
        ).with_linkedin(linkedin).with_twitter(twitter).with_country(country).with_description(
            Some(data.raw_text),
        );
        (lead, mining)
    }

    /// The lead with the best mined address as its mined email; a lead stays as it
    /// is where nothing was mined.
    pub fn attach_commit_emails(&self, lead: Lead, emails: Vec<String>) -> (out: Lead)
        ensures
            out == if emails@.len() > 0 {
                Lead { github_email: Some(emails@[0]), ..lead }
            } else {
                lead
            },
    {
        if emails.len() > 0 {
            let mut emails = emails;
            let first = emails.remove(0);
            lead.with_github_email(Some(first))
        } else {
            lead
        }
    }

    /// Whether a link of a curated list names a project rather than navigation.
    pub fn is_valid_project_link(&self, name: &str, url: &Option<String>) -> (ok: bool)
        ensures
            ok == is_project_link(name@, text::opt_view(*url)),
    {
        let target = match url {
            Some(u) => u,
            None => {
                return false;
            },
        };
        if name.is_empty() {
            return false;
        }
        let chars = text::to_chars(target.as_str());
        let mut hash: Vec<char> = Vec::new();
        hash.push('#');
        assert(hash@ =~= seq!['#']);
        if text::starts_with_chars(&chars, &hash) || text::str_contains(target.as_str(), "#readme") {
            return false;
        }
        let lower = text::to_lowercase(name);
        if names_some_category(lower.as_str()) {
            return false;
        }
        chars.len() >= 10
    }

    /// The source of a lead from a curated list: the resolved project link, or
    /// `unknown` where the record has none.
    pub fn determine_source_from_url(&self, website: &Option<String>) -> (source: Source)
        ensures
            source matches Source::Website { url } && url@ == (match website {
                Some(w) => w@,
                None => "unknown"@,
            }),
    {
        match website {
            Some(url) => Source::Website { url: url.clone() },
            None => Source::Website { url: String::from_str("unknown") },
        }
    }
}

} // verus!
