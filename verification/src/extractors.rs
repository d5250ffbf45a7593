//! Contact and identity extraction from raw text and markup.

use crate::config::{PatternsConfig, TldEntry};
use crate::errors::ScrapingError;
use crate::pattern::{first_match, group, group_of, match_view, pattern_compiles, Pattern};
use crate::text;
use crate::markup;
use crate::markup::{element_views, selected, Element, ElementView};
use crate::text::{contains, opt_view, string_views};
use crate::weburl;
use crate::weburl::parsed_url;
use vstd::prelude::*;
use vstd::string::StringExecFns;

verus! {

/// The extraction rules, constructed once from the configured patterns.
pub struct DataExtractor {
    mailto: Pattern,
    generic: Pattern,
    country_indicators: Vec<Pattern>,
    tld_mapping: Vec<TldEntry>,
    github_token: Option<String>,
}

/// The rows of a suffix table as pairs of suffix and country.
pub open spec fn table_view(table: Seq<TldEntry>) -> Seq<(Seq<char>, Seq<char>)> {
    table.map_values(|e: TldEntry| (e.suffix@, e.country@))
}

/// Whether an address found in running text is a known placeholder.
pub open spec fn is_placeholder(email: Seq<char>) -> bool {
    contains(email, "example."@) || contains(email, "placeholder"@)
}

/// What a match of the `mailto:` pattern yields: its first group, as it stands.
pub open spec fn mailto_choice(found: Option<Seq<Option<Seq<char>>>>) -> Option<Seq<char>> {
    match found {
        Some(groups) => group(groups, 1),
        None => None,
    }
}

/// What a match of the generic pattern yields: the whole match, unless it is a
/// placeholder.
pub open spec fn generic_choice(found: Option<Seq<Option<Seq<char>>>>) -> Option<Seq<char>> {
    match found {
        Some(groups) => match group(groups, 0) {
            Some(email) => if is_placeholder(email) {
                None
            } else {
                Some(email)
            },
            None => None,
        },
        None => None,
    }
}

/// The email of a record: the address of a `mailto:` link in the markup where
/// there is one, else the first address in the text unless it is a placeholder.
pub open spec fn email_of(mailto: Seq<char>, generic: Seq<char>, text: Seq<char>, html: Seq<char>)
    -> Option<Seq<char>> {
    match mailto_choice(first_match(mailto, html)) {
        Some(email) => Some(email),
        None => generic_choice(first_match(generic, text)),
    }
}

/// The address that a match of the `mailto:` pattern yields.
pub fn pick_mailto(found: &Option<Vec<Option<String>>>) -> (email: Option<String>)
    ensures
        opt_view(email) == mailto_choice(match_view(*found)),
{
    match found {
        Some(groups) => match group_of(groups, 1) {
            Some(email) => Some(email.clone()),
            None => None,
        },
        None => None,
    }
}

/// The address that a match of the generic pattern yields.
pub fn pick_generic(found: &Option<Vec<Option<String>>>) -> (email: Option<String>)
    ensures
        opt_view(email) == generic_choice(match_view(*found)),
{
    match found {
        Some(groups) => match group_of(groups, 0) {
            Some(email) => {
                let chars = text::to_chars(email.as_str());
                let example = text::to_chars("example.");
                let placeholder = text::to_chars("placeholder");
                if text::contains_chars(&chars, &example) || text::contains_chars(
                    &chars,
                    &placeholder,
                ) {
                    None
                } else {
                    Some(email.clone())
                }
            },
            None => None,
        },
        None => None,
    }
}

/// What a match of a country indicator yields: its first group, trimmed.
pub open spec fn indicator_choice(found: Option<Seq<Option<Seq<char>>>>) -> Option<Seq<char>> {
    match found {
        Some(groups) => match group(groups, 1) {
            Some(country) => Some(text::trim(country)),
            None => None,
        },
        None => None,
    }
}

/// The country that the first indicator with a capture names in `text`.
pub open spec fn country_by_indicator(indicators: Seq<Seq<char>>, text: Seq<char>) -> Option<
    Seq<char>,
>
    decreases indicators.len(),
{
    if indicators.len() == 0 {
        None
    } else {
        match indicator_choice(first_match(indicators[0], text)) {
            Some(country) => Some(country),
            None => country_by_indicator(indicators.drop_first(), text),
        }
    }
}

/// The country of the first row of `table` whose suffix ends `host`.
pub open spec fn country_by_suffix(table: Seq<(Seq<char>, Seq<char>)>, host: Seq<char>) -> Option<
    Seq<char>,
>
    decreases table.len(),
{
    if table.len() == 0 {
        None
    } else if text::ends_with(host, table[0].0) {
        Some(table[0].1)
    } else {
        country_by_suffix(table.drop_first(), host)
    }
}

/// The host of a website, where it parses as a URL with a host.
pub open spec fn host_of(website: Option<Seq<char>>) -> Option<Seq<char>> {
    match website {
        Some(w) => match parsed_url(w) {
            Some(url) => url.host,
            None => None,
        },
        None => None,
    }
}

/// The country of a record: what the first matching indicator captures in the
/// text, else the country of the first table row whose suffix ends the host of
/// the website.
pub open spec fn country_of(
    indicators: Seq<Seq<char>>,
    table: Seq<(Seq<char>, Seq<char>)>,
    text: Seq<char>,
    website: Option<Seq<char>>,
) -> Option<Seq<char>> {
    match country_by_indicator(indicators, text) {
        Some(country) => Some(country),
        None => match host_of(website) {
            Some(host) => country_by_suffix(table, host),
            None => None,
        },
    }
}

/// Whether `href` is an absolute URL with scheme `http` or `https`.
pub open spec fn is_web_url(href: Seq<char>) -> bool {
    match parsed_url(href) {
        Some(url) => url.scheme == "http"@ || url.scheme == "https"@,
        None => false,
    }
}

/// The link of the first element whose `href` is a web URL.
pub open spec fn first_web_href(elements: Seq<ElementView>) -> Option<Seq<char>>
    decreases elements.len(),
{
    if elements.len() == 0 {
        None
    } else {
        match elements[0].href {
            Some(href) => if is_web_url(href) {
                Some(href)
            } else {
                first_web_href(elements.drop_first())
            },
            None => first_web_href(elements.drop_first()),
        }
    }
}

/// The first web link that a selector of `selectors` finds in `html`; earlier
/// selectors take precedence, and one that is no valid selector is passed over.
pub open spec fn website_by(selectors: Seq<Seq<char>>, html: Seq<char>) -> Option<Seq<char>>
    decreases selectors.len(),
{
    if selectors.len() == 0 {
        None
    } else {
        let found = match selected(html, selectors[0], Seq::empty()) {
            Some(elements) => first_web_href(elements),
            None => None,
        };
        match found {
            Some(href) => Some(href),
            None => website_by(selectors.drop_first(), html),
        }
    }
}

/// The selectors that locate a website link, the general one first.
pub open spec fn website_selectors() -> Seq<Seq<char>> {
    seq![
        "a[href*='http']:not([href*='twitter']):not([href*='linkedin']):not([href*='facebook'])"@,
        ".website a"@,
        ".url a"@,
        "a.external"@,
    ]
}

/// The patterns of a LinkedIn profile or company page, with and without scheme.
pub open spec fn linkedin_patterns() -> Seq<Seq<char>> {
    seq![
        "https?://(?:www\\.)?linkedin\\.com/in/([a-zA-Z0-9-]+)"@,
        "https?://(?:www\\.)?linkedin\\.com/company/([a-zA-Z0-9-]+)"@,
        "linkedin\\.com/in/([a-zA-Z0-9-]+)"@,
        "linkedin\\.com/company/([a-zA-Z0-9-]+)"@,
    ]
}

/// The patterns of a Twitter page and of a bare handle.
pub open spec fn twitter_patterns() -> Seq<Seq<char>> {
    seq![
        "https?://(?:www\\.)?(?:twitter\\.com|x\\.com)/([a-zA-Z0-9_]+)"@,
        "(?:twitter\\.com|x\\.com)/([a-zA-Z0-9_]+)"@,
        "@([a-zA-Z0-9_]+)"@,
    ]
}

/// `url` as a full URL: one that begins with `http` stays, another gets `https://`.
pub open spec fn with_scheme(url: Seq<char>) -> Seq<char> {
    if text::starts_with(url, "http"@) {
        url
    } else {
        "https://"@ + url
    }
}

/// What a match of a LinkedIn pattern yields: the whole match as a full URL.
pub open spec fn linkedin_choice(found: Option<Seq<Option<Seq<char>>>>) -> Option<Seq<char>> {
    match found {
        Some(groups) => match group(groups, 0) {
            Some(url) => Some(with_scheme(url)),
            None => None,
        },
        None => None,
    }
}

/// Whether a captured handle names an account: the names of the sites themselves
/// do not.
pub open spec fn is_handle(handle: Seq<char>) -> bool {
    handle.len() > 0 && handle != "twitter"@ && handle != "x"@
}

/// What a match of a Twitter pattern in running text yields: the page of the
/// captured handle.
pub open spec fn twitter_text_choice(found: Option<Seq<Option<Seq<char>>>>) -> Option<Seq<char>> {
    match found {
        Some(groups) => match group(groups, 1) {
            Some(handle) => if is_handle(handle) {
                Some("https://twitter.com/"@ + handle)
            } else {
                None
            },
            None => None,
        },
        None => None,
    }
}

/// What a match of a Twitter pattern in markup yields: the page of the captured
/// handle, or without a handle group the whole match where it is a full URL.
pub open spec fn twitter_markup_choice(found: Option<Seq<Option<Seq<char>>>>) -> Option<Seq<char>> {
    match found {
        Some(groups) => match group(groups, 1) {
            Some(handle) => if is_handle(handle) {
                Some("https://twitter.com/"@ + handle)
            } else {
                None
            },
            None => match group(groups, 0) {
                Some(url) => if text::starts_with(url, "http"@) {
                    Some(url)
                } else {
                    None
                },
                None => None,
            },
        },
        None => None,
    }
}

/// The LinkedIn page of a record: for each pattern in order, what it finds in the
/// markup, else what it finds in the text. A pattern that does not compile is
/// passed over.
pub open spec fn linkedin_by(patterns: Seq<Seq<char>>, text: Seq<char>, html: Seq<char>) -> Option<
    Seq<char>,
>
    decreases patterns.len(),
{
    if patterns.len() == 0 {
        None
    } else if !pattern_compiles(patterns[0]) {
        linkedin_by(patterns.drop_first(), text, html)
    } else {
        match linkedin_choice(first_match(patterns[0], html)) {
            Some(url) => Some(url),
            None => match linkedin_choice(first_match(patterns[0], text)) {
                Some(url) => Some(url),
                None => linkedin_by(patterns.drop_first(), text, html),
            },
        }
    }
}

/// The Twitter page of a record: for each pattern in order, what it finds in the
/// markup, else what it finds in the text. A pattern that does not compile is
/// passed over.
pub open spec fn twitter_by(patterns: Seq<Seq<char>>, text: Seq<char>, html: Seq<char>) -> Option<
    Seq<char>,
>
    decreases patterns.len(),
{
    if patterns.len() == 0 {
        None
    } else if !pattern_compiles(patterns[0]) {
        twitter_by(patterns.drop_first(), text, html)
    } else {
        match twitter_markup_choice(first_match(patterns[0], html)) {
            Some(url) => Some(url),
            None => match twitter_text_choice(first_match(patterns[0], text)) {
                Some(url) => Some(url),
                None => twitter_by(patterns.drop_first(), text, html),
            },
        }
    }
}

/// The country that a match of a country indicator yields.
pub fn pick_country(found: &Option<Vec<Option<String>>>) -> (country: Option<String>)
    ensures
        opt_view(country) == indicator_choice(match_view(*found)),
{
    match found {
        Some(groups) => match group_of(groups, 1) {
            Some(country) => Some(text::str_trim(country.as_str())),
            None => None,
        },
        None => None,
    }
}

/// The country of the first row of `table` whose suffix ends `host`.
pub fn country_for_host(table: &Vec<TldEntry>, host: &str) -> (country: Option<String>)
    ensures
        opt_view(country) == country_by_suffix(table_view(table@), host@),
{
    let ghost all = table_view(table@);
    let h = text::to_chars(host);
    let mut i: usize = 0;
    assert(all.skip(0) =~= all);
    while i < table.len()
        invariant
            i <= table.len(),
            h@ == host@,
            all == table_view(table@),
            country_by_suffix(all, host@) == country_by_suffix(all.skip(i as int), host@),
        decreases table.len() - i,
    {
        let suffix = text::to_chars(table[i].suffix.as_str());
        proof {
            assert(all.skip(i as int)[0] == (table@[i as int].suffix@, table@[i as int].country@));
            assert(all.skip(i as int).drop_first() =~= all.skip(i + 1));
        }
        if text::ends_with_chars(&h, &suffix) {
            return Some(table[i].country.clone());
        }
        i += 1;
    }
    None
}

/// Whether `href` is an absolute URL with scheme `http` or `https`.
pub fn is_valid_website_url(href: &str) -> (ok: bool)
    ensures
        ok == is_web_url(href@),
{
    match weburl::parse(href) {
        Some(url) => text::same_text(url.scheme.as_str(), "http") || text::same_text(
            url.scheme.as_str(),
            "https",
        ),
        None => false,
    }
}

/// The link of the first element whose `href` is a web URL.
pub fn pick_website(elements: &Vec<Element>) -> (href: Option<String>)
    ensures
        opt_view(href) == first_web_href(element_views(elements@)),
{
    let ghost all = element_views(elements@);
    let mut i: usize = 0;
    assert(all.skip(0) =~= all);
    while i < elements.len()
        invariant
            i <= elements.len(),
            all == element_views(elements@),
            first_web_href(all) == first_web_href(all.skip(i as int)),
        decreases elements.len() - i,
    {
        proof {
            assert(all.skip(i as int)[0] == elements@[i as int]@);
            assert(all.skip(i as int).drop_first() =~= all.skip(i + 1));
        }
        match &elements[i].href {
            Some(href) => {
                if is_valid_website_url(href.as_str()) {
                    return Some(href.clone());
                }
            },
            None => {},
        }
        i += 1;
    }
    None
}

/// The full URL that a match of a LinkedIn pattern yields.
pub fn pick_linkedin(found: &Option<Vec<Option<String>>>) -> (url: Option<String>)
    ensures
        opt_view(url) == linkedin_choice(match_view(*found)),
{
    match found {
        Some(groups) => match group_of(groups, 0) {
            Some(url) => {
                if text::str_starts_with(url.as_str(), "http") {
                    Some(url.clone())
                } else {
                    Some(String::from_str("https://").concat(url.as_str()))
                }
            },
            None => None,
        },
        None => None,
    }
}

/// The page of a captured handle, where it names an account.
fn handle_page(handle: &String) -> (url: Option<String>)
    ensures
        opt_view(url) == if is_handle(handle@) {
            Some("https://twitter.com/"@ + handle@)
        } else {
            None
        },
{
    let chars = text::to_chars(handle.as_str());
    if chars.len() > 0 && !text::same_text(handle.as_str(), "twitter") && !text::same_text(
        handle.as_str(),
        "x",
    ) {
        Some(String::from_str("https://twitter.com/").concat(handle.as_str()))
    } else {
        None
    }
}

/// The page that a match of a Twitter pattern in running text yields.
pub fn pick_twitter_in_text(found: &Option<Vec<Option<String>>>) -> (url: Option<String>)
    ensures
        opt_view(url) == twitter_text_choice(match_view(*found)),
{
    match found {
        Some(groups) => match group_of(groups, 1) {
            Some(handle) => handle_page(handle),
            None => None,
        },
        None => None,
    }
}

/// The page that a match of a Twitter pattern in markup yields.
pub fn pick_twitter_in_markup(found: &Option<Vec<Option<String>>>) -> (url: Option<String>)
    ensures
        opt_view(url) == twitter_markup_choice(match_view(*found)),
{
    match found {
        Some(groups) => match group_of(groups, 1) {
            Some(handle) => handle_page(handle),
            None => match group_of(groups, 0) {
                Some(url) => {
                    if text::str_starts_with(url.as_str(), "http") {
                        Some(url.clone())
                    } else {
                        None
                    }
                },
                None => None,
            },
        },
        None => None,
    }
}

/// The selectors that locate a website link.
fn website_selector_list() -> (v: Vec<String>)
    ensures
        string_views(v@) == website_selectors(),
{
    let mut v: Vec<String> = Vec::new();
    v.push(
        String::from_str(
            "a[href*='http']:not([href*='twitter']):not([href*='linkedin']):not([href*='facebook'])",
        ),
    );
    v.push(String::from_str(".website a"));
    v.push(String::from_str(".url a"));
    v.push(String::from_str("a.external"));
    assert(string_views(v@) =~= website_selectors());
    v
}

/// The LinkedIn patterns.
fn linkedin_pattern_list() -> (v: Vec<String>)
    ensures
        string_views(v@) == linkedin_patterns(),
{
    let mut v: Vec<String> = Vec::new();
    v.push(String::from_str("https?://(?:www\\.)?linkedin\\.com/in/([a-zA-Z0-9-]+)"));
    v.push(String::from_str("https?://(?:www\\.)?linkedin\\.com/company/([a-zA-Z0-9-]+)"));
    v.push(String::from_str("linkedin\\.com/in/([a-zA-Z0-9-]+)"));
    v.push(String::from_str("linkedin\\.com/company/([a-zA-Z0-9-]+)"));
    assert(string_views(v@) =~= linkedin_patterns());
    v
}

/// The Twitter patterns.
fn twitter_pattern_list() -> (v: Vec<String>)
    ensures
        string_views(v@) == twitter_patterns(),
{
    let mut v: Vec<String> = Vec::new();
    v.push(String::from_str("https?://(?:www\\.)?(?:twitter\\.com|x\\.com)/([a-zA-Z0-9_]+)"));
    v.push(String::from_str("(?:twitter\\.com|x\\.com)/([a-zA-Z0-9_]+)"));
    v.push(String::from_str("@([a-zA-Z0-9_]+)"));
    assert(string_views(v@) =~= twitter_patterns());
    v
}

/// A copy of a suffix table.
fn copy_table(table: &Vec<TldEntry>) -> (copy: Vec<TldEntry>)
    ensures
        table_view(copy@) == table_view(table@),
{
    let mut copy: Vec<TldEntry> = Vec::new();
    let mut k: usize = 0;
    while k < table.len()
        invariant
            k <= table.len(),
            table_view(copy@) == table_view(table@.take(k as int)),
        decreases table.len() - k,
    {
        let ghost before = copy@;
        let entry = TldEntry { suffix: table[k].suffix.clone(), country: table[k].country.clone() };
        copy.push(entry);
        proof {
            assert(table@.take(k + 1) =~= table@.take(k as int).push(table@[k as int]));
            assert(table_view(before.push(entry)) =~= table_view(before).push(
                (entry.suffix@, entry.country@),
            ));
            assert(table_view(table@.take(k as int).push(table@[k as int])) =~= table_view(
                table@.take(k as int),
            ).push((table@[k as int].suffix@, table@[k as int].country@)));
        }
        k += 1;
    }
    assert(table@.take(table.len() as int) =~= table@);
    copy
}

impl Clone for DataExtractor {
    /// A copy with the same patterns, table and token.
    fn clone(&self) -> (copy: DataExtractor)
        ensures
            copy.mailto() == self.mailto(),
            copy.generic() == self.generic(),
            copy.indicators() == self.indicators(),
            copy.suffixes() == self.suffixes(),
            copy.token() == self.token(),
    {
        let mut country_indicators: Vec<Pattern> = Vec::new();
        let mut i: usize = 0;
        while i < self.country_indicators.len()
            invariant
                i <= self.country_indicators.len(),
                country_indicators@.len() == i,
                forall|j: int|
                    0 <= j < i ==> (#[trigger] country_indicators@[j]).source()
                        == self.country_indicators@[j].source(),
            decreases self.country_indicators.len() - i,
        {
            country_indicators.push(self.country_indicators[i].clone());
            i += 1;
        }
        assert(country_indicators@.map_values(|p: Pattern| p.source())
            =~= self.country_indicators@.map_values(|p: Pattern| p.source()));
        let github_token = match &self.github_token {
            Some(t) => Some(t.clone()),
            None => None,
        };
        DataExtractor {
            mailto: self.mailto.clone(),
            generic: self.generic.clone(),
            country_indicators,
            tld_mapping: copy_table(&self.tld_mapping),
            github_token,
        }
    }
}

impl DataExtractor {
    /// The source of the `mailto:` pattern.
    pub closed spec fn mailto(&self) -> Seq<char> {
        self.mailto.source()
    }

    /// The source of the generic email pattern.
    pub closed spec fn generic(&self) -> Seq<char> {
        self.generic.source()
    }

    /// The sources of the country indicator patterns, in configured order.
    pub closed spec fn indicators(&self) -> Seq<Seq<char>> {
        self.country_indicators@.map_values(|p: Pattern| p.source())
    }

    /// The table from host suffix to country, in configured order.
    pub closed spec fn suffixes(&self) -> Seq<(Seq<char>, Seq<char>)> {
        table_view(self.tld_mapping@)
    }

    /// The token for the code-host API, if one is configured.
    pub closed spec fn token(&self) -> Option<Seq<char>> {
        opt_view(self.github_token)
    }

    /// The token for the code-host API, if one is configured.
    pub fn github_token(&self) -> (token: &Option<String>)
        ensures
            opt_view(*token) == self.token(),
    {
        &self.github_token
    }

    /// Compiles the configured patterns. Fails with a regex error exactly where
    /// one of them is not a valid pattern.
    pub fn new(patterns: &PatternsConfig, github_token: Option<String>) -> (r: Result<
        DataExtractor,
        ScrapingError,
    >)
        ensures
            r is Ok <==> {
                &&& pattern_compiles(patterns.email.mailto@)
                &&& pattern_compiles(patterns.email.generic@)
                &&& forall|i: int|
                    0 <= i < patterns.location.country_indicators@.len() ==> pattern_compiles(
                        #[trigger] patterns.location.country_indicators@[i]@,
                    )
            },
            r matches Ok(e) ==> {
                &&& e.mailto() == patterns.email.mailto@
                &&& e.generic() == patterns.email.generic@
                &&& e.indicators() == string_views(patterns.location.country_indicators@)
                &&& e.suffixes() == table_view(patterns.tld_mapping@)
                &&& e.token() == opt_view(github_token)
            },
            r matches Err(e) ==> e is RegexError,
    {
        let mailto = match Pattern::new(patterns.email.mailto.as_str()) {
            Ok(p) => p,
            Err(e) => {
                return Err(e);
            },
        };
        let generic = match Pattern::new(patterns.email.generic.as_str()) {
            Ok(p) => p,
            Err(e) => {
                return Err(e);
            },
        };
        let sources = &patterns.location.country_indicators;
        let mut country_indicators: Vec<Pattern> = Vec::new();
        let mut i: usize = 0;
        while i < sources.len()
            invariant
                i <= sources.len(),
                sources@ == patterns.location.country_indicators@,
                pattern_compiles(patterns.email.mailto@),
                pattern_compiles(patterns.email.generic@),
                country_indicators@.len() == i,
                forall|j: int|
                    0 <= j < i ==> (#[trigger] country_indicators@[j]).source() == sources@[j]@,
                forall|j: int| 0 <= j < i ==> pattern_compiles(#[trigger] sources@[j]@),
            decreases sources.len() - i,
        {
            match Pattern::new(sources[i].as_str()) {
                Ok(p) => {
                    country_indicators.push(p);
                },
                Err(e) => {
                    assert(!pattern_compiles(sources@[i as int]@));
                    return Err(e);
                },
            }
            i += 1;
        }
        let tld_mapping = copy_table(&patterns.tld_mapping);
        assert(country_indicators@.map_values(|p: Pattern| p.source()) =~= string_views(sources@));
        Ok(DataExtractor { mailto, generic, country_indicators, tld_mapping, github_token })
    }

    /// The email of a record, from its text and its markup.
    pub fn extract_email(&self, text: &str, html: &str) -> (email: Option<String>)
        ensures
            opt_view(email) == email_of(self.mailto(), self.generic(), text@, html@),
    {
        let by_link = self.mailto.captures(html);
        match pick_mailto(&by_link) {
            Some(email) => Some(email),
            None => {
                let by_text = self.generic.captures(text);
                pick_generic(&by_text)
            },
        }
    }

    /// The country of a record, from its text and, failing that, from the host of
    /// its website.
    pub fn extract_country(&self, text: &str, website: Option<&str>) -> (country: Option<String>)
        ensures
            opt_view(country) == country_of(
                self.indicators(),
                self.suffixes(),
                text@,
                text::opt_str_view(website),
            ),
    {
        let ghost all = self.indicators();
        let mut i: usize = 0;
        assert(all.skip(0) =~= all);
        while i < self.country_indicators.len()
            invariant
                i <= self.country_indicators.len(),
                all == self.indicators(),
                country_by_indicator(all, text@) == country_by_indicator(all.skip(i as int), text@),
            decreases self.country_indicators.len() - i,
        {
            proof {
                assert(all.skip(i as int)[0] == self.country_indicators@[i as int].source());
                assert(all.skip(i as int).drop_first() =~= all.skip(i + 1));
            }
            let found = self.country_indicators[i].captures(text);
            match pick_country(&found) {
                Some(country) => {
                    return Some(country);
                },
                None => {},
            }
            i += 1;
        }
        match website {
            Some(w) => match weburl::parse(w) {
                Some(url) => match &url.host {
                    Some(host) => country_for_host(&self.tld_mapping, host.as_str()),
                    None => None,
                },
                None => None,
            },
            None => None,
        }
    }

    /// The website of a record: the first link with a web URL that the website
    /// selectors find in its markup, the general selector first.
    pub fn extract_website(&self, html: &str, _base_url: Option<&str>) -> (website: Option<String>)
        ensures
            opt_view(website) == website_by(website_selectors(), html@),
    {
        let selectors = website_selector_list();
        let ghost all = string_views(selectors@);
        let none: Vec<String> = Vec::new();
        assert(string_views(none@) =~= Seq::<Seq<char>>::empty());
        let mut i: usize = 0;
        assert(all.skip(0) =~= all);
        while i < selectors.len()
            invariant
                i <= selectors.len(),
                all == string_views(selectors@),
                all == website_selectors(),
                string_views(none@) == Seq::<Seq<char>>::empty(),
                website_by(all, html@) == website_by(all.skip(i as int), html@),
            decreases selectors.len() - i,
        {
            proof {
                assert(all.skip(i as int)[0] == selectors@[i as int]@);
                assert(all.skip(i as int).drop_first() =~= all.skip(i + 1));
            }
            match markup::select(html, selectors[i].as_str(), &none) {
                Some(elements) => match pick_website(&elements) {
                    Some(href) => {
                        return Some(href);
                    },
                    None => {},
                },
                None => {},
            }
            i += 1;
        }
        None
    }

    /// The LinkedIn and the Twitter page of a record.
    pub fn extract_social_media(&self, text: &str, html: &str) -> (pages: (
        Option<String>,
        Option<String>,
    ))
        ensures
            opt_view(pages.0) == linkedin_by(linkedin_patterns(), text@, html@),
            opt_view(pages.1) == twitter_by(twitter_patterns(), text@, html@),
    {
        let linkedin = self.extract_linkedin(text, html);
        let twitter = self.extract_twitter(text, html);
        (linkedin, twitter)
    }

    fn extract_linkedin(&self, text: &str, html: &str) -> (url: Option<String>)
        ensures
            opt_view(url) == linkedin_by(linkedin_patterns(), text@, html@),
    {
        let patterns = linkedin_pattern_list();
        let ghost all = string_views(patterns@);
        let mut i: usize = 0;
        assert(all.skip(0) =~= all);
        while i < patterns.len()
            invariant
                i <= patterns.len(),
                all == string_views(patterns@),
                all == linkedin_patterns(),
                linkedin_by(all, text@, html@) == linkedin_by(all.skip(i as int), text@, html@),
            decreases patterns.len() - i,
        {
            proof {
                assert(all.skip(i as int)[0] == patterns@[i as int]@);
                assert(all.skip(i as int).drop_first() =~= all.skip(i + 1));
            }
            match Pattern::new(patterns[i].as_str()) {
                Ok(pattern) => {
                    let in_markup = pattern.captures(html);
                    match pick_linkedin(&in_markup) {
                        Some(url) => {
                            return Some(url);
                        },
                        None => {},
                    }
                    let in_text = pattern.captures(text);
                    match pick_linkedin(&in_text) {
                        Some(url) => {
                            return Some(url);
                        },
                        None => {},
                    }
                },
                Err(_) => {},
            }
            i += 1;
        }
        None
    }

    fn extract_twitter(&self, text: &str, html: &str) -> (url: Option<String>)
        ensures
            opt_view(url) == twitter_by(twitter_patterns(), text@, html@),
    {
        let patterns = twitter_pattern_list();
        let ghost all = string_views(patterns@);
        let mut i: usize = 0;
        assert(all.skip(0) =~= all);
        while i < patterns.len()
            invariant
                i <= patterns.len(),
                all == string_views(patterns@),
                all == twitter_patterns(),
                twitter_by(all, text@, html@) == twitter_by(all.skip(i as int), text@, html@),
            decreases patterns.len() - i,
        {
            proof {
                assert(all.skip(i as int)[0] == patterns@[i as int]@);
                assert(all.skip(i as int).drop_first() =~= all.skip(i + 1));
            }
            match Pattern::new(patterns[i].as_str()) {
                Ok(pattern) => {
                    let in_markup = pattern.captures(html);
                    match pick_twitter_in_markup(&in_markup) {
                        Some(url) => {
                            return Some(url);
                        },
                        None => {},
                    }
                    let in_text = pattern.captures(text);
                    match pick_twitter_in_text(&in_text) {
                        Some(url) => {
                            return Some(url);
                        },
                        None => {},
                    }
                },
                Err(_) => {},
            }
            i += 1;
        }
        None
    }

    /// The cleaned form of `text`: lines trimmed, empty lines dropped, the rest
    /// joined by single spaces, then what is neither ASCII nor white space dropped.
    /// The result holds only ASCII and white space, no line feed, and the visible
    /// ASCII characters of `text`, all of them and in their order.
    pub fn clean_text(&self, text: &str) -> (out: String)
        ensures
            out@ == text::cleaned(text@),
            forall|i: int|
                0 <= i < out@.len() ==> text::char_is_ascii(#[trigger] out@[i])
                    || text::char_is_whitespace(out@[i]),
            text::free_of(out@, '\n'),
            out@.filter(text::is_visible_ascii()) == text@.filter(text::is_visible_ascii()),
    {
        proof {
            text::lemma_cleaned_text(text@);
        }
        let chars = text::to_chars(text);
        let cleaned = text::clean_chars(&chars);
        text::string_of(&cleaned)
    }
}

/// A `mailto:` link decides: where the markup holds one, its address is the email
/// of the record, whatever address the text holds.
pub proof fn lemma_mailto_wins(
    mailto: Seq<char>,
    generic: Seq<char>,
    text: Seq<char>,
    other_text: Seq<char>,
    html: Seq<char>,
)
    requires
        mailto_choice(first_match(mailto, html)) is Some,
    ensures
        email_of(mailto, generic, text, html) == mailto_choice(first_match(mailto, html)),
        email_of(mailto, generic, text, html) == email_of(mailto, generic, other_text, html),
{
}

/// Without a `mailto:` link in the markup, the email of a record is never a
/// placeholder address.
pub proof fn lemma_no_placeholder_from_text(
    mailto: Seq<char>,
    generic: Seq<char>,
    text: Seq<char>,
    html: Seq<char>,
)
    requires
        mailto_choice(first_match(mailto, html)) is None,
    ensures
        match email_of(mailto, generic, text, html) {
            Some(email) => !contains(email, "example."@) && !contains(email, "placeholder"@),
            None => true,
        },
{
}

} // verus!
