//! Leads, their provenance, and the records that parsing hands to lead assembly.

use crate::clock::now_millis;
use crate::text;
use crate::weburl::{is_on_code_host, points_at_code_host};
use vstd::prelude::*;
use vstd::string::StringExecFns;

verus! {

/// Where a lead was found.
#[derive(Debug, Clone)]
pub enum Source {
    YCombinator,
    GitHubAwesome { repository: String },
    BetaList,
    Website { url: String },
}

impl Source {
    /// The display text of a source.
    pub open spec fn text(self) -> Seq<char> {
        match self {
            Source::YCombinator => "Y Combinator"@,
            Source::GitHubAwesome { repository } => "GitHub/"@ + repository@,
            Source::BetaList => "BetaList"@,
            Source::Website { url } => "Website: "@ + url@,
        }
    }

    /// The statistics bucket of a source: resolved project links are split by
    /// whether their host is the code host.
    pub open spec fn bucket(self) -> Seq<char> {
        match self {
            Source::YCombinator => "Y Combinator"@,
            Source::GitHubAwesome { repository } => "GitHub/"@ + repository@,
            Source::BetaList => "BetaList"@,
            Source::Website { url } => if points_at_code_host(url@) {
                "GitHub Project"@
            } else {
                "Website"@
            },
        }
    }

    /// The display text of this source.
    pub fn to_text(&self) -> (out: String)
        ensures
            out@ == self.text(),
    {
        match self {
            Source::YCombinator => String::from_str("Y Combinator"),
            Source::GitHubAwesome { repository } => String::from_str("GitHub/").concat(
                repository.as_str(),
            ),
            Source::BetaList => String::from_str("BetaList"),
            Source::Website { url } => String::from_str("Website: ").concat(url.as_str()),
        }
    }

    /// The name under which this source is counted in the statistics.
    pub fn bucket_name(&self) -> (out: String)
        ensures
            out@ == self.bucket(),
    {
        match self {
            Source::YCombinator => String::from_str("Y Combinator"),
            Source::GitHubAwesome { repository } => String::from_str("GitHub/").concat(
                repository.as_str(),
            ),
            Source::BetaList => String::from_str("BetaList"),
            Source::Website { url } => {
                if is_on_code_host(url.as_str()) {
                    String::from_str("GitHub Project")
                } else {
                    String::from_str("Website")
                }
            },
        }
    }
}

/// What parsing one page or document yields for one candidate, before enrichment.
#[derive(Debug, Clone)]
pub struct ScrapedData {
    pub name: String,
    pub website: Option<String>,
    pub raw_text: String,
    pub html: String,
}

/// The mathematical value of a `ScrapedData`.
pub struct RecordView {
    pub name: Seq<char>,
    pub website: Option<Seq<char>>,
    pub raw_text: Seq<char>,
    pub html: Seq<char>,
}

impl View for ScrapedData {
    type V = RecordView;

    open spec fn view(&self) -> RecordView {
        RecordView {
            name: self.name@,
            website: text::opt_view(self.website),
            raw_text: self.raw_text@,
            html: self.html@,
        }
    }
}

/// The views of a list of records.
pub open spec fn record_views(records: Seq<ScrapedData>) -> Seq<RecordView> {
    records.map_values(|r: ScrapedData| r@)
}

/// A candidate organisation or project with its optional contact fields.
#[derive(Debug, Clone)]
pub struct Lead {
    pub name: String,
    pub website: Option<String>,
    pub email: Option<String>,
    pub github_email: Option<String>,
    pub linkedin: Option<String>,
    pub twitter: Option<String>,
    pub source: Source,
    pub country: Option<String>,
    pub description: Option<String>,
    /// Milliseconds since the Unix epoch.
    pub scraped_at: i64,
}

impl Lead {
    /// A lead is well formed when it has a name.
    pub open spec fn wf(self) -> bool {
        self.name@.len() > 0
    }

    /// Whether a direct or a mined email is present.
    pub open spec fn contactable(self) -> bool {
        self.email is Some || self.github_email is Some
    }

    /// The weighted sum of the contact fields that are present.
    pub open spec fn score(self) -> int {
        (if self.email is Some { 3int } else { 0 })
        + (if self.github_email is Some { 2int } else { 0 })
        + (if self.linkedin is Some { 1int } else { 0 })
        + (if self.twitter is Some { 1int } else { 0 })
    }

    /// A lead with no optional field set, stamped `scraped_at`. It is well formed
    /// where `name` is not empty.
    pub fn at(name: String, source: Source, scraped_at: i64) -> (lead: Lead)
        ensures
            lead.wf() <==> name@.len() > 0,
            lead == (Lead {
                name,
                website: None,
                email: None,
                github_email: None,
                linkedin: None,
                twitter: None,
                source,
                country: None,
                description: None,
                scraped_at,
            }),
    {
        Lead {
            name,
            website: None,
            email: None,
            github_email: None,
            linkedin: None,
            twitter: None,
            source,
            country: None,
            description: None,
            scraped_at,
        }
    }

    /// A lead with no optional field set, stamped with the current time.
    pub fn new(name: String, source: Source) -> (lead: Lead)
        ensures
            lead == (Lead { scraped_at: lead.scraped_at, ..Lead::blank(name, source) }),
    {
        Lead::at(name, source, now_millis())
    }

    /// The lead that `at` builds for time zero.
    pub open spec fn blank(name: String, source: Source) -> Lead {
        Lead {
            name,
            website: None,
            email: None,
            github_email: None,
            linkedin: None,
            twitter: None,
            source,
            country: None,
            description: None,
            scraped_at: 0,
        }
    }

    /// This lead with `website` as its website.
    pub fn with_website(self, website: Option<String>) -> (lead: Lead)
        ensures
            lead == (Lead { website, ..self }),
    {
        let mut lead = self;
        lead.website = website;
        lead
    }

    /// This lead with `email` as its direct email.
    pub fn with_email(self, email: Option<String>) -> (lead: Lead)
        ensures
            lead == (Lead { email, ..self }),
    {
        let mut lead = self;
        lead.email = email;
        lead
    }

    /// This lead with `github_email` as its mined email.
    pub fn with_github_email(self, github_email: Option<String>) -> (lead: Lead)
        ensures
            lead == (Lead { github_email, ..self }),
    {
        let mut lead = self;
        lead.github_email = github_email;
        lead
    }

    /// This lead with `linkedin` as its LinkedIn page.
    pub fn with_linkedin(self, linkedin: Option<String>) -> (lead: Lead)
        ensures
            lead == (Lead { linkedin, ..self }),
    {
        let mut lead = self;
        lead.linkedin = linkedin;
        lead
    }

    /// This lead with `twitter` as its Twitter page.
    pub fn with_twitter(self, twitter: Option<String>) -> (lead: Lead)
        ensures
            lead == (Lead { twitter, ..self }),
    {
        let mut lead = self;
        lead.twitter = twitter;
        lead
    }

    /// This lead with `country` as its country.
    pub fn with_country(self, country: Option<String>) -> (lead: Lead)
        ensures
            lead == (Lead { country, ..self }),
    {
        let mut lead = self;
        lead.country = country;
        lead
    }

    /// This lead with `description` as its description.
    pub fn with_description(self, description: Option<String>) -> (lead: Lead)
        ensures
            lead == (Lead { description, ..self }),
    {
        let mut lead = self;
        lead.description = description;
        lead
    }

    /// Whether a direct or a mined email is present.
    pub fn has_contact(&self) -> (b: bool)
        ensures
            b == (self.email is Some || self.github_email is Some),
            b == self.contactable(),
    {
        self.email.is_some() || self.github_email.is_some()
    }

    /// Email counts 3, a mined email 2, LinkedIn 1 and Twitter 1.
    pub fn contact_score(&self) -> (score: u8)
        ensures
            score == self.score(),
            score <= 7,
    {
        let mut score: u8 = 0;
        if self.email.is_some() {
            score += 3;
        }
        if self.github_email.is_some() {
            score += 2;
        }
        if self.linkedin.is_some() {
            score += 1;
        }
        if self.twitter.is_some() {
            score += 1;
        }
        score
    }
}

/// The contact score never falls when contact fields are added: a lead that has
/// every contact field another lead has scores at least as much, and no lead
/// scores more than 7.
pub proof fn lemma_contact_score_monotone(before: Lead, after: Lead)
    requires
        before.email is Some ==> after.email is Some,
        before.github_email is Some ==> after.github_email is Some,
        before.linkedin is Some ==> after.linkedin is Some,
        before.twitter is Some ==> after.twitter is Some,
    ensures
        0 <= before.score() <= after.score() <= 7,
{
}

} // verus!
