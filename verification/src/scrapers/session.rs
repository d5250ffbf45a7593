//! One run of one source adapter, as a machine: it is handed what a request
//! brought back and says what to do next. The caller performs the requests and
//! the pauses; every decision is taken here.

use crate::commits::{
    commits_url,
    is_api_request,
    mined,
    repo_info_url,
    repo_path_of,
    CommitRecord,
    Mining,
    RepoInfo,
};
use crate::errors::ScrapingError;
use crate::http::{HttpRequest, Reply};
use crate::models::{record_views, Lead, RecordView, ScrapedData, Source};
use crate::extractors::host_of;
use crate::scrapers::base::{all_named, is_draft_of, page_urls_of, BaseScraper};
use crate::weburl::is_code_host;
use crate::scrapers::betalist::{startup_page_records, BetaListScraper};
use crate::scrapers::github_awesome::{
    fallback_readme_url,
    readme_records,
    readme_url,
    GitHubAwesomeScraper,
};
use crate::scrapers::ycombinator::{directory_records, YCombinatorScraper};
use crate::scrapers::SourceScraper;
use crate::text::{opt_view, string_views};
use vstd::prelude::*;
use vstd::string::StringExecFns;

verus! {

/// One of the three source adapters.
pub enum Scraper {
    YCombinator(YCombinatorScraper),
    GitHubAwesome(GitHubAwesomeScraper),
    BetaList(BetaListScraper),
}

/// One page or document to fetch.
#[derive(Debug, Clone)]
pub struct Target {
    pub url: String,
    /// A second address, tried where the first fails.
    pub fallback: Option<String>,
}

/// The mathematical value of a target.
pub struct TargetView {
    pub url: Seq<char>,
    pub fallback: Option<Seq<char>>,
}

impl View for Target {
    type V = TargetView;

    open spec fn view(&self) -> TargetView {
        TargetView { url: self.url@, fallback: opt_view(self.fallback) }
    }
}

/// The views of a list of targets.
pub open spec fn target_views(targets: Seq<Target>) -> Seq<TargetView> {
    targets.map_values(|t: Target| t@)
}

/// Where a run stands.
#[derive(Debug, Clone)]
pub enum Stage {
    /// The next target is to be taken up.
    Ready,
    /// The page of the current target has been asked for.
    AwaitPage,
    /// The second address of the current target has been asked for.
    AwaitFallback,
    /// The records of the current page are turned into leads, one per step.
    Assembling,
    /// The metadata of the repository of the lead in the making has been asked for.
    AwaitRepoInfo { repo_path: String },
    /// The commits of the repository of the lead in the making have been asked for.
    AwaitCommits,
    /// The pause after the current target has been asked for.
    Pausing,
    /// Every target has been dealt with.
    Finished,
}

/// What the caller hands to a run.
pub enum Event {
    /// Nothing was asked for, or the pause is over.
    Go,
    /// The reply to a request for a page or a readme.
    Page(Reply<String>),
    /// The reply to a request for the metadata of a repository.
    RepoInfo(Reply<RepoInfo>),
    /// The reply to a request for the commits of a repository.
    Commits(Reply<Vec<CommitRecord>>),
}

/// What a run asks of the caller.
pub enum Action {
    /// Nothing: the next step needs no outside work.
    Continue,
    /// Fetch a page or a readme and hand back `Event::Page`.
    Fetch(HttpRequest),
    /// Fetch the metadata of a repository and hand back `Event::RepoInfo`.
    FetchRepoInfo(HttpRequest),
    /// Fetch commits and hand back `Event::Commits`.
    FetchCommits(HttpRequest),
    /// Wait for so many milliseconds and hand back `Event::Go`.
    Pause(u64),
    /// The run is over; its leads are final.
    Finish,
}

/// One run of one adapter.
pub struct Session {
    pub targets: Vec<Target>,
    /// The index of the target that is being dealt with.
    pub position: usize,
    pub stage: Stage,
    /// The records of the current page that are not yet leads, in order.
    pub records: Vec<ScrapedData>,
    /// The lead whose commit mining is under way.
    pub draft: Option<Lead>,
    /// The finished leads, in order.
    pub leads: Vec<Lead>,
}

impl Scraper {
    /// The helpers of the adapter.
    pub open spec fn base(self) -> BaseScraper {
        match self {
            Scraper::YCombinator(s) => s.base,
            Scraper::GitHubAwesome(s) => s.base,
            Scraper::BetaList(s) => s.base,
        }
    }

    /// The pause after each target, in milliseconds.
    pub open spec fn pause(self) -> u64 {
        match self {
            Scraper::YCombinator(_) => 500,
            Scraper::GitHubAwesome(_) => 1000,
            Scraper::BetaList(_) => 800,
        }
    }

    /// The targets of the adapter, in configured order.
    pub open spec fn target_list(self) -> Seq<TargetView> {
        match self {
            Scraper::YCombinator(s) => page_urls_of(
                s.config.base_url@,
                string_views(s.config.endpoints@),
            ).map_values(|u: Seq<char>| TargetView { url: u, fallback: None }),
            Scraper::GitHubAwesome(s) => string_views(s.config.repositories@).map_values(
                |r: Seq<char>|
                    TargetView {
                        url: readme_url(s.config.api_base@, r),
                        fallback: Some(fallback_readme_url(s.config.api_base@, r)),
                    },
            ),
            Scraper::BetaList(s) => page_urls_of(
                s.config.base_url@,
                string_views(s.config.endpoints@),
            ).map_values(|u: Seq<char>| TargetView { url: u, fallback: None }),
        }
    }

    /// The records that a reply to a page request yields, or nothing where the
    /// request or the parsing failed.
    pub open spec fn records_for(self, reply: Reply<String>) -> Option<Seq<RecordView>> {
        match self {
            Scraper::YCombinator(_) => directory_records(reply),
            Scraper::GitHubAwesome(_) => readme_records(reply),
            Scraper::BetaList(_) => startup_page_records(reply),
        }
    }

    /// Whether `source` is the provenance that the adapter gives a record with
    /// this website.
    pub open spec fn is_source_of(self, source: Source, website: Option<Seq<char>>) -> bool {
        match self {
            Scraper::YCombinator(_) => source is YCombinator,
            Scraper::GitHubAwesome(_) => source matches Source::Website { url } && url@ == (
            match website {
                Some(w) => w,
                None => "unknown"@,
            }),
            Scraper::BetaList(_) => source is BetaList,
        }
    }

    /// Whether `request` is the request that the adapter makes for the page at
    /// `url`: a plain GET for a directory page, and for a readme a GET with the
    /// headers of the content API.
    pub open spec fn is_page_request(self, request: HttpRequest, url: Seq<char>) -> bool {
        match self {
            Scraper::GitHubAwesome(s) => {
                &&& request.url@ == url
                &&& opt_view(request.accept) == Some("application/vnd.github.v3+json"@)
                &&& opt_view(request.user_agent) == Some("Lead-Scraper/1.0"@)
                &&& opt_view(request.authorization) == crate::commits::authorization_for(
                    s.base.extractor.token(),
                )
            },
            _ => {
                &&& request.url@ == url
                &&& request.accept is None
                &&& request.user_agent is None
                &&& request.authorization is None
            },
        }
    }

    /// The helpers of the adapter.
    pub fn base_ref(&self) -> (base: &BaseScraper)
        ensures
            *base == self.base(),
    {
        match self {
            Scraper::YCombinator(s) => &s.base,
            Scraper::GitHubAwesome(s) => &s.base,
            Scraper::BetaList(s) => &s.base,
        }
    }

    /// The pause after each target, in milliseconds.
    pub fn pause_millis(&self) -> (millis: u64)
        ensures
            millis == self.pause(),
    {
        match self {
            Scraper::YCombinator(s) => s.pause_millis(),
            Scraper::GitHubAwesome(s) => s.pause_millis(),
            Scraper::BetaList(s) => s.pause_millis(),
        }
    }

    /// The targets of the adapter, in configured order.
    pub fn targets(&self) -> (targets: Vec<Target>)
        ensures
            target_views(targets@) == self.target_list(),
    {
        match self {
            Scraper::YCombinator(s) => plain_targets(s.page_urls()),
            Scraper::GitHubAwesome(s) => {
                let repositories = &s.config.repositories;
                let mut targets: Vec<Target> = Vec::new();
                let mut i: usize = 0;
                while i < repositories.len()
                    invariant
                        i <= repositories.len(),
                        targets@.len() == i,
                        forall|j: int|
                            0 <= j < i ==> (#[trigger] targets@[j])@ == (TargetView {
                                url: readme_url(s.config.api_base@, repositories@[j]@),
                                fallback: Some(
                                    fallback_readme_url(s.config.api_base@, repositories@[j]@),
                                ),
                            }),
                    decreases repositories.len() - i,
                {
                    targets.push(
                        Target {
                            url: s.readme_url_of(repositories[i].as_str()),
                            fallback: Some(s.fallback_readme_url_of(repositories[i].as_str())),
                        },
                    );
                    i += 1;
                }
                assert(target_views(targets@) =~= self.target_list());
                targets
            },
            Scraper::BetaList(s) => plain_targets(s.page_urls()),
        }
    }

    /// The request for the page at `url`.
    pub fn page_request(&self, url: &str) -> (request: HttpRequest)
        ensures
            self.is_page_request(request, url@),
    {
        match self {
            Scraper::GitHubAwesome(s) => s.base.readme_request(url),
            _ => HttpRequest {
                url: String::from_str(url),
                accept: None,
                authorization: None,
                user_agent: None,
            },
        }
    }

    /// The records that a reply to the request for `url` yields; an error where
    /// the request or the parsing failed.
    pub fn records_of_reply(&self, url: &str, reply: Reply<String>) -> (r: Result<
        Vec<ScrapedData>,
        ScrapingError,
    >)
        ensures
            match self.records_for(reply) {
                Some(records) => r matches Ok(found) && record_views(found@) == records,
                None => r is Err,
            },
            r matches Ok(found) ==> all_named(record_views(found@)),
    {
        match self {
            Scraper::YCombinator(s) => s.records_of_reply(url, reply),
            Scraper::GitHubAwesome(s) => s.records_of_reply(url, reply),
            Scraper::BetaList(s) => s.records_of_reply(url, reply),
        }
    }

    /// The provenance that the adapter gives a record.
    pub fn source_of(&self, data: &ScrapedData) -> (source: Source)
        ensures
            self.is_source_of(source, opt_view(data.website)),
    {
        match self {
            Scraper::YCombinator(_) => Source::YCombinator,
            Scraper::GitHubAwesome(s) => s.base.determine_source_from_url(&data.website),
            Scraper::BetaList(_) => Source::BetaList,
        }
    }
}

impl SourceScraper for Scraper {
    open spec fn name(&self) -> Seq<char> {
        match self {
            Scraper::YCombinator(s) => s.name(),
            Scraper::GitHubAwesome(s) => s.name(),
            Scraper::BetaList(s) => s.name(),
        }
    }

    open spec fn enabled(&self) -> bool {
        match self {
            Scraper::YCombinator(s) => s.enabled(),
            Scraper::GitHubAwesome(s) => s.enabled(),
            Scraper::BetaList(s) => s.enabled(),
        }
    }

    open spec fn estimate(&self) -> nat {
        match self {
            Scraper::YCombinator(s) => s.estimate(),
            Scraper::GitHubAwesome(s) => s.estimate(),
            Scraper::BetaList(s) => s.estimate(),
        }
    }

    fn source_name(&self) -> &'static str {
        match self {
            Scraper::YCombinator(s) => s.source_name(),
            Scraper::GitHubAwesome(s) => s.source_name(),
            Scraper::BetaList(s) => s.source_name(),
        }
    }

    fn is_enabled(&self) -> bool {
        match self {
            Scraper::YCombinator(s) => s.is_enabled(),
            Scraper::GitHubAwesome(s) => s.is_enabled(),
            Scraper::BetaList(s) => s.is_enabled(),
        }
    }

    fn expected_leads_count(&self) -> Option<usize> {
        match self {
            Scraper::YCombinator(s) => s.expected_leads_count(),
            Scraper::GitHubAwesome(s) => s.expected_leads_count(),
            Scraper::BetaList(s) => s.expected_leads_count(),
        }
    }
}

/// Whether `after` is `draft` with the best of the mined addresses as its mined
/// email, or `draft` itself where nothing was mined.
pub open spec fn is_enriched(after: Lead, draft: Lead, emails: Seq<Seq<char>>) -> bool {
    if emails.len() > 0 {
        after == (Lead { github_email: after.github_email, ..draft }) && opt_view(
            after.github_email,
        ) == Some(emails[0])
    } else {
        after == draft
    }
}

/// The addresses that a reply to the commits request yields.
pub open spec fn mined_from(reply: Reply<Vec<CommitRecord>>) -> Seq<Seq<char>> {
    match reply {
        Reply::Received(commits) => mined(commits@),
        _ => Seq::empty(),
    }
}

impl Session {
    /// Whether every record, every lead and the lead in the making has a name.
    pub open spec fn all_are_named(self) -> bool {
        &&& all_named(record_views(self.records@))
        &&& forall|i: int| 0 <= i < self.leads@.len() ==> (#[trigger] self.leads@[i]).wf()
        &&& self.draft matches Some(lead) ==> lead.wf()
    }

    /// The invariant of a run.
    pub open spec fn wf(self) -> bool {
        &&& self.all_are_named()
        &&& self.position <= self.targets@.len()
        &&& match self.stage {
            Stage::Ready => self.draft is None,
            Stage::Finished => self.draft is None && self.position == self.targets@.len(),
            Stage::AwaitPage => self.draft is None && self.position < self.targets@.len(),
            Stage::AwaitFallback => self.draft is None && self.position < self.targets@.len()
                && self.targets@[self.position as int].fallback is Some,
            Stage::Assembling => self.draft is None && self.position < self.targets@.len(),
            Stage::Pausing => self.draft is None && self.position < self.targets@.len(),
            Stage::AwaitRepoInfo { .. } => self.draft is Some && self.position
                < self.targets@.len(),
            Stage::AwaitCommits => self.draft is Some && self.position < self.targets@.len(),
        }
    }

    /// Whether `event` is what the run waits for.
    pub open spec fn expects(self, event: Event) -> bool {
        match self.stage {
            Stage::Ready => event is Go,
            Stage::Assembling => event is Go,
            Stage::Pausing => event is Go,
            Stage::AwaitPage => event is Page,
            Stage::AwaitFallback => event is Page,
            Stage::AwaitRepoInfo { .. } => event is RepoInfo,
            Stage::AwaitCommits => event is Commits,
            Stage::Finished => false,
        }
    }

    /// Whether the run takes up target `at` with `action`, or ends where there is
    /// no such target.
    pub open spec fn takes_up(self, at: int, action: Action, scraper: Scraper) -> bool {
        &&& self.position == at
        &&& if at < self.targets@.len() {
            &&& self.stage is AwaitPage
            &&& action matches Action::Fetch(request) && scraper.is_page_request(
                request,
                self.targets@[at].url@,
            )
        } else {
            self.stage is Finished && action is Finish
        }
    }

    /// Whether the run has given up the current page and pauses.
    pub open spec fn gives_up_page(self, pre: Session, action: Action, scraper: Scraper) -> bool {
        &&& self.stage is Pausing
        &&& self.position == pre.position
        &&& self.records == pre.records
        &&& action == if scraper.pause() > 0 {
            Action::Pause(scraper.pause())
        } else {
            Action::Continue
        }
    }

    /// What a step does, stage by stage. Targets are never changed, and finished
    /// leads are never changed or dropped.
    pub open spec fn follows(self, pre: Session, event: Event, action: Action, scraper: Scraper)
        -> bool {
        &&& self.targets == pre.targets
        &&& match pre.stage {
            Stage::Ready => {
                &&& self.leads == pre.leads
                &&& self.records == pre.records
                &&& self.draft is None
                &&& self.takes_up(pre.position as int, action, scraper)
            },
            Stage::Pausing => {
                &&& self.leads == pre.leads
                &&& self.records == pre.records
                &&& self.draft is None
                &&& self.takes_up(pre.position + 1, action, scraper)
            },
            Stage::AwaitPage => {
                &&& self.leads == pre.leads
                &&& self.draft is None
                &&& event matches Event::Page(reply) && match scraper.records_for(reply) {
                    Some(records) => {
                        &&& self.stage is Assembling
                        &&& self.position == pre.position
                        &&& record_views(self.records@) == records
                        &&& action is Continue
                    },
                    None => match pre.targets@[pre.position as int].fallback {
                        Some(second) => {
                            &&& self.stage is AwaitFallback
                            &&& self.position == pre.position
                            &&& self.records == pre.records
                            &&& action matches Action::Fetch(request) && scraper.is_page_request(
                                request,
                                second@,
                            )
                        },
                        None => self.gives_up_page(pre, action, scraper),
                    },
                }
            },
            Stage::AwaitFallback => {
                &&& self.leads == pre.leads
                &&& self.draft is None
                &&& event matches Event::Page(reply) && match scraper.records_for(reply) {
                    Some(records) => {
                        &&& self.stage is Assembling
                        &&& self.position == pre.position
                        &&& record_views(self.records@) == records
                        &&& action is Continue
                    },
                    None => self.gives_up_page(pre, action, scraper),
                }
            },
            Stage::Assembling => {
                if pre.records@.len() == 0 {
                    &&& self.leads == pre.leads
                    &&& self.draft is None
                    &&& self.gives_up_page(pre, action, scraper)
                } else {
                    let data = pre.records@[0];
                    let website = opt_view(data.website);
                    let repository = match host_of(website) {
                        Some(host) => if is_code_host(host) {
                            repo_path_of(website->0)
                        } else {
                            None
                        },
                        None => None,
                    };
                    &&& self.position == pre.position
                    &&& self.records@ == pre.records@.remove(0)
                    &&& match repository {
                        Some(path) => {
                            &&& self.leads == pre.leads
                            &&& self.stage matches Stage::AwaitRepoInfo { repo_path } && repo_path@
                                == path
                            &&& self.draft matches Some(lead) && is_draft_of(
                                lead,
                                data,
                                lead.source,
                                scraper.base().extractor,
                            ) && scraper.is_source_of(lead.source, website)
                            &&& action matches Action::FetchRepoInfo(request) && is_api_request(
                                request,
                                repo_info_url(path),
                                scraper.base().extractor.token(),
                            )
                        },
                        None => {
                            &&& self.stage is Assembling
                            &&& self.draft is None
                            &&& self.leads@.len() == pre.leads@.len() + 1
                            &&& self.leads@.drop_last() == pre.leads@
                            &&& is_draft_of(
                                self.leads@.last(),
                                data,
                                self.leads@.last().source,
                                scraper.base().extractor,
                            )
                            &&& scraper.is_source_of(self.leads@.last().source, website)
                            &&& action is Continue
                        },
                    }
                }
            },
            Stage::AwaitRepoInfo { repo_path } => {
                &&& self.position == pre.position
                &&& self.records == pre.records
                &&& event matches Event::RepoInfo(reply) && match reply {
                    Reply::Received(info) if !info.fork => {
                        &&& self.leads == pre.leads
                        &&& self.stage is AwaitCommits
                        &&& self.draft == pre.draft
                        &&& action matches Action::FetchCommits(request) && is_api_request(
                            request,
                            commits_url(repo_path@, info.default_branch@),
                            scraper.base().extractor.token(),
                        )
                    },
                    _ => {
                        &&& self.stage is Assembling
                        &&& self.draft is None
                        &&& self.leads@ == pre.leads@.push(pre.draft->0)
                        &&& action is Continue
                    },
                }
            },
            Stage::AwaitCommits => {
                &&& self.position == pre.position
                &&& self.records == pre.records
                &&& self.stage is Assembling
                &&& self.draft is None
                &&& action is Continue
                &&& event matches Event::Commits(reply) && {
                    &&& self.leads@.len() == pre.leads@.len() + 1
                    &&& self.leads@.drop_last() == pre.leads@
                    &&& is_enriched(self.leads@.last(), pre.draft->0, mined_from(reply))
                }
            },
            Stage::Finished => false,
        }
    }

    /// The run of `scraper` before its first step: at its first target, with no
    /// leads.
    pub fn begin(scraper: &Scraper) -> (session: Session)
        ensures
            session.wf(),
            session.stage is Ready,
            session.position == 0,
            target_views(session.targets@) == scraper.target_list(),
            session.records@.len() == 0,
            session.leads@.len() == 0,
    {
        Session {
            targets: scraper.targets(),
            position: 0,
            stage: Stage::Ready,
            records: Vec::new(),
            draft: None,
            leads: Vec::new(),
        }
    }

    /// Takes up target `at`, or ends the run where there is none.
    fn take_up(self, at: usize, scraper: &Scraper) -> (out: (Session, Action))
        requires
            at <= self.targets@.len(),
            self.draft is None,
            self.all_are_named(),
        ensures
            out.0.wf(),
            out.0.targets == self.targets,
            out.0.leads == self.leads,
            out.0.records == self.records,
            out.0.draft is None,
            out.0.takes_up(at as int, out.1, *scraper),
    {
        let mut next = self;
        next.position = at;
        if at < next.targets.len() {
            let request = scraper.page_request(next.targets[at].url.as_str());
            next.stage = Stage::AwaitPage;
            (next, Action::Fetch(request))
        } else {
            next.stage = Stage::Finished;
            (next, Action::Finish)
        }
    }

    /// Gives up the current page and pauses.
    fn give_up_page(self, scraper: &Scraper) -> (out: (Session, Action))
        requires
            self.position < self.targets@.len(),
            self.draft is None,
            self.all_are_named(),
        ensures
            out.0.wf(),
            out.0.targets == self.targets,
            out.0.leads == self.leads,
            out.0.draft is None,
            out.0.gives_up_page(self, out.1, *scraper),
    {
        let mut next = self;
        next.stage = Stage::Pausing;
        let action = match scraper.base_ref().rate_limit(scraper.pause_millis()) {
            Some(millis) => Action::Pause(millis),
            None => Action::Continue,
        };
        (next, action)
    }

    /// Takes the finished lead into the run and goes on with the records.
    fn keep(self, lead: Lead) -> (out: Session)
        requires
            self.position < self.targets@.len(),
            lead.wf(),
            all_named(record_views(self.records@)),
            forall|i: int| 0 <= i < self.leads@.len() ==> (#[trigger] self.leads@[i]).wf(),
        ensures
            out.wf(),
            out.targets == self.targets,
            out.position == self.position,
            out.records == self.records,
            out.stage is Assembling,
            out.draft is None,
            out.leads@ == self.leads@.push(lead),
    {
        let mut next = self;
        next.leads.push(lead);
        next.draft = None;
        next.stage = Stage::Assembling;
        next
    }

    /// One step of the run: `event` is what the last action brought back.
    #[verifier::rlimit(60)]
    pub fn step(self, scraper: &Scraper, event: Event) -> (out: (Session, Action))
        requires
            self.wf(),
            self.expects(event),
        ensures
            out.0.wf(),
            out.0.follows(self, event, out.1, *scraper),
    {
        let Session { targets, position, stage, records, draft, leads } = self;
        let mut run = Session { targets, position, stage: Stage::Ready, records, draft, leads };
        match stage {
            Stage::Ready => {
                let at = run.position;
                run.take_up(at, scraper)
            },
            Stage::Pausing => {
                let count = run.targets.len();
                assert(run.position < count);
                let at = run.position + 1;
                run.take_up(at, scraper)
            },
            Stage::AwaitPage => {
                let reply = match event {
                    Event::Page(reply) => reply,
                    _ => {
                        assert(false);
                        return (run, Action::Finish);
                    },
                };
                let at = run.position;
                match scraper.records_of_reply(run.targets[at].url.as_str(), reply) {
                    Ok(records) => {
                        run.records = records;
                        run.stage = Stage::Assembling;
                        (run, Action::Continue)
                    },
                    Err(_) => {
                        let second = match &run.targets[at].fallback {
                            Some(second) => Some(scraper.page_request(second.as_str())),
                            None => None,
                        };
                        match second {
                            Some(request) => {
                                run.stage = Stage::AwaitFallback;
                                (run, Action::Fetch(request))
                            },
                            None => run.give_up_page(scraper),
                        }
                    },
                }
            },
            Stage::AwaitFallback => {
                let reply = match event {
                    Event::Page(reply) => reply,
                    _ => {
                        assert(false);
                        return (run, Action::Finish);
                    },
                };
                let at = run.position;
                let url = match &run.targets[at].fallback {
                    Some(second) => second.clone(),
                    None => {
                        assert(false);
                        return (run, Action::Finish);
                    },
                };
                match scraper.records_of_reply(url.as_str(), reply) {
                    Ok(records) => {
                        run.records = records;
                        run.stage = Stage::Assembling;
                        (run, Action::Continue)
                    },
                    Err(_) => run.give_up_page(scraper),
                }
            },
            Stage::Assembling => {
                if run.records.len() == 0 {
                    return run.give_up_page(scraper);
                }
                let ghost before = run.records@;
                let data = run.records.remove(0);
                proof {
                    assert(record_views(before)[0] == data@);
                    assert forall|i: int| 0 <= i < run.records@.len() implies (
                    #[trigger] record_views(run.records@)[i]).name.len() > 0 by {
                        assert(record_views(run.records@)[i] == record_views(before)[i + 1]);
                    }
                }
                let source = scraper.source_of(&data);
                let (lead, mining) = scraper.base_ref().create_lead_from_scraped_data(
                    data,
                    source,
                );
                match mining {
                    Mining::NeedRepoInfo { repo_path, request } => {
                        run.draft = Some(lead);
                        run.stage = Stage::AwaitRepoInfo { repo_path };
                        (run, Action::FetchRepoInfo(request))
                    },
                    Mining::NeedCommits { request } => {
                        assert(false);
                        (run, Action::Finish)
                    },
                    Mining::Done { emails } => {
                        let ghost before = run.leads@;
                        let next = run.keep(lead);
                        assert(before.push(lead).drop_last() =~= before);
                        (next, Action::Continue)
                    },
                }
            },
            Stage::AwaitRepoInfo { repo_path } => {
                let reply = match event {
                    Event::RepoInfo(reply) => reply,
                    _ => {
                        assert(false);
                        return (run, Action::Finish);
                    },
                };
                let rules = &scraper.base_ref().extractor;
                let info = rules.repo_info_result(reply);
                match rules.on_repo_info(repo_path.as_str(), info) {
                    Mining::NeedCommits { request } => {
                        run.stage = Stage::AwaitCommits;
                        (run, Action::FetchCommits(request))
                    },
                    _ => {
                        let lead = match run.draft.take() {
                            Some(lead) => lead,
                            None => {
                                assert(false);
                                return (run, Action::Finish);
                            },
                        };
                        (run.keep(lead), Action::Continue)
                    },
                }
            },
            Stage::AwaitCommits => {
                let reply = match event {
                    Event::Commits(reply) => reply,
                    _ => {
                        assert(false);
                        return (run, Action::Finish);
                    },
                };
                let rules = &scraper.base_ref().extractor;
                let commits = rules.commits_result(reply);
                let emails = match rules.on_commits(commits) {
                    Mining::Done { emails } => emails,
                    _ => {
                        assert(false);
                        return (run, Action::Finish);
                    },
                };
                let draft = match run.draft.take() {
                    Some(lead) => lead,
                    None => {
                        assert(false);
                        return (run, Action::Finish);
                    },
                };
                let ghost before = run.leads@;
                let ghost views = string_views(emails@);
                let lead = scraper.base_ref().attach_commit_emails(draft, emails);
                let next = run.keep(lead);
                proof {
                    assert(before.push(lead).drop_last() =~= before);
                    assert(mined(Seq::<CommitRecord>::empty()) =~= Seq::<Seq<char>>::empty()) by {
                        reveal(Seq::filter);
                        assert(crate::commits::addresses_of(Seq::<CommitRecord>::empty())
                            =~= Seq::<Seq<char>>::empty());
                    }
                    if views.len() > 0 {
                        assert(views[0] == emails@[0]@);
                    }
                }
                (next, Action::Continue)
            },
            Stage::Finished => {
                assert(false);
                (run, Action::Finish)
            },
        }
    }
}

/// A step never changes or drops a finished lead: the leads before a step are
/// the first leads after it, in the same order.
pub proof fn lemma_step_keeps_leads(
    pre: Session,
    event: Event,
    post: Session,
    action: Action,
    scraper: Scraper,
)
    requires
        pre.wf(),
        post.follows(pre, event, action, scraper),
    ensures
        pre.leads@.len() <= post.leads@.len(),
        post.leads@.take(pre.leads@.len() as int) == pre.leads@,
        post.position >= pre.position,
{
    match pre.stage {
        Stage::Assembling => {
            if pre.records@.len() > 0 {
                assert(post.leads@.take(pre.leads@.len() as int) =~= pre.leads@) by {
                    if post.leads != pre.leads {
                        assert(post.leads@.drop_last() == pre.leads@);
                    }
                }
            } else {
                assert(post.leads@.take(pre.leads@.len() as int) =~= pre.leads@);
            }
        },
        Stage::AwaitCommits => {
            assert(post.leads@.drop_last() == pre.leads@);
            assert(post.leads@.take(pre.leads@.len() as int) =~= pre.leads@);
        },
        _ => {
            assert(post.leads@.take(pre.leads@.len() as int) =~= pre.leads@);
        },
    }
}

/// A page request that fails adds no lead and loses none: the run tries the
/// second address where the target has one, and else pauses and moves on.
pub proof fn lemma_failed_page_is_passed_over(
    pre: Session,
    reply: Reply<String>,
    post: Session,
    action: Action,
    scraper: Scraper,
)
    requires
        pre.wf(),
        pre.stage is AwaitPage || pre.stage is AwaitFallback,
        scraper.records_for(reply) is None,
        post.follows(pre, Event::Page(reply), action, scraper),
    ensures
        post.leads == pre.leads,
        post.stage is Pausing || post.stage is AwaitFallback,
        !(action is Finish),
{
}

/// Targets without a second address.
fn plain_targets(urls: Vec<String>) -> (targets: Vec<Target>)
    ensures
        target_views(targets@) == string_views(urls@).map_values(
            |u: Seq<char>| TargetView { url: u, fallback: None },
        ),
{
    let mut targets: Vec<Target> = Vec::new();
    let mut i: usize = 0;
    while i < urls.len()
        invariant
            i <= urls.len(),
            targets@.len() == i,
            forall|j: int|
                0 <= j < i ==> (#[trigger] targets@[j])@ == (TargetView {
                    url: urls@[j]@,
                    fallback: None,
                }),
        decreases urls.len() - i,
    {
        targets.push(Target { url: urls[i].clone(), fallback: None });
        i += 1;
    }
    assert(target_views(targets@) =~= string_views(urls@).map_values(
        |u: Seq<char>| TargetView { url: u, fallback: None },
    ));
    targets
}

} // verus!
