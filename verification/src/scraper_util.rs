//! The orchestrator: it runs the enabled adapters in their fixed order, keeps what
//! each of them brings, passes over one that fails, and splits the result into
//! contactable leads and leads for research.

use crate::config::Config;
use crate::errors::ScrapingError;
use crate::extractors::{table_view, DataExtractor};
use crate::models::Lead;
use crate::pattern::pattern_compiles;
use crate::scrapers::session::Scraper;
use crate::scrapers::{create_scrapers, enables, is_configured, rank, SourceScraper};
use crate::stats::{
    is_countries_breakdown,
    is_email_breakdown,
    is_sources_breakdown,
    leads_of,
    LeadStats,
};
use crate::text::{lemma_begins_with_prefix, opt_view, starts_with, string_views};
use vstd::prelude::*;
use vstd::string::StringExecFns;

verus! {

/// The engine, constructed once from the configuration.
pub struct LeadScraper {
    pub config: Config,
    pub extractor: DataExtractor,
}

/// A source that failed as a whole, for the log.
pub struct Failure {
    pub source: String,
    pub error: ScrapingError,
}

/// The run over all enabled sources.
pub struct Aggregation {
    /// The adapters of the enabled sources, in the order in which they run.
    pub scrapers: Vec<Scraper>,
    /// The index of the adapter that runs next.
    pub position: usize,
    /// The leads of the adapters that have run, in that order.
    pub leads: Vec<Lead>,
    /// The adapters that failed.
    pub failures: Vec<Failure>,
}

/// What the files of an export are to hold.
pub struct Export<'a> {
    pub contactable: Vec<&'a Lead>,
    pub research: Vec<&'a Lead>,
    pub stats: LeadStats,
}

/// Where the files of an export go.
pub struct ExportPaths {
    pub contactable: String,
    pub research: String,
    pub stats: String,
    pub all: String,
}

/// What the outcome of one adapter adds to the leads of the run: its leads, or
/// nothing where it failed.
pub open spec fn contribution(outcome: Result<Vec<Lead>, ScrapingError>) -> Seq<Lead> {
    match outcome {
        Ok(found) => found@,
        Err(_) => Seq::empty(),
    }
}

/// The leads of a run whose adapters ended with `outcomes`, in order.
pub open spec fn gathered(outcomes: Seq<Result<Vec<Lead>, ScrapingError>>) -> Seq<Lead>
    decreases outcomes.len(),
{
    if outcomes.len() == 0 {
        Seq::empty()
    } else {
        gathered(outcomes.drop_last()) + contribution(outcomes.last())
    }
}

/// The condition of having a direct or a mined email.
pub open spec fn is_contactable() -> spec_fn(Lead) -> bool {
    |l: Lead| l.contactable()
}

/// The condition of having neither a direct nor a mined email.
pub open spec fn is_research() -> spec_fn(Lead) -> bool {
    |l: Lead| !l.contactable()
}

/// Whether every pattern of the configuration compiles.
pub open spec fn patterns_compile(config: Config) -> bool {
    &&& pattern_compiles(config.patterns.email.mailto@)
    &&& pattern_compiles(config.patterns.email.generic@)
    &&& forall|i: int|
        0 <= i < config.patterns.location.country_indicators@.len() ==> pattern_compiles(
            #[trigger] config.patterns.location.country_indicators@[i]@,
        )
}

impl LeadScraper {
    /// The engine for `config`. Fails with an extraction error exactly where a
    /// configured pattern does not compile.
    pub fn new(config: Config) -> (r: Result<LeadScraper, ScrapingError>)
        ensures
            r is Ok <==> patterns_compile(config),
            r matches Ok(engine) ==> engine.config == config && engine.extractor.token()
                == opt_view(config.scraper.github_token) && engine.extractor.mailto()
                == config.patterns.email.mailto@ && engine.extractor.generic()
                == config.patterns.email.generic@ && engine.extractor.indicators() == string_views(
                config.patterns.location.country_indicators@,
            ) && engine.extractor.suffixes() == table_view(config.patterns.tld_mapping@),
            r matches Err(e) ==> e matches ScrapingError::ExtractionError(m) && starts_with(
                m@,
                "Failed to initialize data extractor: "@,
            ),
    {
        let token = match &config.scraper.github_token {
            Some(t) => Some(t.clone()),
            None => None,
        };
        match DataExtractor::new(&config.patterns, token) {
            Ok(extractor) => Ok(LeadScraper { config, extractor }),
            Err(e) => {
                let why = e.to_text();
                proof {
                    lemma_begins_with_prefix("Failed to initialize data extractor: "@, why@);
                }
                Err(
                    ScrapingError::ExtractionError(
                        String::from_str("Failed to initialize data extractor: ").concat(
                            why.as_str(),
                        ),
                    ),
                )
            },
        }
    }

    /// The run over all enabled sources, before its first adapter.
    pub fn scrape_all_sources(&self) -> (run: Aggregation)
        ensures
            run.wf(),
            run.position == 0,
            run.leads@.len() == 0,
            run.failures@.len() == 0,
            forall|i: int|
                0 <= i < run.scrapers@.len() ==> is_configured(
                    #[trigger] run.scrapers@[i],
                    self.config,
                    self.extractor,
                ) && enables(self.config, rank(run.scrapers@[i])),
            forall|i: int, j: int|
                0 <= i < j < run.scrapers@.len() ==> rank(#[trigger] run.scrapers@[i]) < rank(
                    #[trigger] run.scrapers@[j],
                ),
            forall|r: int|
                0 <= r <= 2 && enables(self.config, r) ==> exists|i: int|
                    0 <= i < run.scrapers@.len() && rank(#[trigger] run.scrapers@[i]) == r,
    {
        Aggregation {
            scrapers: create_scrapers(&self.config, &self.extractor),
            position: 0,
            leads: Vec::new(),
            failures: Vec::new(),
        }
    }

    /// What an export of `leads` holds: the contactable leads, the leads for
    /// research, each in the given order, and the statistics of both.
    pub fn save_leads<'a>(&self, leads: &'a [Lead]) -> (export: Export<'a>)
        ensures
            leads_of(export.contactable@) == leads@.filter(is_contactable()),
            leads_of(export.research@) == leads@.filter(is_research()),
            export.stats.total_leads == leads@.len(),
            export.stats.contactable_leads == export.contactable@.len(),
            export.stats.research_leads == export.research@.len(),
            is_sources_breakdown(
                export.stats.sources_breakdown@,
                leads@.filter(is_contactable()) + leads@.filter(is_research()),
            ),
            is_countries_breakdown(
                export.stats.countries_breakdown@,
                leads@.filter(is_contactable()) + leads@.filter(is_research()),
            ),
            is_email_breakdown(
                export.stats.email_types,
                leads@.filter(is_contactable()) + leads@.filter(is_research()),
            ),
    {
        let mut contactable: Vec<&'a Lead> = Vec::new();
        let mut research: Vec<&'a Lead> = Vec::new();
        let mut i: usize = 0;
        proof {
            reveal(Seq::filter);
            assert(leads@.take(0) =~= Seq::<Lead>::empty());
            assert(leads_of(contactable@) =~= Seq::<Lead>::empty());
            assert(leads_of(research@) =~= Seq::<Lead>::empty());
        }
        while i < leads.len()
            invariant
                i <= leads.len(),
                leads_of(contactable@) == leads@.take(i as int).filter(is_contactable()),
                leads_of(research@) == leads@.take(i as int).filter(is_research()),
                contactable@.len() + research@.len() == i,
            decreases leads.len() - i,
        {
            let lead = &leads[i];
            let ghost c = leads_of(contactable@);
            let ghost r = leads_of(research@);
            proof {
                assert(leads@.take(i + 1) =~= leads@.take(i as int).push(*lead));
                leads@.take(i as int).lemma_filter_push(*lead, is_contactable());
                leads@.take(i as int).lemma_filter_push(*lead, is_research());
            }
            if lead.has_contact() {
                contactable.push(lead);
                assert(leads_of(contactable@) =~= c.push(*lead));
            } else {
                research.push(lead);
                assert(leads_of(research@) =~= r.push(*lead));
            }
            i += 1;
        }
        proof {
            assert(leads@.take(leads.len() as int) =~= leads@);
            assert(leads_of(contactable@ + research@) =~= leads_of(contactable@) + leads_of(
                research@,
            ));
        }
        let stats = LeadStats::new(contactable.as_slice(), research.as_slice());
        Export { contactable, research, stats }
    }

    /// The files of an export below `output_path`.
    pub fn export_paths(&self, output_path: &str) -> (paths: ExportPaths)
        ensures
            paths.contactable@ == output_path@ + "/contactable_leads.json"@,
            paths.research@ == output_path@ + "/research_leads.json"@,
            paths.stats@ == output_path@ + "/stats.json"@,
            paths.all@ == output_path@ + "/all_leads.json"@,
    {
        ExportPaths {
            contactable: String::from_str(output_path).concat("/contactable_leads.json"),
            research: String::from_str(output_path).concat("/research_leads.json"),
            stats: String::from_str(output_path).concat("/stats.json"),
            all: String::from_str(output_path).concat("/all_leads.json"),
        }
    }
}

impl Aggregation {
    /// The invariant of a run.
    pub open spec fn wf(self) -> bool {
        self.position <= self.scrapers@.len()
    }

    /// Whether this run is what recording `outcome` makes of the run `pre`: the
    /// adapters are the same, the next one is up, and the leads are those of
    /// `pre` followed by what the outcome adds.
    pub open spec fn follows(self, pre: Aggregation, outcome: Result<Vec<Lead>, ScrapingError>)
        -> bool {
        &&& self.scrapers == pre.scrapers
        &&& self.position == pre.position + 1
        &&& self.leads@ == pre.leads@ + contribution(outcome)
    }

    /// Whether every adapter has run.
    pub fn is_finished(&self) -> (done: bool)
        requires
            self.wf(),
        ensures
            done == (self.position == self.scrapers@.len()),
    {
        self.position >= self.scrapers.len()
    }

    /// The adapter that runs next, if one is left.
    pub fn current(&self) -> (next: Option<&Scraper>)
        requires
            self.wf(),
        ensures
            match next {
                Some(s) => self.position < self.scrapers@.len() && *s
                    == self.scrapers@[self.position as int],
                None => self.position == self.scrapers@.len(),
            },
    {
        if self.position < self.scrapers.len() {
            Some(&self.scrapers[self.position])
        } else {
            None
        }
    }

    /// Takes in the outcome of the adapter that ran: its leads are appended, and
    /// a failure is noted and adds nothing. Either way the next adapter is up.
    pub fn record(self, outcome: Result<Vec<Lead>, ScrapingError>) -> (run: Aggregation)
        requires
            self.wf(),
            self.position < self.scrapers@.len(),
        ensures
            run.wf(),
            run.follows(self, outcome),
            match outcome {
                Ok(_) => run.failures == self.failures,
                Err(e) => run.failures@.len() == self.failures@.len() + 1 && run.failures@.last().error
                    == e && run.failures@.last().source@ == self.scrapers@[self.position as int].name()
                    && run.failures@.drop_last() == self.failures@,
            },
    {
        let mut run = self;
        let ghost before = run.leads@;
        match outcome {
            Ok(found) => {
                let mut found = found;
                run.leads.append(&mut found);
            },
            Err(error) => {
                let source = String::from_str(run.scrapers[run.position].source_name());
                let ghost noted = run.failures@;
                run.failures.push(Failure { source, error });
                assert(run.failures@.drop_last() =~= noted);
                assert(before + Seq::<Lead>::empty() =~= before);
            },
        }
        let count = run.scrapers.len();
        assert(run.position < count);
        run.position = run.position + 1;
        run
    }

    /// The leads of the run. A run never fails as a whole.
    pub fn finish(self) -> (r: Result<Vec<Lead>, ScrapingError>)
        ensures
            r == Ok::<Vec<Lead>, ScrapingError>(self.leads),
    {
        Ok(self.leads)
    }
}

/// The leads of a run are gathered from the outcomes of its adapters: where
/// `runs` are the states of a run that began without leads, each made of the one
/// before by recording the outcome of the same index, the leads of the last state
/// are the leads of the outcomes that succeeded, in order.
pub proof fn lemma_run_gathers(
    runs: Seq<Aggregation>,
    outcomes: Seq<Result<Vec<Lead>, ScrapingError>>,
)
    requires
        runs.len() == outcomes.len() + 1,
        runs[0].leads@.len() == 0,
        forall|i: int|
            0 <= i < outcomes.len() ==> runs[i + 1].follows(runs[i], #[trigger] outcomes[i]),
    ensures
        runs.last().leads@ == gathered(outcomes),
        runs.last().position == runs[0].position + outcomes.len(),
        runs.last().scrapers == runs[0].scrapers,
    decreases outcomes.len(),
{
    if outcomes.len() == 0 {
        assert(runs.last().leads@ =~= gathered(outcomes));
    } else {
        let n = outcomes.len() as int;
        lemma_run_gathers(runs.drop_last(), outcomes.drop_last());
        assert(runs.drop_last().last() == runs[n - 1]);
        assert(runs[n].follows(runs[n - 1], outcomes[n - 1]));
    }
}

/// A source that fails adds nothing and takes nothing away: the leads of a run
/// are those of its other sources.
pub proof fn lemma_failure_adds_nothing(
    before: Seq<Result<Vec<Lead>, ScrapingError>>,
    error: ScrapingError,
    after: Seq<Result<Vec<Lead>, ScrapingError>>,
)
    ensures
        gathered(before + seq![Err(error)] + after) == gathered(before + after),
    decreases after.len(),
{
    let failed: Result<Vec<Lead>, ScrapingError> = Err(error);
    if after.len() == 0 {
        assert(before + seq![failed] + after =~= before.push(failed));
        assert(before.push(failed).drop_last() =~= before);
        assert(before + after =~= before);
        assert(gathered(before) + Seq::<Lead>::empty() =~= gathered(before));
    } else {
        lemma_failure_adds_nothing(before, error, after.drop_last());
        assert((before + seq![failed] + after).drop_last() =~= before + seq![failed]
            + after.drop_last());
        assert((before + after).drop_last() =~= before + after.drop_last());
    }
}

/// With one source that fails and one that brings leads, the run has exactly the
/// leads of the latter, whichever of the two runs first.
pub proof fn lemma_one_failure_one_success(error: ScrapingError, found: Vec<Lead>)
    ensures
        gathered(seq![Err(error), Ok(found)]) == found@,
        gathered(seq![Ok(found), Err(error)]) == found@,
{
    let failed: Result<Vec<Lead>, ScrapingError> = Err(error);
    let good: Result<Vec<Lead>, ScrapingError> = Ok(found);
    let none = Seq::<Result<Vec<Lead>, ScrapingError>>::empty();
    assert(seq![failed, good].drop_last() =~= seq![failed]);
    assert(seq![failed].drop_last() =~= none);
    assert(seq![good, failed].drop_last() =~= seq![good]);
    assert(seq![good].drop_last() =~= none);
    assert(gathered(none) =~= Seq::<Lead>::empty());
    assert(gathered(seq![failed]) =~= Seq::<Lead>::empty());
    assert(gathered(seq![good]) =~= found@);
    assert(gathered(seq![failed, good]) =~= found@);
    assert(gathered(seq![good, failed]) =~= found@);
}

} // verus!
