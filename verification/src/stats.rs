//! Aggregate statistics over a finished collection of leads.

use crate::clock::now_millis;
use crate::models::Lead;
use crate::text::{distinct, lemma_distinct};
use vstd::prelude::*;

verus! {

/// Counts for one source bucket.
#[derive(Debug, Clone)]
pub struct SourceStats {
    pub name: String,
    pub total: usize,
    pub with_contact: usize,
}

/// Number of leads of one country.
#[derive(Debug, Clone)]
pub struct CountryStats {
    pub country: String,
    pub leads: usize,
}

/// Leads by the kind of email they carry.
#[derive(Debug, Clone, Copy, PartialEq, Eq)]
pub struct EmailTypeStats {
    pub direct_emails: usize,
    pub github_emails: usize,
    pub no_emails: usize,
}

/// What a run was configured with, for the record of the run.
#[derive(Debug, Clone)]
pub struct ConfigSummary {
    pub enabled_sources: Vec<String>,
    pub timeout_seconds: u64,
    pub github_token_configured: bool,
}

/// Statistics of one run, computed once from the whole collection.
#[derive(Debug, Clone)]
pub struct LeadStats {
    pub total_leads: usize,
    pub contactable_leads: usize,
    pub research_leads: usize,
    pub sources_breakdown: Vec<SourceStats>,
    pub countries_breakdown: Vec<CountryStats>,
    pub email_types: EmailTypeStats,
    /// Milliseconds since the Unix epoch.
    pub generated_at: i64,
}

/// The condition of being counted in the bucket `name`.
pub open spec fn in_bucket(name: Seq<char>) -> spec_fn(Lead) -> bool {
    |l: Lead| l.source.bucket() == name
}

/// The condition of being counted in the bucket `name` and contactable.
pub open spec fn contactable_in_bucket(name: Seq<char>) -> spec_fn(Lead) -> bool {
    |l: Lead| l.source.bucket() == name && l.contactable()
}

/// The condition of being of the country `country`.
pub open spec fn in_country(country: Seq<char>) -> spec_fn(Lead) -> bool {
    |l: Lead| l.country is Some && l.country->0@ == country
}

/// The condition of having a country.
pub open spec fn has_country() -> spec_fn(Lead) -> bool {
    |l: Lead| l.country is Some
}

/// The condition of having a direct email.
pub open spec fn has_direct_email() -> spec_fn(Lead) -> bool {
    |l: Lead| l.email is Some
}

/// The condition of having a mined email and no direct one.
pub open spec fn has_only_mined_email() -> spec_fn(Lead) -> bool {
    |l: Lead| l.email is None && l.github_email is Some
}

/// The condition of having no email of either kind.
pub open spec fn has_no_email() -> spec_fn(Lead) -> bool {
    |l: Lead| l.email is None && l.github_email is None
}

/// The bucket name of each lead, in order.
pub open spec fn bucket_names(leads: Seq<Lead>) -> Seq<Seq<char>> {
    leads.map_values(|l: Lead| l.source.bucket())
}

/// The country of each lead that has one, in order.
pub open spec fn country_names(leads: Seq<Lead>) -> Seq<Seq<char>> {
    leads.filter(has_country()).map_values(|l: Lead| l.country->0@)
}

/// The leads behind a list of references.
pub open spec fn leads_of(refs: Seq<&Lead>) -> Seq<Lead> {
    refs.map_values(|l: &Lead| *l)
}

/// Whether `entries` is the per-source breakdown of `leads`: one entry per bucket
/// in order of first appearance, with the number of leads in the bucket and the
/// number of those that are contactable.
pub open spec fn is_sources_breakdown(entries: Seq<SourceStats>, leads: Seq<Lead>) -> bool {
    &&& entries.map_values(|e: SourceStats| e.name@) == distinct(bucket_names(leads))
    &&& forall|i: int|
        0 <= i < entries.len() ==> {
            &&& (#[trigger] entries[i]).total == leads.filter(in_bucket(entries[i].name@)).len()
            &&& entries[i].with_contact == leads.filter(
                contactable_in_bucket(entries[i].name@),
            ).len()
        }
}

/// Whether `entries` is the per-country breakdown of `leads`: one entry per country
/// in order of first appearance, with the number of leads of that country.
pub open spec fn is_countries_breakdown(entries: Seq<CountryStats>, leads: Seq<Lead>) -> bool {
    &&& entries.map_values(|e: CountryStats| e.country@) == distinct(country_names(leads))
    &&& forall|i: int|
        0 <= i < entries.len() ==> (#[trigger] entries[i]).leads == leads.filter(
            in_country(entries[i].country@),
        ).len()
}

/// Whether `counts` classifies `leads` by email kind.
pub open spec fn is_email_breakdown(counts: EmailTypeStats, leads: Seq<Lead>) -> bool {
    &&& counts.direct_emails == leads.filter(has_direct_email()).len()
    &&& counts.github_emails == leads.filter(has_only_mined_email()).len()
    &&& counts.no_emails == leads.filter(has_no_email()).len()
}

/// No element of `leads` meets `pred`: then filtering by it leaves nothing.
pub proof fn lemma_filter_none(leads: Seq<Lead>, pred: spec_fn(Lead) -> bool)
    requires
        forall|i: int| 0 <= i < leads.len() ==> !pred(leads[i]),
    ensures
        leads.filter(pred).len() == 0,
    decreases leads.len(),
{
    reveal(Seq::filter);
    if leads.len() > 0 {
        lemma_filter_none(leads.drop_last(), pred);
    }
}

/// The index of the entry named `key`, if there is one.
fn find_source(entries: &Vec<SourceStats>, key: &String) -> (at: Option<usize>)
    ensures
        match at {
            Some(i) => i < entries.len() && entries[i as int].name@ == key@,
            None => forall|j: int| 0 <= j < entries.len() ==> entries[j].name@ != key@,
        },
{
    let mut i: usize = 0;
    while i < entries.len()
        invariant
            i <= entries.len(),
            forall|j: int| 0 <= j < i ==> entries[j].name@ != key@,
        decreases entries.len() - i,
    {
        if entries[i].name == *key {
            return Some(i);
        }
        i += 1;
    }
    None
}

/// The index of the entry for `key`, if there is one.
fn find_country(entries: &Vec<CountryStats>, key: &String) -> (at: Option<usize>)
    ensures
        match at {
            Some(i) => i < entries.len() && entries[i as int].country@ == key@,
            None => forall|j: int| 0 <= j < entries.len() ==> entries[j].country@ != key@,
        },
{
    let mut i: usize = 0;
    while i < entries.len()
        invariant
            i <= entries.len(),
            forall|j: int| 0 <= j < i ==> entries[j].country@ != key@,
        decreases entries.len() - i,
    {
        if entries[i].country == *key {
            return Some(i);
        }
        i += 1;
    }
    None
}

/// Counts `lead` into the per-source breakdown.
fn count_source(entries: &mut Vec<SourceStats>, lead: &Lead, Ghost(seen): Ghost<Seq<Lead>>)
    requires
        is_sources_breakdown(old(entries)@, seen),
        seen.len() < usize::MAX,
    ensures
        is_sources_breakdown(final(entries)@, seen.push(*lead)),
{
    broadcast use Seq::lemma_filter_push, Seq::lemma_filter_len;

    let name = lead.source.bucket_name();
    let contact = lead.has_contact();
    let ghost keys = bucket_names(seen);
    let ghost after = seen.push(*lead);
    proof {
        lemma_distinct(keys);
        assert(bucket_names(after) =~= keys.push(name@));
        assert(bucket_names(after).drop_last() =~= keys);
    }
    let ghost names = entries@.map_values(|e: SourceStats| e.name@);
    match find_source(entries, &name) {
        Some(at) => {
            let total = entries[at].total;
            let with_contact = entries[at].with_contact;
            proof {
                assert(names[at as int] == name@);
                assert(distinct(keys).contains(name@));
            }
            entries.set(
                at,
                SourceStats {
                    name,
                    total: total + 1,
                    with_contact: if contact {
                        with_contact + 1
                    } else {
                        with_contact
                    },
                },
            );
            proof {
                assert(entries@.map_values(|e: SourceStats| e.name@) =~= names);
                assert forall|i: int| 0 <= i < entries.len() implies {
                    &&& (#[trigger] entries[i]).total == after.filter(
                        in_bucket(entries[i].name@),
                    ).len()
                    &&& entries[i].with_contact == after.filter(
                        contactable_in_bucket(entries[i].name@),
                    ).len()
                } by {
                    assert(old(entries)[i].name@ == names[i]);
                    if i != at {
                        assert(names[i] != names[at as int]);
                    }
                }
            }
        },
        None => {
            proof {
                assert(!names.contains(name@)) by {
                    if names.contains(name@) {
                        let j = choose|j: int| 0 <= j < names.len() && names[j] == name@;
                        assert(old(entries)[j].name@ == name@);
                    }
                }
                assert(!keys.contains(name@));
                assert forall|i: int| 0 <= i < seen.len() implies !in_bucket(name@)(seen[i]) by {
                    assert(keys[i] == seen[i].source.bucket());
                }
                lemma_filter_none(seen, in_bucket(name@));
                lemma_filter_none(seen, contactable_in_bucket(name@));
            }
            entries.push(
                SourceStats {
                    name,
                    total: 1,
                    with_contact: if contact {
                        1
                    } else {
                        0
                    },
                },
            );
            proof {
                assert(entries@.map_values(|e: SourceStats| e.name@) =~= names.push(name@));
                assert forall|i: int| 0 <= i < entries.len() implies {
                    &&& (#[trigger] entries[i]).total == after.filter(
                        in_bucket(entries[i].name@),
                    ).len()
                    &&& entries[i].with_contact == after.filter(
                        contactable_in_bucket(entries[i].name@),
                    ).len()
                } by {
                    if i < old(entries).len() {
                        assert(old(entries)[i].name@ == names[i]);
                        assert(names[i] != name@);
                    }
                }
            }
        },
    }
}

/// Counts `lead` into the per-country breakdown.
fn count_country(entries: &mut Vec<CountryStats>, lead: &Lead, Ghost(seen): Ghost<Seq<Lead>>)
    requires
        is_countries_breakdown(old(entries)@, seen),
        seen.len() < usize::MAX,
    ensures
        is_countries_breakdown(final(entries)@, seen.push(*lead)),
{
    broadcast use Seq::lemma_filter_push, Seq::lemma_filter_len;

    let ghost keys = country_names(seen);
    let ghost after = seen.push(*lead);
    let ghost names = entries@.map_values(|e: CountryStats| e.country@);
    match &lead.country {
        None => {
            proof {
                assert(country_names(after) == keys);
            }
        },
        Some(country) => {
            let name = country.clone();
            proof {
                lemma_distinct(keys);
                assert(after.filter(has_country()) == seen.filter(has_country()).push(*lead));
                assert(country_names(after) =~= keys.push(name@));
                assert(country_names(after).drop_last() =~= keys);
            }
            match find_country(entries, &name) {
                Some(at) => {
                    let leads = entries[at].leads;
                    proof {
                        assert(names[at as int] == name@);
                        assert(distinct(keys).contains(name@));
                    }
                    entries.set(at, CountryStats { country: name, leads: leads + 1 });
                    proof {
                        assert(entries@.map_values(|e: CountryStats| e.country@) =~= names);
                        assert forall|i: int| 0 <= i < entries.len() implies (
                        #[trigger] entries[i]).leads == after.filter(
                            in_country(entries[i].country@),
                        ).len() by {
                            assert(old(entries)[i].country@ == names[i]);
                            if i != at {
                                assert(names[i] != names[at as int]);
                            }
                        }
                    }
                },
                None => {
                    proof {
                        assert(!names.contains(name@)) by {
                            if names.contains(name@) {
                                let j = choose|j: int| 0 <= j < names.len() && names[j] == name@;
                                assert(old(entries)[j].country@ == name@);
                            }
                        }
                        assert(!keys.contains(name@));
                        let with = seen.filter(has_country());
                        assert forall|i: int| 0 <= i < seen.len() implies !in_country(name@)(
                            seen[i],
                        ) by {
                            if in_country(name@)(seen[i]) {
                                assert(has_country()(seen[i]));
                                seen.lemma_filter_contains(has_country(), i);
                                let j = choose|j: int| 0 <= j < with.len() && with[j] == seen[i];
                                assert(keys[j] == name@);
                            }
                        }
                        lemma_filter_none(seen, in_country(name@));
                    }
                    entries.push(CountryStats { country: name, leads: 1 });
                    proof {
                        assert(entries@.map_values(|e: CountryStats| e.country@) =~= names.push(
                            name@,
                        ));
                        assert forall|i: int| 0 <= i < entries.len() implies (
                        #[trigger] entries[i]).leads == after.filter(
                            in_country(entries[i].country@),
                        ).len() by {
                            if i < old(entries).len() {
                                assert(old(entries)[i].country@ == names[i]);
                                assert(names[i] != name@);
                            }
                        }
                    }
                },
            }
        },
    }
}

/// Counts `lead` by the kind of email it carries.
fn count_email(counts: EmailTypeStats, lead: &Lead, Ghost(seen): Ghost<Seq<Lead>>) -> (out:
    EmailTypeStats)
    requires
        is_email_breakdown(counts, seen),
        seen.len() < usize::MAX,
    ensures
        is_email_breakdown(out, seen.push(*lead)),
{
    broadcast use Seq::lemma_filter_push, Seq::lemma_filter_len;

    let mut out = counts;
    if lead.email.is_some() {
        out.direct_emails = out.direct_emails + 1;
    } else if lead.github_email.is_some() {
        out.github_emails = out.github_emails + 1;
    } else {
        out.no_emails = out.no_emails + 1;
    }
    out
}

impl LeadStats {
    /// The statistics of the leads of both partitions, the contactable ones first.
    pub fn new(contactable_leads: &[&Lead], research_leads: &[&Lead]) -> (stats: LeadStats)
        requires
            contactable_leads@.len() + research_leads@.len() <= usize::MAX,
        ensures
            stats.total_leads == contactable_leads@.len() + research_leads@.len(),
            stats.contactable_leads == contactable_leads@.len(),
            stats.research_leads == research_leads@.len(),
            is_sources_breakdown(
                stats.sources_breakdown@,
                leads_of(contactable_leads@ + research_leads@),
            ),
            is_countries_breakdown(
                stats.countries_breakdown@,
                leads_of(contactable_leads@ + research_leads@),
            ),
            is_email_breakdown(stats.email_types, leads_of(contactable_leads@ + research_leads@)),
    {
        let ghost all = leads_of(contactable_leads@ + research_leads@);
        let mut sources: Vec<SourceStats> = Vec::new();
        let mut countries: Vec<CountryStats> = Vec::new();
        let mut emails = EmailTypeStats { direct_emails: 0, github_emails: 0, no_emails: 0 };
        proof {
            reveal(Seq::filter);
            assert(bucket_names(Seq::<Lead>::empty()) =~= Seq::empty());
            assert(country_names(Seq::<Lead>::empty()) =~= Seq::empty());
            assert(sources@.map_values(|e: SourceStats| e.name@) =~= Seq::empty());
            assert(countries@.map_values(|e: CountryStats| e.country@) =~= Seq::empty());
            assert(all.take(0) =~= Seq::<Lead>::empty());
        }
        let mut i: usize = 0;
        while i < contactable_leads.len()
            invariant
                i <= contactable_leads@.len(),
                contactable_leads@.len() + research_leads@.len() <= usize::MAX,
                all == leads_of(contactable_leads@ + research_leads@),
                is_sources_breakdown(sources@, all.take(i as int)),
                is_countries_breakdown(countries@, all.take(i as int)),
                is_email_breakdown(emails, all.take(i as int)),
            decreases contactable_leads@.len() - i,
        {
            let lead: &Lead = contactable_leads[i];
            proof {
                assert(all[i as int] == *lead);
                assert(all.take(i + 1) =~= all.take(i as int).push(*lead));
            }
            count_source(&mut sources, lead, Ghost(all.take(i as int)));
            count_country(&mut countries, lead, Ghost(all.take(i as int)));
            emails = count_email(emails, lead, Ghost(all.take(i as int)));
            i += 1;
        }
        let first: usize = contactable_leads.len();
        let mut j: usize = 0;
        while j < research_leads.len()
            invariant
                j <= research_leads@.len(),
                first == contactable_leads@.len(),
                contactable_leads@.len() + research_leads@.len() <= usize::MAX,
                all == leads_of(contactable_leads@ + research_leads@),
                is_sources_breakdown(sources@, all.take(first + j)),
                is_countries_breakdown(countries@, all.take(first + j)),
                is_email_breakdown(emails, all.take(first + j)),
            decreases research_leads@.len() - j,
        {
            let lead: &Lead = research_leads[j];
            proof {
                assert(all[first + j] == *lead);
                assert(all.take(first + j + 1) =~= all.take(first + j).push(*lead));
            }
            count_source(&mut sources, lead, Ghost(all.take(first + j)));
            count_country(&mut countries, lead, Ghost(all.take(first + j)));
            emails = count_email(emails, lead, Ghost(all.take(first + j)));
            j += 1;
        }
        proof {
            assert(all.take(first + j) =~= all);
        }
        LeadStats {
            total_leads: contactable_leads.len() + research_leads.len(),
            contactable_leads: contactable_leads.len(),
            research_leads: research_leads.len(),
            sources_breakdown: sources,
            countries_breakdown: countries,
            email_types: emails,
            generated_at: now_millis(),
        }
    }
}

} // verus!
