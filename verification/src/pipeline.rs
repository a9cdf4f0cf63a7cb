//! The pipeline: crawl, then optional stages over one evolving set of
//! records. A failing optional stage leaves the records as they were.

use vstd::prelude::*;
use crate::error::CrawlError;
use crate::models::{views, Job, JobView};
use crate::stage::{lemma_all_failed_unchanged, staged_all, CompletionView};

verus! {

/// Settings of the detail-fetch stage.
#[derive(Debug)]
pub struct DetailFetcherConfig {
    /// Number of tabs that fetch in parallel.
    pub thread_count: usize,
    /// Names of the detail fields to gather.
    pub includes: Vec<&'static str>,
}

/// A source of listings. `start_crawl` makes the initial listing fetch.
pub trait Crawler {
    /// The records of the listing, or the transport failure that kept them
    /// away.
    fn start_crawl(&self) -> Result<Vec<Job>, CrawlError>;
}

/// A source that can fetch the detail page of each record.
pub trait DetailCrawler {
    /// The records with what their detail pages added, one for each of
    /// `jobs`; or the failure that kept the stage from running.
    fn fetch_details(&self, jobs: Vec<Job>, config: DetailFetcherConfig) -> Result<
        Vec<Job>,
        CrawlError,
    >;
}

/// A second source that augments records already collected.
pub trait JobEnricher {
    /// The records with what the second source added, one for each of
    /// `jobs`; or the failure that kept the stage from running.
    fn start_enrich(&self, jobs: &Vec<Job>) -> Result<Vec<Job>, CrawlError>;
}

/// A pipeline before its first stage.
#[derive(Debug)]
pub struct CrawlPipeline;

/// A pipeline that holds the records of a listing and the source they came
/// from.
#[derive(Debug)]
pub struct PipelineWithJobs<C> {
    jobs: Vec<Job>,
    client: C,
}

/// The records that a pipeline holds after a stage that ended with
/// `outcome`: the stage's records where it succeeded, else those held before.
pub open spec fn after_stage(before: Seq<JobView>, outcome: Result<Seq<JobView>, Seq<char>>) -> Seq<
    JobView,
> {
    match outcome {
        Ok(jobs) => jobs,
        Err(_) => before,
    }
}

/// A stage in which every fetch failed, and a stage that failed as a whole,
/// both leave the pipeline with exactly the records it held.
pub proof fn lemma_failed_stage_keeps_state(
    before: Seq<JobView>,
    completions: Seq<CompletionView>,
    error: Seq<char>,
)
    requires
        forall|k: int| 0 <= k < completions.len() ==> (#[trigger] completions[k]).outcome is Err,
    ensures
        after_stage(before, Ok(staged_all(before, completions))) == before,
        after_stage(before, Err(error)) == before,
{
    lemma_all_failed_unchanged(before, completions);
}

/// Mathematical view of the outcome of a stage.
pub open spec fn outcome_view(outcome: Result<Vec<Job>, CrawlError>) -> Result<
    Seq<JobView>,
    Seq<char>,
> {
    match outcome {
        Ok(jobs) => Ok(views(jobs@)),
        Err(error) => Err(error@),
    }
}

impl CrawlPipeline {
    /// A pipeline that has not crawled yet.
    pub fn new() -> (pipeline: CrawlPipeline) {
        CrawlPipeline
    }

    /// Makes the initial listing fetch. Its failure is the failure of the
    /// whole pipeline; its records start the pipeline. The pipeline is what
    /// `from_listing` makes of the outcome of `start_crawl`.
    pub fn crawl<C: Crawler>(self, client: C) -> (started: Result<PipelineWithJobs<C>, CrawlError>)
        ensures
            exists|listing: Result<Vec<Job>, CrawlError>|
                call_ensures(C::start_crawl, (&client,), listing) && started_from(
                    client,
                    listing,
                    started,
                ),
    {
        let listing = client.start_crawl();
        let started = PipelineWithJobs::from_listing(client, listing);
        assert(call_ensures(C::start_crawl, (&client,), listing) && started_from(
            client,
            listing,
            started,
        ));
        started
    }
}

impl Default for CrawlPipeline {
    fn default() -> (pipeline: CrawlPipeline) {
        CrawlPipeline::new()
    }
}

/// `started` is what the outcome `listing` of the initial fetch starts: a
/// pipeline with its records and with `client`, or its error.
pub open spec fn started_from<C>(
    client: C,
    listing: Result<Vec<Job>, CrawlError>,
    started: Result<PipelineWithJobs<C>, CrawlError>,
) -> bool {
    match listing {
        Ok(jobs) => started matches Ok(pipeline) && pipeline.held() == views(jobs@)
            && pipeline.source() == client,
        Err(error) => started matches Err(e) && e@ == error@,
    }
}

impl<C> PipelineWithJobs<C> {
    /// The views of the records held.
    pub closed spec fn held(&self) -> Seq<JobView> {
        views(self.jobs@)
    }

    /// The source held.
    pub closed spec fn source(&self) -> C {
        self.client
    }

    /// The records held, as the stages are handed them.
    pub closed spec fn records(&self) -> Vec<Job> {
        self.jobs
    }

    /// Starts a pipeline from the outcome of the initial listing fetch: with
    /// its records where it succeeded, and with its error where it failed.
    pub fn from_listing(client: C, listing: Result<Vec<Job>, CrawlError>) -> (started: Result<
        PipelineWithJobs<C>,
        CrawlError,
    >)
        ensures
            started_from(client, listing, started),
    {
        match listing {
            Ok(jobs) => Ok(PipelineWithJobs { jobs, client }),
            Err(error) => Err(error),
        }
    }

    /// Takes the outcome of an optional stage: its records replace those
    /// held where it succeeded; where it failed, nothing changes.
    pub fn after_stage(self, outcome: Result<Vec<Job>, CrawlError>) -> (next: PipelineWithJobs<C>)
        ensures
            next.held() == after_stage(self.held(), outcome_view(outcome)),
            next.source() == self.source(),
    {
        match outcome {
            Ok(jobs) => PipelineWithJobs { jobs, client: self.client },
            Err(_) => self,
        }
    }

    /// Runs the enrichment stage on the records held. Its records replace
    /// them where `start_enrich` succeeds; its failure leaves them as they
    /// were.
    pub fn enrich<E: JobEnricher>(self, enricher: E) -> (next: PipelineWithJobs<C>)
        ensures
            next.source() == self.source(),
            views(self.records()@) == self.held(),
            exists|outcome: Result<Vec<Job>, CrawlError>|
                call_ensures(E::start_enrich, (&enricher, &self.records()), outcome)
                    && next.held() == after_stage(self.held(), outcome_view(outcome)),
    {
        let outcome = enricher.start_enrich(&self.jobs);
        let ghost before = self;
        let next = self.after_stage(outcome);
        assert(call_ensures(E::start_enrich, (&enricher, &before.records()), outcome)
            && next.held() == after_stage(before.held(), outcome_view(outcome)));
        next
    }

    /// The records held.
    pub fn jobs(&self) -> (jobs: &Vec<Job>)
        ensures
            views(jobs@) == self.held(),
    {
        &self.jobs
    }

    /// Ends the pipeline and hands out its records.
    pub fn into_jobs(self) -> (jobs: Vec<Job>)
        ensures
            views(jobs@) == self.held(),
    {
        self.jobs
    }
}

impl<C: DetailCrawler> PipelineWithJobs<C> {
    /// Runs the detail-fetch stage on a copy of the records held. Its
    /// records replace them where `fetch_details` succeeds; its failure
    /// leaves them as they were.
    pub fn fetch_details(self, config: DetailFetcherConfig) -> (next: PipelineWithJobs<C>)
        ensures
            next.source() == self.source(),
            exists|copies: Vec<Job>, outcome: Result<Vec<Job>, CrawlError>|
                views(copies@) == self.held() && call_ensures(
                    C::fetch_details,
                    (&self.source(), copies, config),
                    outcome,
                ) && next.held() == after_stage(self.held(), outcome_view(outcome)),
    {
        let copies = copy_jobs(&self.jobs);
        let outcome = self.client.fetch_details(copies, config);
        let ghost before = self;
        let next = self.after_stage(outcome);
        assert(views(copies@) == before.held() && call_ensures(
            C::fetch_details,
            (&before.source(), copies, config),
            outcome,
        ) && next.held() == after_stage(before.held(), outcome_view(outcome)));
        next
    }
}

/// A copy of each record, in order.
pub fn copy_jobs(jobs: &Vec<Job>) -> (copies: Vec<Job>)
    ensures
        views(copies@) == views(jobs@),
{
    let mut copies: Vec<Job> = Vec::new();
    let mut i: usize = 0;
    while i < jobs.len()
        invariant
            i <= jobs.len(),
            views(copies@) == views(jobs@).take(i as int),
        decreases jobs.len() - i,
    {
        let ghost before = views(copies@);
        let job = jobs[i].clone();
        copies.push(job);
        assert(views(copies@) =~= before.push(job@));
        assert(views(jobs@).take(i + 1) =~= views(jobs@).take(i as int).push(jobs[i as int]@));
        i += 1;
    }
    assert(views(jobs@).take(jobs.len() as int) =~= views(jobs@));
    copies
}

} // verus!
