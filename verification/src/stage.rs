//! Per-record stages: what one fetch gathered is merged into its record, a
//! failed fetch leaves its record as it was, and a batch comes out one to one
//! with what went in.

use vstd::prelude::*;
use vstd::string::StringExecFns;
use crate::error::CrawlError;
use crate::models::{distinct_urls, opt_text, views, Job, JobView};

verus! {

/// What a detail page adds to a record.
#[derive(Debug)]
pub struct Details {
    pub deadline: Option<String>,
    pub location: Option<String>,
}

/// Mathematical view of `Details`.
pub struct DetailsView {
    pub deadline: Option<Seq<char>>,
    pub location: Option<Seq<char>>,
}

impl View for Details {
    type V = DetailsView;

    open spec fn view(&self) -> DetailsView {
        DetailsView { deadline: opt_text(self.deadline), location: opt_text(self.location) }
    }
}

/// What an employer profile adds to a record. Either part may be absent.
#[derive(Debug)]
pub struct Rating {
    pub rating: Option<String>,
    pub review_count: Option<u32>,
}

/// Mathematical view of `Rating`.
pub struct RatingView {
    pub rating: Option<Seq<char>>,
    pub review_count: Option<u32>,
}

impl View for Rating {
    type V = RatingView;

    open spec fn view(&self) -> RatingView {
        RatingView { rating: opt_text(self.rating), review_count: self.review_count }
    }
}

/// `new` where it is present, else `old`.
pub open spec fn prefer(new: Option<Seq<char>>, old: Option<Seq<char>>) -> Option<Seq<char>> {
    if new is Some {
        new
    } else {
        old
    }
}

/// `job` with the gathered details merged in: a gathered field replaces the
/// record's, an absent one leaves it.
pub open spec fn with_details(job: JobView, details: DetailsView) -> JobView {
    JobView {
        deadline: prefer(details.deadline, job.deadline),
        location: prefer(details.location, job.location),
        ..job
    }
}

/// `job` with rating and review count set to what the profile showed.
pub open spec fn with_rating(job: JobView, rating: RatingView) -> JobView {
    JobView { rating: rating.rating, review_count: rating.review_count, ..job }
}

fn clone_text(text: &Option<String>) -> (copy: Option<String>)
    ensures
        opt_text(copy) == opt_text(*text),
{
    match text {
        Some(s) => Some(s.clone()),
        None => None,
    }
}

impl Job {
    /// A new record: this one with the gathered details merged in.
    pub fn with_details(&self, details: &Details) -> (job: Job)
        ensures
            job@ == with_details(self@, details@),
    {
        let mut job = self.clone();
        if details.deadline.is_some() {
            job.deadline = clone_text(&details.deadline);
        }
        if details.location.is_some() {
            job.location = clone_text(&details.location);
        }
        job
    }

    /// A new record: this one with rating and review count replaced.
    pub fn with_rating(&self, rating: &Rating) -> (job: Job)
        ensures
            job@ == with_rating(self@, rating@),
    {
        let mut job = self.clone();
        job.rating = clone_text(&rating.rating);
        job.review_count = rating.review_count;
        job
    }
}

/// What one fetch gathered for a record.
#[derive(Debug)]
pub enum Gathered {
    Details(Details),
    Rating(Rating),
}

/// Mathematical view of `Gathered`.
pub enum GatheredView {
    Details(DetailsView),
    Rating(RatingView),
}

impl View for Gathered {
    type V = GatheredView;

    open spec fn view(&self) -> GatheredView {
        match *self {
            Gathered::Details(details) => GatheredView::Details(details@),
            Gathered::Rating(rating) => GatheredView::Rating(rating@),
        }
    }
}

/// The end of one fetch: the url of the record it was made for, and what it
/// gathered or why it failed.
#[derive(Debug)]
pub struct Completion {
    pub url: String,
    pub outcome: Result<Gathered, CrawlError>,
}

/// Mathematical view of `Completion`.
pub struct CompletionView {
    pub url: Seq<char>,
    pub outcome: Result<GatheredView, Seq<char>>,
}

impl View for Completion {
    type V = CompletionView;

    open spec fn view(&self) -> CompletionView {
        CompletionView {
            url: self.url@,
            outcome: match self.outcome {
                Ok(gathered) => Ok(gathered@),
                Err(error) => Err(error@),
            },
        }
    }
}

/// The views of a sequence of completions.
pub open spec fn completion_views(completions: Seq<Completion>) -> Seq<CompletionView> {
    completions.map_values(|c: Completion| c@)
}

/// Report of a record that passed through a stage unchanged.
#[derive(Debug)]
pub struct FailureEvent {
    pub url: String,
    pub message: String,
}

/// Mathematical view of `FailureEvent`.
pub struct FailureView {
    pub url: Seq<char>,
    pub message: Seq<char>,
}

impl View for FailureEvent {
    type V = FailureView;

    open spec fn view(&self) -> FailureView {
        FailureView { url: self.url@, message: self.message@ }
    }
}

/// The views of a sequence of failure events.
pub open spec fn failure_views(events: Seq<FailureEvent>) -> Seq<FailureView> {
    events.map_values(|e: FailureEvent| e@)
}

/// What a stage hands on: one record for each that went in, in the same
/// order, and one event for each record that no fetch updated.
#[derive(Debug)]
pub struct StageOutput {
    pub jobs: Vec<Job>,
    pub failures: Vec<FailureEvent>,
}

/// The message of the event for a record that no fetch reported on.
pub open spec fn missing_message() -> Seq<char> {
    "no completion"@
}

/// `job` with what was gathered merged in.
pub open spec fn merged(job: JobView, gathered: GatheredView) -> JobView {
    match gathered {
        GatheredView::Details(details) => with_details(job, details),
        GatheredView::Rating(rating) => with_rating(job, rating),
    }
}

/// Index of the first completion for `url`, or the number of completions if
/// there is none.
pub open spec fn first_for(completions: Seq<CompletionView>, url: Seq<char>) -> int
    decreases completions.len(),
{
    if completions.len() == 0 || completions[0].url == url {
        0
    } else {
        1 + first_for(completions.drop_first(), url)
    }
}

/// The record that leaves a stage for `job`: updated by the first completion
/// for its url where that fetch succeeded, else `job` itself.
pub open spec fn staged(job: JobView, completions: Seq<CompletionView>) -> JobView {
    let i = first_for(completions, job.url);
    if 0 <= i < completions.len() {
        match completions[i].outcome {
            Ok(gathered) => merged(job, gathered),
            Err(_) => job,
        }
    } else {
        job
    }
}

/// The event that a stage raises for `job`, if any.
pub open spec fn failure_of(job: JobView, completions: Seq<CompletionView>) -> Option<
    FailureView,
> {
    let i = first_for(completions, job.url);
    if 0 <= i < completions.len() {
        match completions[i].outcome {
            Ok(_) => None,
            Err(message) => Some(FailureView { url: job.url, message }),
        }
    } else {
        Some(FailureView { url: job.url, message: missing_message() })
    }
}

/// The records that leave a stage, one for each of `jobs`.
pub open spec fn staged_all(jobs: Seq<JobView>, completions: Seq<CompletionView>) -> Seq<
    JobView,
> {
    jobs.map_values(|job: JobView| staged(job, completions))
}

/// The events that a stage raises, in the order of `jobs`.
pub open spec fn failures_all(jobs: Seq<JobView>, completions: Seq<CompletionView>) -> Seq<
    FailureView,
>
    decreases jobs.len(),
{
    if jobs.len() == 0 {
        Seq::empty()
    } else {
        let before = failures_all(jobs.drop_last(), completions);
        match failure_of(jobs.last(), completions) {
            Some(event) => before.push(event),
            None => before,
        }
    }
}

/// `first_for` is in range, no completion before it is for `url`, and the
/// one at it is unless it is the length.
proof fn lemma_first_for(completions: Seq<CompletionView>, url: Seq<char>)
    ensures
        0 <= first_for(completions, url) <= completions.len(),
        forall|k: int| 0 <= k < first_for(completions, url) ==> (#[trigger] completions[k]).url != url,
        first_for(completions, url) < completions.len() ==> completions[first_for(
            completions,
            url,
        )].url == url,
    decreases completions.len(),
{
    if completions.len() == 0 || completions[0].url == url {
    } else {
        let rest = completions.drop_first();
        lemma_first_for(rest, url);
        assert forall|k: int| 0 <= k < first_for(completions, url) implies (
        #[trigger] completions[k]).url != url by {
            if k > 0 {
                assert(completions[k] == rest[k - 1]);
            }
        }
    }
}

/// `first_for` is the index fixed by its two defining properties.
proof fn lemma_first_for_is(completions: Seq<CompletionView>, url: Seq<char>, i: int)
    requires
        0 <= i <= completions.len(),
        forall|k: int| 0 <= k < i ==> (#[trigger] completions[k]).url != url,
        i < completions.len() ==> completions[i].url == url,
    ensures
        first_for(completions, url) == i,
{
    lemma_first_for(completions, url);
    let f = first_for(completions, url);
    if f < i {
        assert(completions[f].url != url);
    } else if i < f {
        assert(completions[i].url != url);
    }
}

/// A stage hands on as many records as it was given, each under the url it
/// came with.
pub proof fn lemma_stage_one_to_one(jobs: Seq<JobView>, completions: Seq<CompletionView>)
    ensures
        staged_all(jobs, completions).len() == jobs.len(),
        forall|i: int|
            0 <= i < jobs.len() ==> (#[trigger] staged_all(jobs, completions)[i]).url
                == jobs[i].url,
{
}

/// Records that came under distinct urls leave a stage under distinct urls.
pub proof fn lemma_stage_keeps_distinct(jobs: Seq<JobView>, completions: Seq<CompletionView>)
    requires
        distinct_urls(jobs),
    ensures
        distinct_urls(staged_all(jobs, completions)),
{
    lemma_stage_one_to_one(jobs, completions);
}

/// Where every fetch failed, the records leave the stage as they came.
pub proof fn lemma_all_failed_unchanged(jobs: Seq<JobView>, completions: Seq<CompletionView>)
    requires
        forall|k: int| 0 <= k < completions.len() ==> (#[trigger] completions[k]).outcome is Err,
    ensures
        staged_all(jobs, completions) == jobs,
{
    assert forall|i: int| 0 <= i < jobs.len() implies staged(jobs[i], completions) == jobs[i] by {
        lemma_first_for(completions, jobs[i].url);
        let k = first_for(completions, jobs[i].url);
        if k < completions.len() {
            assert(completions[k].outcome is Err);
        }
    }
    assert(staged_all(jobs, completions) =~= jobs);
}

impl Job {
    /// A new record: this one with what a fetch gathered merged in.
    pub fn merged(&self, gathered: &Gathered) -> (job: Job)
        ensures
            job@ == merged(self@, gathered@),
    {
        match gathered {
            Gathered::Details(details) => self.with_details(details),
            Gathered::Rating(rating) => self.with_rating(rating),
        }
    }
}

/// Position of the first completion for `url`.
fn find_completion(completions: &Vec<Completion>, url: &String) -> (i: usize)
    ensures
        i == first_for(completion_views(completions@), url@),
        i <= completions.len(),
{
    let ghost cv = completion_views(completions@);
    let mut i: usize = 0;
    while i < completions.len() && !(completions[i].url == *url)
        invariant
            i <= completions.len(),
            cv == completion_views(completions@),
            forall|k: int| 0 <= k < i ==> (#[trigger] cv[k]).url != url@,
        decreases completions.len() - i,
    {
        assert(cv[i as int] == completions[i as int]@);
        i += 1;
    }
    proof {
        if i < completions.len() {
            assert(cv[i as int] == completions[i as int]@);
        }
        lemma_first_for_is(cv, url@, i as int);
    }
    i
}

/// Settles one record: the first completion for its url updates it where
/// that fetch succeeded. Otherwise the record comes back as it is, with the
/// event that says why.
pub fn settle(job: &Job, completions: &Vec<Completion>) -> (settled: (Job, Option<FailureEvent>))
    ensures
        settled.0@ == staged(job@, completion_views(completions@)),
        match settled.1 {
            Some(event) => Some(event@) == failure_of(job@, completion_views(completions@)),
            None => failure_of(job@, completion_views(completions@)) is None,
        },
{
    let i = find_completion(completions, &job.url);
    if i < completions.len() {
        assert(completion_views(completions@)[i as int] == completions[i as int]@);
        match &completions[i].outcome {
            Ok(gathered) => (job.merged(gathered), None),
            Err(error) => (
                job.clone(),
                Some(FailureEvent { url: job.url.clone(), message: error.describe() }),
            ),
        }
    } else {
        (
            job.clone(),
            Some(FailureEvent { url: job.url.clone(), message: String::from_str("no completion") }),
        )
    }
}

/// Settles a batch. The completions may come in any order. The records come
/// out one for one, in the order of `jobs` and under the same urls; those
/// that no successful fetch covers are unchanged and each raises one event.
pub fn settle_all(jobs: &Vec<Job>, completions: &Vec<Completion>) -> (output: StageOutput)
    ensures
        views(output.jobs@) == staged_all(views(jobs@), completion_views(completions@)),
        failure_views(output.failures@) == failures_all(
            views(jobs@),
            completion_views(completions@),
        ),
        output.jobs.len() == jobs.len(),
        forall|i: int| 0 <= i < jobs.len() ==> (#[trigger] output.jobs[i])@.url == jobs[i]@.url,
{
    let ghost jv = views(jobs@);
    let ghost cv = completion_views(completions@);
    let mut out: Vec<Job> = Vec::new();
    let mut failures: Vec<FailureEvent> = Vec::new();
    let mut i: usize = 0;
    while i < jobs.len()
        invariant
            i <= jobs.len(),
            jv == views(jobs@),
            cv == completion_views(completions@),
            views(out@) == staged_all(jv.take(i as int), cv),
            failure_views(failures@) == failures_all(jv.take(i as int), cv),
        decreases jobs.len() - i,
    {
        let ghost out_before = views(out@);
        let ghost failures_before = failure_views(failures@);
        let (job, event) = settle(&jobs[i], completions);
        proof {
            assert(jv[i as int] == jobs[i as int]@);
            assert(jv.take(i + 1).drop_last() =~= jv.take(i as int));
            assert(jv.take(i + 1).last() == jv[i as int]);
        }
        out.push(job);
        match event {
            Some(event) => {
                failures.push(event);
                assert(failure_views(failures@) =~= failures_before.push(event@));
            },
            None => {},
        }
        i += 1;
        proof {
            assert(views(out@) =~= out_before.push(job@));
            assert(views(out@) =~= staged_all(jv.take(i as int), cv));
        }
    }
    proof {
        assert(jv.take(jobs.len() as int) =~= jv);
        assert forall|k: int| 0 <= k < jobs.len() implies (#[trigger] out[k])@.url
            == jobs[k]@.url by {
            assert(views(out@)[k] == out[k]@);
            assert(jv[k] == jobs[k]@);
        }
    }
    StageOutput { jobs: out, failures }
}

} // verus!
