//! Page collection: the de-duplicated union of the records seen across the
//! pages or scroll positions of one listing, and the rule that ends it.

use vstd::prelude::*;
use vstd::hash_set::StringHashSet;
use crate::error::CrawlError;
use crate::models::{distinct_urls, has_url, is_complete, url_set, views, Job, JobView};

verus! {

/// Number of consecutive snapshots without a new url after which collection
/// stops.
pub const STALE_LIMIT: usize = 2;

/// `acc` followed by the candidates of `page` that are complete and whose url
/// was not seen before, in page order.
pub open spec fn absorb_page(acc: Seq<JobView>, page: Seq<JobView>) -> Seq<JobView>
    decreases page.len(),
{
    if page.len() == 0 {
        acc
    } else {
        let before = absorb_page(acc, page.drop_last());
        let candidate = page.last();
        if is_complete(candidate) && !has_url(before, candidate.url) {
            before.push(candidate)
        } else {
            before
        }
    }
}

/// The count of consecutive snapshots without a new url, after one more
/// snapshot that took the collection from `before` to `after` records.
pub open spec fn next_stale(stale: nat, before: nat, after: nat) -> nat {
    if after == before {
        stale + 1
    } else {
        0
    }
}

/// Absorbing a page keeps what was collected, in place.
proof fn lemma_absorb_extends(acc: Seq<JobView>, page: Seq<JobView>)
    ensures
        acc.len() <= absorb_page(acc, page).len() <= acc.len() + page.len(),
        absorb_page(acc, page).take(acc.len() as int) == acc,
    decreases page.len(),
{
    if page.len() == 0 {
        assert(acc.take(acc.len() as int) =~= acc);
    } else {
        lemma_absorb_extends(acc, page.drop_last());
        let before = absorb_page(acc, page.drop_last());
        assert(absorb_page(acc, page).take(acc.len() as int) =~= before.take(acc.len() as int));
    }
}

/// Absorbing a page into records with distinct urls leaves the urls distinct.
pub proof fn lemma_absorb_distinct(acc: Seq<JobView>, page: Seq<JobView>)
    requires
        distinct_urls(acc),
    ensures
        distinct_urls(absorb_page(acc, page)),
    decreases page.len(),
{
    if page.len() > 0 {
        lemma_absorb_distinct(acc, page.drop_last());
    }
}

/// Absorbing a page into complete records leaves every record complete.
proof fn lemma_absorb_complete(acc: Seq<JobView>, page: Seq<JobView>)
    requires
        forall|i: int| 0 <= i < acc.len() ==> is_complete(#[trigger] acc[i]),
    ensures
        forall|i: int|
            0 <= i < absorb_page(acc, page).len() ==> is_complete(
                #[trigger] absorb_page(acc, page)[i],
            ),
    decreases page.len(),
{
    if page.len() > 0 {
        lemma_absorb_complete(acc, page.drop_last());
        let before = absorb_page(acc, page.drop_last());
        let after = absorb_page(acc, page);
        assert forall|i: int| 0 <= i < after.len() implies is_complete(#[trigger] after[i]) by {
            if i < before.len() {
                assert(after[i] == before[i]);
            }
        }
    }
}

/// After a page is absorbed, a url is known exactly if it was known before or
/// a complete candidate of the page carries it.
proof fn lemma_absorb_urls(acc: Seq<JobView>, page: Seq<JobView>, url: Seq<char>)
    ensures
        has_url(absorb_page(acc, page), url) <==> has_url(acc, url) || exists|k: int|
            0 <= k < page.len() && is_complete(#[trigger] page[k]) && page[k].url == url,
    decreases page.len(),
{
    if page.len() > 0 {
        let front = page.drop_last();
        let before = absorb_page(acc, front);
        let after = absorb_page(acc, page);
        let candidate = page.last();
        lemma_absorb_urls(acc, front, url);
        let in_front = exists|k: int|
            0 <= k < front.len() && is_complete(#[trigger] front[k]) && front[k].url == url;
        let in_page = exists|k: int|
            0 <= k < page.len() && is_complete(#[trigger] page[k]) && page[k].url == url;
        if in_front {
            let k = choose|k: int|
                0 <= k < front.len() && is_complete(#[trigger] front[k]) && front[k].url == url;
            assert(is_complete(page[k]) && page[k].url == url);
        }
        if in_page && !in_front {
            let k = choose|k: int|
                0 <= k < page.len() && is_complete(#[trigger] page[k]) && page[k].url == url;
            if k < front.len() {
                assert(is_complete(front[k]) && front[k].url == url);
            }
            assert(k == page.len() - 1);
        }
        if has_url(before, url) {
            let i = choose|i: int| 0 <= i < before.len() && (#[trigger] before[i]).url == url;
            assert(after[i].url == url);
        }
        if has_url(after, url) && !has_url(before, url) {
            let i = choose|i: int| 0 <= i < after.len() && (#[trigger] after[i]).url == url;
            if i < before.len() {
                assert(before[i].url == url);
            }
            assert(is_complete(page[page.len() - 1]) && page[page.len() - 1].url == url);
        }
        if is_complete(candidate) && candidate.url == url {
            assert(is_complete(page[page.len() - 1]));
            if !has_url(before, url) {
                assert(after[before.len() as int].url == url);
            }
        }
    }
}

/// The urls of a sequence with one more record.
proof fn lemma_url_set_push(jobs: Seq<JobView>, job: JobView)
    ensures
        url_set(jobs.push(job)) == url_set(jobs).insert(job.url),
{
    let more = jobs.push(job);
    assert forall|url: Seq<char>| url_set(more).contains(url) <==> url_set(jobs).insert(
        job.url,
    ).contains(url) by {
        if has_url(jobs, url) {
            let i = choose|i: int| 0 <= i < jobs.len() && (#[trigger] jobs[i]).url == url;
            assert(more[i].url == url);
        }
        if url == job.url {
            assert(more[jobs.len() as int].url == url);
        }
        if has_url(more, url) {
            let i = choose|i: int| 0 <= i < more.len() && (#[trigger] more[i]).url == url;
            if i < jobs.len() {
                assert(jobs[i].url == url);
            }
        }
    }
    assert(url_set(more) =~= url_set(jobs).insert(job.url));
}

/// Where a collector stands. Pages are numbered from 1.
#[derive(Debug, Clone, Copy, PartialEq, Eq, Structural)]
pub enum CollectorState {
    /// Waiting for the snapshot of the page with this number.
    Loading(usize),
    /// Waiting for the candidates extracted from the snapshot of this page.
    Extracting(usize),
    /// Waiting for the move from this page to the next one.
    Advancing(usize),
    /// Collection is over.
    Terminated,
}

/// What the driver of a collector has to do next.
#[derive(Debug, Clone, Copy, PartialEq, Eq, Structural)]
pub enum CollectorAction {
    /// Take the snapshot of the page with this number.
    Load(usize),
    /// Extract the candidates of the snapshot just taken.
    Extract,
    /// Scroll on, or navigate to the next page.
    Advance,
    /// Stop and take the records.
    Stop,
}

/// What the driver reports back to a collector.
pub enum CollectorEvent {
    /// The snapshot was taken.
    Loaded,
    /// The candidates of the snapshot, in page order.
    Extracted(Vec<Job>),
    /// The listing moved on.
    Advanced,
    /// The action failed in transport.
    Failed(CrawlError),
}

/// Mathematical view of an event.
pub enum EventView {
    Loaded,
    Extracted(Seq<JobView>),
    Advanced,
    Failed(Seq<char>),
}

impl View for CollectorEvent {
    type V = EventView;

    open spec fn view(&self) -> EventView {
        match *self {
            CollectorEvent::Loaded => EventView::Loaded,
            CollectorEvent::Extracted(candidates) => EventView::Extracted(views(candidates@)),
            CollectorEvent::Advanced => EventView::Advanced,
            CollectorEvent::Failed(error) => EventView::Failed(error@),
        }
    }
}

/// Mathematical view of a collector.
pub struct CollectorView {
    pub state: CollectorState,
    /// The records collected so far, in the order in which they were first seen.
    pub jobs: Seq<JobView>,
    /// Number of consecutive snapshots that brought no new url.
    pub stale: nat,
    /// Number of pages that may be visited.
    pub budget: nat,
    /// Number of snapshots whose candidates were taken in.
    pub visited: nat,
    /// The transport failure that ended collection, if one did.
    pub failure: Option<Seq<char>>,
}

/// The action that a state waits for.
pub open spec fn action_for(state: CollectorState) -> CollectorAction {
    match state {
        CollectorState::Loading(page) => CollectorAction::Load(page),
        CollectorState::Extracting(_) => CollectorAction::Extract,
        CollectorState::Advancing(_) => CollectorAction::Advance,
        CollectorState::Terminated => CollectorAction::Stop,
    }
}

/// The state in which a collector with the page budget `budget` starts.
pub open spec fn initial(budget: nat) -> CollectorView {
    CollectorView {
        state: if budget == 0 {
            CollectorState::Terminated
        } else {
            CollectorState::Loading(1)
        },
        jobs: Seq::empty(),
        stale: 0,
        budget,
        visited: 0,
        failure: None,
    }
}

/// The transition of a collector. An event that the state does not wait for
/// changes nothing.
pub open spec fn step_view(c: CollectorView, event: EventView) -> CollectorView {
    match (c.state, event) {
        (CollectorState::Loading(page), EventView::Loaded) => CollectorView {
            state: CollectorState::Extracting(page),
            ..c
        },
        (CollectorState::Extracting(page), EventView::Extracted(candidates)) => {
            let jobs = absorb_page(c.jobs, candidates);
            let stale = next_stale(c.stale, c.jobs.len(), jobs.len());
            CollectorView {
                state: if stale >= STALE_LIMIT || page >= c.budget {
                    CollectorState::Terminated
                } else {
                    CollectorState::Advancing(page)
                },
                jobs,
                stale,
                budget: c.budget,
                visited: c.visited + 1,
                failure: c.failure,
            }
        },
        (CollectorState::Advancing(page), EventView::Advanced) => CollectorView {
            state: CollectorState::Loading((page + 1) as usize),
            ..c
        },
        (state, EventView::Failed(message)) => if state is Terminated {
            c
        } else {
            CollectorView { state: CollectorState::Terminated, failure: Some(message), ..c }
        },
        _ => c,
    }
}

/// What a collection hands out once it is over. A transport failure before
/// any snapshot was taken in is the failure of the collection: there is
/// nothing yet to carry forward. After that, what was collected stands.
pub open spec fn outcome(c: CollectorView) -> Result<Seq<JobView>, Seq<char>> {
    match c.failure {
        Some(message) => if c.visited == 0 {
            Err(message)
        } else {
            Ok(c.jobs)
        },
        None => Ok(c.jobs),
    }
}

/// What holds of every collector: urls are distinct, records are complete,
/// the stale count is under the limit while collection goes on, and the page
/// number stays within the budget.
pub open spec fn consistent(c: CollectorView) -> bool {
    &&& distinct_urls(c.jobs)
    &&& forall|i: int| 0 <= i < c.jobs.len() ==> is_complete(#[trigger] c.jobs[i])
    &&& c.budget <= usize::MAX
    &&& match c.state {
        CollectorState::Loading(page) => 1 <= page <= c.budget && c.stale < STALE_LIMIT
            && c.visited == page - 1 && c.failure is None,
        CollectorState::Extracting(page) => 1 <= page <= c.budget && c.stale < STALE_LIMIT
            && c.visited == page - 1 && c.failure is None,
        CollectorState::Advancing(page) => 1 <= page < c.budget && c.stale < STALE_LIMIT
            && c.visited == page && c.failure is None,
        CollectorState::Terminated => c.stale <= STALE_LIMIT && c.visited <= c.budget,
    }
}

/// Every transition keeps a collector consistent.
pub proof fn lemma_step_consistent(c: CollectorView, event: EventView)
    requires
        consistent(c),
    ensures
        consistent(step_view(c, event)),
{
    match (c.state, event) {
        (CollectorState::Extracting(page), EventView::Extracted(candidates)) => {
            lemma_absorb_distinct(c.jobs, candidates);
            lemma_absorb_complete(c.jobs, candidates);
            lemma_absorb_extends(c.jobs, candidates);
        },
        _ => {},
    }
}

/// No transition loses a record: what was collected stays, in place.
pub proof fn lemma_step_keeps_records(c: CollectorView, event: EventView)
    ensures
        c.jobs.len() <= step_view(c, event).jobs.len(),
        step_view(c, event).jobs.take(c.jobs.len() as int) == c.jobs,
{
    match (c.state, event) {
        (CollectorState::Extracting(page), EventView::Extracted(candidates)) => {
            lemma_absorb_extends(c.jobs, candidates);
        },
        _ => {
            assert(c.jobs.take(c.jobs.len() as int) =~= c.jobs);
        },
    }
}

/// Moves into `jobs` the candidates that are complete and whose url is new,
/// and records their urls in `seen`.
fn absorb(jobs: &mut Vec<Job>, seen: &mut StringHashSet, candidates: Vec<Job>)
    requires
        old(seen)@ == url_set(views(old(jobs)@)),
    ensures
        views(final(jobs)@) == absorb_page(views(old(jobs)@), views(candidates@)),
        final(seen)@ == url_set(views(final(jobs)@)),
{
    let ghost start = views(jobs@);
    let ghost page = views(candidates@);
    for job in it: candidates
        invariant
            it.seq() == candidates@,
            page == views(candidates@),
            views(jobs@) == absorb_page(start, page.take(it.index() as int)),
            seen@ == url_set(views(jobs@)),
    {
        let ghost k = it.index() as int;
        let ghost before = views(jobs@);
        proof {
            assert(page.take(k + 1).drop_last() =~= page.take(k));
            assert(page.take(k + 1).last() == job@);
        }
        if job.complete() && !seen.contains(job.url.as_str()) {
            seen.insert(job.url.clone());
            jobs.push(job);
            proof {
                assert(views(jobs@) =~= before.push(job@));
                lemma_url_set_push(before, job@);
            }
        }
    }
    proof {
        assert(page.take(page.len() as int) =~= page);
    }
}

/// Collects the records of one listing, page by page. The driver performs
/// the action that the collector names and reports the event back.
pub struct PageCollector {
    state: CollectorState,
    jobs: Vec<Job>,
    seen: StringHashSet,
    stale: usize,
    budget: usize,
    visited: usize,
    failure: Option<CrawlError>,
}

impl View for PageCollector {
    type V = CollectorView;

    closed spec fn view(&self) -> CollectorView {
        CollectorView {
            state: self.state,
            jobs: views(self.jobs@),
            stale: self.stale as nat,
            budget: self.budget as nat,
            visited: self.visited as nat,
            failure: match self.failure {
                Some(error) => Some(error@),
                None => None,
            },
        }
    }
}

impl PageCollector {
    /// The collector is consistent, and its set of seen urls holds the urls
    /// of its records. Every constructor establishes this and every method
    /// keeps it.
    pub closed spec fn wf(&self) -> bool {
        consistent(self@) && self.seen@ == url_set(views(self.jobs@))
    }

    /// A well-formed collector is consistent.
    pub proof fn lemma_wf_consistent(&self)
        requires
            self.wf(),
        ensures
            consistent(self@),
    {
    }

    /// A collector that may visit `total_pages` pages.
    pub fn new(total_pages: usize) -> (collector: PageCollector)
        ensures
            collector.wf(),
            collector@ == initial(total_pages as nat),
    {
        let jobs: Vec<Job> = Vec::new();
        let seen = StringHashSet::new();
        let state = if total_pages == 0 {
            CollectorState::Terminated
        } else {
            CollectorState::Loading(1)
        };
        proof {
            assert(views(jobs@) =~= Seq::empty());
            assert(url_set(views(jobs@)) =~= Set::empty());
        }
        PageCollector { state, jobs, seen, stale: 0, budget: total_pages, visited: 0, failure: None }
    }

    /// The current state.
    pub fn state(&self) -> (state: CollectorState)
        ensures
            state == self@.state,
    {
        self.state
    }

    /// The action that the collector waits for.
    pub fn next_action(&self) -> (action: CollectorAction)
        ensures
            action == action_for(self@.state),
    {
        match self.state {
            CollectorState::Loading(page) => CollectorAction::Load(page),
            CollectorState::Extracting(_) => CollectorAction::Extract,
            CollectorState::Advancing(_) => CollectorAction::Advance,
            CollectorState::Terminated => CollectorAction::Stop,
        }
    }

    /// Whether collection is over.
    pub fn is_terminated(&self) -> (done: bool)
        ensures
            done == (self@.state == CollectorState::Terminated),
    {
        match self.state {
            CollectorState::Terminated => true,
            _ => false,
        }
    }

    /// The records collected so far.
    pub fn jobs(&self) -> (jobs: &Vec<Job>)
        requires
            self.wf(),
        ensures
            views(jobs@) == self@.jobs,
            distinct_urls(views(jobs@)),
    {
        &self.jobs
    }

    /// Takes one event and names the next action. Records enter only with
    /// the candidates of a snapshot: those that are complete and carry a url
    /// not collected before. Collection ends after the last page of the
    /// budget, or after two snapshots in a row without a new url.
    pub fn step(&mut self, event: CollectorEvent) -> (action: CollectorAction)
        requires
            old(self).wf(),
        ensures
            final(self).wf(),
            final(self)@ == step_view(old(self)@, event@),
            action == action_for(final(self)@.state),
            consistent(final(self)@),
    {
        proof {
            lemma_step_consistent(self@, event@);
        }
        match (self.state, event) {
            (CollectorState::Loading(page), CollectorEvent::Loaded) => {
                self.state = CollectorState::Extracting(page);
                CollectorAction::Extract
            },
            (CollectorState::Extracting(page), CollectorEvent::Extracted(candidates)) => {
                let before = self.jobs.len();
                absorb(&mut self.jobs, &mut self.seen, candidates);
                self.visited = self.visited + 1;
                self.stale = if self.jobs.len() == before {
                    self.stale + 1
                } else {
                    0
                };
                if self.stale >= STALE_LIMIT || page >= self.budget {
                    self.state = CollectorState::Terminated;
                    CollectorAction::Stop
                } else {
                    self.state = CollectorState::Advancing(page);
                    CollectorAction::Advance
                }
            },
            (CollectorState::Advancing(page), CollectorEvent::Advanced) => {
                self.state = CollectorState::Loading(page + 1);
                CollectorAction::Load(page + 1)
            },
            (CollectorState::Terminated, CollectorEvent::Failed(_)) => CollectorAction::Stop,
            (_, CollectorEvent::Failed(error)) => {
                self.state = CollectorState::Terminated;
                self.failure = Some(error);
                CollectorAction::Stop
            },
            _ => self.next_action(),
        }
    }

    /// Number of snapshots whose candidates were taken in.
    pub fn visited(&self) -> (visited: usize)
        ensures
            visited == self@.visited,
    {
        self.visited
    }

    /// Number of consecutive snapshots that brought no new url.
    pub fn stale_count(&self) -> (stale: usize)
        ensures
            stale == self@.stale,
    {
        self.stale
    }

    /// Ends collection and hands out its outcome: the records, no two under
    /// one url, or the transport failure that came before any snapshot was
    /// taken in.
    pub fn finish(self) -> (result: Result<Vec<Job>, CrawlError>)
        requires
            self.wf(),
        ensures
            match result {
                Ok(jobs) => outcome(self@) == Ok::<Seq<JobView>, Seq<char>>(views(jobs@))
                    && distinct_urls(views(jobs@)),
                Err(error) => outcome(self@) == Err::<Seq<JobView>, Seq<char>>(error@),
            },
    {
        let fatal = self.visited == 0;
        match self.failure {
            Some(error) => if fatal {
                Err(error)
            } else {
                Ok(self.jobs)
            },
            None => Ok(self.jobs),
        }
    }

    /// Ends collection and hands out the records: no two share a url.
    pub fn into_jobs(self) -> (jobs: Vec<Job>)
        requires
            self.wf(),
        ensures
            views(jobs@) == self@.jobs,
            distinct_urls(views(jobs@)),
            forall|i: int| 0 <= i < jobs.len() ==> is_complete(#[trigger] jobs[i]@),
    {
        proof {
            assert forall|i: int| 0 <= i < self.jobs.len() implies is_complete(
                #[trigger] self.jobs[i]@,
            ) by {
                assert(views(self.jobs@)[i] == self.jobs[i]@);
            }
        }
        self.jobs
    }
}

/// One whole visit of a page: the snapshot is taken, its candidates are
/// taken in, and the listing moves on unless collection ended.
pub open spec fn visit(c: CollectorView, page: Seq<JobView>) -> CollectorView {
    step_view(
        step_view(step_view(c, EventView::Loaded), EventView::Extracted(page)),
        EventView::Advanced,
    )
}

/// The collector after a source has shown `pages`, one per visit, for as long
/// as the collector goes on.
pub open spec fn run(c: CollectorView, pages: Seq<Seq<JobView>>) -> CollectorView
    decreases pages.len(),
{
    if pages.len() > 0 && c.state is Loading {
        run(visit(c, pages[0]), pages.drop_first())
    } else {
        c
    }
}

/// The views of a sequence of pages.
pub open spec fn page_views(pages: Seq<Vec<Job>>) -> Seq<Seq<JobView>> {
    pages.map_values(|page: Vec<Job>| views(page@))
}

/// A complete candidate among the first `n` pages carries `url`.
pub open spec fn shown(pages: Seq<Seq<JobView>>, n: int, url: Seq<char>) -> bool {
    exists|a: int, b: int|
        0 <= a < n && a < pages.len() && 0 <= b < pages[a].len() && is_complete(
            #[trigger] pages[a][b],
        ) && pages[a][b].url == url
}

/// The pages after the first `k` show no url that the first `k` pages did
/// not show.
pub open spec fn dry_after(pages: Seq<Seq<JobView>>, k: int) -> bool {
    forall|a: int, b: int|
        k <= a < pages.len() && 0 <= b < pages[a].len() && is_complete(#[trigger] pages[a][b])
            ==> shown(pages, k, pages[a][b].url)
}

/// A page whose complete candidates all carry known urls adds nothing.
proof fn lemma_absorb_nothing(acc: Seq<JobView>, page: Seq<JobView>)
    requires
        forall|b: int|
            0 <= b < page.len() && is_complete(#[trigger] page[b]) ==> has_url(acc, page[b].url),
    ensures
        absorb_page(acc, page) == acc,
    decreases page.len(),
{
    if page.len() > 0 {
        let front = page.drop_last();
        assert forall|b: int| 0 <= b < front.len() && is_complete(#[trigger] front[b]) implies has_url(
            acc,
            front[b].url,
        ) by {
            assert(front[b] == page[b]);
        }
        lemma_absorb_nothing(acc, front);
        assert(page.last() == page[page.len() - 1]);
    }
}

/// A visit keeps a collector consistent.
proof fn lemma_visit_consistent(c: CollectorView, page: Seq<JobView>)
    requires
        consistent(c),
    ensures
        consistent(visit(c, page)),
{
    let a = step_view(c, EventView::Loaded);
    lemma_step_consistent(c, EventView::Loaded);
    let b = step_view(a, EventView::Extracted(page));
    lemma_step_consistent(a, EventView::Extracted(page));
    lemma_step_consistent(b, EventView::Advanced);
}

/// A run keeps a collector consistent.
pub proof fn lemma_run_consistent(c: CollectorView, pages: Seq<Seq<JobView>>)
    requires
        consistent(c),
    ensures
        consistent(run(c, pages)),
        distinct_urls(run(c, pages).jobs),
    decreases pages.len(),
{
    if pages.len() > 0 && c.state is Loading {
        lemma_visit_consistent(c, pages[0]);
        lemma_run_consistent(visit(c, pages[0]), pages.drop_first());
    }
}

/// The bound of `lemma_run_stops`, for a run that resumes after `m` visits.
proof fn lemma_run_bound(c: CollectorView, all: Seq<Seq<JobView>>, m: int, k: int)
    requires
        consistent(c),
        0 <= k,
        dry_after(all, k),
        0 <= m <= all.len(),
        c.state is Loading || c.state is Terminated,
        c.state is Terminated ==> c.visited <= k + 2,
        c.state is Loading ==> {
            &&& c.visited == m
            &&& m <= k + 1
            &&& m == k + 1 ==> c.stale >= 1
            &&& forall|url: Seq<char>| shown(all, m, url) ==> has_url(c.jobs, url)
        },
    ensures
        run(c, all.skip(m)).visited <= k + 2,
        k + 2 <= all.len() ==> run(c, all.skip(m)).state is Terminated,
    decreases all.len() - m,
{
    if c.state is Loading && m < all.len() {
        let pages = all.skip(m);
        let page = pages[0];
        assert(page == all[m]);
        let next = visit(c, page);
        lemma_visit_consistent(c, page);
        let jobs = absorb_page(c.jobs, page);
        assert(next.jobs == jobs);
        if m >= k {
            assert forall|b: int| 0 <= b < page.len() && is_complete(#[trigger] page[b]) implies has_url(
                c.jobs,
                page[b].url,
            ) by {
                assert(is_complete(all[m][b]));
                let url = all[m][b].url;
                assert(shown(all, k, url));
                let (a0, b0) = choose|a0: int, b0: int|
                    0 <= a0 < k && a0 < all.len() && 0 <= b0 < all[a0].len() && is_complete(
                        #[trigger] all[a0][b0],
                    ) && all[a0][b0].url == url;
                assert(shown(all, m, url));
            }
            lemma_absorb_nothing(c.jobs, page);
        }
        if next.state is Loading {
            assert forall|url: Seq<char>| shown(all, m + 1, url) implies has_url(next.jobs, url) by {
                let (a0, b0) = choose|a0: int, b0: int|
                    0 <= a0 < m + 1 && a0 < all.len() && 0 <= b0 < all[a0].len() && is_complete(
                        #[trigger] all[a0][b0],
                    ) && all[a0][b0].url == url;
                lemma_absorb_urls(c.jobs, page, url);
                if a0 < m {
                    assert(shown(all, m, url));
                } else {
                    assert(is_complete(page[b0]) && page[b0].url == url);
                }
            }
        }
        assert(pages.drop_first() =~= all.skip(m + 1));
        lemma_run_bound(next, all, m + 1, k);
    } else {
        assert(run(c, all.skip(m)) == c);
    }
}

/// Against a source whose pages after the first `k` show no url that the
/// first `k` did not show, collection makes at most `k + 2` visits, whatever
/// the budget, and has ended by then if the source showed that many pages.
pub proof fn lemma_run_stops(pages: Seq<Seq<JobView>>, budget: nat, k: nat)
    requires
        budget <= usize::MAX,
        dry_after(pages, k as int),
    ensures
        run(initial(budget), pages).visited <= k + 2,
        k + 2 <= pages.len() ==> run(initial(budget), pages).state is Terminated,
{
    let c = initial(budget);
    assert(pages.skip(0) =~= pages);
    assert forall|url: Seq<char>| shown(pages, 0, url) implies has_url(c.jobs, url) by {
    }
    lemma_run_bound(c, pages, 0, k as int);
}

/// Runs a collector with the page budget `total_pages` over snapshots that
/// were taken beforehand: `pages[i]` holds the candidates of page `i + 1`.
pub fn collect_pages(pages: Vec<Vec<Job>>, total_pages: usize) -> (collector: PageCollector)
    ensures
        collector.wf(),
        collector@ == run(initial(total_pages as nat), page_views(pages@)),
        distinct_urls(collector@.jobs),
{
    let mut collector = PageCollector::new(total_pages);
    let ghost all = page_views(pages@);
    proof {
        assert(all.skip(0) =~= all);
        lemma_run_consistent(initial(total_pages as nat), all);
    }
    for page in it: pages
        invariant
            it.seq() == pages@,
            all == page_views(pages@),
            collector.wf(),
            run(collector@, all.skip(it.index() as int)) == run(initial(total_pages as nat), all),
    {
        let ghost k = it.index() as int;
        let ghost before = collector@;
        proof {
            assert(all.skip(k)[0] == views(page@));
            assert(all.skip(k).drop_first() =~= all.skip(k + 1));
        }
        if collector.is_terminated() {
            proof {
                lemma_run_idle(before, all.skip(k));
                lemma_run_idle(before, all.skip(k + 1));
            }
        } else {
            proof {
                collector.lemma_wf_consistent();
            }
            match collector.state() {
                CollectorState::Loading(_) => {
                    collector.step(CollectorEvent::Loaded);
                    collector.step(CollectorEvent::Extracted(page));
                    collector.step(CollectorEvent::Advanced);
                },
                _ => {
                    proof {
                        lemma_run_idle(before, all.skip(k));
                        lemma_run_idle(before, all.skip(k + 1));
                    }
                },
            }
        }
    }
    proof {
        assert(all.skip(all.len() as int) =~= Seq::empty());
    }
    collector
}

/// A collector that does not wait for a snapshot is left as it is by a run.
proof fn lemma_run_idle(c: CollectorView, pages: Seq<Seq<JobView>>)
    requires
        !(c.state is Loading),
    ensures
        run(c, pages) == c,
{
}

} // verus!
