//! The job record and its mathematical view.

use vstd::prelude::*;

verus! {

/// Mathematical view of an optional text field.
pub open spec fn opt_text(o: Option<String>) -> Option<Seq<char>> {
    match o {
        Some(s) => Some(s@),
        None => None,
    }
}

/// Mathematical view of a `Job`: every text field as a sequence of characters.
pub struct JobView {
    pub title: Seq<char>,
    pub company: Seq<char>,
    pub experience_years: Seq<char>,
    pub url: Seq<char>,
    pub deadline: Option<Seq<char>>,
    pub location: Option<Seq<char>>,
    pub rating: Option<Seq<char>>,
    pub review_count: Option<u32>,
}

/// One job posting. `url` identifies the record within a crawl session.
#[derive(Debug)]
pub struct Job {
    pub title: String,
    pub company: String,
    pub experience_years: String,
    pub url: String,
    pub deadline: Option<String>,
    pub location: Option<String>,
    pub rating: Option<String>,
    pub review_count: Option<u32>,
}

impl View for Job {
    type V = JobView;

    open spec fn view(&self) -> JobView {
        JobView {
            title: self.title@,
            company: self.company@,
            experience_years: self.experience_years@,
            url: self.url@,
            deadline: opt_text(self.deadline),
            location: opt_text(self.location),
            rating: opt_text(self.rating),
            review_count: self.review_count,
        }
    }
}

impl Job {
    /// A record with the four listing fields and every optional field absent.
    pub fn new(title: String, company: String, experience_years: String, url: String) -> (job: Job)
        ensures
            job@ == (JobView {
                title: title@,
                company: company@,
                experience_years: experience_years@,
                url: url@,
                deadline: None,
                location: None,
                rating: None,
                review_count: None,
            }),
    {
        Job {
            title,
            company,
            experience_years,
            url,
            deadline: None,
            location: None,
            rating: None,
            review_count: None,
        }
    }
}

impl Clone for Job {
    fn clone(&self) -> (copy: Job)
        ensures
            copy@ == self@,
    {
        Job {
            title: self.title.clone(),
            company: self.company.clone(),
            experience_years: self.experience_years.clone(),
            url: self.url.clone(),
            deadline: self.deadline.clone(),
            location: self.location.clone(),
            rating: self.rating.clone(),
            review_count: self.review_count,
        }
    }
}

/// The views of a sequence of records, in order.
pub open spec fn views(jobs: Seq<Job>) -> Seq<JobView> {
    jobs.map_values(|j: Job| j@)
}

/// A record that may enter the engine: title, company and url are present.
pub open spec fn is_complete(job: JobView) -> bool {
    job.title.len() > 0 && job.company.len() > 0 && job.url.len() > 0
}

/// Some record of `jobs` has the url `url`.
pub open spec fn has_url(jobs: Seq<JobView>, url: Seq<char>) -> bool {
    exists|i: int| 0 <= i < jobs.len() && (#[trigger] jobs[i]).url == url
}

/// No two records of `jobs` share a url.
pub open spec fn distinct_urls(jobs: Seq<JobView>) -> bool {
    forall|i: int, j: int|
        0 <= i < j < jobs.len() ==> (#[trigger] jobs[i]).url != (#[trigger] jobs[j]).url
}

/// The urls of `jobs`, as a set.
pub open spec fn url_set(jobs: Seq<JobView>) -> Set<Seq<char>> {
    Set::new(|url: Seq<char>| has_url(jobs, url))
}

impl Job {
    /// Whether title, company and url are all present.
    pub fn complete(&self) -> (r: bool)
        ensures
            r == is_complete(self@),
    {
        !self.title.as_str().is_empty() && !self.company.as_str().is_empty()
            && !self.url.as_str().is_empty()
    }
}

/// Settings shared by the listing crawlers.
#[derive(Debug)]
pub struct CrawlConfig {
    /// Number of listing pages to visit.
    pub total_pages: usize,
    /// Number of parallel workers.
    pub num_threads: usize,
    /// Lower bound of the experience filter, in years.
    pub min_years: u8,
    /// Upper bound of the experience filter, in years.
    pub max_years: u8,
}

impl Default for CrawlConfig {
    fn default() -> (config: CrawlConfig)
        ensures
            config.total_pages == 1,
            config.num_threads == 4,
            config.min_years == 0,
            config.max_years == 5,
    {
        CrawlConfig { total_pages: 1, num_threads: 4, min_years: 0, max_years: 5 }
    }
}

impl Clone for CrawlConfig {
    fn clone(&self) -> (copy: CrawlConfig)
        ensures
            copy == *self,
    {
        CrawlConfig {
            total_pages: self.total_pages,
            num_threads: self.num_threads,
            min_years: self.min_years,
            max_years: self.max_years,
        }
    }
}

} // verus!
