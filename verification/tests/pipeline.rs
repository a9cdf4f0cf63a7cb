use jd_crawler::error::CrawlError;
use jd_crawler::models::Job;
use jd_crawler::pipeline::{
    copy_jobs, Crawler, CrawlPipeline, DetailCrawler, DetailFetcherConfig, JobEnricher,
    PipelineWithJobs,
};
use jd_crawler::stage::{settle_all, Completion, Details, Gathered, Rating};

fn job(n: u32) -> Job {
    Job::new(format!("T{}", n), format!("C{}", n), "경력".to_string(), format!("u{}", n))
}

struct Source {
    listing: Option<usize>,
    details_fail_at: DetailMode,
}

enum DetailMode {
    StageFails,
    EveryFetchFails,
    FetchFailsFor(u32),
}

impl Crawler for Source {
    fn start_crawl(&self) -> Result<Vec<Job>, CrawlError> {
        match self.listing {
            Some(n) => Ok((1..=n as u32).map(job).collect()),
            None => Err(CrawlError::new("listing navigation failed".to_string())),
        }
    }
}

impl DetailCrawler for Source {
    fn fetch_details(
        &self,
        jobs: Vec<Job>,
        _config: DetailFetcherConfig,
    ) -> Result<Vec<Job>, CrawlError> {
        let failing = match self.details_fail_at {
            DetailMode::StageFails => {
                return Err(CrawlError::new("tab creation failed".to_string()))
            }
            DetailMode::EveryFetchFails => None,
            DetailMode::FetchFailsFor(n) => Some(n),
        };
        let completions: Vec<Completion> = jobs
            .iter()
            .enumerate()
            .map(|(i, j)| Completion {
                url: j.url.clone(),
                outcome: match failing {
                    Some(n) if n != i as u32 + 1 => Ok(Gathered::Details(Details {
                        deadline: Some("soon".to_string()),
                        location: None,
                    })),
                    _ => Err(CrawlError::new("timeout".to_string())),
                },
            })
            .collect();
        Ok(settle_all(&jobs, &completions).jobs)
    }
}

struct Ratings {
    works: bool,
}

impl JobEnricher for Ratings {
    fn start_enrich(&self, jobs: &Vec<Job>) -> Result<Vec<Job>, CrawlError> {
        if !self.works {
            return Err(CrawlError::new("browser did not start".to_string()));
        }
        let completions: Vec<Completion> = jobs
            .iter()
            .map(|j| Completion {
                url: j.url.clone(),
                outcome: Ok(Gathered::Rating(Rating {
                    rating: Some("4.0".to_string()),
                    review_count: Some(12),
                })),
            })
            .collect();
        Ok(settle_all(jobs, &completions).jobs)
    }
}

fn config() -> DetailFetcherConfig {
    DetailFetcherConfig { thread_count: 2, includes: vec!["deadline"] }
}

fn snapshot(jobs: &[Job]) -> Vec<(String, Option<String>, Option<String>, Option<u32>)> {
    jobs.iter()
        .map(|j| (j.url.clone(), j.deadline.clone(), j.rating.clone(), j.review_count))
        .collect()
}

#[test]
fn failed_listing_fails_the_pipeline() {
    let source = Source { listing: None, details_fail_at: DetailMode::StageFails };
    match CrawlPipeline::new().crawl(source) {
        Ok(_) => panic!("the listing fetch failed"),
        Err(e) => assert_eq!(e.message, "listing navigation failed"),
    }
}

#[test]
fn listing_starts_the_pipeline() {
    let source = Source { listing: Some(3), details_fail_at: DetailMode::StageFails };
    let pipeline = CrawlPipeline::default().crawl(source).unwrap();
    assert_eq!(pipeline.jobs().len(), 3);
    assert_eq!(pipeline.jobs()[2].url, "u3");
}

#[test]
fn failed_detail_stage_leaves_the_state() {
    let source = Source { listing: Some(4), details_fail_at: DetailMode::StageFails };
    let pipeline = CrawlPipeline::new().crawl(source).unwrap();
    let before = snapshot(pipeline.jobs());
    let pipeline = pipeline.fetch_details(config());
    assert_eq!(snapshot(pipeline.jobs()), before);
}

#[test]
fn every_detail_fetch_failing_leaves_the_state() {
    let source = Source { listing: Some(4), details_fail_at: DetailMode::EveryFetchFails };
    let pipeline = CrawlPipeline::new().crawl(source).unwrap();
    let before = snapshot(pipeline.jobs());
    let pipeline = pipeline.fetch_details(config());
    assert_eq!(snapshot(pipeline.jobs()), before);
    assert_eq!(pipeline.jobs()[0].title, "T1");
}

#[test]
fn stages_run_in_order_on_one_state() {
    let source = Source { listing: Some(5), details_fail_at: DetailMode::FetchFailsFor(3) };
    let pipeline = CrawlPipeline::new()
        .crawl(source)
        .unwrap()
        .fetch_details(config())
        .enrich(Ratings { works: true });
    let jobs = pipeline.into_jobs();
    assert_eq!(jobs.len(), 5);
    for (i, j) in jobs.iter().enumerate() {
        assert_eq!(j.url, format!("u{}", i + 1));
        assert_eq!(j.rating, Some("4.0".to_string()));
        assert_eq!(j.review_count, Some(12));
        if i == 2 {
            assert_eq!(j.deadline, None);
        } else {
            assert_eq!(j.deadline, Some("soon".to_string()));
        }
    }
}

#[test]
fn failed_enrichment_keeps_what_was_collected() {
    let source = Source { listing: Some(2), details_fail_at: DetailMode::FetchFailsFor(0) };
    let pipeline = CrawlPipeline::new().crawl(source).unwrap().fetch_details(config());
    let before = snapshot(pipeline.jobs());
    let pipeline = pipeline.enrich(Ratings { works: false });
    assert_eq!(snapshot(pipeline.jobs()), before);
    assert_eq!(pipeline.jobs()[0].deadline, Some("soon".to_string()));
    assert_eq!(pipeline.jobs()[0].rating, None);
}

#[test]
fn stage_outcome_is_taken_as_it_is() {
    let source = Source { listing: Some(1), details_fail_at: DetailMode::StageFails };
    let started = PipelineWithJobs::from_listing(source, Ok(vec![job(1), job(2)])).unwrap();
    let next = started.after_stage(Ok(vec![job(7)]));
    assert_eq!(next.jobs().len(), 1);
    assert_eq!(next.jobs()[0].url, "u7");
    let next = next.after_stage(Err(CrawlError::new("x".to_string())));
    assert_eq!(next.jobs()[0].url, "u7");
    let next = next.after_stage(Ok(Vec::new()));
    assert!(next.jobs().is_empty());
}

#[test]
fn copies_equal_the_records() {
    let mut a = job(1);
    a.deadline = Some("d".to_string());
    a.review_count = Some(5);
    let copies = copy_jobs(&vec![a.clone(), job(2)]);
    assert_eq!(copies.len(), 2);
    assert_eq!(copies[0].deadline, Some("d".to_string()));
    assert_eq!(copies[0].review_count, Some(5));
    assert_eq!(copies[1].url, "u2");
    assert!(copy_jobs(&Vec::new()).is_empty());
}
