use std::sync::atomic::{AtomicBool, AtomicUsize, Ordering};

use jd_crawler::error::CrawlError;
use jd_crawler::models::Job;
use jd_crawler::pool::TabPool;
use jd_crawler::stage::{settle, settle_all, Completion, Details, Gathered, Rating};
use rayon::iter::{IntoParallelRefIterator, ParallelIterator};

fn job(n: u32) -> Job {
    let mut job = Job::new(
        format!("Title {}", n),
        format!("Company {}", n),
        "신입".to_string(),
        format!("https://jobs.example/{}", n),
    );
    job.location = Some("서울".to_string());
    job
}

fn five() -> Vec<Job> {
    (1..=5).map(job).collect()
}

fn fetched(n: u32) -> Completion {
    Completion {
        url: format!("https://jobs.example/{}", n),
        outcome: Ok(Gathered::Details(Details {
            deadline: Some(format!("2025-12-{:02}", n)),
            location: None,
        })),
    }
}

fn failed(n: u32, why: &str) -> Completion {
    Completion {
        url: format!("https://jobs.example/{}", n),
        outcome: Err(CrawlError::new(why.to_string())),
    }
}

fn same(a: &Job, b: &Job) -> bool {
    a.title == b.title
        && a.company == b.company
        && a.experience_years == b.experience_years
        && a.url == b.url
        && a.deadline == b.deadline
        && a.location == b.location
        && a.rating == b.rating
        && a.review_count == b.review_count
}

#[test]
fn details_are_merged_into_a_new_record() {
    let before = job(1);
    let after = before.with_details(&Details {
        deadline: Some("2025-12-31".to_string()),
        location: Some("판교".to_string()),
    });
    assert_eq!(after.deadline, Some("2025-12-31".to_string()));
    assert_eq!(after.location, Some("판교".to_string()));
    assert_eq!(after.title, before.title);
    assert_eq!(after.url, before.url);
    // The input is untouched.
    assert_eq!(before.deadline, None);
    assert_eq!(before.location, Some("서울".to_string()));
}

#[test]
fn absent_detail_keeps_the_record_field() {
    let before = job(1);
    let after = before.with_details(&Details { deadline: None, location: None });
    assert!(same(&before, &after));
    let after = before.with_details(&Details { deadline: Some("d".to_string()), location: None });
    assert_eq!(after.location, Some("서울".to_string()));
    assert_eq!(after.deadline, Some("d".to_string()));
}

#[test]
fn rating_replaces_both_parts() {
    let mut before = job(1);
    before.rating = Some("1.0".to_string());
    before.review_count = Some(9);
    let after =
        before.with_rating(&Rating { rating: Some("4.2".to_string()), review_count: None });
    assert_eq!(after.rating, Some("4.2".to_string()));
    assert_eq!(after.review_count, None);
    assert_eq!(after.location, before.location);
    let after = before.merged(&Gathered::Rating(Rating { rating: None, review_count: Some(3) }));
    assert_eq!(after.rating, None);
    assert_eq!(after.review_count, Some(3));
    assert_eq!(before.rating, Some("1.0".to_string()));
}

#[test]
fn one_failed_fetch_leaves_its_record_and_updates_the_others() {
    // Two tabs, five records: completions arrive out of order, the third fails.
    let jobs = five();
    let completions = vec![
        fetched(2),
        fetched(1),
        failed(3, "navigation timed out"),
        fetched(5),
        fetched(4),
    ];
    let output = settle_all(&jobs, &completions);
    assert_eq!(output.jobs.len(), 5);
    for (i, out) in output.jobs.iter().enumerate() {
        assert_eq!(out.url, jobs[i].url);
    }
    assert!(same(&output.jobs[2], &jobs[2]));
    for i in [0usize, 1, 3, 4] {
        assert_eq!(output.jobs[i].deadline, Some(format!("2025-12-{:02}", i + 1)));
        assert_eq!(output.jobs[i].location, Some("서울".to_string()));
        assert_eq!(output.jobs[i].title, jobs[i].title);
    }
    assert_eq!(output.failures.len(), 1);
    assert_eq!(output.failures[0].url, "https://jobs.example/3");
    assert_eq!(output.failures[0].message, "navigation timed out");
}

#[test]
fn output_size_equals_input_size() {
    let empty = settle_all(&Vec::new(), &vec![fetched(1)]);
    assert!(empty.jobs.is_empty());
    assert!(empty.failures.is_empty());
    for n in [1usize, 2, 5] {
        let jobs: Vec<Job> = (1..=n as u32).map(job).collect();
        assert_eq!(settle_all(&jobs, &Vec::new()).jobs.len(), n);
        assert_eq!(settle_all(&jobs, &vec![fetched(1), fetched(9), failed(2, "x")]).jobs.len(), n);
    }
}

#[test]
fn every_fetch_failed_leaves_every_record() {
    let jobs = five();
    let completions: Vec<Completion> = (1..=5).map(|n| failed(n, "connection reset")).collect();
    let output = settle_all(&jobs, &completions);
    assert_eq!(output.jobs.len(), 5);
    for i in 0..5 {
        assert!(same(&output.jobs[i], &jobs[i]));
    }
    assert_eq!(output.failures.len(), 5);
    for (i, event) in output.failures.iter().enumerate() {
        assert_eq!(event.url, jobs[i].url);
        assert_eq!(event.message, "connection reset");
    }
}

#[test]
fn record_without_completion_passes_through_with_an_event() {
    let jobs = five();
    let output = settle_all(&jobs, &vec![fetched(1)]);
    assert_eq!(output.jobs[0].deadline, Some("2025-12-01".to_string()));
    for i in 1..5 {
        assert!(same(&output.jobs[i], &jobs[i]));
    }
    assert_eq!(output.failures.len(), 4);
    assert_eq!(output.failures[0].url, "https://jobs.example/2");
    assert_eq!(output.failures[0].message, "no completion");
}

#[test]
fn first_completion_for_a_url_counts() {
    let jobs = vec![job(1)];
    let output = settle_all(&jobs, &vec![failed(1, "first"), fetched(1)]);
    assert!(same(&output.jobs[0], &jobs[0]));
    assert_eq!(output.failures[0].message, "first");
    let output = settle_all(&jobs, &vec![fetched(1), failed(1, "late")]);
    assert_eq!(output.jobs[0].deadline, Some("2025-12-01".to_string()));
    assert!(output.failures.is_empty());
}

#[test]
fn settle_one_record() {
    let (after, event) = settle(&job(2), &vec![fetched(1), fetched(2)]);
    assert_eq!(after.deadline, Some("2025-12-02".to_string()));
    assert!(event.is_none());
    let (after, event) = settle(&job(2), &vec![failed(2, "tab crashed")]);
    assert!(same(&after, &job(2)));
    let event = event.unwrap();
    assert_eq!(event.url, "https://jobs.example/2");
    assert_eq!(event.message, "tab crashed");
}

#[test]
fn error_carries_its_text() {
    let error = CrawlError::new("tab creation failed".to_string());
    assert_eq!(error.describe(), "tab creation failed");
    assert_eq!(error.clone().message, "tab creation failed");
}

struct FakeTab {
    busy: AtomicBool,
    fetches: AtomicUsize,
}

impl FakeTab {
    fn new() -> Self {
        FakeTab { busy: AtomicBool::new(false), fetches: AtomicUsize::new(0) }
    }
}

#[test]
fn pool_of_two_tabs_settles_five_records() {
    let pool = TabPool::new(vec![FakeTab::new(), FakeTab::new()], vec![0]);
    let threads = rayon::ThreadPoolBuilder::new().num_threads(pool.size()).build().unwrap();
    let jobs = five();
    let completions: Vec<Completion> = threads.install(|| {
        jobs.par_iter()
            .map(|job| {
                let worker = rayon::current_thread_index().unwrap();
                let tab = pool.tab_of(worker).expect("one tab for each worker");
                assert!(!tab.busy.swap(true, Ordering::SeqCst), "a tab was driven by two workers");
                tab.fetches.fetch_add(1, Ordering::SeqCst);
                let outcome = if job.url.ends_with("/3") {
                    Err(CrawlError::new("navigation timed out".to_string()))
                } else {
                    Ok(Gathered::Details(Details {
                        deadline: Some("상시채용".to_string()),
                        location: Some("판교".to_string()),
                    }))
                };
                assert_eq!(pool.release_delay(), 0);
                tab.busy.store(false, Ordering::SeqCst);
                Completion { url: job.url.clone(), outcome }
            })
            .collect()
    });
    let fetches: usize =
        (0..2).map(|w| pool.tab_of(w).unwrap().fetches.load(Ordering::SeqCst)).sum();
    assert_eq!(fetches, 5);

    let output = settle_all(&jobs, &completions);
    assert_eq!(output.jobs.len(), 5);
    for (i, out) in output.jobs.iter().enumerate() {
        assert_eq!(out.url, jobs[i].url);
        if i == 2 {
            assert!(same(out, &jobs[i]));
        } else {
            assert_eq!(out.deadline, Some("상시채용".to_string()));
            assert_eq!(out.location, Some("판교".to_string()));
            assert_eq!(out.title, jobs[i].title);
        }
    }
    assert_eq!(output.failures.len(), 1);
    assert_eq!(output.failures[0].url, "https://jobs.example/3");
}
