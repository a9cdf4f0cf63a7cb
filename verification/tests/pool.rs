use jd_crawler::models::{CrawlConfig, Job};
use jd_crawler::pool::TabPool;
use jd_crawler::utils::{default_delays, random_delay, settle_delay};
use jd_crawler::writer::{header, to_rows};

#[test]
fn each_worker_has_its_own_tab() {
    let pool = TabPool::new(vec!["tab-0", "tab-1"], default_delays());
    assert_eq!(pool.size(), 2);
    assert_eq!(pool.tab_of(0), Some(&"tab-0"));
    assert_eq!(pool.tab_of(1), Some(&"tab-1"));
    assert_eq!(pool.tab_of(2), None);
    assert_eq!(pool.tab_of(usize::MAX), None);
    let empty: TabPool<u8> = TabPool::new(Vec::new(), Vec::new());
    assert_eq!(empty.size(), 0);
    assert_eq!(empty.tab_of(0), None);
}

#[test]
fn delay_is_one_of_the_configured() {
    let delays = default_delays();
    assert_eq!(delays, vec![1000, 1500, 2000]);
    let mut seen = [false; 3];
    for _ in 0..400 {
        let d = random_delay(&delays);
        let at = delays.iter().position(|x| *x == d).expect("a configured delay");
        seen[at] = true;
    }
    assert_eq!(seen, [true, true, true]);
    let pool = TabPool::new(vec![0u8], vec![250]);
    for _ in 0..20 {
        assert_eq!(pool.release_delay(), 250);
    }
}

#[test]
fn no_configured_delay_means_no_pause() {
    assert_eq!(random_delay(&Vec::new()), 0);
    assert_eq!(settle_delay(None), 0);
    assert_eq!(settle_delay(Some(1500)), 1500);
    let pool = TabPool::new(vec![0u8], Vec::new());
    assert_eq!(pool.release_delay(), 0);
}

#[test]
fn header_names_every_field_in_order() {
    assert_eq!(
        header(),
        vec![
            "title",
            "company",
            "experience_years",
            "url",
            "deadline",
            "location",
            "rating",
            "review_count"
        ]
    );
}

#[test]
fn absent_fields_are_empty_cells() {
    let bare = Job::new("T".to_string(), "C".to_string(), "신입".to_string(), "u".to_string());
    assert_eq!(bare.to_row(), vec!["T", "C", "신입", "u", "", "", "", ""]);
    let mut full = bare.clone();
    full.deadline = Some("2025-12-31".to_string());
    full.location = Some("서울".to_string());
    full.rating = Some("3.9".to_string());
    full.review_count = Some(1204);
    assert_eq!(
        full.to_row(),
        vec!["T", "C", "신입", "u", "2025-12-31", "서울", "3.9", "1204"]
    );
    full.review_count = Some(0);
    assert_eq!(full.to_row()[7], "0");
    let rows = to_rows(&vec![bare, full]);
    assert_eq!(rows.len(), 2);
    assert_eq!(rows[0][4], "");
    assert_eq!(rows[1][4], "2025-12-31");
    assert!(to_rows(&Vec::new()).is_empty());
}

#[test]
fn new_record_has_no_optional_field() {
    let job = Job::new("T".to_string(), "C".to_string(), "E".to_string(), "U".to_string());
    assert_eq!(job.title, "T");
    assert_eq!(job.company, "C");
    assert_eq!(job.experience_years, "E");
    assert_eq!(job.url, "U");
    assert_eq!(job.deadline, None);
    assert_eq!(job.location, None);
    assert_eq!(job.rating, None);
    assert_eq!(job.review_count, None);
    assert!(job.complete());
    assert!(!Job::new(String::new(), "C".to_string(), "E".to_string(), "U".to_string()).complete());
    assert!(!Job::new("T".to_string(), String::new(), "E".to_string(), "U".to_string()).complete());
    assert!(!Job::new("T".to_string(), "C".to_string(), "E".to_string(), String::new()).complete());
    assert!(Job::new("T".to_string(), "C".to_string(), String::new(), "U".to_string()).complete());
}

#[test]
fn default_crawl_config() {
    let config = CrawlConfig::default();
    assert_eq!(config.total_pages, 1);
    assert_eq!(config.num_threads, 4);
    assert_eq!(config.min_years, 0);
    assert_eq!(config.max_years, 5);
    let copy = config.clone();
    assert_eq!(copy.num_threads, 4);
}
