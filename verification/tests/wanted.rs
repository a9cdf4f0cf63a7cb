use jd_crawler::clients::wanted::{
    split_experience, split_location, WantedClient, WantedCrawlConfig, WantedJobCategory,
    WantedJobSubcategory,
};
use jd_crawler::crawler::{JobFieldExtractor, JobListInfiniteScrollCrawler};

fn card(href: &str, title: &str, company: &str, line: &str) -> String {
    format!(
        r#"<li><a href="{href}" data-position="1"><div class="JobCard_JobCard__thumb__x1"><img src="t.png"></div><div class="JobCard_JobCard__body__a9f3"><strong><span> {title} </span></strong><span class="co">{company}</span><span>{line}</span></div></a></li>"#
    )
}

fn page(cards: &[String]) -> String {
    format!(
        "<html><body><nav><a href=\"/\">home</a></nav><ul data-cy=\"job-list\">{}</ul></body></html>",
        cards.join("")
    )
}

#[test]
fn category_codes() {
    assert_eq!(WantedJobCategory::Development.to_code(), 518);
    assert_eq!(WantedJobSubcategory::Frontend.to_code(), 669);
    assert_eq!(WantedJobSubcategory::Backend.to_code(), 872);
    assert_eq!(WantedJobSubcategory::Web.to_code(), 873);
    assert_eq!(WantedJobSubcategory::Android.to_code(), 677);
    assert_eq!(WantedJobSubcategory::IOS.to_code(), 678);
}

#[test]
fn default_config_and_client() {
    let config = WantedCrawlConfig::default();
    assert_eq!(config.total_pages, 1);
    assert_eq!(config.num_threads, 4);
    assert_eq!(config.min_years, 0);
    assert_eq!(config.max_years, 5);
    assert!(config.full_crawl);
    let client = WantedClient::default();
    assert_eq!(client.base_url, "https://www.wanted.co.kr");
    assert_eq!(client.category, WantedJobCategory::Development);
    assert_eq!(client.subcategory, WantedJobSubcategory::Frontend);
}

#[test]
fn listing_url() {
    let client = WantedClient::new(WantedJobCategory::Development, WantedJobSubcategory::Frontend);
    assert_eq!(
        client.build_url(&WantedCrawlConfig::default()),
        "https://www.wanted.co.kr/wdlist/518/669?country=kr&job_sort=job.recommend_order&years=0&years=5&locations=all"
    );
    let client = WantedClient::new(WantedJobCategory::Development, WantedJobSubcategory::Backend);
    let config = WantedCrawlConfig { min_years: 3, max_years: 10, ..WantedCrawlConfig::default() };
    assert_eq!(
        client.build_url(&config),
        "https://www.wanted.co.kr/wdlist/518/872?country=kr&job_sort=job.recommend_order&years=3&years=10&locations=all"
    );
}

#[test]
fn experience_is_what_follows_the_separator() {
    assert_eq!(split_experience("서울 강남구∙경력 4년 이상"), "경력 4년 이상");
    assert_eq!(split_experience("서울 강남구 · 신입"), "신입");
    assert_eq!(split_experience("판교 • 경력 1-3년 • 정규직"), "경력 1-3년");
    assert_eq!(split_experience("서울/경력 2년"), "경력 2년");
    assert_eq!(split_experience("서울 | 경력"), "경력");
    assert_eq!(split_experience("서울 강남구"), "서울 강남구");
    assert_eq!(split_experience("서울∙"), "");
    assert_eq!(split_experience(""), "");
    // The separators are tried in a fixed order, not by position.
    assert_eq!(split_experience("a/b·c"), "c");
}

#[test]
fn location_is_what_precedes_the_separator() {
    assert_eq!(split_location("서울 강남구∙경력 4년 이상"), "서울 강남구");
    assert_eq!(split_location("서울 강남구 · 신입"), "서울 강남구");
    assert_eq!(split_location("판교 • 경력 1-3년"), "판교");
    assert_eq!(split_location("서울/경력 2년"), "서울");
    assert_eq!(split_location(" 서울 | 경력"), "서울");
    assert_eq!(split_location("서울 강남구"), "서울 강남구");
    assert_eq!(split_location("∙경력"), "");
    assert_eq!(split_location("a/b·c"), "a/b");
}

#[test]
fn splits_agree_with_std() {
    let seps = ['∙', '·', '•', '/', '|'];
    let lines = ["서울∙경력", "a·b·c", "x • y", "p/q/r", "m|n", "none", "", "a/b·c", "∙", "a|b/c"];
    for line in lines {
        let mut experience = line.to_string();
        for sep in seps {
            if let Some(e) = line.split(sep).nth(1) {
                experience = e.trim().to_string();
                break;
            }
        }
        let mut location = line.to_string();
        for sep in seps {
            if line.contains(sep) {
                location = line.split(sep).next().unwrap().trim().to_string();
                break;
            }
        }
        assert_eq!(split_experience(line), experience, "{:?}", line);
        assert_eq!(split_location(line), location, "{:?}", line);
    }
}

#[test]
fn fields_of_one_card_body() {
    let client = WantedClient::default();
    let body = r#"<div class="JobCard_JobCard__body__a9f3"><span> 웹 프론트엔드 개발자 </span><span>현대 오토에버</span><span>서울 강남구∙경력 4년 이상</span></div>"#;
    assert_eq!(client.extract_title(body), Some("웹 프론트엔드 개발자".to_string()));
    assert_eq!(client.extract_company(body), Some("현대 오토에버".to_string()));
    assert_eq!(client.extract_experience_years(body), Some("경력 4년 이상".to_string()));
    assert_eq!(client.extract_location(body), Some("서울 강남구".to_string()));
    assert_eq!(client.extract_url(body), None);
    assert_eq!(client.extract_deadline(body), None);
    let two = r#"<div><span>a</span><span>b</span></div>"#;
    assert_eq!(client.extract_experience_years(two), None);
    assert_eq!(client.extract_location(two), None);
}

#[test]
fn snapshot_yields_one_record_per_card() {
    let client = WantedClient::default();
    let html = page(&[
        card("/wd/101", "웹 프론트엔드 개발자", "현대 오토에버", "서울 강남구∙경력 4년 이상"),
        card("/wd/102", "Backend Engineer", "Bolt", "판교 · 신입"),
    ]);
    let jobs = client.parse_all_jobs(&html);
    assert_eq!(jobs.len(), 2);
    assert_eq!(jobs[0].title, "웹 프론트엔드 개발자");
    assert_eq!(jobs[0].company, "현대 오토에버");
    assert_eq!(jobs[0].experience_years, "경력 4년 이상");
    assert_eq!(jobs[0].location, Some("서울 강남구".to_string()));
    assert_eq!(jobs[0].url, "https://www.wanted.co.kr/wd/101");
    assert_eq!(jobs[0].deadline, None);
    assert_eq!(jobs[1].title, "Backend Engineer");
    assert_eq!(jobs[1].experience_years, "신입");
    assert_eq!(jobs[1].location, Some("판교".to_string()));
    assert_eq!(jobs[1].url, "https://www.wanted.co.kr/wd/102");
}

#[test]
fn cards_without_mandatory_fields_are_dropped() {
    let client = WantedClient::default();
    let orphan = r#"<div class="JobCard_JobCard__body__zz"><span>No link</span><span>Co</span><span>서울∙신입</span></div>"#.to_string();
    let no_href = r#"<a><div class="JobCard_JobCard__body__zz"><span>No href</span><span>Co</span><span>서울∙신입</span></div></a>"#.to_string();
    let html = page(&[
        card("/wd/1", "A", "Acme", "서울∙신입"),
        card("/wd/2", "B", "", "서울∙신입"),
        card("/wd/3", "", "Core", "서울∙신입"),
        orphan,
        no_href,
        card("/wd/4", "D", "Dune", "서울∙신입"),
        card("/wd/5", "E", "Echo", "서울∙신입"),
    ]);
    let jobs = client.parse_all_jobs(&html);
    let titles: Vec<&str> = jobs.iter().map(|j| j.title.as_str()).collect();
    assert_eq!(titles, vec!["A", "D", "E"]);
}

#[test]
fn snapshot_without_cards_is_empty() {
    let client = WantedClient::default();
    assert!(client.parse_all_jobs("<html><body><a href=\"/x\">x</a></body></html>").is_empty());
    assert!(client.parse_all_jobs("").is_empty());
}

#[test]
fn link_yields_its_card_bodies() {
    let client = WantedClient::default();
    let anchor = r#"<a href="/wd/7"><div class="JobCard_JobCard__body__q"><span>T</span><span>C</span><span>서울</span></div></a>"#;
    let jobs = client.parse_link(anchor);
    assert_eq!(jobs.len(), 1);
    assert_eq!(jobs[0].url, "https://www.wanted.co.kr/wd/7");
    assert_eq!(jobs[0].experience_years, "서울");
    assert_eq!(jobs[0].location, Some("서울".to_string()));
    assert!(client.parse_link(r#"<a href="/wd/8"><span>plain</span></a>"#).is_empty());
}

#[test]
fn detail_page_gives_deadline_and_short_location() {
    let client = WantedClient::default();
    let html = r#"<html><body>
        <article class="JobDueTime_root__1"><h2>마감일</h2><span> 2025.12.31 </span><span>extra</span></article>
        <div class="JobWorkPlace_JobWorkPlace__map__location__x"> 서울특별시 강남구 테헤란로 123길 45, 6층 </div>
        </body></html>"#;
    let details = client.parse_detail(html);
    assert_eq!(details.deadline, Some("2025.12.31".to_string()));
    assert_eq!(details.location, Some("서울특별시 강남구 테헤란로 1".to_string()));
    assert_eq!(
        client.extract_deadline(r#"<article class="x JobDueTime y"><span>상시채용</span></article>"#),
        Some("상시채용".to_string())
    );
}

#[test]
fn detail_page_without_fields_gives_none() {
    let client = WantedClient::default();
    let details = client.parse_detail("<html><body><p>gone</p></body></html>");
    assert_eq!(details.deadline, None);
    assert_eq!(details.location, None);
    let blank = r#"<article class="JobDueTime"><span>  </span></article><div class="JobWorkPlace__map__location">   </div>"#;
    let details = client.parse_detail(blank);
    assert_eq!(details.deadline, None);
    assert_eq!(details.location, None);
}

#[test]
fn excluded_titles_are_dropped() {
    let client = WantedClient::default().excluding(vec!["IOS", "안드로이드", "5년 이상"]);
    assert_eq!(client.exclude_keywords, vec!["IOS", "안드로이드", "5년 이상"]);
    let html = page(&[
        card("/wd/1", "iOS 개발자", "Acme", "서울∙신입"),
        card("/wd/2", "Frontend Developer", "Bolt", "서울∙신입"),
        card("/wd/3", "안드로이드 엔지니어", "Core", "서울∙신입"),
        card("/wd/4", "프론트엔드 (5년 이상)", "Dune", "서울∙경력"),
    ]);
    let jobs = client.parse_all_jobs(&html);
    assert_eq!(jobs.len(), 1);
    assert_eq!(jobs[0].title, "Frontend Developer");
    assert_eq!(WantedClient::default().parse_all_jobs(&html).len(), 4);
}
