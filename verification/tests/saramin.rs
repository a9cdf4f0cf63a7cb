use jd_crawler::clients::saramin::{SaraminClient, SaraminCrawlConfig, SaraminJobCategory};
use jd_crawler::crawler::{JobFieldExtractor, JobListPaginatedCrawler};

fn client(exclude_keywords: Vec<&'static str>) -> SaraminClient {
    SaraminClient::new(SaraminCrawlConfig {
        category: SaraminJobCategory::Frontend,
        total_pages: 3,
        thread_count: 2,
        exclude_keywords,
    })
}

fn card(title: &str, href: &str, company: &str, place: &str, years: &str, date: &str) -> String {
    format!(
        r#"<div class="item_recruit">
             <div class="area_job">
               <h2 class="job_tit"><a title="{title}" href="{href}"><span>{title}</span></a></h2>
               <div class="job_date"><span class="date"> {date} </span></div>
               <div class="job_condition">
                 <span><a href="/zf_user/x">서울</a> <a href="/zf_user/y"> {place} </a></span>
                 <span> {years} </span>
                 <span>대졸</span>
               </div>
             </div>
             <div class="area_corp"><strong class="corp_name"><a href="/corp"> {company} </a></strong></div>
           </div>"#
    )
}

fn page(cards: &[String]) -> String {
    format!(
        "<html><head><title>검색</title></head><body><div id=\"recruit_info_list\">{}</div></body></html>",
        cards.join("\n")
    )
}

#[test]
fn category_word_and_default_config() {
    assert_eq!(SaraminJobCategory::Frontend.to_word(), "프론트엔드");
    let config = SaraminCrawlConfig::default();
    assert_eq!(config.category, SaraminJobCategory::Frontend);
    assert_eq!(config.total_pages, 1);
    assert_eq!(config.thread_count, 1);
    assert!(config.exclude_keywords.is_empty());
}

#[test]
fn search_and_page_urls() {
    let c = client(vec![]);
    assert_eq!(c.base_url, "https://www.saramin.co.kr");
    assert_eq!(
        c.search_url(),
        "https://www.saramin.co.kr/zf_user/search/recruit?searchword=프론트엔드"
    );
    assert_eq!(c.build_page_url("https://x/search?searchword=a", 1), "https://x/search?searchword=a&recruitPage=1");
    assert_eq!(c.build_page_url("base", 27), "base&recruitPage=27");
    assert_eq!(c.build_page_url("", 0), "&recruitPage=0");
}

#[test]
fn fields_of_one_card() {
    let c = client(vec![]);
    let html = card("프론트엔드 개발자", "/zf_user/jobs/view?rec_idx=1", "현대오토에버", "강남구", "경력 3년↑", "~ 11/30(목)");
    assert_eq!(c.extract_title(&html), Some("프론트엔드 개발자".to_string()));
    assert_eq!(c.extract_company(&html), Some("현대오토에버".to_string()));
    assert_eq!(c.extract_experience_years(&html), Some("경력 3년↑".to_string()));
    assert_eq!(
        c.extract_url(&html),
        Some("https://www.saramin.co.kr/zf_user/jobs/view?rec_idx=1".to_string())
    );
    assert_eq!(c.extract_deadline(&html), Some("~ 11/30(목)".to_string()));
    assert_eq!(c.extract_location(&html), Some("서울 강남구".to_string()));
}

#[test]
fn fields_absent_from_a_card() {
    let c = client(vec![]);
    let html = r#"<div class="item_recruit"><p>empty</p></div>"#;
    assert_eq!(c.extract_title(html), None);
    assert_eq!(c.extract_company(html), None);
    assert_eq!(c.extract_experience_years(html), None);
    assert_eq!(c.extract_url(html), None);
    assert_eq!(c.extract_deadline(html), None);
    assert_eq!(c.extract_location(html), None);

    let no_title_attr = r#"<h2 class="job_tit"><a href="/x">text</a></h2>"#;
    assert_eq!(c.extract_title(no_title_attr), None);
    assert_eq!(c.extract_url(no_title_attr), Some("https://www.saramin.co.kr/x".to_string()));

    let one_condition = r#"<div class="job_condition"><span>plain</span></div>"#;
    assert_eq!(c.extract_experience_years(one_condition), None);
    assert_eq!(c.extract_location(one_condition), Some(String::new()));
}

#[test]
fn page_yields_one_record_per_card() {
    let c = client(vec![]);
    let html = page(&[
        card("Frontend Engineer", "/jobs/1", "Acme", "강남구", "신입", "~ 12/01"),
        card("React Developer", "/jobs/2", "Bolt", "판교", "경력 2년", "상시채용"),
    ]);
    let jobs = c.parse_html(&html);
    assert_eq!(jobs.len(), 2);
    assert_eq!(jobs[0].title, "Frontend Engineer");
    assert_eq!(jobs[0].company, "Acme");
    assert_eq!(jobs[0].experience_years, "신입");
    assert_eq!(jobs[0].url, "https://www.saramin.co.kr/jobs/1");
    assert_eq!(jobs[0].deadline, Some("~ 12/01".to_string()));
    assert_eq!(jobs[0].location, Some("서울 강남구".to_string()));
    assert_eq!(jobs[0].rating, None);
    assert_eq!(jobs[0].review_count, None);
    assert_eq!(jobs[1].title, "React Developer");
    assert_eq!(jobs[1].url, "https://www.saramin.co.kr/jobs/2");
}

#[test]
fn five_cards_one_without_company_give_four_records() {
    let c = client(vec![]);
    let mut cards = vec![
        card("A", "/jobs/1", "Acme", "강남구", "신입", "d"),
        card("B", "/jobs/2", "Bolt", "강남구", "신입", "d"),
        card("C", "/jobs/3", "", "강남구", "신입", "d"),
        card("D", "/jobs/4", "Dune", "강남구", "신입", "d"),
        card("E", "/jobs/5", "Echo", "강남구", "신입", "d"),
    ];
    cards[2] = cards[2].replace(r#"<strong class="corp_name"><a href="/corp">  </a></strong>"#, "");
    let jobs = c.parse_html(&page(&cards));
    assert_eq!(jobs.len(), 4);
    let titles: Vec<&str> = jobs.iter().map(|j| j.title.as_str()).collect();
    assert_eq!(titles, vec!["A", "B", "D", "E"]);
}

#[test]
fn excluded_keywords_drop_cards_whatever_the_case() {
    let c = client(vec!["IOS", "안드로이드", "5년 이상"]);
    let html = page(&[
        card("Senior iOS Developer", "/jobs/1", "Acme", "강남구", "경력", "d"),
        card("프론트엔드 (경력 5년 이상)", "/jobs/2", "Bolt", "강남구", "경력", "d"),
        card("안드로이드 앱 개발", "/jobs/3", "Core", "강남구", "경력", "d"),
        card("Frontend Developer", "/jobs/4", "Dune", "강남구", "경력", "d"),
        card("VISIOSOFT web", "/jobs/5", "Echo", "강남구", "경력", "d"),
    ]);
    let jobs = c.parse_html(&html);
    let titles: Vec<&str> = jobs.iter().map(|j| j.title.as_str()).collect();
    assert_eq!(titles, vec!["Frontend Developer"]);
}

#[test]
fn page_without_cards_is_empty() {
    let c = client(vec![]);
    assert!(c.parse_html("<html><body><p>결과 없음</p></body></html>").is_empty());
    assert!(c.parse_html("").is_empty());
}

#[test]
fn empty_optional_fields_are_absent() {
    let c = client(vec![]);
    let html = page(&[card("A", "/jobs/1", "Acme", "", "", "")]);
    let one = r#"<div class="item_recruit"><h2 class="job_tit"><a title="T" href="/j">T</a></h2>
        <strong class="corp_name"><a>Co</a></strong><span class="date">  </span></div>"#;
    let jobs = c.parse_html(&format!("{}{}", html, one));
    assert_eq!(jobs.len(), 2);
    assert_eq!(jobs[0].deadline, None);
    // Two anchors, the second one empty: the separator still stands between them.
    assert_eq!(jobs[0].location, Some("서울 ".to_string()));
    assert_eq!(jobs[0].experience_years, "");
    assert_eq!(jobs[1].title, "T");
    assert_eq!(jobs[1].deadline, None);
    assert_eq!(jobs[1].location, None);
}
