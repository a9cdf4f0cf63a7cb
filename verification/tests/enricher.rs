use jd_crawler::enricher::{normalize, EnricherConfig};
use jd_crawler::enrichers::blind::BlindEnricher;

fn group_pattern() -> regex::Regex {
    regex::Regex::new(r"\s*[(\(（][^)\)）]*[)\)）]\s*").unwrap()
}

fn by_regex(re: &regex::Regex, company: &str) -> String {
    re.replace_all(company, "").trim().to_string()
}

#[test]
fn normalize_strips_parenthetical_suffix() {
    assert_eq!(normalize("Acme Corp (서울)"), "Acme Corp");
    assert_eq!(normalize("(주)카카오"), "카카오");
    assert_eq!(normalize("네이버（주）"), "네이버");
    assert_eq!(normalize("  Plain Name  "), "Plain Name");
    assert_eq!(normalize(""), "");
}

#[test]
fn normalize_strips_every_group() {
    assert_eq!(normalize("(주) Acme (Korea) Holdings (유)"), "AcmeHoldings");
    assert_eq!(normalize("A (b) (c) D"), "AD");
    assert_eq!(normalize("Mixed (half）Width（full) End"), "MixedWidthEnd");
    assert_eq!(normalize("()"), "");
    assert_eq!(normalize("x ( y"), "x ( y");
    assert_eq!(normalize("x ) y ( z"), "x ) y ( z");
    assert_eq!(normalize("a ((b) c)"), "ac)");
}

#[test]
fn normalize_is_idempotent() {
    let samples = [
        "Acme Corp (서울)",
        "(주) Acme (Korea) Holdings (유)",
        "a ((b) c)",
        "( ( ) )",
        ") (",
        "  (x)  y  (z)  ",
        "no groups at all",
        "tail (",
        "（주）현대 오토에버 (Hyundai AutoEver)",
        "(a)(b)(c)",
        " ( a ) b ( c ",
    ];
    for s in samples {
        let once = normalize(s);
        assert_eq!(normalize(&once), once, "{:?}", s);
    }
}

#[test]
fn normalize_agrees_with_the_pattern() {
    let re = group_pattern();
    let pieces = ["", "a", " ", "(", ")", "（", "）", "\t", "b c", "\u{3000}", "(x)", "주"];
    for a in pieces {
        for b in pieces {
            for c in pieces {
                for d in pieces {
                    let s = format!("{}{}{}{}", a, b, c, d);
                    assert_eq!(normalize(&s), by_regex(&re, &s), "{:?}", s);
                }
            }
        }
    }
}

#[test]
fn profile_url_is_built_from_the_normal_form() {
    let blind = BlindEnricher::new(EnricherConfig { thread_count: 1 });
    assert_eq!(blind.normalize_company_name("Acme Corp (서울)"), "Acme Corp");
    assert_eq!(
        blind.profile_url("Acme Corp (서울)"),
        "https://www.teamblind.com/kr/company/Acme Corp/reviews"
    );
    assert_eq!(
        blind.build_url("카카오"),
        "https://www.teamblind.com/kr/company/카카오/reviews"
    );
}

#[test]
fn rating_is_read_from_structured_data() {
    let blind = BlindEnricher::new(EnricherConfig { thread_count: 1 });
    let html = r#"<html><head>
        <script type="application/ld+json">{"@type":"Organization","name":"Acme"}</script>
        <script type="application/ld+json">{"@type":"EmployerAggregateRating","ratingValue":"3.8","ratingCount":1204}</script>
        <script type="text/javascript">var x = {"ratingValue":"9.9"};</script>
        </head><body><p>Acme</p></body></html>"#;
    let rating = blind.parse_data(html);
    assert_eq!(rating.rating, Some("3.8".to_string()));
    assert_eq!(rating.review_count, Some(1204));
    assert_eq!(blind.extract_rating(html), Some("3.8".to_string()));
    assert_eq!(blind.extract_review_count(html), Some(1204));
}

#[test]
fn profile_without_rating_is_no_error() {
    let blind = BlindEnricher::new(EnricherConfig { thread_count: 1 });
    let rating = blind.parse_data("<html><body><h1>Not found</h1></body></html>");
    assert_eq!(rating.rating, None);
    assert_eq!(rating.review_count, None);

    let only_value = r#"<script type="application/ld+json">{"@type":"EmployerAggregateRating","ratingValue":"4.1"}</script>"#;
    let rating = blind.parse_data(only_value);
    assert_eq!(rating.rating, Some("4.1".to_string()));
    assert_eq!(rating.review_count, None);

    let unmarked = r#"<script type="application/ld+json">{"ratingValue":"4.1","ratingCount":3}</script>"#;
    let rating = blind.parse_data(unmarked);
    assert_eq!(rating.rating, None);
    assert_eq!(rating.review_count, None);
}

#[test]
fn review_count_too_large_is_absent() {
    let blind = BlindEnricher::new(EnricherConfig { thread_count: 1 });
    let html = r#"<script type="application/ld+json">{"@type":"EmployerAggregateRating","ratingValue":"2.0","ratingCount":99999999999}</script>"#;
    let rating = blind.parse_data(html);
    assert_eq!(rating.rating, Some("2.0".to_string()));
    assert_eq!(rating.review_count, None);
}
