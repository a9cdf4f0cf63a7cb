//! Employer ratings from Blind company profiles.

use vstd::prelude::*;
use vstd::string::StringExecFns;
use crate::enricher::{normalize, normalized, EnricherConfig};
use crate::markup::{
    document_matches, element_views, select_in_document, Element, ElementView,
};
use crate::models::opt_text;
use crate::pattern::{capture, captured};
use crate::stage::{Rating, RatingView};
use crate::text::{contains, parse_count, parsed_count, str_contains};

verus! {

/// The Blind source of employer ratings.
#[derive(Debug)]
pub struct BlindEnricher {
    pub base_url: String,
    pub config: EnricherConfig,
}

/// The address under which Blind keeps company profiles.
pub open spec fn blind_base() -> Seq<char> {
    "https://www.teamblind.com/kr/company"@
}

/// The address of the reviews of `company`.
pub open spec fn profile_url(base_url: Seq<char>, company: Seq<char>) -> Seq<char> {
    base_url + "/"@ + company + "/reviews"@
}

/// The word that marks the structured data of an employer rating.
pub open spec fn rating_marker() -> Seq<char> {
    "EmployerAggregateRating"@
}

/// The pattern that captures the rating value.
pub open spec fn rating_pattern() -> Seq<char> {
    "\"ratingValue\":\"([^\"]+)\""@
}

/// The pattern that captures the number of reviews.
pub open spec fn count_pattern() -> Seq<char> {
    "\"ratingCount\":(\\d+)"@
}

/// What `pattern` captures in the first of `scripts` that holds the rating
/// marker and a match of the pattern.
pub open spec fn first_capture(scripts: Seq<ElementView>, pattern: Seq<char>) -> Option<Seq<char>>
    decreases scripts.len(),
{
    if scripts.len() == 0 {
        None
    } else {
        let text = scripts[0].text;
        if contains(text, rating_marker()) && captured(pattern, text, 1) is Some {
            captured(pattern, text, 1)
        } else {
            first_capture(scripts.drop_first(), pattern)
        }
    }
}

/// The structured-data scripts of a profile page.
pub open spec fn scripts_of(html: Seq<char>) -> Seq<ElementView> {
    match document_matches(html, "script[type='application/ld+json']"@) {
        Some(scripts) => scripts,
        None => Seq::empty(),
    }
}

/// The rating that a profile page shows.
pub open spec fn rating_of(html: Seq<char>) -> Option<Seq<char>> {
    first_capture(scripts_of(html), rating_pattern())
}

/// The number of reviews that a profile page shows.
pub open spec fn review_count_of(html: Seq<char>) -> Option<u32> {
    match first_capture(scripts_of(html), count_pattern()) {
        Some(digits) => parsed_count(digits),
        None => None,
    }
}

/// What `pattern` captures in the first script that holds the rating marker
/// and a match.
fn capture_in(scripts: &Vec<Element>, pattern: &str) -> (found: Option<String>)
    ensures
        opt_text(found) == first_capture(element_views(scripts@), pattern@),
{
    let ghost sv = element_views(scripts@);
    let mut i: usize = 0;
    proof {
        assert(sv.skip(0) =~= sv);
    }
    while i < scripts.len()
        invariant
            i <= scripts.len(),
            sv == element_views(scripts@),
            first_capture(sv.skip(i as int), pattern@) == first_capture(sv, pattern@),
        decreases scripts.len() - i,
    {
        proof {
            assert(sv.skip(i as int)[0] == scripts[i as int]@);
            assert(sv.skip(i as int).drop_first() =~= sv.skip(i + 1));
        }
        let text = scripts[i].text.as_str();
        if str_contains(text, "EmployerAggregateRating") {
            let found = capture(pattern, text, 1);
            if found.is_some() {
                return found;
            }
        }
        i += 1;
    }
    None
}

fn scripts_in(html: &str) -> (scripts: Vec<Element>)
    ensures
        element_views(scripts@) == scripts_of(html@),
{
    match select_in_document(html, "script[type='application/ld+json']") {
        Some(scripts) => scripts,
        None => {
            let scripts: Vec<Element> = Vec::new();
            assert(element_views(scripts@) =~= Seq::empty());
            scripts
        },
    }
}

impl BlindEnricher {
    /// A source of ratings with the settings `config`.
    pub fn new(config: EnricherConfig) -> (enricher: BlindEnricher)
        ensures
            enricher.base_url@ == blind_base(),
            enricher.config == config,
    {
        BlindEnricher { base_url: String::from_str("https://www.teamblind.com/kr/company"), config }
    }

    /// The address of the reviews of the company `company`.
    pub fn build_url(&self, company: &str) -> (url: String)
        ensures
            url@ == profile_url(self.base_url@, company@),
    {
        let mut url = self.base_url.clone();
        url.append("/");
        url.append(company);
        url.append("/reviews");
        url
    }

    /// The normal form of a company name.
    pub fn normalize_company_name(&self, company: &str) -> (name: String)
        ensures
            name@ == normalized(company@),
    {
        normalize(company)
    }

    /// The address of the profile of the company named `company`: the name
    /// is normalised before the address is built.
    pub fn profile_url(&self, company: &str) -> (url: String)
        ensures
            url@ == profile_url(self.base_url@, normalized(company@)),
    {
        let name = normalize(company);
        self.build_url(name.as_str())
    }

    /// The rating that the profile page `html` shows, if any.
    pub fn extract_rating(&self, html: &str) -> (rating: Option<String>)
        ensures
            opt_text(rating) == rating_of(html@),
    {
        let scripts = scripts_in(html);
        capture_in(&scripts, "\"ratingValue\":\"([^\"]+)\"")
    }

    /// The number of reviews that the profile page `html` shows, if any.
    pub fn extract_review_count(&self, html: &str) -> (count: Option<u32>)
        ensures
            count == review_count_of(html@),
    {
        let scripts = scripts_in(html);
        match capture_in(&scripts, "\"ratingCount\":(\\d+)") {
            Some(digits) => parse_count(digits.as_str()),
            None => None,
        }
    }

    /// What the profile page `html` shows. A page without a rating or
    /// without a review count is no error: the part is absent.
    pub fn parse_data(&self, html: &str) -> (rating: Rating)
        ensures
            rating@ == (RatingView { rating: rating_of(html@), review_count: review_count_of(html@) }),
    {
        Rating { rating: self.extract_rating(html), review_count: self.extract_review_count(html) }
    }
}

} // verus!
