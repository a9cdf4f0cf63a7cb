//! What a listing source provides, and the rules that turn the fields of one
//! card into a candidate record.

use vstd::prelude::*;
use crate::models::{is_complete, opt_text, Job, JobView};
use crate::text::{contains, has_substring, lowercase, to_chars, to_lowercase};

verus! {

/// The fields that an extractor read from one card. A field that the card
/// does not show is `None`.
#[derive(Debug)]
pub struct CardFields {
    pub title: Option<String>,
    pub company: Option<String>,
    pub experience_years: Option<String>,
    pub url: Option<String>,
    pub deadline: Option<String>,
    pub location: Option<String>,
}

/// Mathematical view of `CardFields`.
pub struct CardFieldsView {
    pub title: Option<Seq<char>>,
    pub company: Option<Seq<char>>,
    pub experience_years: Option<Seq<char>>,
    pub url: Option<Seq<char>>,
    pub deadline: Option<Seq<char>>,
    pub location: Option<Seq<char>>,
}

impl View for CardFields {
    type V = CardFieldsView;

    open spec fn view(&self) -> CardFieldsView {
        CardFieldsView {
            title: opt_text(self.title),
            company: opt_text(self.company),
            experience_years: opt_text(self.experience_years),
            url: opt_text(self.url),
            deadline: opt_text(self.deadline),
            location: opt_text(self.location),
        }
    }
}

/// Maps one parsed fragment, the markup of one card, to the fields of a
/// record.
pub trait JobFieldExtractor {
    /// The title that the card shows.
    fn extract_title(&self, fragment: &str) -> Option<String>;

    /// The company that the card shows.
    fn extract_company(&self, fragment: &str) -> Option<String>;

    /// The experience that the card asks for, as the card words it.
    fn extract_experience_years(&self, fragment: &str) -> Option<String>;

    /// The address of the posting.
    fn extract_url(&self, fragment: &str) -> Option<String>;

    /// The deadline that the card shows.
    fn extract_deadline(&self, fragment: &str) -> Option<String>;

    /// The place of work that the card shows.
    fn extract_location(&self, fragment: &str) -> Option<String>;
}

/// A listing that grows as it is scrolled: every snapshot is the whole page.
pub trait JobListInfiniteScrollCrawler {
    /// The candidates of one snapshot, in the order of the page.
    fn parse_all_jobs(&self, html: &str) -> Vec<Job>;
}

/// A listing in numbered pages.
pub trait JobListPaginatedCrawler {
    /// The address of page `page` of the listing at `base_url`.
    fn build_page_url(&self, base_url: &str, page: usize) -> String;

    /// The candidates of one page, in the order of the page.
    fn parse_html(&self, html: &str) -> Vec<Job>;
}

/// The text of a field, empty where the field is absent.
pub open spec fn text_or_empty(field: Option<Seq<char>>) -> Seq<char> {
    match field {
        Some(text) => text,
        None => Seq::empty(),
    }
}

/// A field that is present and not empty.
pub open spec fn present(field: Option<Seq<char>>) -> Option<Seq<char>> {
    match field {
        Some(text) => if text.len() > 0 {
            field
        } else {
            None
        },
        None => None,
    }
}

/// The views of a list of keywords.
pub open spec fn keyword_views(keywords: Seq<&'static str>) -> Seq<Seq<char>> {
    keywords.map_values(|k: &'static str| k@)
}

/// Some keyword occurs in `title`, letter case aside.
pub open spec fn excluded(title: Seq<char>, keywords: Seq<Seq<char>>) -> bool {
    exists|k: int|
        0 <= k < keywords.len() && contains(lowercase(title), lowercase(#[trigger] keywords[k]))
}

/// The record that the fields of a card make, before any rule is applied.
pub open spec fn drafted(fields: CardFieldsView) -> JobView {
    JobView {
        title: text_or_empty(fields.title),
        company: text_or_empty(fields.company),
        experience_years: text_or_empty(fields.experience_years),
        url: text_or_empty(fields.url),
        deadline: present(fields.deadline),
        location: present(fields.location),
        rating: None,
        review_count: None,
    }
}

/// The candidate that a card yields: none where its title holds an excluded
/// keyword, and none where title, company or url is missing.
pub open spec fn assembled(fields: CardFieldsView, keywords: Seq<Seq<char>>) -> Option<JobView> {
    let job = drafted(fields);
    if excluded(job.title, keywords) || !is_complete(job) {
        None
    } else {
        Some(job)
    }
}

/// Whether some keyword occurs in `title`, letter case aside.
pub fn is_excluded(title: &str, keywords: &Vec<&'static str>) -> (r: bool)
    ensures
        r == excluded(title@, keyword_views(keywords@)),
{
    let ghost kv = keyword_views(keywords@);
    let lowered = to_lowercase(title);
    let hay = to_chars(lowered.as_str());
    let mut i: usize = 0;
    while i < keywords.len()
        invariant
            i <= keywords.len(),
            kv == keyword_views(keywords@),
            hay@ == lowercase(title@),
            forall|k: int| 0 <= k < i ==> !contains(lowercase(title@), lowercase(#[trigger] kv[k])),
        decreases keywords.len() - i,
    {
        let key = to_lowercase(keywords[i]);
        let needle = to_chars(key.as_str());
        assert(kv[i as int] == keywords[i as int]@);
        if has_substring(&hay, &needle) {
            return true;
        }
        i += 1;
    }
    false
}

fn unwrap_text(field: Option<String>) -> (text: String)
    ensures
        text@ == text_or_empty(opt_text(field)),
{
    match field {
        Some(text) => text,
        None => String::new(),
    }
}

fn keep_present(field: Option<String>) -> (kept: Option<String>)
    ensures
        opt_text(kept) == present(opt_text(field)),
{
    match field {
        Some(text) => if text.as_str().is_empty() {
            None
        } else {
            Some(text)
        },
        None => None,
    }
}

/// Turns the fields of one card into a candidate, or drops the card.
pub fn assemble(fields: CardFields, exclude_keywords: &Vec<&'static str>) -> (candidate: Option<
    Job,
>)
    ensures
        match candidate {
            Some(job) => Some(job@) == assembled(fields@, keyword_views(exclude_keywords@)),
            None => assembled(fields@, keyword_views(exclude_keywords@)) is None,
        },
{
    let job = Job {
        title: unwrap_text(fields.title),
        company: unwrap_text(fields.company),
        experience_years: unwrap_text(fields.experience_years),
        url: unwrap_text(fields.url),
        deadline: keep_present(fields.deadline),
        location: keep_present(fields.location),
        rating: None,
        review_count: None,
    };
    if is_excluded(job.title.as_str(), exclude_keywords) || !job.complete() {
        None
    } else {
        Some(job)
    }
}

} // verus!
