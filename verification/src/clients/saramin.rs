//! The Saramin listing: a search result in numbered pages.

use vstd::prelude::*;
use vstd::string::StringExecFns;
use crate::crawler::{
    assemble, assembled, keyword_views, CardFields, CardFieldsView, JobFieldExtractor,
    JobListPaginatedCrawler,
};
use crate::markup::{
    attr_at, document_matches, element_at, element_views, fragment_attrs, fragment_matches,
    nth_attr, nth_element, select_in_document, select_in_fragment, Element, ElementView,
};
use crate::models::{opt_text, views, Job, JobView};
use crate::text::{
    decimal, followed_by, join, joined, push_decimal, text_views, trim, trimmed,
};

verus! {

/// The search word of a Saramin category.
#[derive(Debug, Clone, Copy, PartialEq, Eq, Structural)]
pub enum SaraminJobCategory {
    Frontend,
}

impl SaraminJobCategory {
    /// The word that the search takes for this category.
    pub fn to_word(&self) -> (word: &str)
        ensures
            word@ == "프론트엔드"@,
    {
        match self {
            SaraminJobCategory::Frontend => "프론트엔드",
        }
    }
}

/// Settings of a Saramin crawl.
#[derive(Debug)]
pub struct SaraminCrawlConfig {
    pub category: SaraminJobCategory,
    /// Number of result pages to visit.
    pub total_pages: usize,
    /// Number of tabs that fetch in parallel.
    pub thread_count: usize,
    /// A card is dropped where its title holds one of these, letter case aside.
    pub exclude_keywords: Vec<&'static str>,
}

impl Default for SaraminCrawlConfig {
    fn default() -> (config: SaraminCrawlConfig)
        ensures
            config.category == SaraminJobCategory::Frontend,
            config.total_pages == 1,
            config.thread_count == 1,
            config.exclude_keywords@.len() == 0,
    {
        SaraminCrawlConfig {
            category: SaraminJobCategory::Frontend,
            total_pages: 1,
            thread_count: 1,
            exclude_keywords: Vec::new(),
        }
    }
}

impl Clone for SaraminCrawlConfig {
    fn clone(&self) -> (copy: SaraminCrawlConfig)
        ensures
            copy.category == self.category,
            copy.total_pages == self.total_pages,
            copy.thread_count == self.thread_count,
            copy.exclude_keywords@ == self.exclude_keywords@,
    {
        let mut exclude_keywords: Vec<&'static str> = Vec::new();
        let mut i: usize = 0;
        while i < self.exclude_keywords.len()
            invariant
                i <= self.exclude_keywords.len(),
                exclude_keywords@ == self.exclude_keywords@.take(i as int),
            decreases self.exclude_keywords.len() - i,
        {
            exclude_keywords.push(self.exclude_keywords[i]);
            assert(exclude_keywords@ =~= self.exclude_keywords@.take(i + 1));
            i += 1;
        }
        assert(self.exclude_keywords@.take(i as int) =~= self.exclude_keywords@);
        SaraminCrawlConfig {
            category: self.category,
            total_pages: self.total_pages,
            thread_count: self.thread_count,
            exclude_keywords,
        }
    }
}

/// The Saramin source.
#[derive(Debug)]
pub struct SaraminClient {
    pub base_url: String,
    pub config: SaraminCrawlConfig,
}

/// The address that relative links of Saramin are resolved against.
pub open spec fn saramin_base() -> Seq<char> {
    "https://www.saramin.co.kr"@
}

/// The address of page `page` of the search at `base_url`.
pub open spec fn page_url(base_url: Seq<char>, page: nat) -> Seq<char> {
    base_url + "&recruitPage="@ + decimal(page)
}

/// The address of the search for `word`.
pub open spec fn search_url(base_url: Seq<char>, word: Seq<char>) -> Seq<char> {
    base_url + "/zf_user/search/recruit?searchword="@ + word
}

/// The anchor of the card's heading, as the value of its attribute `name`.
pub open spec fn heading_attr(fragment: Seq<char>, name: Seq<char>) -> Option<Seq<char>> {
    match element_at(fragment_matches(fragment, "h2.job_tit"@), 0) {
        Some(heading) => attr_at(fragment_attrs(heading.html, "a"@, name), 0),
        None => None,
    }
}

/// The title of a card: the `title` attribute of its heading's anchor.
pub open spec fn title_of(fragment: Seq<char>) -> Option<Seq<char>> {
    heading_attr(fragment, "title"@)
}

/// The url of a card: the link of its heading's anchor, resolved against
/// `base_url`.
pub open spec fn url_of(base_url: Seq<char>, fragment: Seq<char>) -> Option<Seq<char>> {
    match heading_attr(fragment, "href"@) {
        Some(href) => Some(base_url + href),
        None => None,
    }
}

/// The company of a card: the trimmed text of the first anchor in its
/// company name.
pub open spec fn company_of(fragment: Seq<char>) -> Option<Seq<char>> {
    match element_at(fragment_matches(fragment, "strong.corp_name"@), 0) {
        Some(name) => match element_at(fragment_matches(name.html, "a"@), 0) {
            Some(anchor) => Some(trimmed(anchor.text)),
            None => None,
        },
        None => None,
    }
}

/// The experience of a card: the trimmed text of the second item of its
/// conditions.
pub open spec fn experience_of(fragment: Seq<char>) -> Option<Seq<char>> {
    match element_at(fragment_matches(fragment, "div.job_condition"@), 0) {
        Some(condition) => match element_at(fragment_matches(condition.html, "span"@), 1) {
            Some(item) => Some(trimmed(item.text)),
            None => None,
        },
        None => None,
    }
}

/// The deadline of a card: the trimmed text of its date.
pub open spec fn deadline_of(fragment: Seq<char>) -> Option<Seq<char>> {
    match element_at(fragment_matches(fragment, "span.date"@), 0) {
        Some(date) => Some(trimmed(date.text)),
        None => None,
    }
}

/// The trimmed texts of `elements`, in order.
pub open spec fn trimmed_texts(elements: Seq<ElementView>) -> Seq<Seq<char>> {
    elements.map_values(|e: ElementView| trimmed(e.text))
}

/// The location of a card: the trimmed texts of the anchors in the first
/// item of its conditions, with a space between each two.
pub open spec fn location_of(fragment: Seq<char>) -> Option<Seq<char>> {
    match element_at(fragment_matches(fragment, "div.job_condition"@), 0) {
        Some(condition) => match element_at(fragment_matches(condition.html, "span"@), 0) {
            Some(item) => match fragment_matches(item.html, "a"@) {
                Some(anchors) => Some(joined(trimmed_texts(anchors), " "@)),
                None => None,
            },
            None => None,
        },
        None => None,
    }
}

/// The fields of a card.
pub open spec fn fields_of(base_url: Seq<char>, fragment: Seq<char>) -> CardFieldsView {
    CardFieldsView {
        title: title_of(fragment),
        company: company_of(fragment),
        experience_years: experience_of(fragment),
        url: url_of(base_url, fragment),
        deadline: deadline_of(fragment),
        location: location_of(fragment),
    }
}

/// The candidates of `cards`, in order: each card gives one, or is dropped.
pub open spec fn candidates_of(
    cards: Seq<ElementView>,
    base_url: Seq<char>,
    keywords: Seq<Seq<char>>,
) -> Seq<JobView>
    decreases cards.len(),
{
    if cards.len() == 0 {
        Seq::empty()
    } else {
        let before = candidates_of(cards.drop_last(), base_url, keywords);
        match assembled(fields_of(base_url, cards.last().html), keywords) {
            Some(job) => before.push(job),
            None => before,
        }
    }
}

/// The candidates of a result page: one for each `div.item_recruit` that is
/// not dropped.
pub open spec fn parsed(html: Seq<char>, base_url: Seq<char>, keywords: Seq<Seq<char>>) -> Seq<
    JobView,
> {
    match document_matches(html, "div.item_recruit"@) {
        Some(cards) => candidates_of(cards, base_url, keywords),
        None => Seq::empty(),
    }
}

fn heading_anchor_attr(fragment: &str, name: &str) -> (value: Option<String>)
    ensures
        opt_text(value) == heading_attr(fragment@, name@),
{
    match nth_element(fragment, "h2.job_tit", 0) {
        Some(heading) => nth_attr(heading.html.as_str(), "a", name, 0),
        None => None,
    }
}

impl SaraminClient {
    /// A client for the Saramin site with the settings `config`.
    pub fn new(config: SaraminCrawlConfig) -> (client: SaraminClient)
        ensures
            client.base_url@ == saramin_base(),
            client.config == config,
    {
        SaraminClient { base_url: String::from_str("https://www.saramin.co.kr"), config }
    }

    /// The address of the search that this client crawls.
    pub fn search_url(&self) -> (url: String)
        ensures
            url@ == search_url(self.base_url@, "프론트엔드"@),
    {
        let mut url = self.base_url.clone();
        url.append("/zf_user/search/recruit?searchword=");
        url.append(self.config.category.to_word());
        url
    }

    /// The fields of the card whose markup is `fragment`.
    pub fn extract_fields(&self, fragment: &str) -> (fields: CardFields)
        ensures
            fields@ == fields_of(self.base_url@, fragment@),
    {
        CardFields {
            title: self.extract_title(fragment),
            company: self.extract_company(fragment),
            experience_years: self.extract_experience_years(fragment),
            url: self.extract_url(fragment),
            deadline: self.extract_deadline(fragment),
            location: self.extract_location(fragment),
        }
    }
}

impl JobFieldExtractor for SaraminClient {
    fn extract_title(&self, fragment: &str) -> (title: Option<String>)
        ensures
            opt_text(title) == title_of(fragment@),
    {
        heading_anchor_attr(fragment, "title")
    }

    fn extract_company(&self, fragment: &str) -> (company: Option<String>)
        ensures
            opt_text(company) == company_of(fragment@),
    {
        match nth_element(fragment, "strong.corp_name", 0) {
            Some(name) => match nth_element(name.html.as_str(), "a", 0) {
                Some(anchor) => Some(trim(anchor.text.as_str())),
                None => None,
            },
            None => None,
        }
    }

    fn extract_experience_years(&self, fragment: &str) -> (experience: Option<String>)
        ensures
            opt_text(experience) == experience_of(fragment@),
    {
        match nth_element(fragment, "div.job_condition", 0) {
            Some(condition) => match nth_element(condition.html.as_str(), "span", 1) {
                Some(item) => Some(trim(item.text.as_str())),
                None => None,
            },
            None => None,
        }
    }

    fn extract_url(&self, fragment: &str) -> (url: Option<String>)
        ensures
            opt_text(url) == url_of(self.base_url@, fragment@),
    {
        match heading_anchor_attr(fragment, "href") {
            Some(href) => Some(followed_by(self.base_url.as_str(), href.as_str())),
            None => None,
        }
    }

    fn extract_deadline(&self, fragment: &str) -> (deadline: Option<String>)
        ensures
            opt_text(deadline) == deadline_of(fragment@),
    {
        match nth_element(fragment, "span.date", 0) {
            Some(date) => Some(trim(date.text.as_str())),
            None => None,
        }
    }

    fn extract_location(&self, fragment: &str) -> (location: Option<String>)
        ensures
            opt_text(location) == location_of(fragment@),
    {
        match nth_element(fragment, "div.job_condition", 0) {
            Some(condition) => match nth_element(condition.html.as_str(), "span", 0) {
                Some(item) => match select_in_fragment(item.html.as_str(), "a") {
                    Some(anchors) => {
                        let texts = trim_texts(&anchors);
                        Some(join(&texts, " "))
                    },
                    None => None,
                },
                None => None,
            },
            None => None,
        }
    }
}

/// The trimmed text of each element.
pub fn trim_texts(elements: &Vec<Element>) -> (texts: Vec<String>)
    ensures
        text_views(texts@) == trimmed_texts(element_views(elements@)),
{
    let ghost ev = element_views(elements@);
    let mut texts: Vec<String> = Vec::new();
    let mut i: usize = 0;
    while i < elements.len()
        invariant
            i <= elements.len(),
            ev == element_views(elements@),
            text_views(texts@) == trimmed_texts(ev.take(i as int)),
        decreases elements.len() - i,
    {
        let ghost before = text_views(texts@);
        let text = trim(elements[i].text.as_str());
        texts.push(text);
        proof {
            assert(text_views(texts@) =~= before.push(text@));
            assert(trimmed_texts(ev.take(i + 1)) =~= trimmed_texts(ev.take(i as int)).push(
                trimmed(ev[i as int].text),
            ));
        }
        i += 1;
    }
    proof {
        assert(ev.take(elements.len() as int) =~= ev);
    }
    texts
}

impl JobListPaginatedCrawler for SaraminClient {
    fn build_page_url(&self, base_url: &str, page: usize) -> (url: String)
        ensures
            url@ == page_url(base_url@, page as nat),
    {
        let mut url = String::from_str(base_url);
        url.append("&recruitPage=");
        push_decimal(&mut url, page as u64);
        url
    }

    fn parse_html(&self, html: &str) -> (jobs: Vec<Job>)
        ensures
            views(jobs@) == parsed(html@, self.base_url@, keyword_views(self.config.exclude_keywords@)),
    {
        let mut jobs: Vec<Job> = Vec::new();
        match select_in_document(html, "div.item_recruit") {
            Some(cards) => {
                let ghost cv = element_views(cards@);
                let ghost kv = keyword_views(self.config.exclude_keywords@);
                let mut i: usize = 0;
                assert(views(jobs@) =~= Seq::empty());
                while i < cards.len()
                    invariant
                        i <= cards.len(),
                        cv == element_views(cards@),
                        kv == keyword_views(self.config.exclude_keywords@),
                        views(jobs@) == candidates_of(cv.take(i as int), self.base_url@, kv),
                    decreases cards.len() - i,
                {
                    let ghost before = views(jobs@);
                    proof {
                        assert(cv.take(i + 1).drop_last() =~= cv.take(i as int));
                        assert(cv.take(i + 1).last() == cards[i as int]@);
                    }
                    let fields = self.extract_fields(cards[i].html.as_str());
                    match assemble(fields, &self.config.exclude_keywords) {
                        Some(job) => {
                            jobs.push(job);
                            assert(views(jobs@) =~= before.push(job@));
                        },
                        None => {},
                    }
                    i += 1;
                }
                proof {
                    assert(cv.take(cards.len() as int) =~= cv);
                }
            },
            None => {
                assert(views(jobs@) =~= Seq::empty());
            },
        }
        jobs
    }
}

} // verus!
