//! The Wanted listing: an infinite-scroll page of job cards.

use vstd::prelude::*;
use vstd::string::StringExecFns;
use crate::crawler::{
    assemble, assembled, keyword_views, CardFields, CardFieldsView, JobFieldExtractor,
    JobListInfiniteScrollCrawler,
};
use crate::markup::{
    attr_at, document_matches, element_at, element_views, found_views, fragment_attrs,
    fragment_matches, nth_attr, nth_element, nth_of, select_in_document, select_in_fragment,
    Element, ElementView,
};
use crate::models::{opt_text, views, Job, JobView};
use crate::stage::{Details, DetailsView};
use crate::text::{
    decimal, find_char, first_field, followed_by, from_chars, index_of, prefix, push_decimal,
    second_field, to_chars, trim, trimmed, truncate,
};

verus! {

/// Settings of a Wanted crawl.
#[derive(Debug, Clone, Copy, PartialEq, Eq, Structural)]
pub struct WantedCrawlConfig {
    /// Number of scroll positions to visit.
    pub total_pages: usize,
    /// Number of tabs that fetch detail pages in parallel.
    pub num_threads: usize,
    /// Lower bound of the experience filter, in years.
    pub min_years: u8,
    /// Upper bound of the experience filter, in years.
    pub max_years: u8,
    /// Whether the detail page of each record is fetched too.
    pub full_crawl: bool,
}

impl Default for WantedCrawlConfig {
    fn default() -> (config: WantedCrawlConfig)
        ensures
            config.total_pages == 1,
            config.num_threads == 4,
            config.min_years == 0,
            config.max_years == 5,
            config.full_crawl,
    {
        WantedCrawlConfig {
            total_pages: 1,
            num_threads: 4,
            min_years: 0,
            max_years: 5,
            full_crawl: true,
        }
    }
}

/// A job category of Wanted.
#[derive(Debug, Clone, Copy, PartialEq, Eq, Structural)]
pub enum WantedJobCategory {
    Development,
}

impl WantedJobCategory {
    /// The number that the site gives this category.
    pub fn to_code(&self) -> (code: u32)
        ensures
            code == 518,
    {
        match self {
            WantedJobCategory::Development => 518,
        }
    }
}

/// A job subcategory of Wanted.
#[derive(Debug, Clone, Copy, PartialEq, Eq, Structural)]
pub enum WantedJobSubcategory {
    Frontend,
    Backend,
    Web,
    Android,
    IOS,
}

/// The number that the site gives a subcategory.
pub open spec fn subcategory_code(subcategory: WantedJobSubcategory) -> u32 {
    match subcategory {
        WantedJobSubcategory::Frontend => 669,
        WantedJobSubcategory::Backend => 872,
        WantedJobSubcategory::Web => 873,
        WantedJobSubcategory::Android => 677,
        WantedJobSubcategory::IOS => 678,
    }
}

impl WantedJobSubcategory {
    /// The number that the site gives this subcategory.
    pub fn to_code(&self) -> (code: u32)
        ensures
            code == subcategory_code(*self),
    {
        match self {
            WantedJobSubcategory::Frontend => 669,
            WantedJobSubcategory::Backend => 872,
            WantedJobSubcategory::Web => 873,
            WantedJobSubcategory::Android => 677,
            WantedJobSubcategory::IOS => 678,
        }
    }
}

/// The Wanted source.
#[derive(Debug)]
pub struct WantedClient {
    pub base_url: String,
    pub category: WantedJobCategory,
    pub subcategory: WantedJobSubcategory,
    /// A card is dropped where its title holds one of these, letter case aside.
    pub exclude_keywords: Vec<&'static str>,
}

/// The address that relative links of Wanted are resolved against.
pub open spec fn wanted_base() -> Seq<char> {
    "https://www.wanted.co.kr"@
}

/// The address of the listing of a category and subcategory, filtered by
/// years of experience.
pub open spec fn list_url(
    base_url: Seq<char>,
    category: nat,
    subcategory: nat,
    min_years: nat,
    max_years: nat,
) -> Seq<char> {
    base_url + "/wdlist/"@ + decimal(category) + "/"@ + decimal(subcategory)
        + "?country=kr&job_sort=job.recommend_order&years="@ + decimal(min_years) + "&years="@
        + decimal(max_years) + "&locations=all"@
}

/// The character at position `n` of the list of separators that part
/// location from experience, in the order in which they are tried.
pub open spec fn separator(n: int) -> char {
    if n == 0 {
        '\u{2219}'
    } else if n == 1 {
        '\u{B7}'
    } else if n == 2 {
        '\u{2022}'
    } else if n == 3 {
        '/'
    } else {
        '|'
    }
}

/// Number of separators.
pub open spec fn separator_count() -> int {
    5
}

/// The experience in a line of the form "location, separator, experience":
/// what stands between the first and the second occurrence of the first
/// separator, from position `n` of the list on, that the line holds,
/// trimmed; the whole line where it holds none.
pub open spec fn experience_part(line: Seq<char>, n: int) -> Seq<char>
    decreases separator_count() - n,
{
    if 0 <= n < separator_count() {
        match second_field(line, separator(n)) {
            Some(field) => trimmed(field),
            None => experience_part(line, n + 1),
        }
    } else {
        line
    }
}

/// The location in such a line: what stands before the first occurrence of
/// the first separator that the line holds, trimmed; the whole line where it
/// holds none.
pub open spec fn location_part(line: Seq<char>, n: int) -> Seq<char>
    decreases separator_count() - n,
{
    if 0 <= n < separator_count() {
        if index_of(line, separator(n)) < line.len() {
            trimmed(first_field(line, separator(n)))
        } else {
            location_part(line, n + 1)
        }
    } else {
        line
    }
}

/// The trimmed text of the `span` at position `n` of a card.
pub open spec fn span_text(fragment: Seq<char>, n: int) -> Option<Seq<char>> {
    match element_at(fragment_matches(fragment, "span"@), n) {
        Some(span) => Some(trimmed(span.text)),
        None => None,
    }
}

/// The experience of a card, read from its third `span`.
pub open spec fn experience_of(fragment: Seq<char>) -> Option<Seq<char>> {
    match span_text(fragment, 2) {
        Some(line) => Some(experience_part(line, 0)),
        None => None,
    }
}

/// The location of a card, read from its third `span`.
pub open spec fn location_of(fragment: Seq<char>) -> Option<Seq<char>> {
    match span_text(fragment, 2) {
        Some(line) => Some(location_part(line, 0)),
        None => None,
    }
}

/// The deadline in a piece of markup: the trimmed text of the first `span`
/// of what was found of the due time.
pub open spec fn due_text(found: Option<Seq<ElementView>>) -> Option<Seq<char>> {
    match element_at(found, 0) {
        Some(article) => span_text(article.html, 0),
        None => None,
    }
}

/// The deadline that a fragment shows.
pub open spec fn deadline_of(fragment: Seq<char>) -> Option<Seq<char>> {
    due_text(fragment_matches(fragment, "article[class*=\"JobDueTime\"]"@))
}

/// The fields of the card body `fragment` that stands under a link to `href`.
pub open spec fn fields_of(
    base_url: Seq<char>,
    href: Option<Seq<char>>,
    fragment: Seq<char>,
) -> CardFieldsView {
    CardFieldsView {
        title: span_text(fragment, 0),
        company: span_text(fragment, 1),
        experience_years: experience_of(fragment),
        url: match href {
            Some(href) => Some(base_url + href),
            None => None,
        },
        deadline: None,
        location: location_of(fragment),
    }
}

/// The candidates of the card bodies `bodies` under one link, in order.
pub open spec fn candidates_of(
    bodies: Seq<ElementView>,
    base_url: Seq<char>,
    href: Option<Seq<char>>,
    keywords: Seq<Seq<char>>,
) -> Seq<JobView>
    decreases bodies.len(),
{
    if bodies.len() == 0 {
        Seq::empty()
    } else {
        let before = candidates_of(bodies.drop_last(), base_url, href, keywords);
        match assembled(fields_of(base_url, href, bodies.last().html), keywords) {
            Some(job) => before.push(job),
            None => before,
        }
    }
}

/// The candidates under the link whose markup is `anchor`: one for each card
/// body that is a child of the link and is not dropped.
pub open spec fn link_candidates(
    anchor: Seq<char>,
    base_url: Seq<char>,
    keywords: Seq<Seq<char>>,
) -> Seq<JobView> {
    match fragment_matches(anchor, "a > div[class*=\"JobCard_JobCard__body__\"]"@) {
        Some(bodies) => candidates_of(
            bodies,
            base_url,
            attr_at(fragment_attrs(anchor, "a"@, "href"@), 0),
            keywords,
        ),
        None => Seq::empty(),
    }
}

/// The candidates under the links `anchors`, in order.
pub open spec fn all_candidates(
    anchors: Seq<ElementView>,
    base_url: Seq<char>,
    keywords: Seq<Seq<char>>,
) -> Seq<JobView>
    decreases anchors.len(),
{
    if anchors.len() == 0 {
        Seq::empty()
    } else {
        all_candidates(anchors.drop_last(), base_url, keywords) + link_candidates(
            anchors.last().html,
            base_url,
            keywords,
        )
    }
}

/// The candidates of a snapshot of the listing: those of its links, link by
/// link.
pub open spec fn parsed(html: Seq<char>, base_url: Seq<char>, keywords: Seq<Seq<char>>) -> Seq<
    JobView,
> {
    match document_matches(html, "a"@) {
        Some(anchors) => all_candidates(anchors, base_url, keywords),
        None => Seq::empty(),
    }
}

/// A text that is present and not empty, cut to its first `n` characters.
pub open spec fn present_prefix(field: Option<Seq<char>>, n: nat) -> Option<Seq<char>> {
    match field {
        Some(text) => if text.len() > 0 {
            Some(prefix(text, n))
        } else {
            None
        },
        None => None,
    }
}

/// What a detail page shows: the deadline, and the first 16 characters of
/// the work place. A field that the page shows empty is absent.
pub open spec fn detail_of(html: Seq<char>) -> DetailsView {
    DetailsView {
        deadline: present_prefix(
            due_text(document_matches(html, "article[class*=\"JobDueTime\"]"@)),
            usize::MAX as nat,
        ),
        location: present_prefix(
            match element_at(
                document_matches(html, "div[class*=\"JobWorkPlace__map__location\"]"@),
                0,
            ) {
                Some(place) => Some(trimmed(place.text)),
                None => None,
            },
            16,
        ),
    }
}

fn separator_at(n: usize) -> (c: char)
    ensures
        c == separator(n as int),
{
    if n == 0 {
        '\u{2219}'
    } else if n == 1 {
        '\u{B7}'
    } else if n == 2 {
        '\u{2022}'
    } else if n == 3 {
        '/'
    } else {
        '|'
    }
}

/// The experience in a line that holds location and experience.
pub fn split_experience(line: &str) -> (experience: String)
    ensures
        experience@ == experience_part(line@, 0),
{
    let v = to_chars(line);
    let mut n: usize = 0;
    while n < 5
        invariant
            n <= 5,
            v@ == line@,
            experience_part(line@, n as int) == experience_part(line@, 0),
        decreases 5 - n,
    {
        let sep = separator_at(n);
        let first = find_char(&v, 0, sep);
        proof {
            assert(v@.skip(0) =~= v@);
        }
        if first < v.len() {
            let second = find_char(&v, first + 1, sep);
            let field = from_chars(&v, first + 1, second);
            proof {
                let rest = v@.skip(first + 1);
                assert(rest.take(second - first - 1) =~= v@.subrange(first + 1, second as int));
            }
            return trim(field.as_str());
        }
        n += 1;
    }
    String::from_str(line)
}

/// The location in a line that holds location and experience.
pub fn split_location(line: &str) -> (location: String)
    ensures
        location@ == location_part(line@, 0),
{
    let v = to_chars(line);
    let mut n: usize = 0;
    while n < 5
        invariant
            n <= 5,
            v@ == line@,
            location_part(line@, n as int) == location_part(line@, 0),
        decreases 5 - n,
    {
        let sep = separator_at(n);
        let first = find_char(&v, 0, sep);
        proof {
            assert(v@.skip(0) =~= v@);
        }
        if first < v.len() {
            let field = from_chars(&v, 0, first);
            proof {
                assert(v@.take(first as int) =~= v@.subrange(0, first as int));
            }
            return trim(field.as_str());
        }
        n += 1;
    }
    String::from_str(line)
}

fn span_text_at(fragment: &str, n: usize) -> (text: Option<String>)
    ensures
        opt_text(text) == span_text(fragment@, n as int),
{
    match nth_element(fragment, "span", n) {
        Some(span) => Some(trim(span.text.as_str())),
        None => None,
    }
}

fn due_text_of(found: Option<Vec<Element>>) -> (text: Option<String>)
    ensures
        opt_text(text) == due_text(found_views(found)),
{
    match nth_of(found, 0) {
        Some(article) => span_text_at(article.html.as_str(), 0),
        None => None,
    }
}

fn keep_prefix(field: Option<String>, n: usize) -> (kept: Option<String>)
    ensures
        opt_text(kept) == present_prefix(opt_text(field), n as nat),
{
    match field {
        Some(text) => if text.as_str().is_empty() {
            None
        } else {
            Some(truncate(text.as_str(), n))
        },
        None => None,
    }
}

impl WantedClient {
    /// A client for the Wanted site, for one category and subcategory, that
    /// excludes no title.
    pub fn new(category: WantedJobCategory, subcategory: WantedJobSubcategory) -> (client:
        WantedClient)
        ensures
            client.base_url@ == wanted_base(),
            client.category == category,
            client.subcategory == subcategory,
            client.exclude_keywords@.len() == 0,
    {
        WantedClient {
            base_url: String::from_str("https://www.wanted.co.kr"),
            category,
            subcategory,
            exclude_keywords: Vec::new(),
        }
    }

    /// This client, dropping the cards whose title holds one of `keywords`.
    pub fn excluding(self, keywords: Vec<&'static str>) -> (client: WantedClient)
        ensures
            client.base_url == self.base_url,
            client.category == self.category,
            client.subcategory == self.subcategory,
            client.exclude_keywords == keywords,
    {
        WantedClient {
            base_url: self.base_url,
            category: self.category,
            subcategory: self.subcategory,
            exclude_keywords: keywords,
        }
    }

    /// The address of the listing that this client crawls under `config`.
    pub fn build_url(&self, config: &WantedCrawlConfig) -> (url: String)
        ensures
            url@ == list_url(
                self.base_url@,
                518,
                subcategory_code(self.subcategory) as nat,
                config.min_years as nat,
                config.max_years as nat,
            ),
    {
        let mut url = self.base_url.clone();
        url.append("/wdlist/");
        push_decimal(&mut url, self.category.to_code() as u64);
        url.append("/");
        push_decimal(&mut url, self.subcategory.to_code() as u64);
        url.append("?country=kr&job_sort=job.recommend_order&years=");
        push_decimal(&mut url, config.min_years as u64);
        url.append("&years=");
        push_decimal(&mut url, config.max_years as u64);
        url.append("&locations=all");
        url
    }

    /// The fields of the card body `fragment` that stands under a link to
    /// `href`.
    pub fn extract_fields(&self, href: Option<String>, fragment: &str) -> (fields: CardFields)
        ensures
            fields@ == fields_of(self.base_url@, opt_text(href), fragment@),
    {
        CardFields {
            title: self.extract_title(fragment),
            company: self.extract_company(fragment),
            experience_years: self.extract_experience_years(fragment),
            url: match href {
                Some(href) => Some(followed_by(self.base_url.as_str(), href.as_str())),
                None => None,
            },
            deadline: None,
            location: self.extract_location(fragment),
        }
    }

    /// The candidates under one link of the listing.
    pub fn parse_link(&self, anchor: &str) -> (jobs: Vec<Job>)
        ensures
            views(jobs@) == link_candidates(
                anchor@,
                self.base_url@,
                keyword_views(self.exclude_keywords@),
            ),
    {
        let mut jobs: Vec<Job> = Vec::new();
        let ghost kv = keyword_views(self.exclude_keywords@);
        assert(views(jobs@) =~= Seq::empty());
        match select_in_fragment(anchor, "a > div[class*=\"JobCard_JobCard__body__\"]") {
            Some(bodies) => {
                let ghost bv = element_views(bodies@);
                let ghost href_view = attr_at(fragment_attrs(anchor@, "a"@, "href"@), 0);
                let mut i: usize = 0;
                while i < bodies.len()
                    invariant
                        i <= bodies.len(),
                        bv == element_views(bodies@),
                        href_view == attr_at(fragment_attrs(anchor@, "a"@, "href"@), 0),
                        kv == keyword_views(self.exclude_keywords@),
                        views(jobs@) == candidates_of(
                            bv.take(i as int),
                            self.base_url@,
                            href_view,
                            kv,
                        ),
                    decreases bodies.len() - i,
                {
                    let ghost before = views(jobs@);
                    proof {
                        assert(bv.take(i + 1).drop_last() =~= bv.take(i as int));
                        assert(bv.take(i + 1).last() == bodies[i as int]@);
                    }
                    let href = nth_attr(anchor, "a", "href", 0);
                    let fields = self.extract_fields(href, bodies[i].html.as_str());
                    match assemble(fields, &self.exclude_keywords) {
                        Some(job) => {
                            jobs.push(job);
                            assert(views(jobs@) =~= before.push(job@));
                        },
                        None => {},
                    }
                    i += 1;
                }
                proof {
                    assert(bv.take(bodies.len() as int) =~= bv);
                }
            },
            None => {},
        }
        jobs
    }

    /// What the detail page `html` adds to a record.
    pub fn parse_detail(&self, html: &str) -> (details: Details)
        ensures
            details@ == detail_of(html@),
    {
        let due = due_text_of(select_in_document(html, "article[class*=\"JobDueTime\"]"));
        let place = match nth_of(
            select_in_document(html, "div[class*=\"JobWorkPlace__map__location\"]"),
            0,
        ) {
            Some(place) => Some(trim(place.text.as_str())),
            None => None,
        };
        Details { deadline: keep_prefix(due, usize::MAX), location: keep_prefix(place, 16) }
    }
}

impl Default for WantedClient {
    fn default() -> (client: WantedClient)
        ensures
            client.base_url@ == wanted_base(),
            client.category == WantedJobCategory::Development,
            client.subcategory == WantedJobSubcategory::Frontend,
            client.exclude_keywords@.len() == 0,
    {
        WantedClient::new(WantedJobCategory::Development, WantedJobSubcategory::Frontend)
    }
}

impl JobFieldExtractor for WantedClient {
    fn extract_title(&self, fragment: &str) -> (title: Option<String>)
        ensures
            opt_text(title) == span_text(fragment@, 0),
    {
        span_text_at(fragment, 0)
    }

    fn extract_company(&self, fragment: &str) -> (company: Option<String>)
        ensures
            opt_text(company) == span_text(fragment@, 1),
    {
        span_text_at(fragment, 1)
    }

    fn extract_experience_years(&self, fragment: &str) -> (experience: Option<String>)
        ensures
            opt_text(experience) == experience_of(fragment@),
    {
        match span_text_at(fragment, 2) {
            Some(line) => Some(split_experience(line.as_str())),
            None => None,
        }
    }

    /// The url of a card is the link of its parent, which a card body does
    /// not hold.
    fn extract_url(&self, fragment: &str) -> (url: Option<String>)
        ensures
            url is None,
    {
        None
    }

    fn extract_deadline(&self, fragment: &str) -> (deadline: Option<String>)
        ensures
            opt_text(deadline) == deadline_of(fragment@),
    {
        due_text_of(select_in_fragment(fragment, "article[class*=\"JobDueTime\"]"))
    }

    fn extract_location(&self, fragment: &str) -> (location: Option<String>)
        ensures
            opt_text(location) == location_of(fragment@),
    {
        match span_text_at(fragment, 2) {
            Some(line) => Some(split_location(line.as_str())),
            None => None,
        }
    }
}

impl JobListInfiniteScrollCrawler for WantedClient {
    fn parse_all_jobs(&self, html: &str) -> (jobs: Vec<Job>)
        ensures
            views(jobs@) == parsed(html@, self.base_url@, keyword_views(self.exclude_keywords@)),
    {
        let mut jobs: Vec<Job> = Vec::new();
        assert(views(jobs@) =~= Seq::empty());
        match select_in_document(html, "a") {
            Some(anchors) => {
                let ghost av = element_views(anchors@);
                let mut i: usize = 0;
                while i < anchors.len()
                    invariant
                        i <= anchors.len(),
                        av == element_views(anchors@),
                        views(jobs@) == all_candidates(
                            av.take(i as int),
                            self.base_url@,
                            keyword_views(self.exclude_keywords@),
                        ),
                    decreases anchors.len() - i,
                {
                    let ghost before = views(jobs@);
                    proof {
                        assert(av.take(i + 1).drop_last() =~= av.take(i as int));
                        assert(av.take(i + 1).last() == anchors[i as int]@);
                    }
                    let mut found = self.parse_link(anchors[i].html.as_str());
                    let ghost found_view = views(found@);
                    jobs.append(&mut found);
                    proof {
                        assert(views(jobs@) =~= before + found_view);
                    }
                    i += 1;
                }
                proof {
                    assert(av.take(anchors.len() as int) =~= av);
                }
            },
            None => {},
        }
        jobs
    }
}

} // verus!
