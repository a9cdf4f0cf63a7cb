//! The tabular form of the records: one row for each, in a fixed column
//! order, with an absent field as an empty cell.

use vstd::prelude::*;
use vstd::string::StringExecFns;
use crate::crawler::text_or_empty;
use crate::models::{opt_text, views, Job, JobView};
use crate::text::{decimal, text_views, to_decimal};

verus! {

/// Number of columns.
pub const COLUMNS: usize = 8;

/// The cell of a review count.
pub open spec fn count_cell(count: Option<u32>) -> Seq<char> {
    match count {
        Some(n) => decimal(n as nat),
        None => Seq::empty(),
    }
}

/// The row of a record.
pub open spec fn row_of(job: JobView) -> Seq<Seq<char>> {
    seq![
        job.title,
        job.company,
        job.experience_years,
        job.url,
        text_or_empty(job.deadline),
        text_or_empty(job.location),
        text_or_empty(job.rating),
        count_cell(job.review_count),
    ]
}

/// The names of the columns, in order.
pub open spec fn header_row() -> Seq<Seq<char>> {
    seq![
        "title"@,
        "company"@,
        "experience_years"@,
        "url"@,
        "deadline"@,
        "location"@,
        "rating"@,
        "review_count"@,
    ]
}

/// The rows of a table of `jobs`, without the header.
pub open spec fn rows_of(jobs: Seq<JobView>) -> Seq<Seq<Seq<char>>> {
    jobs.map_values(|job: JobView| row_of(job))
}

/// The views of a list of rows.
pub open spec fn row_views(rows: Seq<Vec<String>>) -> Seq<Seq<Seq<char>>> {
    rows.map_values(|row: Vec<String>| text_views(row@))
}

fn cell(field: &Option<String>) -> (text: String)
    ensures
        text@ == text_or_empty(opt_text(*field)),
{
    match field {
        Some(text) => text.clone(),
        None => String::new(),
    }
}

/// The names of the columns, in order.
pub fn header() -> (row: Vec<String>)
    ensures
        text_views(row@) == header_row(),
{
    let mut row: Vec<String> = Vec::new();
    row.push(String::from_str("title"));
    row.push(String::from_str("company"));
    row.push(String::from_str("experience_years"));
    row.push(String::from_str("url"));
    row.push(String::from_str("deadline"));
    row.push(String::from_str("location"));
    row.push(String::from_str("rating"));
    row.push(String::from_str("review_count"));
    assert(text_views(row@) =~= header_row());
    row
}

impl Job {
    /// The row of this record.
    pub fn to_row(&self) -> (row: Vec<String>)
        ensures
            text_views(row@) == row_of(self@),
            row.len() == COLUMNS,
    {
        let mut row: Vec<String> = Vec::new();
        row.push(self.title.clone());
        row.push(self.company.clone());
        row.push(self.experience_years.clone());
        row.push(self.url.clone());
        row.push(cell(&self.deadline));
        row.push(cell(&self.location));
        row.push(cell(&self.rating));
        row.push(
            match self.review_count {
                Some(n) => to_decimal(n as u64),
                None => String::new(),
            },
        );
        assert(text_views(row@) =~= row_of(self@));
        row
    }
}

/// The rows of a table of `jobs`, without the header: one for each record,
/// in order.
pub fn to_rows(jobs: &Vec<Job>) -> (rows: Vec<Vec<String>>)
    ensures
        row_views(rows@) == rows_of(views(jobs@)),
{
    let mut rows: Vec<Vec<String>> = Vec::new();
    let mut i: usize = 0;
    while i < jobs.len()
        invariant
            i <= jobs.len(),
            row_views(rows@) == rows_of(views(jobs@).take(i as int)),
        decreases jobs.len() - i,
    {
        let ghost before = row_views(rows@);
        let row = jobs[i].to_row();
        rows.push(row);
        proof {
            assert(row_views(rows@) =~= before.push(text_views(row@)));
            assert(views(jobs@).take(i + 1) =~= views(jobs@).take(i as int).push(jobs[i as int]@));
        }
        i += 1;
    }
    proof {
        assert(views(jobs@).take(jobs.len() as int) =~= views(jobs@));
    }
    rows
}

} // verus!
