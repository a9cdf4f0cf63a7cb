//! The error that transport work reports to the engine.

use vstd::prelude::*;

verus! {

/// A transport failure: a tab could not be created, a navigation or a script
/// failed, or a wait ran out. It carries the collaborator's own words.
#[derive(Debug)]
pub struct CrawlError {
    pub message: String,
}

impl View for CrawlError {
    type V = Seq<char>;

    open spec fn view(&self) -> Seq<char> {
        self.message@
    }
}

impl CrawlError {
    /// An error with the text `message`.
    pub fn new(message: String) -> (error: CrawlError)
        ensures
            error@ == message@,
    {
        CrawlError { message }
    }

    /// The text of the error.
    pub fn describe(&self) -> (text: String)
        ensures
            text@ == self@,
    {
        self.message.clone()
    }
}

impl Clone for CrawlError {
    fn clone(&self) -> (copy: CrawlError)
        ensures
            copy@ == self@,
    {
        CrawlError { message: self.message.clone() }
    }
}

} // verus!
