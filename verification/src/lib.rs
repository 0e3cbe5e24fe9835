//! Scraper core for a paginated, form-driven course catalog.
//!
//! The library covers the logic of one scrape: turning loosely formatted
//! table cells into typed records, computing how many pages a result set
//! spans, building the form submissions the catalog expects, and driving
//! the per-session pagination protocol to its end.  The surrounding I/O
//! (HTTP, persistence) lives outside the library and hands plain values in.
use vstd::prelude::*;

pub mod record;
pub mod schedule;
pub mod session;
pub mod text;

verus! {

/// Why a page or a row could not be turned into records.  Any of these is
/// fatal to the session whose page produced it.
#[derive(Clone, Copy, Debug, PartialEq, Eq, Structural)]
pub enum ParseError {
    /// The page lacks the table body the results live in: a session
    /// problem or a schema change, never to be taken as an empty page.
    TableNotFound,
    /// The title cell of a row has no first line.
    NoCourseTitle,
    /// A schedule-cell line does not follow the time-slot grammar.
    InvalidTime,
    /// A cell that must hold a number does not, or the number does not fit.
    InvalidNumber,
    /// A row has fewer cells than the table schema requires.
    MissingCells,
}

impl ParseError {
    /// A short description, in the way the catalog's consumers report it.
    pub fn message(&self) -> (r: &'static str)
    {
        match self {
            ParseError::TableNotFound => "results table not found",
            ParseError::NoCourseTitle => "no course title",
            ParseError::InvalidTime => "invalid time",
            ParseError::InvalidNumber => "invalid number",
            ParseError::MissingCells => "row is missing cells",
        }
    }
}

} // verus!
