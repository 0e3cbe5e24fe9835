//! One scraping session and the pagination protocol it follows.
//!
//! A session is bound to one campus and one term.  Its life is a fixed
//! sequence: a priming call that earns the cookies, a probe call that
//! reveals the total result count, then one call per page until the pages
//! run out or a page repeats the one before it — the catalog's only
//! "no more pages" signal.  The session itself never touches the network:
//! it hands out the form each call must carry and consumes the body each
//! call brought back, so that the whole protocol is decided here and only
//! the transport lives outside.
use vstd::prelude::*;

use crate::record::{classes_from_html, spec_classes_from_rows, table_cells_of, Class, ClassView};
use crate::text::{decimal_string, parse_u32, spec_decimal, spec_parse_u32};
use crate::ParseError;
use select::document::Document;
use select::predicate::{Attr, Name, Predicate};

verus! {

/// A campus of the institution: the closed set of sites the catalog's
/// form accepts, each with a fixed numeric code.
#[derive(Clone, Copy, Debug, PartialEq, Eq, Structural)]
pub enum Campus {
    EAD,
    FLO,
    JOI,
    CBS,
    ARA,
    BLN,
}

/// The numeric code the catalog's form expects for a campus.
pub open spec fn spec_campus_code(c: Campus) -> u32 {
    match c {
        Campus::EAD => 0,
        Campus::FLO => 1,
        Campus::JOI => 2,
        Campus::CBS => 3,
        Campus::ARA => 4,
        Campus::BLN => 5,
    }
}

/// The short name a campus is reported under.
pub open spec fn spec_campus_name(c: Campus) -> Seq<char> {
    match c {
        Campus::EAD => "EAD"@,
        Campus::FLO => "FLO"@,
        Campus::JOI => "JOI"@,
        Campus::CBS => "CBS"@,
        Campus::ARA => "ARA"@,
        Campus::BLN => "BLN"@,
    }
}

impl Campus {
    /// The numeric code the catalog's form expects.
    pub fn code(&self) -> (c: u32)
        ensures
            c == spec_campus_code(*self),
    {
        match self {
            Campus::EAD => 0,
            Campus::FLO => 1,
            Campus::JOI => 2,
            Campus::CBS => 3,
            Campus::ARA => 4,
            Campus::BLN => 5,
        }
    }

    /// The short name this campus is reported under.
    pub fn name(&self) -> (r: &'static str)
        ensures
            r@ == spec_campus_name(*self),
    {
        match self {
            Campus::EAD => "EAD",
            Campus::FLO => "FLO",
            Campus::JOI => "JOI",
            Campus::CBS => "CBS",
            Campus::ARA => "ARA",
            Campus::BLN => "BLN",
        }
    }
}

impl DeepView for Campus {
    type V = Campus;

    open spec fn deep_view(&self) -> Campus {
        *self
    }
}

/// Number of result rows the catalog renders on one page.
pub const PAGE_SIZE: u32 = 50;

/// Pages needed to show `entries` results: ceiling division by the page
/// size.  A result count of zero yields zero pages.
pub fn pages_for(entries: u32) -> (pages: usize)
    ensures
        pages as int == ((entries as int) + (PAGE_SIZE - 1)) / (PAGE_SIZE as int),
{
    if entries == 0 {
        0
    } else {
        let pages: usize = ((entries as usize) - 1) / (PAGE_SIZE as usize) + 1;
        proof {
            let e = entries as int;
            assert((e - 1) / 50 + 1 == (e + 49) / 50) by (nonlinear_arith)
                requires 1 <= e
            ;
        }
        pages
    }
}

/// Whether `form` is the submission the catalog expects for the given
/// campus, term and page index: the fixed form-identity and view-state
/// tokens, the term echoed back, the campus code and the page index in
/// decimal, in this order.
pub open spec fn is_form_for(
    form: Seq<(&'static str, String)>,
    campus: Campus,
    term: Seq<char>,
    page_index: int,
) -> bool {
    &&& form.len() == 5
    &&& form[0].0@ == "formBusca"@ && form[0].1@ == "formBusca"@
    &&& form[1].0@ == "javax.faces.ViewState"@ && form[1].1@ == "j_id1"@
    &&& form[2].0@ == "formBusca:selectSemestre"@ && form[2].1@ == term
    &&& form[3].0@ == "formBusca:selectCampus"@ && form[3].1@ == spec_decimal(
        spec_campus_code(campus) as int,
    )
    &&& form[4].0@ == "formBusca:dataScroller1"@ && form[4].1@ == spec_decimal(page_index)
}

/// The form fields of one catalog request, in the order the wire contract
/// names them.
pub fn form_data(campus: Campus, term: String, page_index: usize) -> (form: Vec<
    (&'static str, String),
>)
    ensures
        is_form_for(form@, campus, term@, page_index as int),
{
    let mut form: Vec<(&'static str, String)> = Vec::new();
    form.push(("formBusca", "formBusca".to_owned()));
    form.push(("javax.faces.ViewState", "j_id1".to_owned()));
    form.push(("formBusca:selectSemestre", term));
    form.push(("formBusca:selectCampus", decimal_string(campus.code() as u64)));
    form.push(("formBusca:dataScroller1", decimal_string(page_index as u64)));
    form
}

/// The text of the result-count indicator in a probe response; nothing
/// when the page has no such element.  The value is determined by the page
/// text alone.
pub uninterp spec fn count_text_of(html: Seq<char>) -> Option<Seq<char>>;

/// Relies on the `select` crate: `Document::from` parses the page, `find`
/// with `Name`/`Attr` predicates locates the span with id
/// `formBusca:dataTableGroup` and its first child span, and
/// `Node::inner_html` yields that child's content.
#[verifier::external_body]
fn extract_count_text(html: &str) -> (r: Option<String>)
    ensures
        r.deep_view() == count_text_of(html@),
{
    let document = Document::from(html);
    let node = document
        .find(Name("span").and(Attr("id", "formBusca:dataTableGroup")).child(Name("span")))
        .next()?;
    Some(node.inner_html())
}

/// The result count a probe response reports: zero when the indicator is
/// absent or not a number — the catalog's own soft failure, kept as such.
pub open spec fn spec_result_count(html: Seq<char>) -> int {
    match count_text_of(html) {
        None => 0,
        Some(t) => match spec_parse_u32(t) {
            None => 0,
            Some(n) => n as int,
        },
    }
}

/// The page count a probe response implies.
pub open spec fn spec_page_count(html: Seq<char>) -> int {
    (spec_result_count(html) + (PAGE_SIZE - 1)) / (PAGE_SIZE as int)
}

/// Read the result-count indicator of a probe response and turn it into a
/// page count.  An absent or unparsable indicator counts as zero results,
/// hence zero pages.
pub fn page_count_from_html(html: &str) -> (pages: usize)
    ensures
        pages as int == spec_page_count(html@),
{
    let entries: u32 = match extract_count_text(html) {
        None => 0,
        Some(t) => match parse_u32(t.as_str()) {
            None => 0,
            Some(n) => n,
        },
    };
    pages_for(entries)
}

/// The values of the term-selector options on the catalog's landing page,
/// in document order.  The value is determined by the page text alone.
pub uninterp spec fn term_values_of(html: Seq<char>) -> Seq<Seq<char>>;

/// Relies on the `select` crate: `Document::from` parses the page, `find`
/// with `Name`/`Attr` predicates walks the options of the select element
/// with id `formBusca:selectSemestre` in document order, and `Node::attr`
/// yields each option's `value` attribute, options without one skipped.
#[verifier::external_body]
fn extract_term_values(html: &str) -> (r: Vec<String>)
    ensures
        r.deep_view() == term_values_of(html@),
{
    let document = Document::from(html);
    let dropdown = Name("select").and(Attr("id", "formBusca:selectSemestre"));
    let mut terms = Vec::new();
    for option in document.find(dropdown.child(Name("option"))) {
        if let Some(value) = option.attr("value") {
            terms.push(value.to_owned());
        }
    }
    terms
}

/// The term tokens the catalog's landing page offers, most recent first
/// by the catalog's own ordering.
pub fn terms_from_html(html: &str) -> (r: Vec<String>)
    ensures
        r.deep_view() == term_values_of(html@),
{
    extract_term_values(html)
}

/// Where a session stands in its fixed protocol.  No step skips a phase:
/// priming must precede the probe, the probe must precede the pages.
#[derive(Clone, Copy, Debug, PartialEq, Eq, Structural)]
pub enum SessionPhase {
    /// Constructed; the priming call has not completed yet.
    Unprimed,
    /// The priming call completed: cookies exist, the probe may go out.
    Primed,
    /// The probe went out; its response has not been consumed yet.
    Counting,
    /// Pages are being fetched in increasing order.
    Paginating,
    /// Pagination ended: by running out of pages or by a repeated body.
    Done,
}

/// One scraping session, bound to one campus and one term.  It decides
/// every step of the pagination protocol; the caller only carries its
/// forms to the catalog and brings the response bodies back.
pub struct Session {
    campus: Campus,
    term: String,
    phase: SessionPhase,
    page_count: usize,
    next_page: usize,
    previous: Option<String>,
    classes: Vec<Class>,
}

/// The mathematical value of a `Session`.
pub struct SessionView {
    pub campus: Campus,
    pub term: Seq<char>,
    pub phase: SessionPhase,
    /// Pages the probe response promised.
    pub page_count: int,
    /// Index of the next page to request, counted from one.
    pub next_page: int,
    /// Body of the last page consumed, for the duplicate check.
    pub previous: Option<Seq<char>>,
    /// Records accumulated so far, in page order.
    pub classes: Seq<ClassView>,
}

impl View for Session {
    type V = SessionView;

    closed spec fn view(&self) -> SessionView {
        SessionView {
            campus: self.campus,
            term: self.term@,
            phase: self.phase,
            page_count: self.page_count as int,
            next_page: self.next_page as int,
            previous: self.previous.deep_view(),
            classes: self.classes.deep_view(),
        }
    }
}

impl SessionView {
    /// What holds of every session the library hands out.
    pub open spec fn inv(self) -> bool {
        &&& 0 <= self.page_count <= 0x8000_0000
        &&& 1 <= self.next_page <= self.page_count + 1
    }
}

/// What a fresh page body adds to a session: the classes of its table,
/// or the error that makes it unusable.
pub open spec fn spec_page_classes(body: Seq<char>) -> Result<Seq<ClassView>, ParseError> {
    match table_cells_of(body) {
        None => Err(ParseError::TableNotFound),
        Some(rows) => spec_classes_from_rows(rows),
    }
}

impl Session {
    /// Bind a session to one campus and one term.  It starts unprimed,
    /// with no pages and no records.
    pub fn new(campus: Campus, term: String) -> (s: Session)
        ensures
            s@.campus == campus,
            s@.term == term@,
            s@.phase == SessionPhase::Unprimed,
            s@.page_count == 0,
            s@.next_page == 1,
            s@.previous is None,
            s@.classes == Seq::<ClassView>::empty(),
            s@.inv(),
    {
        let s = Session {
            campus,
            term,
            phase: SessionPhase::Unprimed,
            page_count: 0,
            next_page: 1,
            previous: None,
            classes: Vec::new(),
        };
        proof {
            assert(s@.classes =~= Seq::<ClassView>::empty());
        }
        s
    }

    /// Where the session stands.
    pub fn phase(&self) -> (p: SessionPhase)
        ensures
            p == self@.phase,
    {
        self.phase
    }

    /// Pages the probe response promised.
    pub fn page_count(&self) -> (n: usize)
        ensures
            n as int == self@.page_count,
    {
        self.page_count
    }

    /// Index of the next page to request, counted from one.
    pub fn next_page(&self) -> (n: usize)
        ensures
            n as int == self@.next_page,
    {
        self.next_page
    }

    /// Record that the priming call completed, so that cookies exist.
    pub fn primed(&mut self)
        requires
            old(self)@.phase == SessionPhase::Unprimed,
            old(self)@.inv(),
        ensures
            final(self)@ == (SessionView { phase: SessionPhase::Primed, ..old(self)@ }),
            final(self)@.inv(),
    {
        self.phase = SessionPhase::Primed;
    }

    /// The form of the probe call that reveals the result count.  The
    /// probe asks for an interior page — the catalog's first page is known
    /// not to carry usable pagination metadata.
    pub fn probe_request(&mut self) -> (form: Vec<(&'static str, String)>)
        requires
            old(self)@.phase == SessionPhase::Primed,
            old(self)@.inv(),
        ensures
            final(self)@ == (SessionView { phase: SessionPhase::Counting, ..old(self)@ }),
            final(self)@.inv(),
            is_form_for(form@, old(self)@.campus, old(self)@.term, 2),
    {
        self.phase = SessionPhase::Counting;
        form_data(self.campus, self.term.clone(), 2)
    }

    /// Consume the probe response.  The session learns its page count and
    /// turns to pagination, or is done at once when there are no pages.
    pub fn count_received(&mut self, body: &str)
        requires
            old(self)@.phase == SessionPhase::Counting,
            old(self)@.inv(),
        ensures
            final(self)@.campus == old(self)@.campus,
            final(self)@.term == old(self)@.term,
            final(self)@.classes == old(self)@.classes,
            final(self)@.previous is None,
            final(self)@.page_count == spec_page_count(body@),
            final(self)@.next_page == 1,
            final(self)@.phase == (if spec_page_count(body@) == 0 {
                SessionPhase::Done
            } else {
                SessionPhase::Paginating
            }),
            final(self)@.inv(),
    {
        let pages = page_count_from_html(body);
        self.page_count = pages;
        self.next_page = 1;
        self.previous = None;
        self.phase = if pages == 0 {
            SessionPhase::Done
        } else {
            SessionPhase::Paginating
        };
    }

    /// The form of the next page request, or nothing once the page
    /// indices are exhausted, which ends the session.
    pub fn page_request(&mut self) -> (r: Option<Vec<(&'static str, String)>>)
        requires
            old(self)@.phase == SessionPhase::Paginating,
            old(self)@.inv(),
        ensures
            final(self)@.inv(),
            old(self)@.next_page > old(self)@.page_count ==> r is None && final(self)@ == (
            SessionView { phase: SessionPhase::Done, ..old(self)@ }),
            old(self)@.next_page <= old(self)@.page_count ==> final(self)@ == old(self)@ && (
            r matches Some(form) && is_form_for(
                form@,
                old(self)@.campus,
                old(self)@.term,
                old(self)@.next_page,
            )),
    {
        if self.next_page > self.page_count {
            self.phase = SessionPhase::Done;
            None
        } else {
            Some(form_data(self.campus, self.term.clone(), self.next_page))
        }
    }

    /// Consume one page body.  A body identical to the previous page's
    /// ends the session without adding records — the catalog repeats the
    /// last page rather than report that pages ran out, and this is the
    /// only termination signal there is.  A fresh body is parsed and its
    /// records are appended in page order; a fresh body that cannot be
    /// parsed fails the session and changes nothing.
    pub fn page_received(&mut self, body: String) -> (r: Result<(), ParseError>)
        requires
            old(self)@.phase == SessionPhase::Paginating,
            old(self)@.next_page <= old(self)@.page_count,
            old(self)@.inv(),
        ensures
            final(self)@.inv(),
            old(self)@.previous == Some(body@) ==> r is Ok && final(self)@ == (SessionView {
                phase: SessionPhase::Done,
                ..old(self)@
            }),
            old(self)@.previous != Some(body@) ==> (match spec_page_classes(body@) {
                Ok(cs) => r is Ok && final(self)@ == (SessionView {
                    next_page: old(self)@.next_page + 1,
                    previous: Some(body@),
                    classes: old(self)@.classes + cs,
                    ..old(self)@
                }),
                Err(e) => (r matches Err(e2) && e2 == e) && final(self)@ == old(self)@,
            }),
    {
        let duplicate = match &self.previous {
            Some(prev) => {
                proof {
                    assert(self@.previous == Some(prev@));
                }
                *prev == body
            },
            None => {
                proof {
                    assert(self@.previous is None);
                }
                false
            },
        };
        proof {
            assert(duplicate == (old(self)@.previous == Some(body@)));
        }
        if duplicate {
            self.phase = SessionPhase::Done;
            return Ok(());
        }
        let ghost old_classes = self.classes.deep_view();
        match classes_from_html(body.as_str()) {
            Err(e) => Err(e),
            Ok(mut classes) => {
                let ghost new_classes = classes.deep_view();
                self.classes.append(&mut classes);
                self.next_page = self.next_page + 1;
                self.previous = Some(body);
                proof {
                    assert(self.classes.deep_view() =~= old_classes + new_classes);
                }
                Ok(())
            },
        }
    }

    /// Hand out what the session gathered, once it is done: its campus,
    /// its term and the records of all its pages in page order.
    pub fn finish(self) -> (r: (Campus, String, Vec<Class>))
        requires
            self@.phase == SessionPhase::Done,
        ensures
            r.0 == self@.campus,
            r.1@ == self@.term,
            r.2.deep_view() == self@.classes,
    {
        (self.campus, self.term, self.classes)
    }
}

/// The sessions a run of the orchestrator owns: one per pair of a term
/// and a campus, terms outermost, only the first `n` terms taken.
pub open spec fn spec_session_pairs(terms: Seq<Seq<char>>, n: int, campi: Seq<Campus>) -> Seq<
    (Campus, Seq<char>),
> {
    let t = if n <= terms.len() {
        n
    } else {
        terms.len() as int
    };
    Seq::new((t * campi.len()) as nat, |k: int| (campi[k % campi.len() as int], terms[k / campi.len() as int]))
}

/// The (campus, term) pairs to scrape: each of the first `n` terms —
/// fewer when fewer were discovered — combined with each campus, terms
/// outermost.  Every pair gets a session of its own and no pair depends
/// on another.
#[verifier::loop_isolation(false)]
pub fn session_pairs(terms: &Vec<String>, n: usize, campi: &Vec<Campus>) -> (pairs: Vec<
    (Campus, String),
>)
    ensures
        pairs.deep_view() == spec_session_pairs(terms.deep_view(), n as int, campi@),
{
    let ghost full = spec_session_pairs(terms.deep_view(), n as int, campi@);
    let t = if n <= terms.len() {
        n
    } else {
        terms.len()
    };
    let m = campi.len();
    let mut pairs: Vec<(Campus, String)> = Vec::new();
    proof {
        assert(full.len() == t * m);
        assert(pairs.deep_view() =~= full.take(0));
    }
    let mut i: usize = 0;
    while i < t
        invariant
            0 <= i <= t,
            pairs.deep_view() =~= full.take((i * m) as int),
        decreases t - i,
    {
        let mut j: usize = 0;
        while j < m
            invariant
                0 <= j <= m,
                i < t,
                pairs.deep_view() =~= full.take((i * m + j) as int),
            decreases m - j,
        {
            let ghost old_pairs = pairs.deep_view();
            let pair = (campi[j], terms[i].clone());
            pairs.push(pair);
            proof {
                let mi = m as int;
                let k: int = (i as int) * mi + (j as int);
                assert(0 <= k && k + 1 <= (t as int) * mi && k % mi == j as int && k / mi
                    == i as int) by (nonlinear_arith)
                    requires
                        0 <= (i as int) && (i as int) < (t as int),
                        0 <= (j as int) && (j as int) < mi,
                        k == (i as int) * mi + (j as int),
                ;
                assert(full[k as int] == (campi@[j as int], terms.deep_view()[i as int]));
                assert(pair.deep_view() == full[k as int]);
                assert(pairs.deep_view() =~= old_pairs.push(pair.deep_view()));
                assert(pairs.deep_view() =~= full.take(k as int + 1));
            }
            j = j + 1;
        }
        proof {
            assert(i * m + m == (i + 1) * m) by (nonlinear_arith);
        }
        i = i + 1;
    }
    proof {
        assert(full.take((t * m) as int) =~= full);
    }
    pairs
}

} // verus!
