//! Typed records for course offerings, and the parser that builds them
//! from the cells of the catalog's results table.
//!
//! A results page carries one table body with a fixed element id; each of
//! its rows describes one class through position-dependent cells.  The
//! extraction of cell text from the HTML tree is delegated to the `select`
//! crate behind one trusted item; everything from the cells on is verified.
use vstd::prelude::*;

use crate::ParseError;
use crate::schedule::{parse_time_slot, spec_parse_time_slot, Time, TimeView};
use crate::text::{
    parse_u32, spec_parse_u32, spec_strip_brackets, spec_trimmed_lines, strip_brackets,
    trimmed_lines,
};
use select::document::Document;
use select::predicate::{Attr, Name, Predicate};

verus! {

/// A course as the catalog repeats it on every row: identifier, title and
/// weekly credit hours.
#[derive(Debug, Clone, PartialEq)]
pub struct Course {
    pub id: String,
    pub title: String,
    pub credits: u32,
}

/// The mathematical value of a `Course`.
pub struct CourseView {
    pub id: Seq<char>,
    pub title: Seq<char>,
    pub credits: u32,
}

impl View for Course {
    type V = CourseView;

    open spec fn view(&self) -> CourseView {
        CourseView { id: self.id@, title: self.title@, credits: self.credits }
    }
}

impl DeepView for Course {
    type V = CourseView;

    open spec fn deep_view(&self) -> CourseView {
        self.view()
    }
}

/// A scheduled offering of a course: one row of the results table.
#[derive(Debug, Clone, PartialEq)]
pub struct Class {
    pub id: String,
    pub course: Course,
    /// Free-form designation tags, brackets stripped, in row order.
    pub labels: Vec<String>,
    pub capacity: u32,
    pub enrolled: u32,
    /// Length of the waiting list; an empty cell counts as zero.
    pub waiting: u32,
    pub times: Vec<Time>,
    pub professors: Vec<String>,
}

/// The mathematical value of a `Class`.
pub struct ClassView {
    pub id: Seq<char>,
    pub course: CourseView,
    pub labels: Seq<Seq<char>>,
    pub capacity: u32,
    pub enrolled: u32,
    pub waiting: u32,
    pub times: Seq<TimeView>,
    pub professors: Seq<Seq<char>>,
}

impl View for Class {
    type V = ClassView;

    open spec fn view(&self) -> ClassView {
        ClassView {
            id: self.id@,
            course: self.course@,
            labels: self.labels.deep_view(),
            capacity: self.capacity,
            enrolled: self.enrolled,
            waiting: self.waiting,
            times: self.times.deep_view(),
            professors: self.professors.deep_view(),
        }
    }
}

impl DeepView for Class {
    type V = ClassView;

    open spec fn deep_view(&self) -> ClassView {
        self.view()
    }
}

/// What the waiting cell denotes: zero when empty, else its number.
pub open spec fn spec_waiting(cell: Seq<char>) -> Option<u32> {
    if cell.len() == 0 {
        Some(0u32)
    } else {
        spec_parse_u32(cell)
    }
}

/// What a sequence of schedule-cell lines denotes: the time slots in line
/// order, or the error of the first line that fails.
pub open spec fn spec_parse_times(lines: Seq<Seq<char>>) -> Result<Seq<TimeView>, ParseError>
    decreases lines.len(),
{
    if lines.len() == 0 {
        Ok(Seq::empty())
    } else {
        match spec_parse_times(lines.drop_last()) {
            Err(e) => Err(e),
            Ok(rest) => match spec_parse_time_slot(lines.last()) {
                Err(e) => Err(e),
                Ok(t) => Ok(rest.push(t)),
            },
        }
    }
}

proof fn lemma_parse_times_extend_err(lines: Seq<Seq<char>>, i: int)
    requires
        0 <= i <= lines.len(),
        spec_parse_times(lines.subrange(0, i)) is Err,
    ensures
        spec_parse_times(lines) == spec_parse_times(lines.subrange(0, i)),
    decreases lines.len() - i,
{
    if i == lines.len() {
        assert(lines.subrange(0, i) =~= lines);
    } else {
        assert(lines.subrange(0, i + 1).drop_last() =~= lines.subrange(0, i));
        lemma_parse_times_extend_err(lines, i + 1);
    }
}

/// What one row's ordered cell texts denote.  Cells are read by fixed
/// position: course id, class id, the title cell whose first line is the
/// course title and whose further lines are bracketed labels, credits,
/// capacity, enrolled count, the waiting cell (empty counting as zero),
/// the schedule cell (one time slot per line) and the professors cell (one
/// name per line).  A row with fewer than fourteen cells is missing cells;
/// a title cell without a line is missing the course title.
pub open spec fn spec_class_from_cells(cells: Seq<Seq<char>>) -> Result<ClassView, ParseError> {
    if cells.len() < 14 {
        Err(ParseError::MissingCells)
    } else {
        let title_lines = spec_trimmed_lines(cells[5]);
        if title_lines.len() == 0 {
            Err(ParseError::NoCourseTitle)
        } else {
            match spec_parse_u32(cells[6]) {
                None => Err(ParseError::InvalidNumber),
                Some(credits) => match spec_parse_u32(cells[7]) {
                    None => Err(ParseError::InvalidNumber),
                    Some(capacity) => match spec_parse_u32(cells[8]) {
                        None => Err(ParseError::InvalidNumber),
                        Some(enrolled) => match spec_waiting(cells[11]) {
                            None => Err(ParseError::InvalidNumber),
                            Some(waiting) => match spec_parse_times(spec_trimmed_lines(cells[12])) {
                                Err(e) => Err(e),
                                Ok(times) => Ok(
                                    ClassView {
                                        id: cells[4],
                                        course: CourseView {
                                            id: cells[3],
                                            title: title_lines[0],
                                            credits,
                                        },
                                        labels: title_lines.drop_first().map_values(
                                            |label: Seq<char>| spec_strip_brackets(label),
                                        ),
                                        capacity,
                                        enrolled,
                                        waiting,
                                        times,
                                        professors: spec_trimmed_lines(cells[13]),
                                    },
                                ),
                            },
                        },
                    },
                },
            }
        }
    }
}

/// Build a class record from one row's ordered, trimmed cell texts.
#[verifier::loop_isolation(false)]
pub fn class_from_cells(cells: &Vec<String>) -> (r: Result<Class, ParseError>)
    ensures
        (spec_class_from_cells(cells.deep_view()) matches Ok(c) ==> r matches Ok(class) && class@
            == c),
        (spec_class_from_cells(cells.deep_view()) matches Err(e) ==> r matches Err(e2) && e2 == e),
{
    let ghost cv = cells.deep_view();
    if cells.len() < 14 {
        return Err(ParseError::MissingCells);
    }
    proof {
        assert(cv[3] == cells@[3]@);
        assert(cv[4] == cells@[4]@);
        assert(cv[5] == cells@[5]@);
        assert(cv[6] == cells@[6]@);
        assert(cv[7] == cells@[7]@);
        assert(cv[8] == cells@[8]@);
        assert(cv[11] == cells@[11]@);
        assert(cv[12] == cells@[12]@);
        assert(cv[13] == cells@[13]@);
    }
    let title_lines = trimmed_lines(cells[5].as_str());
    let ghost tl = title_lines.deep_view();
    if title_lines.len() == 0 {
        return Err(ParseError::NoCourseTitle);
    }
    let credits = match parse_u32(cells[6].as_str()) {
        Some(v) => v,
        None => {
            return Err(ParseError::InvalidNumber);
        },
    };
    let capacity = match parse_u32(cells[7].as_str()) {
        Some(v) => v,
        None => {
            return Err(ParseError::InvalidNumber);
        },
    };
    let enrolled = match parse_u32(cells[8].as_str()) {
        Some(v) => v,
        None => {
            return Err(ParseError::InvalidNumber);
        },
    };
    let waiting = if cells[11].as_str().is_empty() {
        0u32
    } else {
        match parse_u32(cells[11].as_str()) {
            Some(v) => v,
            None => {
                return Err(ParseError::InvalidNumber);
            },
        }
    };
    let time_lines = trimmed_lines(cells[12].as_str());
    let ghost sl = time_lines.deep_view();
    let mut times: Vec<Time> = Vec::new();
    proof {
        assert(sl.subrange(0, 0) =~= Seq::<Seq<char>>::empty());
        assert(times.deep_view() =~= Seq::<TimeView>::empty());
    }
    let mut i: usize = 0;
    while i < time_lines.len()
        invariant
            0 <= i <= time_lines.len(),
            time_lines.deep_view() == sl,
            spec_parse_times(sl.subrange(0, i as int)) == Result::<
                Seq<TimeView>,
                ParseError,
            >::Ok(times.deep_view()),
        decreases time_lines.len() - i,
    {
        proof {
            assert(sl.subrange(0, i + 1).drop_last() =~= sl.subrange(0, i as int));
            assert(sl.subrange(0, i + 1).last() == sl[i as int]);
            assert(time_lines@[i as int].deep_view() == sl[i as int]);
        }
        let ghost old_times = times.deep_view();
        match parse_time_slot(time_lines[i].as_str()) {
            Err(e) => {
                proof {
                    lemma_parse_times_extend_err(sl, i + 1);
                }
                return Err(e);
            },
            Ok(t) => {
                times.push(t);
                proof {
                    assert(times.deep_view() =~= old_times.push(t@));
                }
            },
        }
        i = i + 1;
    }
    proof {
        assert(sl.subrange(0, sl.len() as int) =~= sl);
    }
    let mut labels: Vec<String> = Vec::new();
    let mut j: usize = 1;
    while j < title_lines.len()
        invariant
            1 <= j <= title_lines.len(),
            title_lines.deep_view() == tl,
            tl.len() >= 1,
            labels.deep_view() =~= tl.subrange(1, j as int).map_values(
                |label: Seq<char>| spec_strip_brackets(label),
            ),
        decreases title_lines.len() - j,
    {
        let ghost old_labels = labels.deep_view();
        let stripped = strip_brackets(title_lines[j].as_str()).to_owned();
        proof {
            assert(title_lines@[j as int].deep_view() == tl[j as int]);
            assert(stripped@ == spec_strip_brackets(tl[j as int]));
        }
        labels.push(stripped);
        proof {
            assert(labels.deep_view() =~= old_labels.push(stripped@));
            assert(tl.subrange(1, j + 1) =~= tl.subrange(1, j as int).push(tl[j as int]));
        }
        j = j + 1;
    }
    proof {
        assert(tl.subrange(1, tl.len() as int) =~= tl.drop_first());
    }
    let professors = trimmed_lines(cells[13].as_str());
    let course = Course { id: cells[3].clone(), title: title_lines[0].clone(), credits };
    proof {
        assert(title_lines@[0].deep_view() == tl[0]);
        assert(course@.title == tl[0]);
    }
    Ok(
        Class {
            id: cells[4].clone(),
            course,
            labels,
            capacity,
            enrolled,
            waiting,
            times,
            professors,
        },
    )
}

/// The trimmed cell texts of the rows of the results table body in an
/// HTML page, in document order; nothing when the page has no table body
/// with the expected element id.  The value is determined by the page text
/// alone.
pub uninterp spec fn table_cells_of(html: Seq<char>) -> Option<Seq<Seq<Seq<char>>>>;

/// Relies on the `select` crate: `Document::from` parses the page,
/// `find` with `Name`/`Attr` predicates locates the table body with id
/// `formBusca:dataTable:tb` and walks its `tr` and `td` elements in
/// document order, and `Node::text` yields a cell's text, here trimmed
/// with `str::trim`.
#[verifier::external_body]
fn extract_table_cells(html: &str) -> (r: Option<Vec<Vec<String>>>)
    ensures
        r.deep_view() == table_cells_of(html@),
{
    let document = Document::from(html);
    let table = document.find(Name("tbody").and(Attr("id", "formBusca:dataTable:tb"))).next()?;
    let mut rows = Vec::new();
    for row in table.find(Name("tr")) {
        let mut cells = Vec::new();
        for cell in row.find(Name("td")) {
            cells.push(cell.text().trim().to_owned());
        }
        rows.push(cells);
    }
    Some(rows)
}

/// What the rows of a results table denote: the classes in row order, or
/// the error of the first row that fails.
pub open spec fn spec_classes_from_rows(rows: Seq<Seq<Seq<char>>>) -> Result<
    Seq<ClassView>,
    ParseError,
>
    decreases rows.len(),
{
    if rows.len() == 0 {
        Ok(Seq::empty())
    } else {
        match spec_classes_from_rows(rows.drop_last()) {
            Err(e) => Err(e),
            Ok(rest) => match spec_class_from_cells(rows.last()) {
                Err(e) => Err(e),
                Ok(c) => Ok(rest.push(c)),
            },
        }
    }
}

proof fn lemma_classes_from_rows_extend_err(rows: Seq<Seq<Seq<char>>>, i: int)
    requires
        0 <= i <= rows.len(),
        spec_classes_from_rows(rows.subrange(0, i)) is Err,
    ensures
        spec_classes_from_rows(rows) == spec_classes_from_rows(rows.subrange(0, i)),
    decreases rows.len() - i,
{
    if i == rows.len() {
        assert(rows.subrange(0, i) =~= rows);
    } else {
        assert(rows.subrange(0, i + 1).drop_last() =~= rows.subrange(0, i));
        lemma_classes_from_rows_extend_err(rows, i + 1);
    }
}

/// Parse a results page into class records.  A page without the expected
/// table body always fails with `TableNotFound` — never an empty list —
/// and otherwise the rows are parsed in document order, the first failing
/// row's error failing the page.
#[verifier::loop_isolation(false)]
pub fn classes_from_html(source: &str) -> (r: Result<Vec<Class>, ParseError>)
    ensures
        table_cells_of(source@) is None ==> (r matches Err(e) && e == ParseError::TableNotFound),
        (table_cells_of(source@) matches Some(rows) ==> match spec_classes_from_rows(rows) {
            Ok(cs) => r matches Ok(v) && v.deep_view() == cs,
            Err(e) => r matches Err(e2) && e2 == e,
        }),
{
    let rows = match extract_table_cells(source) {
        None => {
            return Err(ParseError::TableNotFound);
        },
        Some(rows) => rows,
    };
    let ghost rv = table_cells_of(source@).unwrap();
    let mut classes: Vec<Class> = Vec::new();
    proof {
        assert(table_cells_of(source@) == Some(rows.deep_view()));
        assert(rv.subrange(0, 0) =~= Seq::<Seq<Seq<char>>>::empty());
        assert(classes.deep_view() =~= Seq::<ClassView>::empty());
    }
    let mut i: usize = 0;
    while i < rows.len()
        invariant
            0 <= i <= rows.len(),
            rows.deep_view() == rv,
            spec_classes_from_rows(rv.subrange(0, i as int)) == Result::<
                Seq<ClassView>,
                ParseError,
            >::Ok(classes.deep_view()),
        decreases rows.len() - i,
    {
        proof {
            assert(rv.subrange(0, i + 1).drop_last() =~= rv.subrange(0, i as int));
            assert(rv.subrange(0, i + 1).last() == rv[i as int]);
            assert(rows@[i as int].deep_view() == rv[i as int]);
        }
        let ghost old_classes = classes.deep_view();
        match class_from_cells(&rows[i]) {
            Err(e) => {
                proof {
                    lemma_classes_from_rows_extend_err(rv, i + 1);
                }
                return Err(e);
            },
            Ok(c) => {
                classes.push(c);
                proof {
                    assert(classes.deep_view() =~= old_classes.push(c@));
                }
            },
        }
        i = i + 1;
    }
    proof {
        assert(rv.subrange(0, rv.len() as int) =~= rv);
    }
    Ok(classes)
}

} // verus!
