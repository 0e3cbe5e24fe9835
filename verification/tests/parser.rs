use cagr::record::{class_from_cells, classes_from_html};
use cagr::schedule::{parse_time_slot, parse_weekday, Weekday};
use cagr::text::{decimal_string, parse_u32, split_once, strip_brackets, trim, trimmed_lines};
use cagr::ParseError;

#[test]
fn weekday_codes_map_sunday_first() {
    assert_eq!(parse_weekday(1), Ok(Weekday::Sunday));
    assert_eq!(parse_weekday(2), Ok(Weekday::Monday));
    assert_eq!(parse_weekday(3), Ok(Weekday::Tuesday));
    assert_eq!(parse_weekday(4), Ok(Weekday::Wednesday));
    assert_eq!(parse_weekday(5), Ok(Weekday::Thursday));
    assert_eq!(parse_weekday(6), Ok(Weekday::Friday));
    assert_eq!(parse_weekday(7), Ok(Weekday::Saturday));
}

#[test]
fn weekday_codes_out_of_range_fail() {
    assert_eq!(parse_weekday(0), Err(ParseError::InvalidTime));
    assert_eq!(parse_weekday(8), Err(ParseError::InvalidTime));
    assert_eq!(parse_weekday(u32::MAX), Err(ParseError::InvalidTime));
}

#[test]
fn time_slot_round_trip() {
    let t = parse_time_slot("2.0800-4 / A1-101").unwrap();
    assert_eq!(t.weekday, Weekday::Monday);
    assert_eq!(t.hour, 8);
    assert_eq!(t.minute, 0);
    assert_eq!(t.credits, 4);
    assert_eq!(t.place, "A1-101");
}

#[test]
fn time_slot_credit_span_is_trimmed() {
    let t = parse_time_slot("5.1330- 2 / CTC-307").unwrap();
    assert_eq!(t.weekday, Weekday::Thursday);
    assert_eq!(t.hour, 13);
    assert_eq!(t.minute, 30);
    assert_eq!(t.credits, 2);
    assert_eq!(t.place, "CTC-307");
}

#[test]
fn time_slot_missing_delimiters_fail() {
    assert_eq!(parse_time_slot("2.0800-4"), Err(ParseError::InvalidTime));
    assert_eq!(parse_time_slot("20800-4 / A1"), Err(ParseError::InvalidTime));
    assert_eq!(parse_time_slot("2.0800 4 / A1"), Err(ParseError::InvalidTime));
    assert_eq!(parse_time_slot(""), Err(ParseError::InvalidTime));
}

#[test]
fn time_slot_bad_weekday_fails() {
    assert_eq!(parse_time_slot("9.0800-4 / A1"), Err(ParseError::InvalidTime));
    assert_eq!(parse_time_slot("x.0800-4 / A1"), Err(ParseError::InvalidNumber));
}

#[test]
fn time_slot_bad_clock_fails() {
    assert_eq!(parse_time_slot("2.800-4 / A1"), Err(ParseError::InvalidTime));
    assert_eq!(parse_time_slot("2.08000-4 / A1"), Err(ParseError::InvalidTime));
    assert_eq!(parse_time_slot("2.2400-4 / A1"), Err(ParseError::InvalidTime));
    assert_eq!(parse_time_slot("2.0860-4 / A1"), Err(ParseError::InvalidTime));
    assert_eq!(parse_time_slot("2.o8oo-4 / A1"), Err(ParseError::InvalidTime));
}

#[test]
fn time_slot_bad_credits_fail() {
    assert_eq!(parse_time_slot("2.0800-x / A1"), Err(ParseError::InvalidNumber));
    assert_eq!(parse_time_slot("2.0800- / A1"), Err(ParseError::InvalidNumber));
}

fn row(cells: &[&str]) -> Vec<String> {
    cells.iter().map(|c| c.to_string()).collect()
}

fn full_row() -> Vec<String> {
    row(&[
        "", "", "",
        "EEL5105",
        "EEL5105-01208A",
        "Circuitos e Tecnicas Digitais\n[PCC 18h]\n[EaD 20%]",
        "5",
        "30",
        "25",
        "", "",
        "",
        "2.0800-2 / CTC-CTC107\n4.1010-3 / CTC-CTC107",
        "Alice Silva\nBob Santos",
    ])
}

#[test]
fn row_parses_to_class() {
    let class = class_from_cells(&full_row()).unwrap();
    assert_eq!(class.course.id, "EEL5105");
    assert_eq!(class.course.title, "Circuitos e Tecnicas Digitais");
    assert_eq!(class.course.credits, 5);
    assert_eq!(class.id, "EEL5105-01208A");
    assert_eq!(class.labels, vec!["PCC 18h".to_string(), "EaD 20%".to_string()]);
    assert_eq!(class.capacity, 30);
    assert_eq!(class.enrolled, 25);
    assert_eq!(class.waiting, 0);
    assert_eq!(class.times.len(), 2);
    assert_eq!(class.times[0].weekday, Weekday::Monday);
    assert_eq!(class.times[0].hour, 8);
    assert_eq!(class.times[0].credits, 2);
    assert_eq!(class.times[1].weekday, Weekday::Wednesday);
    assert_eq!(class.times[1].hour, 10);
    assert_eq!(class.times[1].minute, 10);
    assert_eq!(class.times[1].place, "CTC-CTC107");
    assert_eq!(
        class.professors,
        vec!["Alice Silva".to_string(), "Bob Santos".to_string()]
    );
}

#[test]
fn empty_waiting_cell_defaults_to_zero() {
    let mut cells = full_row();
    cells[11] = String::new();
    assert_eq!(class_from_cells(&cells).unwrap().waiting, 0);
    cells[11] = "7".to_string();
    assert_eq!(class_from_cells(&cells).unwrap().waiting, 7);
}

#[test]
fn bad_waiting_cell_fails() {
    let mut cells = full_row();
    cells[11] = "many".to_string();
    assert_eq!(class_from_cells(&cells), Err(ParseError::InvalidNumber));
}

#[test]
fn empty_required_numeric_cell_fails() {
    for idx in [6usize, 7, 8] {
        let mut cells = full_row();
        cells[idx] = String::new();
        assert_eq!(class_from_cells(&cells), Err(ParseError::InvalidNumber));
    }
}

#[test]
fn short_row_fails() {
    let cells = row(&["a", "b", "c"]);
    assert_eq!(class_from_cells(&cells), Err(ParseError::MissingCells));
}

#[test]
fn empty_title_cell_fails() {
    let mut cells = full_row();
    cells[5] = String::new();
    assert_eq!(class_from_cells(&cells), Err(ParseError::NoCourseTitle));
}

#[test]
fn empty_schedule_cell_yields_no_times() {
    let mut cells = full_row();
    cells[12] = String::new();
    let class = class_from_cells(&cells).unwrap();
    assert!(class.times.is_empty());
}

#[test]
fn bad_schedule_line_fails_the_row() {
    let mut cells = full_row();
    cells[12] = "2.0800-2 / CTC\nnonsense".to_string();
    assert_eq!(class_from_cells(&cells), Err(ParseError::InvalidTime));
}

fn page_with_rows(rows_html: &str) -> String {
    format!(
        "<html><body><form id=\"formBusca\"><table>\
         <tbody id=\"formBusca:dataTable:tb\">{}</tbody>\
         </table></form></body></html>",
        rows_html
    )
}

fn row_html(course: &str, class_id: &str, title: &str) -> String {
    format!(
        "<tr><td>x</td><td>x</td><td>x</td><td>{}</td><td>{}</td>\
         <td>{}\n[PCC]</td><td>4</td><td>20</td><td>18</td><td></td><td></td>\
         <td>3</td><td>3.1010-2 / CTC-A</td><td>Carol</td></tr>",
        course, class_id, title
    )
}

#[test]
fn page_without_table_fails_with_table_not_found() {
    let html = "<html><body><p>no results table here</p></body></html>";
    assert_eq!(classes_from_html(html), Err(ParseError::TableNotFound));
}

#[test]
fn empty_table_yields_no_classes() {
    let html = page_with_rows("");
    let classes = classes_from_html(&html).unwrap();
    assert!(classes.is_empty());
}

#[test]
fn page_rows_parse_in_document_order() {
    let rows = format!(
        "{}{}",
        row_html("INE5404", "INE5404-02208", "Programacao II"),
        row_html("MTM3110", "MTM3110-01208", "Calculo 1")
    );
    let html = page_with_rows(&rows);
    let classes = classes_from_html(&html).unwrap();
    assert_eq!(classes.len(), 2);
    assert_eq!(classes[0].course.id, "INE5404");
    assert_eq!(classes[0].course.title, "Programacao II");
    assert_eq!(classes[0].labels, vec!["PCC".to_string()]);
    assert_eq!(classes[0].waiting, 3);
    assert_eq!(classes[0].times[0].weekday, Weekday::Tuesday);
    assert_eq!(classes[0].professors, vec!["Carol".to_string()]);
    assert_eq!(classes[1].course.id, "MTM3110");
    assert_eq!(classes[1].id, "MTM3110-01208");
}

#[test]
fn bad_row_fails_the_page() {
    let good = row_html("INE5404", "INE5404-02208", "Programacao II");
    let bad = "<tr><td>a</td></tr>".to_string();
    let html = page_with_rows(&format!("{}{}", good, bad));
    assert_eq!(classes_from_html(&html), Err(ParseError::MissingCells));
}

#[test]
fn text_utilities_behave() {
    assert_eq!(trim("  x y\t\n"), "x y");
    assert_eq!(trim(""), "");
    assert_eq!(strip_brackets("[PCC 18h]"), "PCC 18h");
    assert_eq!(strip_brackets("no brackets"), "no brackets");
    assert_eq!(
        trimmed_lines(" a \nb\n"),
        vec!["a".to_string(), "b".to_string()]
    );
    assert_eq!(
        trimmed_lines("a\n\nb"),
        vec!["a".to_string(), String::new(), "b".to_string()]
    );
    assert_eq!(trimmed_lines(""), Vec::<String>::new());
    assert_eq!(split_once("a / b / c", " / "), Some(("a", "b / c")));
    assert_eq!(split_once("abc", " / "), None);
}

#[test]
fn numbers_parse_and_render() {
    assert_eq!(parse_u32("0"), Some(0));
    assert_eq!(parse_u32("00123"), Some(123));
    assert_eq!(parse_u32("4294967295"), Some(u32::MAX));
    assert_eq!(parse_u32("4294967296"), None);
    assert_eq!(parse_u32("184467440737095516150"), None);
    assert_eq!(parse_u32(""), None);
    assert_eq!(parse_u32("12a"), None);
    assert_eq!(parse_u32(" 12"), None);
    assert_eq!(decimal_string(0), "0");
    assert_eq!(decimal_string(7), "7");
    assert_eq!(decimal_string(120), "120");
    assert_eq!(decimal_string(4294967295), "4294967295");
}

#[test]
fn parse_error_messages() {
    assert_eq!(ParseError::TableNotFound.message(), "results table not found");
    assert_eq!(ParseError::InvalidTime.message(), "invalid time");
}
