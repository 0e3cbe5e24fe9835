use cagr::session::{
    form_data, page_count_from_html, pages_for, session_pairs, terms_from_html, Campus, Session,
    SessionPhase,
};

fn count_page(count: &str) -> String {
    format!(
        "<html><body><span id=\"formBusca:dataTableGroup\">\
         <span>{}</span></span></body></html>",
        count
    )
}

fn result_page(course: &str, class_id: &str) -> String {
    format!(
        "<html><body><table><tbody id=\"formBusca:dataTable:tb\">\
         <tr><td>x</td><td>x</td><td>x</td><td>{}</td><td>{}</td>\
         <td>Title</td><td>4</td><td>20</td><td>18</td><td></td><td></td>\
         <td></td><td>2.0800-2 / CTC-A</td><td>Dana</td></tr>\
         </tbody></table></body></html>",
        course, class_id
    )
}

#[test]
fn page_counts_use_ceiling_division() {
    assert_eq!(pages_for(0), 0);
    assert_eq!(pages_for(1), 1);
    assert_eq!(pages_for(50), 1);
    assert_eq!(pages_for(51), 2);
    assert_eq!(pages_for(100), 2);
    assert_eq!(pages_for(101), 3);
}

#[test]
fn page_count_reads_the_indicator() {
    assert_eq!(page_count_from_html(&count_page("120")), 3);
    assert_eq!(page_count_from_html(&count_page("50")), 1);
    assert_eq!(page_count_from_html(&count_page("0")), 0);
}

#[test]
fn page_count_defaults_to_zero_without_indicator() {
    assert_eq!(
        page_count_from_html("<html><body><p>nothing</p></body></html>"),
        0
    );
    assert_eq!(page_count_from_html(&count_page("not a number")), 0);
}

#[test]
fn form_data_follows_the_wire_contract() {
    let form = form_data(Campus::FLO, "20241".to_string(), 7);
    assert_eq!(form.len(), 5);
    assert_eq!(form[0], ("formBusca", "formBusca".to_string()));
    assert_eq!(form[1], ("javax.faces.ViewState", "j_id1".to_string()));
    assert_eq!(form[2], ("formBusca:selectSemestre", "20241".to_string()));
    assert_eq!(form[3], ("formBusca:selectCampus", "1".to_string()));
    assert_eq!(form[4], ("formBusca:dataScroller1", "7".to_string()));
}

#[test]
fn campus_codes_and_names() {
    assert_eq!(Campus::EAD.code(), 0);
    assert_eq!(Campus::FLO.code(), 1);
    assert_eq!(Campus::JOI.code(), 2);
    assert_eq!(Campus::CBS.code(), 3);
    assert_eq!(Campus::ARA.code(), 4);
    assert_eq!(Campus::BLN.code(), 5);
    assert_eq!(Campus::EAD.name(), "EAD");
    assert_eq!(Campus::BLN.name(), "BLN");
}

#[test]
fn session_walks_its_phases_in_order() {
    let mut session = Session::new(Campus::JOI, "20241".to_string());
    assert_eq!(session.phase(), SessionPhase::Unprimed);
    session.primed();
    assert_eq!(session.phase(), SessionPhase::Primed);
    let probe = session.probe_request();
    assert_eq!(session.phase(), SessionPhase::Counting);
    assert_eq!(probe[4], ("formBusca:dataScroller1", "2".to_string()));
    session.count_received(&count_page("101"));
    assert_eq!(session.phase(), SessionPhase::Paginating);
    assert_eq!(session.page_count(), 3);
    assert_eq!(session.next_page(), 1);
}

#[test]
fn session_with_no_results_is_done_at_once() {
    let mut session = Session::new(Campus::ARA, "20233".to_string());
    session.primed();
    let _probe = session.probe_request();
    session.count_received("<html><body></body></html>");
    assert_eq!(session.phase(), SessionPhase::Done);
    let (campus, term, classes) = session.finish();
    assert_eq!(campus, Campus::ARA);
    assert_eq!(term, "20233");
    assert!(classes.is_empty());
}

#[test]
fn duplicate_page_body_ends_pagination() {
    let mut session = Session::new(Campus::FLO, "20241".to_string());
    session.primed();
    let _probe = session.probe_request();
    session.count_received(&count_page("101"));
    assert_eq!(session.page_count(), 3);

    let page_a = result_page("INE5404", "INE5404-01208");
    let page_b = result_page("MTM3110", "MTM3110-02208");

    let form = session.page_request().unwrap();
    assert_eq!(form[4].1, "1");
    session.page_received(page_a).unwrap();
    assert_eq!(session.phase(), SessionPhase::Paginating);

    let form = session.page_request().unwrap();
    assert_eq!(form[4].1, "2");
    session.page_received(page_b.clone()).unwrap();
    assert_eq!(session.phase(), SessionPhase::Paginating);

    let form = session.page_request().unwrap();
    assert_eq!(form[4].1, "3");
    session.page_received(page_b).unwrap();
    assert_eq!(session.phase(), SessionPhase::Done);

    let (_, _, classes) = session.finish();
    assert_eq!(classes.len(), 2);
    assert_eq!(classes[0].course.id, "INE5404");
    assert_eq!(classes[1].course.id, "MTM3110");
}

#[test]
fn pagination_ends_when_pages_run_out() {
    let mut session = Session::new(Campus::FLO, "20241".to_string());
    session.primed();
    let _probe = session.probe_request();
    session.count_received(&count_page("60"));
    assert_eq!(session.page_count(), 2);

    session.page_request().unwrap();
    session
        .page_received(result_page("INE5404", "INE5404-01208"))
        .unwrap();
    session.page_request().unwrap();
    session
        .page_received(result_page("MTM3110", "MTM3110-02208"))
        .unwrap();
    assert!(session.page_request().is_none());
    assert_eq!(session.phase(), SessionPhase::Done);
    let (_, _, classes) = session.finish();
    assert_eq!(classes.len(), 2);
}

#[test]
fn bad_page_fails_but_changes_nothing() {
    let mut session = Session::new(Campus::FLO, "20241".to_string());
    session.primed();
    let _probe = session.probe_request();
    session.count_received(&count_page("60"));
    session.page_request().unwrap();
    let err = session
        .page_received("<html><body>no table</body></html>".to_string())
        .unwrap_err();
    assert_eq!(err, cagr::ParseError::TableNotFound);
    assert_eq!(session.phase(), SessionPhase::Paginating);
    assert_eq!(session.next_page(), 1);
}

#[test]
fn terms_come_from_the_dropdown_in_order() {
    let html = "<html><body><form id=\"formBusca\">\
                <select id=\"formBusca:selectSemestre\">\
                <option value=\"20242\">2024.2</option>\
                <option value=\"20241\">2024.1</option>\
                <option>no value</option>\
                <option value=\"20233\">2023.3</option>\
                </select></form></body></html>";
    assert_eq!(
        terms_from_html(html),
        vec![
            "20242".to_string(),
            "20241".to_string(),
            "20233".to_string()
        ]
    );
}

#[test]
fn no_dropdown_means_no_terms() {
    assert_eq!(
        terms_from_html("<html><body></body></html>"),
        Vec::<String>::new()
    );
}

#[test]
fn session_pairs_cross_terms_with_campuses() {
    let terms = vec!["a".to_string(), "b".to_string(), "c".to_string()];
    let campi = vec![Campus::FLO, Campus::JOI];
    let pairs = session_pairs(&terms, 2, &campi);
    assert_eq!(
        pairs,
        vec![
            (Campus::FLO, "a".to_string()),
            (Campus::JOI, "a".to_string()),
            (Campus::FLO, "b".to_string()),
            (Campus::JOI, "b".to_string()),
        ]
    );
    assert!(session_pairs(&terms, 0, &campi).is_empty());
    assert_eq!(session_pairs(&terms, 9, &campi).len(), 6);
    assert!(session_pairs(&terms, 2, &Vec::new()).is_empty());
}
