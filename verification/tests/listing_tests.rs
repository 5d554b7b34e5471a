use endeavor::date::Date;
use endeavor::error::{EntryParseError, SessionError};
use endeavor::session::Session;

fn page(containers: &str) -> String {
    let mut s = String::new();
    s.push_str("<html><body>");
    s.push_str("<div class=\"wrapper fullheight-side\">");
    s.push_str("<div class=\"main-panel full-height\">");
    s.push_str("<div class=\"content\"><div><div class=\"col-md-12\"><div><div>");
    s.push_str(containers);
    s.push_str("</div></div></div></div></div>");
    s.push_str("</div></div>");
    s.push_str("</body></html>");
    s
}

fn entry_div(id_date: &str, customer: &str, project: &str) -> String {
    format!(
        "<div class=\"d-flex\"><div class=\"flex-1 ml-3 pt-1\"><h6><b>{}</b></h6><span>{}<br>{}</span></div></div>",
        id_date, customer, project
    )
}

fn today() -> Date {
    Date { year: 2024, month: 1, day: 10 }
}

#[test]
fn lists_all_well_formed_entries_sorted_by_date() {
    let html = page(&format!(
        "{}{}{}",
        entry_div("B2 - 09-Jan-2024", "Beta", "P2"),
        entry_div("A1 - 05-Jan-2024", "Alpha", "P1"),
        entry_div("C3 - 20-Jan-2024", "Gamma", "P3"),
    ));
    let s = Session::new(false);
    let entries = s.list_pending_entries(&html, today(), true).unwrap();
    assert_eq!(entries.len(), 3);
    assert_eq!(entries[0].id, "A1");
    assert_eq!(entries[1].id, "B2");
    assert_eq!(entries[2].id, "C3");
    assert_eq!(entries[0].customer, "Alpha");
    assert_eq!(entries[0].project_number, "P1");
    assert_eq!(entries[2].date, Date { year: 2024, month: 1, day: 20 });
}

#[test]
fn drops_future_entries_unless_included() {
    let html = page(&format!(
        "{}{}{}",
        entry_div("B2 - 09-Jan-2024", "Beta", "P2"),
        entry_div("C3 - 20-Jan-2024", "Gamma", "P3"),
        entry_div("A1 - 10-Jan-2024", "Alpha", "P1"),
    ));
    let s = Session::new(false);
    let pending = s.list_pending_entries(&html, today(), false).unwrap();
    assert_eq!(pending.len(), 2);
    assert_eq!(pending[0].id, "B2");
    assert_eq!(pending[1].id, "A1");
    let all = s.list_pending_entries(&html, today(), true).unwrap();
    assert_eq!(all.len(), 3);
}

#[test]
fn equal_dates_keep_extraction_order() {
    let html = page(&format!(
        "{}{}{}",
        entry_div("X1 - 05-Jan-2024", "One", "P1"),
        entry_div("X2 - 01-Jan-2024", "Two", "P2"),
        entry_div("X3 - 05-Jan-2024", "Three", "P3"),
    ));
    let s = Session::new(false);
    let entries = s.list_pending_entries(&html, today(), true).unwrap();
    let ids: Vec<&str> = entries.iter().map(|e| e.id.as_str()).collect();
    assert_eq!(ids, vec!["X2", "X1", "X3"]);
}

#[test]
fn empty_page_yields_empty_listing() {
    let s = Session::new(false);
    let entries = s.list_pending_entries(&page(""), today(), true).unwrap();
    assert!(entries.is_empty());
    let entries = s
        .list_pending_entries("<html><body></body></html>", today(), true)
        .unwrap();
    assert!(entries.is_empty());
}

#[test]
fn wrong_project_fragment_count_fails_whole_listing() {
    // the second container's span holds one fragment instead of two:
    // no partial result may come back
    let bad = "<div class=\"d-flex\"><div class=\"flex-1 ml-3 pt-1\"><h6><b>B2 - 06-Jan-2024</b></h6><span>only-customer</span></div></div>";
    let html = page(&format!(
        "{}{}{}",
        entry_div("A1 - 05-Jan-2024", "Alpha", "P1"),
        bad,
        entry_div("C3 - 07-Jan-2024", "Gamma", "P3"),
    ));
    let s = Session::new(false);
    let e = s.list_pending_entries(&html, today(), true).unwrap_err();
    assert_eq!(
        e,
        SessionError::EntryParse {
            index: 1,
            error: EntryParseError::WrongProjectInfoCount { found: 1 },
        }
    );
}

#[test]
fn missing_entry_body_fails_with_its_index() {
    let bare = "<div class=\"d-flex\"><p>nothing here</p></div>";
    let html = page(&format!("{}{}", entry_div("A1 - 05-Jan-2024", "Alpha", "P1"), bare));
    let s = Session::new(false);
    let e = s.list_pending_entries(&html, today(), true).unwrap_err();
    assert_eq!(e, SessionError::MissingEntryBody { index: 1 });
}

#[test]
fn missing_id_date_element_fails() {
    let no_id = "<div class=\"d-flex\"><div class=\"flex-1 ml-3 pt-1\"><span>Alpha<br>P1</span></div></div>";
    let html = page(no_id);
    let s = Session::new(false);
    let e = s.list_pending_entries(&html, today(), true).unwrap_err();
    assert_eq!(e, SessionError::MissingIdDate { index: 0 });
}

#[test]
fn missing_project_info_element_fails() {
    let no_info = "<div class=\"d-flex\"><div class=\"flex-1 ml-3 pt-1\"><h6><b>A1 - 05-Jan-2024</b></h6></div></div>";
    let html = page(no_info);
    let s = Session::new(false);
    let e = s.list_pending_entries(&html, today(), true).unwrap_err();
    assert_eq!(e, SessionError::MissingProjectInfo { index: 0 });
}

#[test]
fn malformed_date_in_container_fails_listing() {
    let html = page(&entry_div("A1 - 32-Jan-2024", "Alpha", "P1"));
    let s = Session::new(false);
    let e = s.list_pending_entries(&html, today(), true).unwrap_err();
    assert_eq!(
        e,
        SessionError::EntryParse { index: 0, error: EntryParseError::InvalidDate }
    );
}
