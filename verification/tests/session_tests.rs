use endeavor::error::SessionError;
use endeavor::http::{run_workflow, status_is_success, Method};
use endeavor::session::{HoursForm, Session};

fn form() -> HoursForm {
    HoursForm {
        normal_hours: "8".to_string(),
        normal_minutes: "00".to_string(),
        overtime_hours: "00".to_string(),
        overtime_minutes: "00".to_string(),
        double_hours: "00".to_string(),
        double_minutes: "00".to_string(),
    }
}

#[test]
fn status_success_range() {
    assert!(!status_is_success(199));
    assert!(status_is_success(200));
    assert!(status_is_success(204));
    assert!(status_is_success(299));
    assert!(!status_is_success(300));
    assert!(!status_is_success(404));
    assert!(!status_is_success(500));
}

#[test]
fn login_plan_with_emulation_warms_up_first() {
    let s = Session::new(true);
    let plan = s.login_requests("user", "secret");
    assert_eq!(plan.len(), 2);
    assert_eq!(plan[0].method, Method::Get);
    assert_eq!(plan[0].url, "/horas");
    assert!(plan[0].form.is_empty());
    assert_eq!(plan[1].method, Method::Post);
    assert_eq!(plan[1].url, "/mobile_v2/login.asp?Action=Login");
    assert_eq!(
        plan[1].form,
        vec![
            ("UserLogon".to_string(), "user".to_string()),
            ("UserPwd".to_string(), "secret".to_string()),
        ]
    );
}

#[test]
fn login_plan_without_emulation_posts_only() {
    let s = Session::new(false);
    let plan = s.login_requests("user", "secret");
    assert_eq!(plan.len(), 1);
    assert_eq!(plan[0].method, Method::Post);
    assert_eq!(plan[0].url, "/mobile_v2/login.asp?Action=Login");
}

#[test]
fn login_succeeds_only_with_both_cookies() {
    let s = Session::new(false);
    let plan = s.login_requests("user", "secret");
    let statuses = vec![200];
    assert!(s.login_outcome(&plan, &statuses, true, true).is_ok());
}

#[test]
fn login_fails_without_user_cookie_despite_http_200() {
    let s = Session::new(false);
    let plan = s.login_requests("user", "secret");
    let statuses = vec![200];
    let e = s.login_outcome(&plan, &statuses, false, true).unwrap_err();
    assert_eq!(e, SessionError::MissingAuthCookie { name: "ENDEAVORu".to_string() });
}

#[test]
fn login_fails_without_pass_cookie_despite_http_200() {
    let s = Session::new(true);
    let plan = s.login_requests("user", "secret");
    let statuses = vec![200, 200];
    let e = s.login_outcome(&plan, &statuses, true, false).unwrap_err();
    assert_eq!(e, SessionError::MissingAuthCookie { name: "ENDEAVORp".to_string() });
}

#[test]
fn login_reports_http_rejection_before_cookies() {
    let s = Session::new(true);
    let plan = s.login_requests("user", "secret");
    let statuses = vec![200, 500];
    let e = s.login_outcome(&plan, &statuses, false, false).unwrap_err();
    assert_eq!(
        e,
        SessionError::RequestRejected {
            url: "/mobile_v2/login.asp?Action=Login".to_string(),
            status: 500,
        }
    );
}

#[test]
fn submit_plan_with_emulation_has_four_requests_in_order() {
    let s = Session::new(true);
    let plan = s.submit_requests("42", &form());
    assert_eq!(plan.len(), 4);
    assert_eq!(plan[0].method, Method::Get);
    assert_eq!(plan[0].url, "/mobile_v2/tarefa.asp?app_id=42");
    assert_eq!(plan[1].method, Method::Get);
    assert_eq!(plan[1].url, "/mobile_v2/apontamento.asp?hist=&app_id=42");
    assert_eq!(plan[2].method, Method::Post);
    assert_eq!(plan[2].url, "/mobile_v2/apontamento.asp?Action=Post&app_id=42");
    assert_eq!(plan[3].method, Method::Get);
    assert_eq!(plan[3].url, "/mobile_v2/finalizar.asp?app_id=42");
}

#[test]
fn submit_plan_without_emulation_skips_warmups() {
    let emulated = Session::new(true).submit_requests("42", &form());
    let plain = Session::new(false).submit_requests("42", &form());
    assert_eq!(plain.len(), 2);
    assert_eq!(plain[0], emulated[2]);
    assert_eq!(plain[1], emulated[3]);
}

#[test]
fn submit_post_carries_the_six_hours_fields() {
    let s = Session::new(false);
    let plan = s.submit_requests("7", &form());
    assert_eq!(
        plan[0].form,
        vec![
            ("horas_normais_horas".to_string(), "8".to_string()),
            ("horas_normais_minutos".to_string(), "00".to_string()),
            ("horas_extras_horas".to_string(), "00".to_string()),
            ("horas_extras_minutos".to_string(), "00".to_string()),
            ("horas_dobro_horas".to_string(), "00".to_string()),
            ("horas_dobro_minutos".to_string(), "00".to_string()),
        ]
    );
    assert!(plan[1].form.is_empty());
}

#[test]
fn workflow_runs_to_completion_on_success() {
    let s = Session::new(true);
    let plan = s.submit_requests("42", &form());
    let (issued, outcome) = run_workflow(&plan, &vec![200, 200, 201, 299]);
    assert_eq!(issued, 4);
    assert!(outcome.is_ok());
}

#[test]
fn workflow_aborts_at_first_rejection() {
    let s = Session::new(true);
    let plan = s.submit_requests("42", &form());
    let (issued, outcome) = run_workflow(&plan, &vec![200, 404, 200, 200]);
    assert_eq!(issued, 2);
    assert_eq!(
        outcome.unwrap_err(),
        SessionError::RequestRejected {
            url: "/mobile_v2/apontamento.asp?hist=&app_id=42".to_string(),
            status: 404,
        }
    );
}

#[test]
fn timeline_request_is_a_plain_get() {
    let s = Session::new(false);
    let r = s.timeline_request();
    assert_eq!(r.method, Method::Get);
    assert_eq!(r.url, "/mobile_v2/time_line.asp");
    assert!(r.form.is_empty());
}

#[test]
fn authentication_guard_needs_both_cookies() {
    let s = Session::new(false);
    assert!(s.require_authenticated(true, true).is_ok());
    assert_eq!(s.require_authenticated(false, true).unwrap_err(), SessionError::Unauthenticated);
    assert_eq!(s.require_authenticated(true, false).unwrap_err(), SessionError::Unauthenticated);
    assert_eq!(s.require_authenticated(false, false).unwrap_err(), SessionError::Unauthenticated);
}

#[test]
fn auth_cookie_names_are_fixed() {
    let (u, p) = Session::new(false).auth_cookie_names();
    assert_eq!(u, "ENDEAVORu");
    assert_eq!(p, "ENDEAVORp");
}
