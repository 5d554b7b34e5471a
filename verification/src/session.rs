//! The session component: what requests each workflow issues, in what
//! order, and how the responses decide its outcome.
//!
//! The caller owns the HTTP transport and the cookie jar it shares with
//! concurrent workflows. Each workflow here is planned as an ordered
//! sequence of `HttpRequest`, issued by the caller one at a time; a non-2xx
//! status aborts the remaining steps. Login success is decided by cookie
//! presence alone, never by HTTP status.

use vstd::prelude::*;
use crate::date::Date;
use crate::entry::{Entry, EntryModel};
use crate::error::SessionError;
use crate::extract::{
    container_model, container_ok, lemma_scan_decompose, prefix_models, raws_view, scan_from,
    scrape, scraped_containers, scraped_view,
};
use crate::http::{
    HttpRequest, Method, RequestModel, first_rejection, lemma_first_rejection_props, plan_view,
    run_workflow, spec_get, status_ok,
};
use crate::listing::{
    entries_view, keep_pred, lemma_filter_push, lemma_listing_sorted, sort_entries, sorted_by_date,
    spec_keep, spec_listing,
};

verus! {

/// The fixed structural path that locates entry data in the listing page:
/// the entry containers, the entry body under each, the `id - date` text
/// element and the project info element. Built once at session
/// construction; a server-side markup change breaks extraction here.
#[derive(Clone, Debug, PartialEq)]
pub struct SelectorPath {
    pub containers: String,
    pub entry_body: String,
    pub id_date: String,
    pub project_info: String,
}

/// The session: the browser-emulation flag and the extraction path
/// descriptors. The cookie jar that carries authentication lives with the
/// caller's transport; its state is reported back into `login_outcome`
/// and `require_authenticated`.
#[derive(Clone, Debug, PartialEq)]
pub struct Session {
    pub emulate_browser: bool,
    pub path: SelectorPath,
}

pub open spec fn spec_containers_selector() -> Seq<char> {
    "body > div.wrapper.fullheight-side > div.main-panel.full-height > div.content > div > div.col-md-12 > div > div > div.d-flex"@
}

pub open spec fn spec_entry_body_selector() -> Seq<char> {
    "div.flex-1.ml-3.pt-1"@
}

pub open spec fn spec_id_date_selector() -> Seq<char> {
    "h6 > b"@
}

pub open spec fn spec_project_info_selector() -> Seq<char> {
    ":scope > span"@
}

pub open spec fn spec_landing_url() -> Seq<char> {
    "/horas"@
}

pub open spec fn spec_login_url() -> Seq<char> {
    "/mobile_v2/login.asp?Action=Login"@
}

pub open spec fn spec_timeline_url() -> Seq<char> {
    "/mobile_v2/time_line.asp"@
}

pub open spec fn spec_task_url(id: Seq<char>) -> Seq<char> {
    "/mobile_v2/tarefa.asp?app_id="@ + id
}

pub open spec fn spec_entry_detail_url(id: Seq<char>) -> Seq<char> {
    "/mobile_v2/apontamento.asp?hist=&app_id="@ + id
}

pub open spec fn spec_submit_url(id: Seq<char>) -> Seq<char> {
    "/mobile_v2/apontamento.asp?Action=Post&app_id="@ + id
}

pub open spec fn spec_finalize_url(id: Seq<char>) -> Seq<char> {
    "/mobile_v2/finalizar.asp?app_id="@ + id
}

/// The name of the session cookie holding the user token.
pub open spec fn spec_user_cookie() -> Seq<char> {
    "ENDEAVORu"@
}

/// The name of the session cookie holding the password token.
pub open spec fn spec_pass_cookie() -> Seq<char> {
    "ENDEAVORp"@
}

/// The mathematical content of an `HoursForm`.
#[verifier::ext_equal]
pub struct HoursFormModel {
    pub normal_hours: Seq<char>,
    pub normal_minutes: Seq<char>,
    pub overtime_hours: Seq<char>,
    pub overtime_minutes: Seq<char>,
    pub double_hours: Seq<char>,
    pub double_minutes: Seq<char>,
}

/// The six fixed hours fields of the submission form: normal, overtime and
/// double-time hours and minutes. Each value is an opaque numeric string
/// passed through unchanged; this component does not interpret them.
#[derive(Clone, Debug, PartialEq)]
pub struct HoursForm {
    pub normal_hours: String,
    pub normal_minutes: String,
    pub overtime_hours: String,
    pub overtime_minutes: String,
    pub double_hours: String,
    pub double_minutes: String,
}

impl View for HoursForm {
    type V = HoursFormModel;

    open spec fn view(&self) -> HoursFormModel {
        HoursFormModel {
            normal_hours: self.normal_hours@,
            normal_minutes: self.normal_minutes@,
            overtime_hours: self.overtime_hours@,
            overtime_minutes: self.overtime_minutes@,
            double_hours: self.double_hours@,
            double_minutes: self.double_minutes@,
        }
    }
}

/// The six key/value pairs of the submission POST body, in the order the
/// form posts them.
pub open spec fn spec_hours_form_pairs(f: HoursFormModel) -> Seq<(Seq<char>, Seq<char>)> {
    seq![
        ("horas_normais_horas"@, f.normal_hours),
        ("horas_normais_minutos"@, f.normal_minutes),
        ("horas_extras_horas"@, f.overtime_hours),
        ("horas_extras_minutos"@, f.overtime_minutes),
        ("horas_dobro_horas"@, f.double_hours),
        ("horas_dobro_minutos"@, f.double_minutes),
    ]
}

/// The login workflow: a warm-up GET of the landing page when the session
/// emulates a browser, then the credential POST to the login endpoint.
pub open spec fn spec_login_plan(emulate: bool, user: Seq<char>, pass: Seq<char>) -> Seq<
    RequestModel,
> {
    let post = RequestModel {
        method: Method::Post,
        url: spec_login_url(),
        form: seq![("UserLogon"@, user), ("UserPwd"@, pass)],
    };
    if emulate {
        seq![spec_get(spec_landing_url()), post]
    } else {
        seq![post]
    }
}

/// The submission workflow for one entry id: two warm-up GETs (task
/// detail, then entry detail) when the session emulates a browser, then
/// the hours POST, then the finalize GET, strictly in this order.
pub open spec fn spec_submit_plan(emulate: bool, id: Seq<char>, f: HoursFormModel) -> Seq<
    RequestModel,
> {
    let post = RequestModel {
        method: Method::Post,
        url: spec_submit_url(id),
        form: spec_hours_form_pairs(f),
    };
    let finalize = spec_get(spec_finalize_url(id));
    if emulate {
        seq![spec_get(spec_task_url(id)), spec_get(spec_entry_detail_url(id)), post, finalize]
    } else {
        seq![post, finalize]
    }
}

/// With browser emulation the submission workflow issues exactly four
/// requests; without it, exactly the same plan minus the two leading
/// warm-up requests.
pub proof fn lemma_submit_plan_shape(id: Seq<char>, f: HoursFormModel)
    ensures
        spec_submit_plan(true, id, f).len() == 4,
        spec_submit_plan(false, id, f).len() == 2,
        spec_submit_plan(true, id, f).subrange(2, 4) =~= spec_submit_plan(false, id, f),
        spec_submit_plan(true, id, f)[0] == spec_get(spec_task_url(id)),
        spec_submit_plan(true, id, f)[1] == spec_get(spec_entry_detail_url(id)),
{
}

/// Login succeeds only when every issued request was answered 2xx and both
/// session cookies are present afterwards.
pub open spec fn spec_login_ok(statuses: Seq<u16>, has_user_cookie: bool, has_pass_cookie: bool) -> bool {
    first_rejection(statuses) is None && has_user_cookie && has_pass_cookie
}

/// Even when every HTTP status reports success, login succeeds only when
/// both session cookies were set: a 2xx answer alone never authenticates,
/// and a missing cookie is an authentication error, not an HTTP one.
pub proof fn lemma_login_needs_cookies(statuses: Seq<u16>, has_user_cookie: bool, has_pass_cookie: bool)
    requires
        forall|i: int| 0 <= i < statuses.len() ==> status_ok(#[trigger] statuses[i]),
    ensures
        spec_login_ok(statuses, has_user_cookie, has_pass_cookie) <==> has_user_cookie
            && has_pass_cookie,
{
    lemma_first_rejection_props(statuses, 0);
}

fn get_request(url: &str) -> (r: HttpRequest)
    ensures
        r@ == spec_get(url@),
{
    let r = HttpRequest { method: Method::Get, url: String::from_str(url), form: Vec::new() };
    proof {
        assert(r@ =~~= spec_get(url@));
    }
    r
}

impl Session {
    /// Builds the session configuration: the browser-emulation flag and
    /// the immutable extraction path descriptors, constructed once here.
    pub fn new(emulate_browser: bool) -> (s: Session)
        ensures
            s.emulate_browser == emulate_browser,
            s.path.containers@ == spec_containers_selector(),
            s.path.entry_body@ == spec_entry_body_selector(),
            s.path.id_date@ == spec_id_date_selector(),
            s.path.project_info@ == spec_project_info_selector(),
    {
        Session {
            emulate_browser,
            path: SelectorPath {
                containers: String::from_str(
                    "body > div.wrapper.fullheight-side > div.main-panel.full-height > div.content > div > div.col-md-12 > div > div > div.d-flex",
                ),
                entry_body: String::from_str("div.flex-1.ml-3.pt-1"),
                id_date: String::from_str("h6 > b"),
                project_info: String::from_str(":scope > span"),
            },
        }
    }

    /// The two cookie names whose presence after login is the only
    /// reliable success signal; their values stay opaque.
    pub fn auth_cookie_names(&self) -> (r: (String, String))
        ensures
            r.0@ == spec_user_cookie(),
            r.1@ == spec_pass_cookie(),
    {
        (String::from_str("ENDEAVORu"), String::from_str("ENDEAVORp"))
    }

    /// The GET request that fetches the listing page.
    pub fn timeline_request(&self) -> (r: HttpRequest)
        ensures
            r@ == spec_get(spec_timeline_url()),
    {
        get_request("/mobile_v2/time_line.asp")
    }

    /// The ordered requests of the login workflow for these credentials.
    pub fn login_requests(&self, username: &str, password: &str) -> (r: Vec<HttpRequest>)
        ensures
            plan_view(r@) == spec_login_plan(self.emulate_browser, username@, password@),
    {
        let mut form: Vec<(String, String)> = Vec::new();
        form.push((String::from_str("UserLogon"), String::from_str(username)));
        form.push((String::from_str("UserPwd"), String::from_str(password)));
        let post = HttpRequest {
            method: Method::Post,
            url: String::from_str("/mobile_v2/login.asp?Action=Login"),
            form,
        };
        let mut plan: Vec<HttpRequest> = Vec::new();
        if self.emulate_browser {
            plan.push(get_request("/horas"));
        }
        plan.push(post);
        proof {
            assert(plan_view(plan@) =~~= spec_login_plan(self.emulate_browser, username@, password@));
        }
        plan
    }

    /// The ordered requests of the submission workflow for one entry id:
    /// the two warm-up GETs only when emulating a browser, then the hours
    /// POST, then the finalize GET.
    pub fn submit_requests(&self, id: &str, form: &HoursForm) -> (r: Vec<HttpRequest>)
        ensures
            plan_view(r@) == spec_submit_plan(self.emulate_browser, id@, form@),
    {
        let mut body: Vec<(String, String)> = Vec::new();
        body.push((String::from_str("horas_normais_horas"), form.normal_hours.clone()));
        body.push((String::from_str("horas_normais_minutos"), form.normal_minutes.clone()));
        body.push((String::from_str("horas_extras_horas"), form.overtime_hours.clone()));
        body.push((String::from_str("horas_extras_minutos"), form.overtime_minutes.clone()));
        body.push((String::from_str("horas_dobro_horas"), form.double_hours.clone()));
        body.push((String::from_str("horas_dobro_minutos"), form.double_minutes.clone()));

        let mut post_url = String::from_str("/mobile_v2/apontamento.asp?Action=Post&app_id=");
        post_url.append(id);
        let post = HttpRequest { method: Method::Post, url: post_url, form: body };

        let mut finalize_url = String::from_str("/mobile_v2/finalizar.asp?app_id=");
        finalize_url.append(id);
        let finalize = HttpRequest {
            method: Method::Get,
            url: finalize_url,
            form: Vec::new(),
        };

        let mut plan: Vec<HttpRequest> = Vec::new();
        if self.emulate_browser {
            let mut task_url = String::from_str("/mobile_v2/tarefa.asp?app_id=");
            task_url.append(id);
            plan.push(HttpRequest { method: Method::Get, url: task_url, form: Vec::new() });
            let mut detail_url = String::from_str("/mobile_v2/apontamento.asp?hist=&app_id=");
            detail_url.append(id);
            plan.push(HttpRequest { method: Method::Get, url: detail_url, form: Vec::new() });
        }
        plan.push(post);
        plan.push(finalize);
        proof {
            assert(plan_view(plan@) =~~= spec_submit_plan(self.emulate_browser, id@, form@));
        }
        plan
    }

    /// Turns the fetched listing page into the pending entries: locates
    /// each entry container along the fixed extraction path, parses each
    /// container's texts — one malformed container fails the whole listing
    /// with its index, never a partial result —, drops entries dated after
    /// `today` unless `include_future` is set, and returns the rest sorted
    /// ascending by date, equal dates in extraction order. An empty page
    /// yields an empty listing, not an error: emptiness is the caller's
    /// policy to judge.
    pub fn list_pending_entries(
        &self,
        document: &str,
        today: Date,
        include_future: bool,
    ) -> (r: Result<Vec<Entry>, SessionError>)
        ensures
            ({
                let sc = scraped_containers(
                    document@,
                    self.path.containers@,
                    self.path.entry_body@,
                    self.path.id_date@,
                    self.path.project_info@,
                );
                match sc {
                    None => r matches Err(SessionError::InvalidSelector),
                    Some(raws) => match scan_from(raws, 0) {
                        Err(e) => r matches Err(e2) && e2 == e,
                        Ok(models) => (r matches Ok(v) && entries_view(v@) == spec_listing(
                            models,
                            today,
                            include_future,
                        ) && sorted_by_date(entries_view(v@))),
                    },
                }
            }),
    {
        broadcast use vstd::std_specs::vec::vec_clone_deep_view_proof;

        let scraped = scrape(
            document,
            self.path.containers.as_str(),
            self.path.entry_body.as_str(),
            self.path.id_date.as_str(),
            self.path.project_info.as_str(),
        );
        match scraped {
            None => Err(SessionError::InvalidSelector),
            Some(raws) => {
                let ghost rawsv = raws_view(raws@);
                let ghost pred = keep_pred(today, include_future);
                let mut kept: Vec<Entry> = Vec::new();
                let mut idx: usize = 0;
                proof {
                    assert(prefix_models(rawsv, 0) =~= Seq::<EntryModel>::empty());
                    assert(entries_view(kept@) =~= Seq::<EntryModel>::empty());
                }
                #[verifier::loop_isolation(false)]
                while idx < raws.len()
                    invariant
                        rawsv == raws_view(raws@),
                        idx <= raws@.len(),
                        rawsv.len() == raws@.len(),
                        forall|k: int| 0 <= k < idx ==> container_ok(#[trigger] rawsv[k]),
                        entries_view(kept@) == prefix_models(rawsv, idx as int).filter(pred),
                        pred == keep_pred(today, include_future),
                    decreases raws@.len() - idx,
                {
                    proof {
                        assert(rawsv[idx as int] == scraped_view(raws@[idx as int]));
                    }
                    if !raws[idx].body_found {
                        proof {
                            assert(scan_from(rawsv, idx as int) == Err::<
                                Seq<EntryModel>,
                                SessionError,
                            >(SessionError::MissingEntryBody { index: idx }));
                            lemma_scan_decompose(rawsv, idx as int);
                        }
                        return Err(SessionError::MissingEntryBody { index: idx });
                    }
                    let idd: String = match &raws[idx].id_date {
                        Some(s) => s.clone(),
                        None => {
                            proof {
                                assert(scan_from(rawsv, idx as int) == Err::<
                                    Seq<EntryModel>,
                                    SessionError,
                                >(SessionError::MissingIdDate { index: idx }));
                                lemma_scan_decompose(rawsv, idx as int);
                            }
                            return Err(SessionError::MissingIdDate { index: idx });
                        },
                    };
                    let info: Vec<String> = match &raws[idx].project_info {
                        Some(v) => v.clone(),
                        None => {
                            proof {
                                assert(scan_from(rawsv, idx as int) == Err::<
                                    Seq<EntryModel>,
                                    SessionError,
                                >(SessionError::MissingProjectInfo { index: idx }));
                                lemma_scan_decompose(rawsv, idx as int);
                            }
                            return Err(SessionError::MissingProjectInfo { index: idx });
                        },
                    };
                    proof {
                        assert(idd@ == rawsv[idx as int].1.unwrap());
                        assert(info.deep_view() == rawsv[idx as int].2.unwrap());
                    }
                    match Entry::new(idd.as_str(), info) {
                        Err(f) => {
                            proof {
                                assert(scan_from(rawsv, idx as int) == Err::<
                                    Seq<EntryModel>,
                                    SessionError,
                                >(SessionError::EntryParse { index: idx, error: f }));
                                lemma_scan_decompose(rawsv, idx as int);
                            }
                            return Err(SessionError::EntryParse { index: idx, error: f });
                        },
                        Ok(e) => {
                            proof {
                                assert(container_ok(rawsv[idx as int]));
                                assert(container_model(rawsv[idx as int]) == e@);
                                assert(prefix_models(rawsv, idx as int + 1) =~= prefix_models(
                                    rawsv,
                                    idx as int,
                                ).push(e@));
                                lemma_filter_push(prefix_models(rawsv, idx as int), e@, pred);
                                assert(pred(e@) == spec_keep(e@, today, include_future));
                            }
                            let ghost kept_before = entries_view(kept@);
                            if include_future || e.date.on_or_before(&today) {
                                kept.push(e);
                                proof {
                                    assert(entries_view(kept@) =~= kept_before.push(e@));
                                }
                            }
                        },
                    }
                    idx = idx + 1;
                }
                proof {
                    lemma_scan_decompose(rawsv, rawsv.len() as int);
                    assert(scan_from(rawsv, rawsv.len() as int) == Ok::<
                        Seq<EntryModel>,
                        SessionError,
                    >(Seq::empty()));
                    assert(prefix_models(rawsv, rawsv.len() as int) + Seq::<EntryModel>::empty()
                        =~= prefix_models(rawsv, rawsv.len() as int));
                }
                let result = sort_entries(kept);
                proof {
                    lemma_listing_sorted(
                        prefix_models(rawsv, rawsv.len() as int),
                        today,
                        include_future,
                    );
                }
                Ok(result)
            },
        }
    }

    /// Decides whether a call that needs authentication may proceed: both
    /// session cookies must be present in the caller's jar. Listing and
    /// submission have authentication as a precondition; this makes the
    /// check explicit up front rather than leaving an unauthenticated
    /// request to fail obscurely downstream.
    pub fn require_authenticated(
        &self,
        has_user_cookie: bool,
        has_pass_cookie: bool,
    ) -> (r: Result<(), SessionError>)
        ensures
            r is Ok <==> has_user_cookie && has_pass_cookie,
            !(has_user_cookie && has_pass_cookie) ==> r matches Err(SessionError::Unauthenticated),
    {
        if has_user_cookie && has_pass_cookie {
            Ok(())
        } else {
            Err(SessionError::Unauthenticated)
        }
    }

    /// Decides login from what the transport reported: the status of each
    /// issued request of the login plan, and whether each expected session
    /// cookie is present afterwards. An HTTP rejection is reported first;
    /// with all statuses 2xx, a missing cookie is an authentication error;
    /// only both cookies present authenticate.
    pub fn login_outcome(
        &self,
        plan: &Vec<HttpRequest>,
        statuses: &Vec<u16>,
        has_user_cookie: bool,
        has_pass_cookie: bool,
    ) -> (r: Result<(), SessionError>)
        requires
            plan@.len() == statuses@.len(),
        ensures
            r is Ok <==> spec_login_ok(statuses@, has_user_cookie, has_pass_cookie),
            match first_rejection(statuses@) {
                Some(i) => r matches Err(SessionError::RequestRejected { url, status })
                    && url@ == plan@[i]@.url && status == statuses@[i],
                None => if !has_user_cookie {
                    r matches Err(SessionError::MissingAuthCookie { name }) && name@
                        == spec_user_cookie()
                } else if !has_pass_cookie {
                    r matches Err(SessionError::MissingAuthCookie { name }) && name@
                        == spec_pass_cookie()
                } else {
                    r is Ok
                },
            },
    {
        let (_, outcome) = run_workflow(plan, statuses);
        match outcome {
            Err(e) => Err(e),
            Ok(()) => if !has_user_cookie {
                Err(SessionError::MissingAuthCookie { name: String::from_str("ENDEAVORu") })
            } else if !has_pass_cookie {
                Err(SessionError::MissingAuthCookie { name: String::from_str("ENDEAVORp") })
            } else {
                Ok(())
            },
        }
    }
}

} // verus!
