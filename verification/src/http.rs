//! The request model of the session's workflows. A request is described by
//! method, URL relative to the fixed base origin, and form body; the caller
//! owns the transport that issues it and hands back the HTTP status.

use vstd::prelude::*;
use crate::error::SessionError;

verus! {

#[derive(Clone, Copy, Debug, PartialEq, Eq, Structural)]
pub enum Method {
    Get,
    Post,
}

/// The mathematical content of an `HttpRequest`.
#[verifier::ext_equal]
pub struct RequestModel {
    pub method: Method,
    pub url: Seq<char>,
    pub form: Seq<(Seq<char>, Seq<char>)>,
}

/// One request of a workflow. `url` is relative to the fixed base origin;
/// `form` is the form-encoded POST body, empty for GET requests.
#[derive(Clone, Debug, PartialEq)]
pub struct HttpRequest {
    pub method: Method,
    pub url: String,
    pub form: Vec<(String, String)>,
}

impl View for HttpRequest {
    type V = RequestModel;

    open spec fn view(&self) -> RequestModel {
        RequestModel { method: self.method, url: self.url@, form: self.form.deep_view() }
    }
}

/// The plan a workflow issues, as request models in issue order.
pub open spec fn plan_view(plan: Seq<HttpRequest>) -> Seq<RequestModel> {
    plan.map_values(|q: HttpRequest| q@)
}

/// A GET request without a body.
pub open spec fn spec_get(url: Seq<char>) -> RequestModel {
    RequestModel { method: Method::Get, url, form: Seq::empty() }
}

/// An HTTP status in the 2xx success range.
pub open spec fn status_ok(status: u16) -> bool {
    200 <= status < 300
}

/// Whether `status` reports success.
pub fn status_is_success(status: u16) -> (r: bool)
    ensures
        r == status_ok(status),
{
    200 <= status && status < 300
}

/// The index of the first non-2xx status at or after `i`.
pub open spec fn first_rejection_from(statuses: Seq<u16>, i: int) -> Option<int>
    decreases statuses.len() - i when 0 <= i <= statuses.len()
{
    if i >= statuses.len() {
        None
    } else if !status_ok(statuses[i]) {
        Some(i)
    } else {
        first_rejection_from(statuses, i + 1)
    }
}

/// The index of the first non-2xx status, if any.
pub open spec fn first_rejection(statuses: Seq<u16>) -> Option<int> {
    first_rejection_from(statuses, 0)
}

pub proof fn lemma_first_rejection_props(statuses: Seq<u16>, i: int)
    requires
        0 <= i <= statuses.len(),
    ensures
        match first_rejection_from(statuses, i) {
            Some(j) => i <= j < statuses.len() && !status_ok(statuses[j]) && forall|k: int|
                i <= k < j ==> status_ok(#[trigger] statuses[k]),
            None => forall|k: int| i <= k < statuses.len() ==> status_ok(#[trigger] statuses[k]),
        },
    decreases statuses.len() - i,
{
    if i < statuses.len() && status_ok(statuses[i]) {
        lemma_first_rejection_props(statuses, i + 1);
    }
}

/// Decides one response: a status outside the 2xx range rejects the
/// request, carrying the offending URL and status for diagnostics.
pub fn response_outcome(request: &HttpRequest, status: u16) -> (r: Result<(), SessionError>)
    ensures
        status_ok(status) ==> r is Ok,
        !status_ok(status) ==> (r matches Err(SessionError::RequestRejected { url, status: st })
            && url@ == request@.url && st == status),
{
    if status_is_success(status) {
        Ok(())
    } else {
        Err(SessionError::RequestRejected { url: request.url.clone(), status })
    }
}

/// Replays one strictly ordered workflow against the statuses a transport
/// returned, one per planned request. Requests are issued in plan order; a
/// non-2xx answer aborts the remaining steps. Returns how many requests
/// were issued together with the outcome of the workflow.
pub fn run_workflow(plan: &Vec<HttpRequest>, statuses: &Vec<u16>) -> (r: (
    usize,
    Result<(), SessionError>,
))
    requires
        plan@.len() == statuses@.len(),
    ensures
        match first_rejection(statuses@) {
            None => r.0 == plan@.len() && r.1 is Ok,
            Some(i) => r.0 == i + 1 && (r.1 matches Err(
                SessionError::RequestRejected { url, status },
            ) && url@ == plan@[i]@.url && status == statuses@[i]),
        },
{
    let n: usize = plan.len();
    let mut i: usize = 0;
    while i < n
        invariant
            n == plan@.len() == statuses@.len(),
            i <= n,
            first_rejection(statuses@) == first_rejection_from(statuses@, i as int),
        decreases n - i,
    {
        let status: u16 = statuses[i];
        if !status_is_success(status) {
            return (i + 1, Err(SessionError::RequestRejected { url: plan[i].url.clone(), status }));
        }
        i = i + 1;
    }
    (n, Ok(()))
}

} // verus!
