//! The proxy dispatcher's decisions: which agent endpoint a logical
//! action addresses, how an agent's answer — or the failure to get one —
//! is classified and rendered, and the request payloads the operator
//! routes carry. The HTTP transport itself is the application's part; it
//! hands back either a status code with an optionally decoded body, or
//! the text of a transport failure.

use vstd::prelude::*;
use vstd::string::*;
use crate::text::{spec_decimal, str_eq, u64_to_string};

verus! {

/// The operator credentials a login submits.
pub struct AuthPayload {
    pub username: String,
    pub password: String,
}

/// The new password a change submits.
pub struct PwPayload {
    pub password: String,
}

/// The query parameters of the dashboard views: the selected node's
/// endpoint, a process filter, a refresh rate.
pub struct NodeParams {
    pub node: Option<String>,
    pub q: Option<String>,
    pub rate: Option<String>,
}

/// The query parameters of a remote log read.
pub struct ReadParams {
    pub path: String,
    pub rate: Option<String>,
    pub node: Option<String>,
}

/// The fields of a node save request.
pub struct NodeForm {
    pub id: String,
    pub name: String,
    pub url: String,
    pub token: Option<String>,
}

/// The parameters of a proxied service operation.
pub struct ServiceParams {
    pub name: String,
    pub node: Option<String>,
}

/// The registry entry a node save request describes.
pub fn node_from_form(form: NodeForm) -> (r: crate::registry::NodeConfig)
    ensures
        r@.id == form.id@,
        r@.name == form.name@,
        r@.url == form.url@,
        r@.token == form.token.deep_view(),
{
    crate::registry::NodeConfig { id: form.id, name: form.name, url: form.url, token: form.token }
}

/// The endpoint used when a request names no node.
pub open spec fn spec_default_node_url() -> Seq<char> {
    "http://127.0.0.1:3001"@
}

/// The node a view request addresses: the named endpoint, or the default
/// local one.
pub fn resolve_node_param(node: Option<String>) -> (r: String)
    ensures
        node is Some ==> r@ == node.unwrap()@,
        node is None ==> r@ == spec_default_node_url(),
{
    match node {
        Some(n) => n,
        None => String::from_str("http://127.0.0.1:3001"),
    }
}

/// How a node answered a probe or a proxied call: a status code with the
/// endpoint's decoded payload where decoding succeeded, or a transport
/// failure (connection refused, resolution failure, timeout) with its
/// text.
pub enum ProxyOutcome {
    Reply(u16, Option<String>),
    Transport(String),
}

/// A node's liveness as the dashboard classifies it — four-way, not
/// binary.
#[derive(Clone, Copy, PartialEq, Eq, Structural, Debug)]
pub enum Liveness {
    Online,
    AuthError,
    ServerError,
    Offline,
}

/// The classification: a successful status is online; 401 means the node
/// is up but the credential is wrong; any other status is a server
/// error; no answer at all is offline.
pub open spec fn spec_classify(outcome: ProxyOutcome) -> Liveness {
    match outcome {
        ProxyOutcome::Reply(code, _) => if 200 <= code < 300 {
            Liveness::Online
        } else if code == 401 {
            Liveness::AuthError
        } else {
            Liveness::ServerError
        },
        ProxyOutcome::Transport(_) => Liveness::Offline,
    }
}

/// Classifies one liveness probe. The probe itself is bounded by
/// `probe_timeout_millis`; silence past that bound arrives here as a
/// transport failure and is classified offline, distinct from an
/// authentication error and from a server error.
pub fn classify_liveness(outcome: &ProxyOutcome) -> (r: Liveness)
    ensures
        r == spec_classify(*outcome),
{
    match outcome {
        ProxyOutcome::Reply(code, _) => {
            if 200 <= *code && *code < 300 {
                Liveness::Online
            } else if *code == 401 {
                Liveness::AuthError
            } else {
                Liveness::ServerError
            }
        },
        ProxyOutcome::Transport(_) => Liveness::Offline,
    }
}

/// The explicit bound on a liveness probe's wait, in milliseconds: an
/// agent slower than this is reported offline for fast dashboard polling.
pub fn probe_timeout_millis() -> (r: u64)
    ensures
        r == 2000,
{
    2000
}

/// The text a proxied service operation reports: the agent's decoded
/// reply on success (or a fixed note when the payload would not decode),
/// the status code on a non-success answer, the transport error's text
/// when the node never answered.
pub fn proxy_service_reply(outcome: &ProxyOutcome) -> (r: String)
    ensures
        match outcome {
            ProxyOutcome::Reply(code, body) => {
                if 200 <= *code < 300 {
                    match body {
                        Some(b) => r@ == b@,
                        None => r@ == "Error parsing response"@,
                    }
                } else {
                    r@ == "Error: Remote Agent returned status "@ + spec_decimal(*code as int)
                }
            },
            ProxyOutcome::Transport(e) => r@ == "Connection Error: "@ + e@,
        },
{
    match outcome {
        ProxyOutcome::Reply(code, body) => {
            if 200 <= *code && *code < 300 {
                match body {
                    Some(b) => b.clone(),
                    None => String::from_str("Error parsing response"),
                }
            } else {
                let mut s = String::from_str("Error: Remote Agent returned status ");
                let digits = u64_to_string(*code as u64);
                s.append(digits.as_str());
                s
            }
        },
        ProxyOutcome::Transport(e) => {
            let mut s = String::from_str("Connection Error: ");
            s.append(e.as_str());
            s
        },
    }
}

/// The agent's telemetry endpoint.
pub fn stats_endpoint(base: &str) -> (r: String)
    ensures
        r@ == base@ + "/api/stats"@,
{
    let mut s = base.to_owned();
    s.append("/api/stats");
    s
}

/// The agent's process-listing endpoint.
pub fn processes_endpoint(base: &str) -> (r: String)
    ensures
        r@ == base@ + "/api/processes"@,
{
    let mut s = base.to_owned();
    s.append("/api/processes");
    s
}

/// The agent's forced-termination endpoint for one pid.
pub fn kill_endpoint(base: &str, pid: &str) -> (r: String)
    ensures
        r@ == base@ + "/api/kill/"@ + pid@,
{
    let mut s = base.to_owned();
    s.append("/api/kill/");
    s.append(pid);
    s
}

/// The agent's log-discovery endpoint for one pid.
pub fn logs_check_endpoint(base: &str, pid: &str) -> (r: String)
    ensures
        r@ == base@ + "/api/logs/check/"@ + pid@,
{
    let mut s = base.to_owned();
    s.append("/api/logs/check/");
    s.append(pid);
    s
}

/// The agent's log-read endpoint; path and line count travel as query
/// parameters.
pub fn logs_read_endpoint(base: &str) -> (r: String)
    ensures
        r@ == base@ + "/api/logs/read"@,
{
    let mut s = base.to_owned();
    s.append("/api/logs/read");
    s
}

/// The agent's service-control endpoint for one verb and unit name.
pub fn service_endpoint(base: &str, verb: &str, name: &str) -> (r: String)
    ensures
        r@ == base@ + "/api/service/"@ + verb@ + "/"@ + name@,
{
    let mut s = base.to_owned();
    s.append("/api/service/");
    s.append(verb);
    s.append("/");
    s.append(name);
    s
}

/// The refresh trigger of the process view: refresh on demand at rate
/// "0", every so many seconds otherwise.
pub fn refresh_trigger(rate: &str) -> (r: String)
    ensures
        rate@ == "0"@ ==> r@ == "refresh"@,
        rate@ != "0"@ ==> r@ == "every "@ + rate@ + "s, refresh"@,
{
    if str_eq(rate, "0") {
        String::from_str("refresh")
    } else {
        let mut s = String::from_str("every ");
        s.append(rate);
        s.append("s, refresh");
        s
    }
}

} // verus!
