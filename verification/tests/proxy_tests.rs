use port_sentinel::proxy::{
    classify_liveness, kill_endpoint, logs_check_endpoint, logs_read_endpoint, node_from_form,
    probe_timeout_millis, processes_endpoint, proxy_service_reply, refresh_trigger,
    resolve_node_param, service_endpoint, stats_endpoint, Liveness, NodeForm, ProxyOutcome,
};

#[test]
fn liveness_is_classified_four_ways() {
    assert_eq!(classify_liveness(&ProxyOutcome::Reply(200, None)), Liveness::Online);
    assert_eq!(classify_liveness(&ProxyOutcome::Reply(204, None)), Liveness::Online);
    assert_eq!(classify_liveness(&ProxyOutcome::Reply(401, None)), Liveness::AuthError);
    assert_eq!(classify_liveness(&ProxyOutcome::Reply(500, None)), Liveness::ServerError);
    assert_eq!(classify_liveness(&ProxyOutcome::Reply(404, None)), Liveness::ServerError);
    assert_eq!(
        classify_liveness(&ProxyOutcome::Transport("connection refused".to_string())),
        Liveness::Offline
    );
    assert_eq!(
        classify_liveness(&ProxyOutcome::Transport("operation timed out".to_string())),
        Liveness::Offline
    );
}

#[test]
fn probe_wait_is_bounded_to_two_seconds() {
    assert_eq!(probe_timeout_millis(), 2000);
}

#[test]
fn proxied_reply_text_per_outcome() {
    let ok = ProxyOutcome::Reply(200, Some("done".to_string()));
    assert_eq!(proxy_service_reply(&ok), "done");
    let undecodable = ProxyOutcome::Reply(200, None);
    assert_eq!(proxy_service_reply(&undecodable), "Error parsing response");
    let server_error = ProxyOutcome::Reply(502, None);
    assert_eq!(proxy_service_reply(&server_error), "Error: Remote Agent returned status 502");
    let transport = ProxyOutcome::Transport("refused".to_string());
    assert_eq!(proxy_service_reply(&transport), "Connection Error: refused");
}

#[test]
fn endpoints_are_assembled_from_the_base_url() {
    assert_eq!(stats_endpoint("http://h:3001"), "http://h:3001/api/stats");
    assert_eq!(processes_endpoint("http://h:3001"), "http://h:3001/api/processes");
    assert_eq!(kill_endpoint("http://h:3001", "42"), "http://h:3001/api/kill/42");
    assert_eq!(
        logs_check_endpoint("http://h:3001", "42"),
        "http://h:3001/api/logs/check/42"
    );
    assert_eq!(logs_read_endpoint("http://h:3001"), "http://h:3001/api/logs/read");
    assert_eq!(
        service_endpoint("http://h:3001", "restart", "nginx"),
        "http://h:3001/api/service/restart/nginx"
    );
}

#[test]
fn node_parameter_falls_back_to_the_local_agent() {
    assert_eq!(resolve_node_param(Some("http://edge:3001".to_string())), "http://edge:3001");
    assert_eq!(resolve_node_param(None), "http://127.0.0.1:3001");
}

#[test]
fn refresh_trigger_text() {
    assert_eq!(refresh_trigger("0"), "refresh");
    assert_eq!(refresh_trigger("5"), "every 5s, refresh");
}

#[test]
fn node_form_becomes_a_registry_entry() {
    let form = NodeForm {
        id: "edge".to_string(),
        name: "Edge".to_string(),
        url: "http://edge:3001".to_string(),
        token: Some("t".to_string()),
    };
    let node = node_from_form(form);
    assert_eq!(node.id, "edge");
    assert_eq!(node.name, "Edge");
    assert_eq!(node.url, "http://edge:3001");
    assert_eq!(node.token.as_deref(), Some("t"));
}
