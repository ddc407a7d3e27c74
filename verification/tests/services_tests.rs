use port_sentinel::services::{
    plan_service_status, restart_service, service_command_reply, service_status_reply,
    start_service, stop_service,
};

#[test]
fn service_plans_carry_verb_and_discrete_name() {
    let plan = start_service("nginx.service").unwrap();
    assert_eq!(plan.program, "systemctl");
    assert_eq!(plan.args, vec!["start", "nginx.service"]);
    let plan = stop_service("nginx").unwrap();
    assert_eq!(plan.args, vec!["stop", "nginx"]);
    let plan = restart_service("my-app-2").unwrap();
    assert_eq!(plan.args, vec!["restart", "my-app-2"]);
    let plan = plan_service_status("cron").unwrap();
    assert_eq!(plan.args, vec!["status", "cron"]);
}

#[test]
fn invalid_service_name_is_rejected_before_any_plan() {
    let err = start_service("nginx; reboot").unwrap_err();
    assert_eq!(err, "Invalid service name. Only alphanumeric, dots, and hyphens allowed.");
    assert!(stop_service("a b").is_err());
    assert!(restart_service("").is_err());
    assert!(plan_service_status("a_b").is_err());
}

#[test]
fn status_reply_prefers_stdout_and_falls_back_to_stderr() {
    assert_eq!(service_status_reply("active (running)", "noise"), "active (running)");
    assert_eq!(service_status_reply("", "Unit not found."), "Unit not found.");
}

#[test]
fn command_reply_reports_success_or_surfaces_tool_error() {
    let ok = service_command_reply("nginx", "start", true, "").unwrap();
    assert_eq!(ok, "Successfully execution action 'start' on service 'nginx'");
    let err = service_command_reply("nginx", "stop", false, "boom").unwrap_err();
    assert_eq!(err, "Failed to stop nginx: boom");
}
