use port_sentinel::containers::{
    container_action_allowed, container_control_reply, container_list_command,
    container_log_lines, parse_container_list, plan_container_control, plan_container_logs,
};

#[test]
fn list_command_uses_fixed_machine_parseable_format() {
    let cmd = container_list_command();
    assert_eq!(cmd.program, "docker");
    assert_eq!(
        cmd.args,
        vec!["ps", "-a", "--format", "{{.ID}}|{{.Image}}|{{.Status}}|{{.Names}}|{{.State}}"]
    );
}

#[test]
fn listing_lines_parse_into_records() {
    let out = "\
abc123|nginx:latest|Up 2 hours|web|running
def456|redis:7|Exited (0) 3 days ago|cache|exited
short|line
";
    let records = parse_container_list(out);
    assert_eq!(records.len(), 2);
    assert_eq!(records[0].id, "abc123");
    assert_eq!(records[0].image, "nginx:latest");
    assert_eq!(records[0].status, "Up 2 hours");
    assert_eq!(records[0].names, "web");
    assert_eq!(records[0].state, "running");
    assert_eq!(records[1].state, "exited");
}

#[test]
fn empty_listing_yields_no_records() {
    assert!(parse_container_list("").is_empty());
}

#[test]
fn control_requires_valid_id_and_known_action() {
    let plan = plan_container_control("web_1", "restart").unwrap();
    assert_eq!(plan.program, "docker");
    assert_eq!(plan.args, vec!["restart", "web_1"]);

    let err = plan_container_control("web 1", "restart").unwrap_err();
    assert_eq!(err, "Invalid container ID");
    let err = plan_container_control("web_1", "pause").unwrap_err();
    assert_eq!(err, "Invalid action");
    // the id is validated before the action
    let err = plan_container_control("bad id", "pause").unwrap_err();
    assert_eq!(err, "Invalid container ID");

    assert!(container_action_allowed("start"));
    assert!(container_action_allowed("stop"));
    assert!(container_action_allowed("restart"));
    assert!(container_action_allowed("rm"));
    assert!(!container_action_allowed("exec"));
}

#[test]
fn control_reply_reports_success_or_runtime_error() {
    let ok = container_control_reply("web_1", "stop", true, "").unwrap();
    assert_eq!(ok, "Successfully executed stop on web_1");
    let err = container_control_reply("web_1", "stop", false, "no such container").unwrap_err();
    assert_eq!(err, "no such container");
}

#[test]
fn log_fetch_is_bounded_and_validated() {
    let plan = plan_container_logs("web_1").unwrap();
    assert_eq!(plan.program, "docker");
    assert_eq!(plan.args, vec!["logs", "--tail", "100", "web_1"]);
    assert!(plan_container_logs("web;1").is_err());
}

#[test]
fn log_lines_combine_both_streams_in_order() {
    let lines = container_log_lines("out1\nout2\n", "err1\n");
    assert_eq!(lines, vec!["out1", "out2", "err1"]);
    assert!(container_log_lines("", "").is_empty());
}
