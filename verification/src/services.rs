//! The service-manager side of the command gateway: every operation
//! validates the operator-supplied unit name first, and a name that fails
//! the allow-pattern produces an error before any invocation is planned.
//! The application runs the planned command and hands its outcome back to
//! the reply functions here.

use vstd::prelude::*;
use vstd::string::*;
use crate::command::ToolCommand;
use crate::validate::{valid_service_name, validate_service_name};

verus! {

/// The rejection text for a name that fails the allow-pattern.
pub open spec fn invalid_service_name_text() -> Seq<char> {
    "Invalid service name. Only alphanumeric, dots, and hyphens allowed."@
}

/// A planned `systemctl` call: the verb, then the validated name as one
/// discrete argument.
pub open spec fn service_plan_ok(r: Result<ToolCommand, String>, verb: Seq<char>, name: Seq<
    char,
>) -> bool {
    &&& r is Ok
    &&& r.unwrap()@.program == "systemctl"@
    &&& r.unwrap()@.args == seq![verb, name]
}

fn plan_service_command(name: &str, verb: &str) -> (r: Result<ToolCommand, String>)
    ensures
        valid_service_name(name@) ==> service_plan_ok(r, verb@, name@),
        !valid_service_name(name@) ==> r is Err && r.unwrap_err()@ == invalid_service_name_text(),
{
    if !validate_service_name(name) {
        return Err(
            String::from_str("Invalid service name. Only alphanumeric, dots, and hyphens allowed."),
        );
    }
    let mut args: Vec<String> = Vec::new();
    args.push(String::from_str(verb));
    args.push(String::from_str(name));
    proof {
        assert(args.deep_view() =~= seq![verb@, name@]);
    }
    Ok(ToolCommand { program: String::from_str("systemctl"), args })
}

/// Plans a status query for a unit, or rejects the name.
pub fn plan_service_status(name: &str) -> (r: Result<ToolCommand, String>)
    ensures
        valid_service_name(name@) ==> service_plan_ok(r, "status"@, name@),
        !valid_service_name(name@) ==> r is Err && r.unwrap_err()@ == invalid_service_name_text(),
{
    plan_service_command(name, "status")
}

/// Plans starting a unit, or rejects the name.
pub fn start_service(name: &str) -> (r: Result<ToolCommand, String>)
    ensures
        valid_service_name(name@) ==> service_plan_ok(r, "start"@, name@),
        !valid_service_name(name@) ==> r is Err && r.unwrap_err()@ == invalid_service_name_text(),
{
    plan_service_command(name, "start")
}

/// Plans stopping a unit, or rejects the name.
pub fn stop_service(name: &str) -> (r: Result<ToolCommand, String>)
    ensures
        valid_service_name(name@) ==> service_plan_ok(r, "stop"@, name@),
        !valid_service_name(name@) ==> r is Err && r.unwrap_err()@ == invalid_service_name_text(),
{
    plan_service_command(name, "stop")
}

/// Plans restarting a unit, or rejects the name.
pub fn restart_service(name: &str) -> (r: Result<ToolCommand, String>)
    ensures
        valid_service_name(name@) ==> service_plan_ok(r, "restart"@, name@),
        !valid_service_name(name@) ==> r is Err && r.unwrap_err()@ == invalid_service_name_text(),
{
    plan_service_command(name, "restart")
}

/// The text a status query reports: the tool's standard output, or its
/// standard error when the output is empty — some managers exit non-zero
/// for a stopped but valid unit, and the status text is informational
/// either way.
pub fn service_status_reply(stdout: &str, stderr: &str) -> (r: String)
    ensures
        stdout@.len() == 0 ==> r@ == stderr@,
        stdout@.len() > 0 ==> r@ == stdout@,
{
    if stdout.is_empty() {
        stderr.to_owned()
    } else {
        stdout.to_owned()
    }
}

/// The reply to a control action from the tool's outcome: a fixed success
/// text, or the tool's error text surfaced as the error.
pub fn service_command_reply(name: &str, verb: &str, success: bool, stderr: &str) -> (r: Result<
    String,
    String,
>)
    ensures
        success ==> r is Ok && r.unwrap()@ == "Successfully execution action '"@ + verb@
            + "' on service '"@ + name@ + "'"@,
        !success ==> r is Err && r.unwrap_err()@ == "Failed to "@ + verb@ + " "@ + name@ + ": "@
            + stderr@,
{
    if success {
        let mut s = String::from_str("Successfully execution action '");
        s.append(verb);
        s.append("' on service '");
        s.append(name);
        s.append("'");
        Ok(s)
    } else {
        let mut s = String::from_str("Failed to ");
        s.append(verb);
        s.append(" ");
        s.append(name);
        s.append(": ");
        s.append(stderr);
        Err(s)
    }
}

} // verus!
