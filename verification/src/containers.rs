//! The container-runtime side of the command gateway: listing is parsed
//! from a fixed field-delimited format, and every operation on a container
//! validates its id — and, for control, its action against a closed set —
//! before a command is planned. The application executes the plans and
//! hands outcomes back.

use vstd::prelude::*;
use vstd::string::*;
use crate::command::ToolCommand;
use crate::text::{sep_split, split_lines, split_on_char, split_text_lines, str_eq};
use crate::validate::{valid_container_id, validate_container_id};

verus! {

/// One container, as one line of the runtime's formatted listing
/// describes it.
pub struct ContainerInfo {
    pub id: String,
    pub image: String,
    pub status: String,
    pub names: String,
    pub state: String,
}

/// The mathematical content of a `ContainerInfo`.
pub ghost struct ContainerInfoView {
    pub id: Seq<char>,
    pub image: Seq<char>,
    pub status: Seq<char>,
    pub names: Seq<char>,
    pub state: Seq<char>,
}

impl View for ContainerInfo {
    type V = ContainerInfoView;

    open spec fn view(&self) -> ContainerInfoView {
        ContainerInfoView {
            id: self.id@,
            image: self.image@,
            status: self.status@,
            names: self.names@,
            state: self.state@,
        }
    }
}

impl DeepView for ContainerInfo {
    type V = ContainerInfoView;

    open spec fn deep_view(&self) -> ContainerInfoView {
        self.view()
    }
}

/// The listing format handed to the runtime: five fields joined by `|`.
pub open spec fn container_list_format() -> Seq<char> {
    "{{.ID}}|{{.Image}}|{{.Status}}|{{.Names}}|{{.State}}"@
}

/// The fixed listing invocation: all containers, machine-parseable format.
pub fn container_list_command() -> (r: ToolCommand)
    ensures
        r@.program == "docker"@,
        r@.args == seq!["ps"@, "-a"@, "--format"@, container_list_format()],
{
    let mut args: Vec<String> = Vec::new();
    args.push(String::from_str("ps"));
    args.push(String::from_str("-a"));
    args.push(String::from_str("--format"));
    args.push(String::from_str("{{.ID}}|{{.Image}}|{{.Status}}|{{.Names}}|{{.State}}"));
    proof {
        assert(args.deep_view() =~= seq!["ps"@, "-a"@, "--format"@, container_list_format()]);
    }
    ToolCommand { program: String::from_str("docker"), args }
}

/// The record one listing line yields: at least five `|`-separated fields,
/// read in format order.
pub open spec fn spec_container_record(l: Seq<char>) -> Option<ContainerInfoView> {
    let parts = sep_split(l, '|');
    if parts.len() >= 5 {
        Some(
            ContainerInfoView {
                id: parts[0],
                image: parts[1],
                status: parts[2],
                names: parts[3],
                state: parts[4],
            },
        )
    } else {
        None
    }
}

/// The records of a sequence of listing lines, in order.
pub open spec fn spec_container_lines(lines: Seq<Seq<char>>) -> Seq<ContainerInfoView>
    decreases lines.len(),
{
    if lines.len() == 0 {
        Seq::empty()
    } else {
        let rest = spec_container_lines(lines.skip(1));
        match spec_container_record(lines[0]) {
            Some(r) => seq![r] + rest,
            None => rest,
        }
    }
}

fn clone_string(s: &String) -> (r: String)
    ensures
        r == *s,
{
    s.clone()
}

/// Parses the runtime's formatted listing: each line with at least five
/// `|`-separated fields becomes a record; shorter lines are dropped.
pub fn parse_container_list(output: &str) -> (r: Vec<ContainerInfo>)
    ensures
        r.deep_view() == spec_container_lines(split_lines(output@)),
{
    let lines = split_text_lines(output);
    let mut out: Vec<ContainerInfo> = Vec::new();
    let mut i: usize = 0;
    let ghost lv = lines.deep_view();
    proof {
        assert(lv.skip(0) =~= lv);
        assert(out.deep_view() + spec_container_lines(lv) =~= spec_container_lines(lv));
    }
    while i < lines.len()
        invariant
            0 <= i <= lines.len(),
            lv == lines.deep_view(),
            lv == split_lines(output@),
            out.deep_view() + spec_container_lines(lv.skip(i as int)) == spec_container_lines(lv),
        decreases lines.len() - i,
    {
        proof {
            assert(lv.skip(i as int)[0] == lv[i as int]);
            assert(lv.skip(i as int).skip(1) =~= lv.skip(i as int + 1));
        }
        let parts = split_on_char(lines[i].as_str(), '|');
        if parts.len() >= 5 {
            let record = ContainerInfo {
                id: clone_string(&parts[0]),
                image: clone_string(&parts[1]),
                status: clone_string(&parts[2]),
                names: clone_string(&parts[3]),
                state: clone_string(&parts[4]),
            };
            let ghost pre = out.deep_view();
            proof {
                assert(record@ == spec_container_record(lv[i as int]).unwrap());
            }
            out.push(record);
            proof {
                assert(out.deep_view() =~= pre.push(record@));
                assert(out.deep_view() + spec_container_lines(lv.skip(i as int + 1)) =~= pre + (
                seq![record@] + spec_container_lines(lv.skip(i as int + 1))));
            }
        }
        i = i + 1;
    }
    proof {
        assert(lv.skip(lines.len() as int) =~= Seq::<Seq<char>>::empty());
        assert(out.deep_view() + spec_container_lines(lv.skip(lines.len() as int))
            =~= out.deep_view());
    }
    out
}

/// The closed set of container control actions.
pub open spec fn allowed_container_action(a: Seq<char>) -> bool {
    a == "start"@ || a == "stop"@ || a == "restart"@ || a == "rm"@
}

/// Whether `action` is in the closed set {start, stop, restart, rm}.
pub fn container_action_allowed(action: &str) -> (r: bool)
    ensures
        r == allowed_container_action(action@),
{
    str_eq(action, "start") || str_eq(action, "stop") || str_eq(action, "restart") || str_eq(
        action,
        "rm",
    )
}

/// Plans a control action on a container: the id must pass the
/// allow-pattern and the action must be in the closed set, both checked
/// before any invocation exists.
pub fn plan_container_control(id: &str, action: &str) -> (r: Result<ToolCommand, String>)
    ensures
        !valid_container_id(id@) ==> r is Err && r.unwrap_err()@ == "Invalid container ID"@,
        valid_container_id(id@) && !allowed_container_action(action@) ==> r is Err
            && r.unwrap_err()@ == "Invalid action"@,
        valid_container_id(id@) && allowed_container_action(action@) ==> r is Ok && r.unwrap()@.program
            == "docker"@ && r.unwrap()@.args == seq![action@, id@],
{
    if !validate_container_id(id) {
        return Err(String::from_str("Invalid container ID"));
    }
    if !container_action_allowed(action) {
        return Err(String::from_str("Invalid action"));
    }
    let mut args: Vec<String> = Vec::new();
    args.push(String::from_str(action));
    args.push(String::from_str(id));
    proof {
        assert(args.deep_view() =~= seq![action@, id@]);
    }
    Ok(ToolCommand { program: String::from_str("docker"), args })
}

/// The reply to a control action from the runtime's outcome.
pub fn container_control_reply(id: &str, action: &str, success: bool, stderr: &str) -> (r: Result<
    String,
    String,
>)
    ensures
        success ==> r is Ok && r.unwrap()@ == "Successfully executed "@ + action@ + " on "@ + id@,
        !success ==> r is Err && r.unwrap_err()@ == stderr@,
{
    if success {
        let mut s = String::from_str("Successfully executed ");
        s.append(action);
        s.append(" on ");
        s.append(id);
        Ok(s)
    } else {
        Err(stderr.to_owned())
    }
}

/// Plans fetching a bounded tail of a container's log, both output
/// streams combined by the runtime; the id is validated first.
pub fn plan_container_logs(id: &str) -> (r: Result<ToolCommand, String>)
    ensures
        !valid_container_id(id@) ==> r is Err && r.unwrap_err()@ == "Invalid container ID"@,
        valid_container_id(id@) ==> r is Ok && r.unwrap()@.program == "docker"@ && r.unwrap()@.args
            == seq!["logs"@, "--tail"@, "100"@, id@],
{
    if !validate_container_id(id) {
        return Err(String::from_str("Invalid container ID"));
    }
    let mut args: Vec<String> = Vec::new();
    args.push(String::from_str("logs"));
    args.push(String::from_str("--tail"));
    args.push(String::from_str("100"));
    args.push(String::from_str(id));
    proof {
        assert(args.deep_view() =~= seq!["logs"@, "--tail"@, "100"@, id@]);
    }
    Ok(ToolCommand { program: String::from_str("docker"), args })
}

/// The lines of a container log: the standard-output lines, then the
/// standard-error lines, as the runtime mixes the two streams.
pub fn container_log_lines(stdout: &str, stderr: &str) -> (r: Vec<String>)
    ensures
        r.deep_view() == split_lines(stdout@) + split_lines(stderr@),
{
    let mut out = split_text_lines(stdout);
    let mut more = split_text_lines(stderr);
    let ghost first = out.deep_view();
    let ghost second = more.deep_view();
    let mut j: usize = 0;
    while j < more.len()
        invariant
            0 <= j <= more.len(),
            second == more.deep_view(),
            out.deep_view() == first + second.take(j as int),
        decreases more.len() - j,
    {
        let ghost pre = out.deep_view();
        out.push(clone_string(&more[j]));
        proof {
            assert(out.deep_view() =~= pre.push(second[j as int]));
            assert(second.take(j as int).push(second[j as int]) =~= second.take(j as int + 1));
            assert(out.deep_view() =~= first + second.take(j as int + 1));
        }
        j = j + 1;
    }
    proof {
        assert(second.take(more.len() as int) =~= second);
    }
    out
}

} // verus!
