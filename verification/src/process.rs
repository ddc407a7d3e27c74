//! The process probe: turns the line-oriented output of the host's
//! network-connection enumeration tool into structured records, extracts a
//! process id from a raw line for termination, and filters records for
//! display. Records follow the tool's emission order; nothing is deduplicated
//! or re-sorted.

use vstd::prelude::*;
use vstd::string::*;
use crate::text::{
    all_space,
    contains_sub,
    split_lines,
    split_text_lines,
    split_whitespace_tokens,
    str_contains,
    str_is_blank,
    whitespace_split,
};

verus! {

/// One listening process, as one line of tool output describes it.
pub struct ProcessInfo {
    pub pid: String,
    pub name: String,
    pub port: String,
    pub raw_line: String,
}

/// The mathematical content of a `ProcessInfo`.
pub ghost struct ProcessInfoView {
    pub pid: Seq<char>,
    pub name: Seq<char>,
    pub port: Seq<char>,
    pub raw_line: Seq<char>,
}

impl View for ProcessInfo {
    type V = ProcessInfoView;

    open spec fn view(&self) -> ProcessInfoView {
        ProcessInfoView {
            pid: self.pid@,
            name: self.name@,
            port: self.port@,
            raw_line: self.raw_line@,
        }
    }
}

impl DeepView for ProcessInfo {
    type V = ProcessInfoView;

    open spec fn deep_view(&self) -> ProcessInfoView {
        self.view()
    }
}

/// The two supported layouts of the enumeration tool's columns:
/// `NameFirst` has the command name in the first column and the pid in the
/// second; `PidLast` has no name column, the port in the second column and
/// the pid last.
#[derive(Clone, Copy, PartialEq, Eq, Structural)]
pub enum ScanLayout {
    NameFirst,
    PidLast,
}

/// Header, banner and blank lines that carry no record.
pub open spec fn scan_line_skipped(l: Seq<char>) -> bool {
    contains_sub(l, "COMMAND"@) || all_space(l) || contains_sub(l, "Active Connections"@)
        || contains_sub(l, "Proto"@)
}

/// The record one data line yields: at least two whitespace-separated
/// columns, read at the layout's positions.
pub open spec fn spec_scan_record(l: Seq<char>, layout: ScanLayout) -> Option<ProcessInfoView> {
    let toks = whitespace_split(l);
    if toks.len() > 1 {
        match layout {
            ScanLayout::NameFirst => Some(
                ProcessInfoView {
                    name: toks[0],
                    pid: toks[1],
                    port: toks[toks.len() - 1],
                    raw_line: l,
                },
            ),
            ScanLayout::PidLast => Some(
                ProcessInfoView {
                    name: "Unknown"@,
                    pid: toks[toks.len() - 1],
                    port: toks[1],
                    raw_line: l,
                },
            ),
        }
    } else {
        None
    }
}

/// The records of a sequence of lines, in emission order.
pub open spec fn spec_scan_lines(lines: Seq<Seq<char>>, layout: ScanLayout) -> Seq<
    ProcessInfoView,
>
    decreases lines.len(),
{
    if lines.len() == 0 {
        Seq::empty()
    } else {
        let rest = spec_scan_lines(lines.skip(1), layout);
        if scan_line_skipped(lines[0]) {
            rest
        } else {
            match spec_scan_record(lines[0], layout) {
                Some(r) => seq![r] + rest,
                None => rest,
            }
        }
    }
}

fn clone_string(s: &String) -> (r: String)
    ensures
        r@ == s@,
{
    s.clone()
}

/// Parses the enumeration tool's whole output: skips header, banner and
/// blank lines, splits the rest on whitespace, and reads {name, pid, port}
/// at the layout's column positions, keeping each source line as `raw_line`.
pub fn parse_scan_output(output: &str, layout: ScanLayout) -> (r: Vec<ProcessInfo>)
    ensures
        r.deep_view() == spec_scan_lines(split_lines(output@), layout),
{
    let lines = split_text_lines(output);
    let mut out: Vec<ProcessInfo> = Vec::new();
    let mut i: usize = 0;
    let ghost lv = lines.deep_view();
    proof {
        assert(lv.skip(0) =~= lv);
        assert(out.deep_view() + spec_scan_lines(lv, layout) =~= spec_scan_lines(lv, layout));
    }
    while i < lines.len()
        invariant
            0 <= i <= lines.len(),
            lv == lines.deep_view(),
            lv == split_lines(output@),
            out.deep_view() + spec_scan_lines(lv.skip(i as int), layout) == spec_scan_lines(
                lv,
                layout,
            ),
        decreases lines.len() - i,
    {
        let line = &lines[i];
        proof {
            assert(lv.skip(i as int)[0] == lv[i as int]);
            assert(lv.skip(i as int).skip(1) =~= lv.skip(i as int + 1));
        }
        let skipped = str_contains(line.as_str(), "COMMAND") || str_is_blank(line.as_str())
            || str_contains(line.as_str(), "Active Connections") || str_contains(
            line.as_str(),
            "Proto",
        );
        if !skipped {
            let toks = split_whitespace_tokens(line.as_str());
            let ghost tv = whitespace_split(line@);
            if toks.len() > 1 {
                let record = match layout {
                    ScanLayout::NameFirst => ProcessInfo {
                        name: clone_string(&toks[0]),
                        pid: clone_string(&toks[1]),
                        port: clone_string(&toks[toks.len() - 1]),
                        raw_line: clone_string(line),
                    },
                    ScanLayout::PidLast => ProcessInfo {
                        name: String::from_str("Unknown"),
                        pid: clone_string(&toks[toks.len() - 1]),
                        port: clone_string(&toks[1]),
                        raw_line: clone_string(line),
                    },
                };
                let ghost pre = out.deep_view();
                proof {
                    assert(record@ == spec_scan_record(lv[i as int], layout).unwrap());
                }
                out.push(record);
                proof {
                    assert(out.deep_view() =~= pre.push(record@));
                    assert(out.deep_view() + spec_scan_lines(lv.skip(i as int + 1), layout) =~= pre
                        + (seq![record@] + spec_scan_lines(lv.skip(i as int + 1), layout)));
                }
            }
        }
        i = i + 1;
    }
    proof {
        assert(lv.skip(lines.len() as int) =~= Seq::<Seq<char>>::empty());
        assert(out.deep_view() + spec_scan_lines(lv.skip(lines.len() as int), layout)
            =~= out.deep_view());
    }
    out
}

/// The pid a raw line designates: the second column where the name comes
/// first, the last column otherwise.
pub open spec fn spec_pid_from_line(l: Seq<char>, layout: ScanLayout) -> Option<Seq<char>> {
    let toks = whitespace_split(l);
    match layout {
        ScanLayout::NameFirst => if toks.len() >= 2 {
            Some(toks[1])
        } else {
            None
        },
        ScanLayout::PidLast => if toks.len() >= 1 {
            Some(toks[toks.len() - 1])
        } else {
            None
        },
    }
}

/// Re-derives the pid column from a raw scan line, for the forced
/// termination command.
pub fn pid_from_line(line: &str, layout: ScanLayout) -> (r: Option<String>)
    ensures
        r.deep_view() == spec_pid_from_line(line@, layout),
{
    let toks = split_whitespace_tokens(line);
    match layout {
        ScanLayout::NameFirst => {
            if toks.len() >= 2 {
                Some(clone_string(&toks[1]))
            } else {
                None
            }
        },
        ScanLayout::PidLast => {
            if toks.len() >= 1 {
                Some(clone_string(&toks[toks.len() - 1]))
            } else {
                None
            }
        },
    }
}

/// The lowercase form of a string, as a function of its characters alone.
pub uninterp spec fn lower_of(s: Seq<char>) -> Seq<char>;

/// Relies on str::to_lowercase: the result depends on the characters of the
/// input alone.
#[verifier::external_body]
fn lowercase(s: &str) -> (r: String)
    ensures
        r@ == lower_of(s@),
{
    s.to_lowercase()
}

/// A record is kept by an operator query when the query is empty, the
/// lowercased name contains it, or the pid contains it.
pub open spec fn keeps_process(p: ProcessInfoView, q: Seq<char>) -> bool {
    q.len() == 0 || contains_sub(lower_of(p.name), q) || contains_sub(p.pid, q)
}

/// The records an operator query retains, in order.
pub open spec fn spec_filter_processes(ps: Seq<ProcessInfoView>, q: Seq<char>) -> Seq<
    ProcessInfoView,
> {
    ps.filter(|p: ProcessInfoView| keeps_process(p, q))
}

fn clone_process(p: &ProcessInfo) -> (r: ProcessInfo)
    ensures
        r@ == p@,
{
    ProcessInfo {
        pid: clone_string(&p.pid),
        name: clone_string(&p.name),
        port: clone_string(&p.port),
        raw_line: clone_string(&p.raw_line),
    }
}

/// Keeps the records whose lowercased name or pid contains the lowercased
/// query; an empty query keeps everything.
pub fn filter_processes(procs: &Vec<ProcessInfo>, query: &str) -> (r: Vec<ProcessInfo>)
    ensures
        r.deep_view() == spec_filter_processes(procs.deep_view(), lower_of(query@)),
{
    let q = lowercase(query);
    let ghost pv = procs.deep_view();
    let ghost pred = |p: ProcessInfoView| keeps_process(p, lower_of(query@));
    let mut out: Vec<ProcessInfo> = Vec::new();
    let mut i: usize = 0;
    proof {
        reveal(Seq::filter);
        assert(pv.take(0) =~= Seq::<ProcessInfoView>::empty());
        assert(pv.take(0).filter(pred) =~= Seq::<ProcessInfoView>::empty());
    }
    while i < procs.len()
        invariant
            0 <= i <= procs.len(),
            pv == procs.deep_view(),
            q@ == lower_of(query@),
            out.deep_view() == pv.take(i as int).filter(pred),
            pred == (|p: ProcessInfoView| keeps_process(p, lower_of(query@))),
        decreases procs.len() - i,
    {
        let p = &procs[i];
        let keep = q.as_str().is_empty() || str_contains(lowercase(p.name.as_str()).as_str(),
            q.as_str(),
        ) || str_contains(p.pid.as_str(), q.as_str());
        let ghost pre = out.deep_view();
        if keep {
            out.push(clone_process(p));
        }
        proof {
            reveal(Seq::filter);
            let prefix = pv.take(i as int + 1);
            assert(prefix.drop_last() =~= pv.take(i as int));
            assert(prefix.last() == pv[i as int]);
            assert(keep == pred(pv[i as int]));
            if keep {
                assert(out.deep_view() =~= pre.push(p.deep_view()));
            }
        }
        i = i + 1;
    }
    proof {
        assert(pv.take(procs.len() as int) =~= pv);
    }
    out
}

} // verus!
