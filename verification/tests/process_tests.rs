use port_sentinel::process::{
    filter_processes, parse_scan_output, pid_from_line, ScanLayout,
};

const LSOF_SAMPLE: &str = "\
COMMAND   PID USER   FD   TYPE DEVICE SIZE/OFF NODE NAME
nginx    1234 root    6u  IPv4  12345      0t0  TCP *:80 (LISTEN)
sshd      987 root    3u  IPv4  23456      0t0  TCP *:22 (LISTEN)

postgres 4321 pg      5u  IPv4  34567      0t0  TCP 127.0.0.1:5432 (LISTEN)
";

#[test]
fn scan_name_first_reads_columns() {
    let records = parse_scan_output(LSOF_SAMPLE, ScanLayout::NameFirst);
    assert_eq!(records.len(), 3);
    assert_eq!(records[0].name, "nginx");
    assert_eq!(records[0].pid, "1234");
    assert_eq!(records[0].port, "(LISTEN)");
    assert_eq!(
        records[0].raw_line,
        "nginx    1234 root    6u  IPv4  12345      0t0  TCP *:80 (LISTEN)"
    );
    assert_eq!(records[2].name, "postgres");
    assert_eq!(records[2].pid, "4321");
}

#[test]
fn scan_skips_header_banner_and_blank_lines() {
    let out = "Active Connections\n\n  Proto  Local Address\nCOMMAND PID\n";
    assert!(parse_scan_output(out, ScanLayout::NameFirst).is_empty());
    assert!(parse_scan_output(out, ScanLayout::PidLast).is_empty());
}

#[test]
fn scan_pid_last_reads_columns() {
    let out = "  TCP    0.0.0.0:135    0.0.0.0:0    LISTENING    912\n";
    let records = parse_scan_output(out, ScanLayout::PidLast);
    assert_eq!(records.len(), 1);
    assert_eq!(records[0].name, "Unknown");
    assert_eq!(records[0].pid, "912");
    assert_eq!(records[0].port, "0.0.0.0:135");
}

#[test]
fn scan_preserves_emission_order_without_dedup() {
    let out = "a 1 x\na 1 x\nb 2 y\n";
    let records = parse_scan_output(out, ScanLayout::NameFirst);
    assert_eq!(records.len(), 3);
    assert_eq!(records[0].pid, "1");
    assert_eq!(records[1].pid, "1");
    assert_eq!(records[2].pid, "2");
}

#[test]
fn pid_from_line_by_layout() {
    let line = "nginx 1234 root 6u TCP *:80";
    assert_eq!(pid_from_line(line, ScanLayout::NameFirst), Some("1234".to_string()));
    assert_eq!(pid_from_line(line, ScanLayout::PidLast), Some("*:80".to_string()));
    assert_eq!(pid_from_line("one", ScanLayout::NameFirst), None);
    assert_eq!(pid_from_line("one", ScanLayout::PidLast), Some("one".to_string()));
    assert_eq!(pid_from_line("", ScanLayout::PidLast), None);
}

#[test]
fn filter_matches_lowercased_name_or_pid() {
    let records = parse_scan_output(LSOF_SAMPLE, ScanLayout::NameFirst);
    let by_name = filter_processes(&records, "NGI");
    assert_eq!(by_name.len(), 1);
    assert_eq!(by_name[0].name, "nginx");
    let by_pid = filter_processes(&records, "98");
    assert_eq!(by_pid.len(), 1);
    assert_eq!(by_pid[0].name, "sshd");
    let all = filter_processes(&records, "");
    assert_eq!(all.len(), 3);
    let none = filter_processes(&records, "redis");
    assert!(none.is_empty());
}
