use port_sentinel::logs::{find_log_paths, tail_lines, unreadable_file_message};

#[test]
fn discover_keeps_one_log_and_drops_library_and_duplicate() {
    let listing = "\
app  100 root  txt    REG  8,1  12345  678 /usr/lib/libfoo.so
app  100 root    1w   REG  8,1    999  679 /var/log/app.log
app  100 root    2w   REG  8,1    999  679 /var/log/app.log
";
    let found = find_log_paths(listing);
    assert_eq!(found, vec!["/var/log/app.log"]);
}

#[test]
fn discover_filters_by_extension_directory_and_type() {
    let listing = "\
app 1 r txt REG 8,1 1 1 /opt/app/data.bin
app 1 r txt REG 8,1 1 2 /opt/app/out.err
app 1 r txt REG 8,1 1 3 /srv/logs/current.txt
app 1 r txt CHR 8,1 1 4 /var/log/skipped-not-regular.log
app 1 r txt REG 8,1 1 5 /home/user/notes.txt
app 1 r txt REG 8,1 1 6 /var/log/syslog
";
    let found = find_log_paths(listing);
    assert_eq!(
        found,
        vec![
            "/opt/app/out.err",
            "/srv/logs/current.txt",
            "/home/user/notes.txt",
            "/var/log/syslog",
        ]
    );
}

#[test]
fn tail_returns_all_lines_when_fewer_than_requested() {
    let lines: Vec<String> = vec!["a".into(), "b".into(), "c".into()];
    assert_eq!(tail_lines(&lines, 5), lines);
    assert_eq!(tail_lines(&lines, 3), lines);
}

#[test]
fn tail_returns_exactly_the_last_n_in_order() {
    let lines: Vec<String> = (1..=10).map(|i| format!("line {}", i)).collect();
    let tail = tail_lines(&lines, 4);
    assert_eq!(tail, vec!["line 7", "line 8", "line 9", "line 10"]);
    let none = tail_lines(&lines, 0);
    assert!(none.is_empty());
}

#[test]
fn unreadable_file_yields_single_diagnostic_line() {
    assert_eq!(
        unreadable_file_message("/etc/shadow"),
        "Error: Cannot open file /etc/shadow. (Check Permissions)"
    );
}
