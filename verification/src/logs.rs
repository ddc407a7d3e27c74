//! The log locator: picks log-like files out of a process's
//! file-descriptor listing, and selects the tail of a file already read
//! into lines. Reading the listing and the file is the application's part;
//! the selection logic is specified and proved here.

use vstd::prelude::*;
use vstd::string::*;
use crate::text::{
    contains_sub,
    ends_with_seq,
    split_lines,
    split_text_lines,
    split_whitespace_tokens,
    starts_with_seq,
    str_contains,
    str_ends_with,
    str_eq,
    str_starts_with,
    whitespace_split,
};

verus! {

/// A path that looks like a log: a known log extension, the system log
/// root, or a path segment named "logs".
pub open spec fn is_log_path(p: Seq<char>) -> bool {
    ends_with_seq(p, ".log"@) || ends_with_seq(p, ".err"@) || ends_with_seq(p, ".out"@)
        || ends_with_seq(p, ".txt"@) || starts_with_seq(p, "/var/log"@) || contains_sub(
        p,
        "/logs/"@,
    )
}

/// The path one listing line contributes: the last column of a
/// regular-file entry that is not a shared library and looks like a log.
pub open spec fn log_candidate(l: Seq<char>) -> Option<Seq<char>> {
    if contains_sub(l, "REG"@) && !contains_sub(l, ".dylib"@) && !contains_sub(l, ".so"@) {
        let toks = whitespace_split(l);
        if toks.len() > 0 {
            let p = toks[toks.len() - 1];
            if is_log_path(p) {
                Some(p)
            } else {
                None
            }
        } else {
            None
        }
    } else {
        None
    }
}

/// The candidates of all lines added to `acc` in order, each path kept
/// only at its first occurrence.
pub open spec fn spec_collect_logs(lines: Seq<Seq<char>>, acc: Seq<Seq<char>>) -> Seq<Seq<char>>
    decreases lines.len(),
{
    if lines.len() == 0 {
        acc
    } else {
        let step = match log_candidate(lines[0]) {
            Some(p) => if acc.contains(p) {
                acc
            } else {
                acc.push(p)
            },
            None => acc,
        };
        spec_collect_logs(lines.skip(1), step)
    }
}

/// The log files a file-descriptor listing discovers: deduplicated,
/// first-seen order.
pub open spec fn spec_find_logs(listing: Seq<char>) -> Seq<Seq<char>> {
    spec_collect_logs(split_lines(listing), Seq::empty())
}

fn log_path_ok(p: &str) -> (r: bool)
    ensures
        r == is_log_path(p@),
{
    str_ends_with(p, ".log") || str_ends_with(p, ".err") || str_ends_with(p, ".out")
        || str_ends_with(p, ".txt") || str_starts_with(p, "/var/log") || str_contains(p, "/logs/")
}

fn vec_contains_str(v: &Vec<String>, s: &str) -> (r: bool)
    ensures
        r == v.deep_view().contains(s@),
{
    let mut j: usize = 0;
    while j < v.len()
        invariant
            0 <= j <= v.len(),
            forall|k: int| 0 <= k < j ==> v.deep_view()[k] != s@,
        decreases v.len() - j,
    {
        if str_eq(v[j].as_str(), s) {
            proof {
                assert(v.deep_view()[j as int] == s@);
            }
            return true;
        }
        j = j + 1;
    }
    proof {
        assert(forall|k: int| 0 <= k < v.deep_view().len() ==> v.deep_view()[k] != s@);
    }
    false
}

fn clone_string(s: &String) -> (r: String)
    ensures
        r == *s,
{
    s.clone()
}

/// Scans a file-descriptor listing for log files: keeps the last column of
/// each regular-file line that is not a shared library and either carries a
/// log extension or sits under a log directory; duplicates are dropped,
/// first-seen order preserved.
pub fn find_log_paths(listing: &str) -> (r: Vec<String>)
    ensures
        r.deep_view() == spec_find_logs(listing@),
{
    let lines = split_text_lines(listing);
    let mut out: Vec<String> = Vec::new();
    let mut i: usize = 0;
    let ghost lv = lines.deep_view();
    proof {
        assert(lv.skip(0) =~= lv);
        assert(out.deep_view() =~= Seq::<Seq<char>>::empty());
    }
    while i < lines.len()
        invariant
            0 <= i <= lines.len(),
            lv == lines.deep_view(),
            lv == split_lines(listing@),
            spec_collect_logs(lv.skip(i as int), out.deep_view()) == spec_collect_logs(
                lv,
                Seq::empty(),
            ),
        decreases lines.len() - i,
    {
        let line = &lines[i];
        let ghost pre = out.deep_view();
        proof {
            assert(lv.skip(i as int)[0] == lv[i as int]);
            assert(lv.skip(i as int).skip(1) =~= lv.skip(i as int + 1));
        }
        if str_contains(line.as_str(), "REG") && !str_contains(line.as_str(), ".dylib")
            && !str_contains(line.as_str(), ".so") {
            let toks = split_whitespace_tokens(line.as_str());
            if toks.len() > 0 {
                let p = &toks[toks.len() - 1];
                proof {
                    assert(p@ == whitespace_split(lv[i as int])[whitespace_split(
                        lv[i as int],
                    ).len() - 1]);
                }
                if log_path_ok(p.as_str()) {
                    if !vec_contains_str(&out, p.as_str()) {
                        out.push(clone_string(p));
                        proof {
                            assert(out.deep_view() =~= pre.push(p@));
                        }
                    }
                }
            }
        }
        i = i + 1;
    }
    proof {
        assert(lv.skip(lines.len() as int) =~= Seq::<Seq<char>>::empty());
    }
    out
}

/// The last `n` lines of `lines` in original order — all of them when
/// there are no more than `n`.
pub fn tail_lines(lines: &Vec<String>, n: usize) -> (r: Vec<String>)
    ensures
        lines@.len() <= n ==> r@ == lines@,
        lines@.len() > n ==> r@ == lines@.skip(lines@.len() - n as int),
{
    let start: usize = if lines.len() > n {
        lines.len() - n
    } else {
        0
    };
    let mut out: Vec<String> = Vec::new();
    let mut j: usize = start;
    while j < lines.len()
        invariant
            start <= j <= lines.len(),
            out@ =~= lines@.subrange(start as int, j as int),
        decreases lines.len() - j,
    {
        out.push(clone_string(&lines[j]));
        proof {
            assert(out@ =~= lines@.subrange(start as int, j as int + 1));
        }
        j = j + 1;
    }
    proof {
        if lines@.len() <= n {
            assert(out@ =~= lines@);
        } else {
            assert(out@ =~= lines@.skip(lines@.len() - n as int));
        }
    }
    out
}

/// The single diagnostic line returned in place of an unreadable file, so
/// that a log read always yields something displayable.
pub fn unreadable_file_message(path: &str) -> (r: String)
    ensures
        r@ == "Error: Cannot open file "@ + path@ + ". (Check Permissions)"@,
{
    let mut s = String::from_str("Error: Cannot open file ");
    s.append(path);
    s.append(". (Check Permissions)");
    s
}

} // verus!
