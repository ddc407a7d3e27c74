//! Verified text utilities: ASCII-whitespace tokenization, splitting on a
//! separator, line splitting with carriage-return handling, substring search
//! and decimal rendering. Every external tool the agent drives emits
//! line-oriented text; the parsers in the other modules are specified in
//! terms of the spec functions here.

use vstd::prelude::*;
use vstd::string::*;

verus! {

/// ASCII whitespace: space, tab, line feed, carriage return, vertical tab,
/// form feed. The tool output parsed here is ASCII; this is the whitespace
/// the tokenizer splits on.
pub open spec fn is_space(c: char) -> bool {
    c == ' ' || c == '\t' || c == '\n' || c == '\r' || c == '\u{b}' || c == '\u{c}'
}

/// Length of the maximal leading run of non-space characters.
pub open spec fn token_len(s: Seq<char>) -> int
    decreases s.len(),
{
    if s.len() == 0 || is_space(s[0]) {
        0
    } else {
        1 + token_len(s.skip(1))
    }
}

/// Length of the prefix of `s` before the first occurrence of `sep`
/// (the whole length if `sep` does not occur).
pub open spec fn prefix_len(s: Seq<char>, sep: char) -> int
    decreases s.len(),
{
    if s.len() == 0 || s[0] == sep {
        0
    } else {
        1 + prefix_len(s.skip(1), sep)
    }
}

pub proof fn lemma_token_len_bounds(s: Seq<char>)
    ensures
        0 <= token_len(s) <= s.len(),
        s.len() > 0 && !is_space(s[0]) ==> token_len(s) >= 1,
    decreases s.len(),
{
    if s.len() > 0 && !is_space(s[0]) {
        lemma_token_len_bounds(s.skip(1));
    }
}

pub proof fn lemma_prefix_len_bounds(s: Seq<char>, sep: char)
    ensures
        0 <= prefix_len(s, sep) <= s.len(),
    decreases s.len(),
{
    if s.len() > 0 && s[0] != sep {
        lemma_prefix_len_bounds(s.skip(1), sep);
    }
}

/// The words of `s`: maximal runs of non-space characters, in order,
/// with all whitespace dropped.
pub open spec fn whitespace_split(s: Seq<char>) -> Seq<Seq<char>>
    decreases s.len(),
    via whitespace_split_decreases
{
    if s.len() == 0 {
        Seq::empty()
    } else if is_space(s[0]) {
        whitespace_split(s.skip(1))
    } else {
        seq![s.take(token_len(s))] + whitespace_split(s.skip(token_len(s)))
    }
}

#[via_fn]
proof fn whitespace_split_decreases(s: Seq<char>) {
    lemma_token_len_bounds(s);
}

/// The fields of `s` split on the separator `sep`, empty fields kept:
/// one more field than there are separators.
pub open spec fn sep_split(s: Seq<char>, sep: char) -> Seq<Seq<char>>
    decreases s.len(),
    via sep_split_decreases
{
    let p = prefix_len(s, sep);
    if p == s.len() {
        seq![s]
    } else {
        seq![s.take(p)] + sep_split(s.skip(p + 1), sep)
    }
}

#[via_fn]
proof fn sep_split_decreases(s: Seq<char>, sep: char) {
    lemma_prefix_len_bounds(s, sep);
}

/// A line with one trailing carriage return removed, as a line feed
/// preceded by a carriage return marks a single line ending.
pub open spec fn strip_cr(l: Seq<char>) -> Seq<char> {
    if l.len() > 0 && l[l.len() - 1] == '\r' {
        l.take(l.len() - 1)
    } else {
        l
    }
}

/// The lines of `s`: split at each line feed, a carriage return directly
/// before a line feed dropped, and no empty final line for text that ends
/// with a line terminator. A final line without terminator is kept as-is.
pub open spec fn split_lines(s: Seq<char>) -> Seq<Seq<char>>
    decreases s.len(),
    via split_lines_decreases
{
    if s.len() == 0 {
        Seq::empty()
    } else {
        let p = prefix_len(s, '\n');
        if p == s.len() {
            seq![s]
        } else {
            seq![strip_cr(s.take(p))] + split_lines(s.skip(p + 1))
        }
    }
}

#[via_fn]
proof fn split_lines_decreases(s: Seq<char>) {
    lemma_prefix_len_bounds(s, '\n');
}

/// `needle` occurs contiguously somewhere in `hay`.
pub open spec fn contains_sub(hay: Seq<char>, needle: Seq<char>) -> bool {
    exists|k: int|
        0 <= k && k + needle.len() <= hay.len() && #[trigger] hay.subrange(k, k + needle.len())
            == needle
}

/// Every character of `s` is whitespace (true of the empty sequence);
/// such a line is blank.
pub open spec fn all_space(s: Seq<char>) -> bool {
    forall|i: int| 0 <= i < s.len() ==> is_space(#[trigger] s[i])
}

/// A leading run of non-space characters of length `t`, delimited by the
/// end of the sequence or a space, is exactly the first token.
pub proof fn lemma_token_len_run(s: Seq<char>, t: int)
    requires
        0 <= t <= s.len(),
        forall|j: int| 0 <= j < t ==> !is_space(#[trigger] s[j]),
        t == s.len() || is_space(s[t]),
    ensures
        token_len(s) == t,
    decreases t,
{
    if t > 0 {
        assert(s.skip(1).len() == s.len() - 1);
        assert(forall|j: int| 0 <= j < t - 1 ==> s.skip(1)[j] == s[j + 1]);
        if t < s.len() {
            assert(s.skip(1)[t - 1] == s[t]);
        }
        lemma_token_len_run(s.skip(1), t - 1);
    }
}

/// The same characterization for the prefix before a separator.
pub proof fn lemma_prefix_len_run(s: Seq<char>, sep: char, t: int)
    requires
        0 <= t <= s.len(),
        forall|j: int| 0 <= j < t ==> #[trigger] s[j] != sep,
        t == s.len() || s[t] == sep,
    ensures
        prefix_len(s, sep) == t,
    decreases t,
{
    if t > 0 {
        assert(forall|j: int| 0 <= j < t - 1 ==> s.skip(1)[j] == s[j + 1]);
        if t < s.len() {
            assert(s.skip(1)[t - 1] == s[t]);
        }
        lemma_prefix_len_run(s.skip(1), sep, t - 1);
    }
}

/// Dropping one leading space does not change the words.
pub proof fn lemma_whitespace_split_skip_space(s: Seq<char>)
    requires
        s.len() > 0,
        is_space(s[0]),
    ensures
        whitespace_split(s) == whitespace_split(s.skip(1)),
{
}

/// Peeling the first token off a sequence that starts with a non-space run.
pub proof fn lemma_whitespace_split_token(s: Seq<char>, t: int)
    requires
        0 < t <= s.len(),
        forall|j: int| 0 <= j < t ==> !is_space(#[trigger] s[j]),
        t == s.len() || is_space(s[t]),
    ensures
        whitespace_split(s) == seq![s.take(t)] + whitespace_split(s.skip(t)),
{
    lemma_token_len_run(s, t);
}

/// Peeling the first field off at the first separator.
pub proof fn lemma_sep_split_field(s: Seq<char>, sep: char, t: int)
    requires
        0 <= t < s.len(),
        forall|j: int| 0 <= j < t ==> #[trigger] s[j] != sep,
        s[t] == sep,
    ensures
        sep_split(s, sep) == seq![s.take(t)] + sep_split(s.skip(t + 1), sep),
{
    lemma_prefix_len_run(s, sep, t);
}

/// A sequence without the separator is a single field.
pub proof fn lemma_sep_split_whole(s: Seq<char>, sep: char)
    requires
        forall|j: int| 0 <= j < s.len() ==> #[trigger] s[j] != sep,
    ensures
        sep_split(s, sep) == seq![s],
{
    lemma_prefix_len_run(s, sep, s.len() as int);
}

/// Exec mirror of `is_space`.
pub fn space_char(c: char) -> (r: bool)
    ensures
        r == is_space(c),
{
    c == ' ' || c == '\t' || c == '\n' || c == '\r' || c == '\u{b}' || c == '\u{c}'
}

/// Character-for-character string equality.
pub fn str_eq(a: &str, b: &str) -> (r: bool)
    ensures
        r == (a@ == b@),
{
    let alen = a.unicode_len();
    let blen = b.unicode_len();
    if alen != blen {
        return false;
    }
    let mut i: usize = 0;
    while i < alen
        invariant
            0 <= i <= alen,
            alen == a@.len(),
            alen == b@.len(),
            forall|j: int| 0 <= j < i ==> a@[j] == b@[j],
        decreases alen - i,
    {
        if a.get_char(i) != b.get_char(i) {
            return false;
        }
        i = i + 1;
    }
    proof {
        assert(a@ =~= b@);
    }
    true
}

/// Whether `needle` matches `hay` at offset `k`.
fn match_at(hay: &str, k: usize, needle: &str) -> (r: bool)
    requires
        k + needle@.len() <= hay@.len(),
        hay@.len() <= usize::MAX,
    ensures
        r == (hay@.subrange(k as int, k as int + needle@.len() as int) == needle@),
{
    let nlen = needle.unicode_len();
    let ghost piece = hay@.subrange(k as int, k as int + needle@.len() as int);
    let mut m: usize = 0;
    while m < nlen
        invariant
            0 <= m <= nlen,
            nlen == needle@.len(),
            k + nlen <= hay@.len(),
            hay@.len() <= usize::MAX,
            piece == hay@.subrange(k as int, k as int + nlen as int),
            forall|j: int| 0 <= j < m ==> hay@[k + j] == needle@[j],
        decreases nlen - m,
    {
        if hay.get_char(k + m) != needle.get_char(m) {
            proof {
                assert(piece[m as int] == hay@[k + m]);
            }
            return false;
        }
        m = m + 1;
    }
    proof {
        assert(piece =~= needle@);
    }
    true
}

/// Substring search: whether `needle` occurs anywhere in `hay`.
pub fn str_contains(hay: &str, needle: &str) -> (r: bool)
    ensures
        r == contains_sub(hay@, needle@),
{
    let hlen = hay.unicode_len();
    let nlen = needle.unicode_len();
    if nlen > hlen {
        return false;
    }
    if nlen == 0 {
        proof {
            assert(hay@.subrange(0, 0 + needle@.len() as int) =~= needle@);
        }
        return true;
    }
    let mut k: usize = 0;
    while k <= hlen - nlen
        invariant
            0 <= k <= hlen - nlen + 1,
            1 <= nlen <= hlen,
            hlen == hay@.len(),
            nlen == needle@.len(),
            forall|kk: int|
                0 <= kk < k ==> #[trigger] hay@.subrange(kk, kk + needle@.len()) != needle@,
        decreases hlen - nlen - k + 1,
    {
        if match_at(hay, k, needle) {
            return true;
        }
        k = k + 1;
    }
    false
}

/// Whether `s` begins with `p`.
pub open spec fn starts_with_seq(s: Seq<char>, p: Seq<char>) -> bool {
    p.len() <= s.len() && s.take(p.len() as int) == p
}

/// Whether `s` ends with `p`.
pub open spec fn ends_with_seq(s: Seq<char>, p: Seq<char>) -> bool {
    p.len() <= s.len() && s.skip(s.len() - p.len()) == p
}

pub fn str_starts_with(s: &str, p: &str) -> (r: bool)
    ensures
        r == starts_with_seq(s@, p@),
{
    let slen = s.unicode_len();
    let plen = p.unicode_len();
    if plen > slen {
        return false;
    }
    let r = match_at(s, 0, p);
    proof {
        assert(s@.subrange(0, p@.len() as int) =~= s@.take(p@.len() as int));
    }
    r
}

pub fn str_ends_with(s: &str, p: &str) -> (r: bool)
    ensures
        r == ends_with_seq(s@, p@),
{
    let slen = s.unicode_len();
    let plen = p.unicode_len();
    if plen > slen {
        return false;
    }
    let r = match_at(s, slen - plen, p);
    proof {
        assert(s@.subrange(s@.len() - p@.len(), s@.len() - p@.len() + p@.len()) =~= s@.skip(
            s@.len() - p@.len(),
        ));
    }
    r
}

/// Whether the string is blank: empty or whitespace only.
pub fn str_is_blank(s: &str) -> (r: bool)
    ensures
        r == all_space(s@),
{
    let len = s.unicode_len();
    let mut i: usize = 0;
    while i < len
        invariant
            0 <= i <= len,
            len == s@.len(),
            forall|j: int| 0 <= j < i ==> is_space(#[trigger] s@[j]),
        decreases len - i,
    {
        if !space_char(s.get_char(i)) {
            return false;
        }
        i = i + 1;
    }
    true
}

/// Splits `s` into its whitespace-separated words.
pub fn split_whitespace_tokens(s: &str) -> (r: Vec<String>)
    ensures
        r.deep_view() == whitespace_split(s@),
{
    let len = s.unicode_len();
    let mut out: Vec<String> = Vec::new();
    let mut i: usize = 0;
    proof {
        assert(s@.skip(0) =~= s@);
        assert(out.deep_view() + whitespace_split(s@) =~= whitespace_split(s@));
    }
    while i < len
        invariant
            0 <= i <= len,
            len == s@.len(),
            out.deep_view() + whitespace_split(s@.skip(i as int)) == whitespace_split(s@),
        decreases len - i,
    {
        if space_char(s.get_char(i)) {
            proof {
                let tail = s@.skip(i as int);
                assert(tail[0] == s@[i as int]);
                lemma_whitespace_split_skip_space(tail);
                assert(tail.skip(1) =~= s@.skip(i as int + 1));
            }
            i = i + 1;
        } else {
            let start = i;
            i = i + 1;
            while i < len && !space_char(s.get_char(i))
                invariant
                    start < i <= len,
                    len == s@.len(),
                    forall|j: int| start <= j < i ==> !is_space(#[trigger] s@[j]),
                decreases len - i,
            {
                i = i + 1;
            }
            let tok = s.substring_char(start, i).to_owned();
            let ghost pre = out.deep_view();
            out.push(tok);
            proof {
                let tail = s@.skip(start as int);
                let t = i - start;
                assert(forall|j: int| 0 <= j < t ==> tail[j] == s@[start + j]);
                if i < len {
                    assert(tail[t as int] == s@[i as int]);
                }
                lemma_whitespace_split_token(tail, t as int);
                assert(tail.take(t as int) =~= s@.subrange(start as int, i as int));
                assert(tail.skip(t as int) =~= s@.skip(i as int));
                assert(out.deep_view() =~= pre.push(tok@));
                assert(out.deep_view() + whitespace_split(s@.skip(i as int)) =~= pre + (seq![
                    tok@,
                ] + whitespace_split(s@.skip(i as int))));
            }
        }
    }
    proof {
        assert(s@.skip(len as int) =~= Seq::<char>::empty());
        assert(out.deep_view() + whitespace_split(s@.skip(len as int)) =~= out.deep_view());
    }
    out
}

/// Splits `s` on the separator `sep`, keeping empty fields.
pub fn split_on_char(s: &str, sep: char) -> (r: Vec<String>)
    ensures
        r.deep_view() == sep_split(s@, sep),
{
    let len = s.unicode_len();
    let mut out: Vec<String> = Vec::new();
    let mut i: usize = 0;
    let mut start: usize = 0;
    proof {
        assert(s@.skip(0) =~= s@);
        assert(out.deep_view() + sep_split(s@, sep) =~= sep_split(s@, sep));
    }
    while i < len
        invariant
            0 <= start <= i <= len,
            len == s@.len(),
            forall|j: int| start <= j < i ==> #[trigger] s@[j] != sep,
            out.deep_view() + sep_split(s@.skip(start as int), sep) == sep_split(s@, sep),
        decreases len - i,
    {
        if s.get_char(i) == sep {
            let field = s.substring_char(start, i).to_owned();
            let ghost pre = out.deep_view();
            out.push(field);
            proof {
                let tail = s@.skip(start as int);
                let t = i - start;
                assert(forall|j: int| 0 <= j < t ==> tail[j] == s@[start + j]);
                assert(tail[t as int] == s@[i as int]);
                lemma_sep_split_field(tail, sep, t as int);
                assert(tail.take(t as int) =~= s@.subrange(start as int, i as int));
                assert(tail.skip(t as int + 1) =~= s@.skip(i as int + 1));
                assert(out.deep_view() =~= pre.push(field@));
                assert(out.deep_view() + sep_split(s@.skip(i as int + 1), sep) =~= pre + (seq![
                    field@,
                ] + sep_split(s@.skip(i as int + 1), sep)));
            }
            i = i + 1;
            start = i;
        } else {
            i = i + 1;
        }
    }
    let field = s.substring_char(start, len).to_owned();
    let ghost pre = out.deep_view();
    out.push(field);
    proof {
        let tail = s@.skip(start as int);
        assert(forall|j: int| 0 <= j < tail.len() ==> tail[j] == s@[start + j]);
        lemma_sep_split_whole(tail, sep);
        assert(tail.take(tail.len() as int) =~= tail);
        assert(tail =~= s@.subrange(start as int, len as int));
        assert(out.deep_view() =~= pre.push(field@));
        assert(out.deep_view() =~= pre + seq![field@]);
    }
    out
}

/// Splits `s` into lines: at each line feed, dropping a carriage return
/// that stands directly before one.
pub fn split_text_lines(s: &str) -> (r: Vec<String>)
    ensures
        r.deep_view() == split_lines(s@),
{
    let len = s.unicode_len();
    let mut out: Vec<String> = Vec::new();
    let mut i: usize = 0;
    proof {
        assert(s@.skip(0) =~= s@);
        assert(out.deep_view() + split_lines(s@) =~= split_lines(s@));
    }
    while i < len
        invariant
            0 <= i <= len,
            len == s@.len(),
            out.deep_view() + split_lines(s@.skip(i as int)) == split_lines(s@),
        decreases len - i,
    {
        let start = i;
        while i < len && s.get_char(i) != '\n'
            invariant
                start <= i <= len,
                len == s@.len(),
                forall|j: int| start <= j < i ==> #[trigger] s@[j] != '\n',
            decreases len - i,
        {
            i = i + 1;
        }
        let ghost tail = s@.skip(start as int);
        let ghost t = i - start;
        proof {
            assert(forall|j: int| 0 <= j < t ==> tail[j] == s@[start + j]);
        }
        if i == len {
            // final line without a terminator: kept as-is
            let line = s.substring_char(start, len).to_owned();
            let ghost pre = out.deep_view();
            out.push(line);
            proof {
                lemma_prefix_len_run(tail, '\n', t);
                assert(tail =~= s@.subrange(start as int, len as int));
                assert(out.deep_view() =~= pre.push(line@));
                assert(out.deep_view() =~= pre + seq![line@]);
                assert(s@.skip(len as int) =~= Seq::<char>::empty());
            }
        } else {
            let mut stop = i;
            if stop > start && s.get_char(stop - 1) == '\r' {
                stop = stop - 1;
            }
            let line = s.substring_char(start, stop).to_owned();
            let ghost pre = out.deep_view();
            out.push(line);
            proof {
                assert(tail[t] == s@[i as int]);
                lemma_prefix_len_run(tail, '\n', t);
                assert(tail.take(t) =~= s@.subrange(start as int, i as int));
                let raw = tail.take(t);
                if t > 0 && s@[i as int - 1] == '\r' {
                    assert(raw[t - 1] == '\r');
                    assert(strip_cr(raw) =~= s@.subrange(start as int, i as int - 1));
                } else {
                    if t > 0 {
                        assert(raw[t - 1] == s@[i as int - 1]);
                    }
                    assert(strip_cr(raw) =~= s@.subrange(start as int, i as int));
                }
                assert(strip_cr(raw) =~= s@.subrange(start as int, stop as int));
                assert(tail.skip(t + 1) =~= s@.skip(i as int + 1));
                assert(out.deep_view() =~= pre.push(line@));
                assert(out.deep_view() + split_lines(s@.skip(i as int + 1)) =~= pre + (seq![
                    line@,
                ] + split_lines(s@.skip(i as int + 1))));
            }
            i = i + 1;
        }
    }
    proof {
        assert(s@.skip(len as int) =~= Seq::<char>::empty());
        assert(out.deep_view() + split_lines(s@.skip(len as int)) =~= out.deep_view());
    }
    out
}

/// The decimal digits of `n`, most significant first.
pub open spec fn spec_decimal(n: int) -> Seq<char>
    decreases n,
{
    if n < 10 {
        seq![digit_char(n)]
    } else {
        spec_decimal(n / 10) + seq![digit_char(n % 10)]
    }
}

/// The character for one decimal digit.
pub open spec fn digit_char(d: int) -> char {
    if d == 0 {
        '0'
    } else if d == 1 {
        '1'
    } else if d == 2 {
        '2'
    } else if d == 3 {
        '3'
    } else if d == 4 {
        '4'
    } else if d == 5 {
        '5'
    } else if d == 6 {
        '6'
    } else if d == 7 {
        '7'
    } else if d == 8 {
        '8'
    } else {
        '9'
    }
}

fn digit_str(d: u64) -> (r: &'static str)
    requires
        d < 10,
    ensures
        r@ == seq![digit_char(d as int)],
{
    proof {
        reveal_strlit("0");
        reveal_strlit("1");
        reveal_strlit("2");
        reveal_strlit("3");
        reveal_strlit("4");
        reveal_strlit("5");
        reveal_strlit("6");
        reveal_strlit("7");
        reveal_strlit("8");
        reveal_strlit("9");
    }
    let r = if d == 0 {
        "0"
    } else if d == 1 {
        "1"
    } else if d == 2 {
        "2"
    } else if d == 3 {
        "3"
    } else if d == 4 {
        "4"
    } else if d == 5 {
        "5"
    } else if d == 6 {
        "6"
    } else if d == 7 {
        "7"
    } else if d == 8 {
        "8"
    } else {
        "9"
    };
    proof {
        assert(r@ =~= seq![digit_char(d as int)]);
    }
    r
}

/// Renders `n` in decimal.
pub fn u64_to_string(n: u64) -> (r: String)
    ensures
        r@ == spec_decimal(n as int),
    decreases n,
{
    if n < 10 {
        digit_str(n).to_owned()
    } else {
        let mut s = u64_to_string(n / 10);
        s.append(digit_str(n % 10));
        proof {
            assert(s@ =~= spec_decimal(n as int));
        }
        s
    }
}

} // verus!
