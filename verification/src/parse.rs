//! Verified parsers for the external tools' text output.
//!
//! All extraction the library performs on captured output is defined here:
//! the bridge tool's `show` table (bridge id, spanning-tree state, member
//! interfaces, bridge names), its version banner, and the link tool's
//! interface listing.  Every parser is specified against the line/column
//! model of [`crate::text`].

use vstd::prelude::*;

use crate::errors::CommandError;
use crate::text::spec_lines;
use crate::text::spec_tokens;
use crate::text::split_lines;
use crate::text::split_tokens;
use crate::text::to_chars;
use crate::text::views_of;

verus! {

/// The data rows of a show table: every line after the header line.
pub open spec fn spec_data_rows(out: Seq<char>) -> Seq<Seq<char>> {
    let l = spec_lines(out);
    if l.len() >= 1 {
        l.skip(1)
    } else {
        Seq::empty()
    }
}

/// The first data row carries at least a name and an id column.
pub open spec fn id_row_ok(out: Seq<char>) -> bool {
    spec_lines(out).len() >= 2 && spec_tokens(spec_lines(out)[1]).len() >= 2
}

/// The bridge id: second column of the first data row.
pub open spec fn spec_bridge_id(out: Seq<char>) -> Seq<char> {
    spec_tokens(spec_lines(out)[1])[1]
}

/// The first data row carries a spanning-tree column.
pub open spec fn stp_row_ok(out: Seq<char>) -> bool {
    spec_lines(out).len() >= 2 && spec_tokens(spec_lines(out)[1]).len() >= 3
}

/// The spanning-tree column: third column of the first data row.
pub open spec fn spec_stp_token(out: Seq<char>) -> Seq<char> {
    spec_tokens(spec_lines(out)[1])[2]
}

/// The fourth column of every row that has one, in row order.
pub open spec fn spec_row_fourths(rows: Seq<Seq<char>>) -> Seq<Seq<char>>
    decreases rows.len(),
{
    if rows.len() == 0 {
        Seq::empty()
    } else {
        let rest = spec_row_fourths(rows.drop_last());
        let toks = spec_tokens(rows.last());
        if toks.len() >= 4 {
            rest.push(toks[3])
        } else {
            rest
        }
    }
}

/// The member interfaces of a show table: fourth column of every data row
/// that has one.
pub open spec fn spec_interfaces(out: Seq<char>) -> Seq<Seq<char>> {
    spec_row_fourths(spec_data_rows(out))
}

/// The first column of every row that has one, in row order.
pub open spec fn spec_row_firsts(rows: Seq<Seq<char>>) -> Seq<Seq<char>>
    decreases rows.len(),
{
    if rows.len() == 0 {
        Seq::empty()
    } else {
        let rest = spec_row_firsts(rows.drop_last());
        let toks = spec_tokens(rows.last());
        if toks.len() >= 1 {
            rest.push(toks[0])
        } else {
            rest
        }
    }
}

/// The bridge names of a show table: first column of every data row that
/// has one.
pub open spec fn spec_bridge_names(out: Seq<char>) -> Seq<Seq<char>> {
    spec_row_firsts(spec_data_rows(out))
}

/// Every extracted bridge name is a nonempty column.
pub proof fn lemma_row_firsts_nonempty(rows: Seq<Seq<char>>)
    ensures
        forall|k: int|
            0 <= k < spec_row_firsts(rows).len() ==> #[trigger] spec_row_firsts(rows)[k].len()
                > 0,
    decreases rows.len(),
{
    if rows.len() > 0 {
        lemma_row_firsts_nonempty(rows.drop_last());
        crate::text::lemma_tokens_shape(rows.last());
        let rest = spec_row_firsts(rows.drop_last());
        let t = spec_row_firsts(rows);
        assert forall|k: int| 0 <= k < t.len() implies #[trigger] t[k].len() > 0 by {
            if k < rest.len() {
                assert(t[k] == rest[k]);
            }
        }
    }
}

/// Extracts the bridge id from the captured output of a scoped `show`
/// invocation: the second column of the first data row; too short or
/// malformed output is an execution failure.
pub fn parse_bridge_id(details: &str) -> (r: Result<String, CommandError>)
    ensures
        id_row_ok(details@) ==> (r matches Ok(id) && id@ == spec_bridge_id(details@)),
        !id_row_ok(details@) ==> (r matches Err(e) && e matches CommandError::ExecutionError(m)
            && m@ == "Failed to get bridge ID"@),
{
    let lines = split_lines(details);
    if lines.len() >= 2 {
        proof {
            assert(lines@[1]@ == views_of(lines@)[1]);
        }
        let toks = split_tokens(lines[1].as_str());
        if toks.len() >= 2 {
            proof {
                assert(toks@[1]@ == views_of(toks@)[1]);
            }
            return Ok(toks[1].clone());
        }
    }
    Err(CommandError::ExecutionError(String::from_str("Failed to get bridge ID")))
}

/// Extracts the spanning-tree state from the captured output of a scoped
/// `show` invocation: third column of the first data row; `yes` means
/// enabled, `no` disabled; any other value is its own failure, never
/// coerced to a boolean; too short or malformed output is an execution
/// failure.
pub fn parse_stp(details: &str) -> (r: Result<bool, CommandError>)
    ensures
        !stp_row_ok(details@) ==> (r matches Err(e) && e matches CommandError::ExecutionError(m)
            && m@ == "Failed to determine STP state"@),
        stp_row_ok(details@) && spec_stp_token(details@) == "yes"@ ==> r == Ok::<
            bool,
            CommandError,
        >(true),
        stp_row_ok(details@) && spec_stp_token(details@) == "no"@ ==> r == Ok::<
            bool,
            CommandError,
        >(false),
        stp_row_ok(details@) && spec_stp_token(details@) != "yes"@ && spec_stp_token(details@)
            != "no"@ ==> (r matches Err(e) && e matches CommandError::ExecutionError(m) && m@
            == "Unknown STP state: "@ + spec_stp_token(details@)),
{
    proof {
        reveal_strlit("yes");
        reveal_strlit("no");
    }
    let lines = split_lines(details);
    if lines.len() >= 2 {
        proof {
            assert(lines@[1]@ == views_of(lines@)[1]);
        }
        let toks = split_tokens(lines[1].as_str());
        if toks.len() >= 3 {
            proof {
                assert(toks@[2]@ == views_of(toks@)[2]);
            }
            let yes = String::from_str("yes");
            let no = String::from_str("no");
            if toks[2].eq(&yes) {
                return Ok(true);
            }
            if toks[2].eq(&no) {
                return Ok(false);
            }
            let mut m = String::from_str("Unknown STP state: ");
            m.append(toks[2].as_str());
            return Err(CommandError::ExecutionError(m));
        }
    }
    Err(CommandError::ExecutionError(String::from_str("Failed to determine STP state")))
}

/// Extracts the member interfaces from the captured output of a scoped
/// `show` invocation.  The header line is skipped; every data row with a
/// fourth column contributes it; rows without one (a bridge with no
/// interfaces) are skipped, so the result may be empty.
pub fn parse_interfaces(details: &str) -> (r: Vec<String>)
    ensures
        views_of(r@) == spec_interfaces(details@),
{
    let lines = split_lines(details);
    let mut r: Vec<String> = Vec::new();
    if lines.len() == 0 {
        proof {
            assert(views_of(r@) =~~= spec_interfaces(details@));
        }
        return r;
    }
    let ghost rows = spec_data_rows(details@);
    let mut i: usize = 1;
    while i < lines.len()
        invariant
            1 <= i <= lines@.len(),
            views_of(lines@) == spec_lines(details@),
            spec_lines(details@).len() == lines@.len(),
            rows == spec_data_rows(details@),
            rows.len() == lines@.len() - 1,
            views_of(r@) == spec_row_fourths(rows.take(i as int - 1)),
        decreases lines@.len() - i,
    {
        proof {
            assert(lines@[i as int]@ == views_of(lines@)[i as int]);
            assert(rows.take(i as int).drop_last() =~~= rows.take(i as int - 1));
            assert(rows.take(i as int).last() == rows[i as int - 1]);
            assert(rows[i as int - 1] == spec_lines(details@)[i as int]);
        }
        let toks = split_tokens(lines[i].as_str());
        if toks.len() >= 4 {
            proof {
                assert(toks@[3]@ == views_of(toks@)[3]);
            }
            r.push(toks[3].clone());
        }
        proof {
            assert(views_of(r@) =~~= spec_row_fourths(rows.take(i as int)));
        }
        i = i + 1;
    }
    proof {
        assert(rows.take(rows.len() as int) =~= rows);
    }
    r
}

/// Extracts the bridge names from the captured output of an unscoped `show`
/// invocation.  The header line is skipped; every data row's first column is
/// a bridge name; a table with no data rows yields the empty list.
pub fn parse_bridge_names(output: &str) -> (r: Vec<String>)
    ensures
        views_of(r@) == spec_bridge_names(output@),
        forall|k: int| 0 <= k < r@.len() ==> #[trigger] r@[k]@.len() > 0,
{
    let lines = split_lines(output);
    let mut r: Vec<String> = Vec::new();
    if lines.len() == 0 {
        proof {
            assert(views_of(r@) =~~= spec_bridge_names(output@));
            lemma_row_firsts_nonempty(spec_data_rows(output@));
        }
        return r;
    }
    let ghost rows = spec_data_rows(output@);
    let mut i: usize = 1;
    while i < lines.len()
        invariant
            1 <= i <= lines@.len(),
            views_of(lines@) == spec_lines(output@),
            spec_lines(output@).len() == lines@.len(),
            rows == spec_data_rows(output@),
            rows.len() == lines@.len() - 1,
            views_of(r@) == spec_row_firsts(rows.take(i as int - 1)),
        decreases lines@.len() - i,
    {
        proof {
            assert(lines@[i as int]@ == views_of(lines@)[i as int]);
            assert(rows.take(i as int).drop_last() =~~= rows.take(i as int - 1));
            assert(rows.take(i as int).last() == rows[i as int - 1]);
            assert(rows[i as int - 1] == spec_lines(output@)[i as int]);
        }
        let toks = split_tokens(lines[i].as_str());
        if toks.len() >= 1 {
            proof {
                assert(toks@[0]@ == views_of(toks@)[0]);
            }
            r.push(toks[0].clone());
        }
        proof {
            assert(views_of(r@) =~~= spec_row_firsts(rows.take(i as int)));
        }
        i = i + 1;
    }
    proof {
        assert(rows.take(rows.len() as int) =~= rows);
        lemma_row_firsts_nonempty(rows);
        assert forall|k: int| 0 <= k < r@.len() implies #[trigger] r@[k]@.len() > 0 by {
            assert(r@[k]@ == views_of(r@)[k]);
        }
    }
    r
}

/// A decimal digit character.
pub open spec fn is_digit(c: char) -> bool {
    '0' <= c && c <= '9'
}

fn is_digit_char(c: char) -> (r: bool)
    ensures
        r == is_digit(c),
{
    '0' <= c && c <= '9'
}

/// The end of the maximal run of digits of `s` that starts at `k`.
pub open spec fn digit_run_end(s: Seq<char>, k: int) -> int
    decreases s.len() - k,
    when k <= s.len()
{
    if 0 <= k < s.len() && is_digit(s[k]) {
        digit_run_end(s, k + 1)
    } else {
        k
    }
}

fn scan_digits(chars: &Vec<char>, k: usize) -> (e: usize)
    requires
        k <= chars@.len(),
    ensures
        e as int == digit_run_end(chars@, k as int),
        k <= e <= chars@.len(),
{
    let n = chars.len();
    let mut j = k;
    while j < n && is_digit_char(chars[j])
        invariant
            k <= j <= n,
            n == chars@.len(),
            digit_run_end(chars@, k as int) == digit_run_end(chars@, j as int),
        decreases n - j,
    {
        j = j + 1;
    }
    j
}

/// The end of the maximal run of non-colon characters of `s` that starts at
/// `k`.
pub open spec fn colon_free_end(s: Seq<char>, k: int) -> int
    decreases s.len() - k,
    when k <= s.len()
{
    if 0 <= k < s.len() && s[k] != ':' {
        colon_free_end(s, k + 1)
    } else {
        k
    }
}

fn scan_colon_free(chars: &Vec<char>, k: usize) -> (e: usize)
    requires
        k <= chars@.len(),
    ensures
        e as int == colon_free_end(chars@, k as int),
        k <= e <= chars@.len(),
{
    let n = chars.len();
    let mut j = k;
    while j < n && chars[j] != ':'
        invariant
            k <= j <= n,
            n == chars@.len(),
            colon_free_end(chars@, k as int) == colon_free_end(chars@, j as int),
        decreases n - j,
    {
        j = j + 1;
    }
    j
}

/// The version banner's tool identifier, as it opens every match of the
/// version pattern.
pub open spec fn version_marker() -> Seq<char> {
    "bridge-utils, "@
}

/// A full match of the version pattern starts at `i`: the marker, one or
/// more digits, a dot, one or more digits.
pub open spec fn version_match_at(s: Seq<char>, i: int) -> bool {
    let d = i + version_marker().len();
    let e1 = digit_run_end(s, d);
    let e2 = digit_run_end(s, e1 + 1);
    &&& 0 <= i
    &&& d <= s.len()
    &&& s.subrange(i, d) == version_marker()
    &&& e1 > d
    &&& e1 < s.len()
    &&& s[e1] == '.'
    &&& e2 > e1 + 1
}

/// The `major.minor` text captured by a match of the version pattern at `i`.
pub open spec fn version_capture_at(s: Seq<char>, i: int) -> Seq<char> {
    let d = i + version_marker().len();
    let e1 = digit_run_end(s, d);
    let e2 = digit_run_end(s, e1 + 1);
    s.subrange(d, e2)
}

/// `s` contains a match of the version pattern somewhere.
pub open spec fn has_version(s: Seq<char>) -> bool {
    exists|i: int| version_match_at(s, i)
}

/// The leftmost match of the version pattern starts at `i`.
pub open spec fn is_first_version_match(s: Seq<char>, i: int) -> bool {
    version_match_at(s, i) && forall|j: int| 0 <= j < i ==> !version_match_at(s, j)
}

/// The `major.minor` text captured at the leftmost match of the version
/// pattern.
pub open spec fn spec_version(s: Seq<char>) -> Seq<char> {
    version_capture_at(s, choose|i: int| is_first_version_match(s, i))
}

pub proof fn lemma_first_version_match_unique(s: Seq<char>, i1: int, i2: int)
    requires
        is_first_version_match(s, i1),
        is_first_version_match(s, i2),
    ensures
        i1 == i2,
{
}

fn marker_match_at(chars: &Vec<char>, i: usize) -> (r: bool)
    requires
        i + 14 <= chars@.len(),
    ensures
        r == (chars@.subrange(i as int, i as int + 14) == version_marker()),
{
    proof {
        reveal_strlit("bridge-utils, ");
    }
    let marker = to_chars("bridge-utils, ");
    let n = chars.len();
    let ghost sub = chars@.subrange(i as int, i as int + 14);
    let mut j: usize = 0;
    while j < 14
        invariant
            j <= 14,
            n == chars@.len(),
            i + 14 <= n,
            marker@ == version_marker(),
            version_marker().len() == 14,
            sub == chars@.subrange(i as int, i as int + 14),
            forall|t: int| 0 <= t < j ==> sub[t] == version_marker()[t],
        decreases 14 - j,
    {
        if chars[i + j] != marker[j] {
            proof {
                assert(sub[j as int] == chars@[i as int + j as int]);
                assert(sub[j as int] != version_marker()[j as int]);
            }
            return false;
        }
        proof {
            assert(sub[j as int] == chars@[i as int + j as int]);
        }
        j = j + 1;
    }
    proof {
        assert(sub =~= version_marker());
    }
    true
}

/// Searches captured output for the bridge tool's version banner: the tool
/// identifier followed by a `major.minor` number.  Returns the number text
/// of the leftmost occurrence, or nothing when no occurrence exists.
pub fn parse_version(out: &str) -> (r: Option<String>)
    ensures
        r is Some <==> has_version(out@),
        r matches Some(v) ==> v@ == spec_version(out@),
{
    proof {
        reveal_strlit("bridge-utils, ");
    }
    let chars = to_chars(out);
    let n = chars.len();
    let mut i: usize = 0;
    if n >= 14 {
        while i <= n - 14
            invariant
                n >= 14,
                i <= n,
                n == chars@.len(),
                chars@ == out@,
                version_marker().len() == 14,
                forall|j: int| 0 <= j < i ==> !version_match_at(out@, j),
            decreases n - i,
        {
            if marker_match_at(&chars, i) {
                let d = i + 14;
                let e1 = scan_digits(&chars, d);
                if e1 > d && e1 < n && chars[e1] == '.' {
                    let e2 = scan_digits(&chars, e1 + 1);
                    if e2 > e1 + 1 {
                        proof {
                            assert(version_match_at(out@, i as int));
                            assert(is_first_version_match(out@, i as int));
                            let c = choose|w: int| is_first_version_match(out@, w);
                            lemma_first_version_match_unique(out@, c, i as int);
                        }
                        return Some(String::from_str(out.substring_char(d, e2)));
                    }
                }
            }
            proof {
                assert(!version_match_at(out@, i as int));
            }
            i = i + 1;
        }
    }
    proof {
        assert forall|j: int| !version_match_at(out@, j) by {
            if 0 <= j && j + 14 <= n {
                assert(!version_match_at(out@, j));
            }
        }
    }
    None
}

/// A line of the link listing names an interface: an index number, a colon
/// and a space, then the interface name up to the next colon.
pub open spec fn link_line_match(l: Seq<char>) -> bool {
    let e = digit_run_end(l, 0);
    let f = colon_free_end(l, e + 2);
    &&& e > 0
    &&& e + 1 < l.len()
    &&& l[e] == ':'
    &&& l[e + 1] == ' '
    &&& f > e + 2
    &&& f < l.len()
}

/// The interface name of a matching link-listing line.
pub open spec fn link_line_name(l: Seq<char>) -> Seq<char> {
    let e = digit_run_end(l, 0);
    let f = colon_free_end(l, e + 2);
    l.subrange(e + 2, f)
}

/// The interface name of every matching row, in row order.
pub open spec fn spec_link_rows(rows: Seq<Seq<char>>) -> Seq<Seq<char>>
    decreases rows.len(),
{
    if rows.len() == 0 {
        Seq::empty()
    } else {
        let rest = spec_link_rows(rows.drop_last());
        if link_line_match(rows.last()) {
            rest.push(link_line_name(rows.last()))
        } else {
            rest
        }
    }
}

/// The interface names of a captured link listing: one per matching line.
pub open spec fn spec_link_names(out: Seq<char>) -> Seq<Seq<char>> {
    spec_link_rows(spec_lines(out))
}

/// Extracts the interface names from the captured output of the link tool's
/// listing.  Lines of any other shape (attribute lines, continuations) are
/// skipped.
pub fn parse_link_names(out: &str) -> (r: Vec<String>)
    ensures
        views_of(r@) == spec_link_names(out@),
{
    let lines = split_lines(out);
    let ghost rows = spec_lines(out@);
    let mut r: Vec<String> = Vec::new();
    let mut i: usize = 0;
    proof {
        assert(views_of(r@) =~~= spec_link_rows(rows.take(0)));
    }
    while i < lines.len()
        invariant
            i <= lines@.len(),
            views_of(lines@) == rows,
            rows == spec_lines(out@),
            views_of(r@) == spec_link_rows(rows.take(i as int)),
        decreases lines@.len() - i,
    {
        proof {
            assert(lines@[i as int]@ == views_of(lines@)[i as int]);
            assert(rows.take(i as int + 1).drop_last() =~~= rows.take(i as int));
            assert(rows.take(i as int + 1).last() == rows[i as int]);
        }
        let line = &lines[i];
        let chars = to_chars(line.as_str());
        let n = chars.len();
        let e = scan_digits(&chars, 0);
        let mut matched = false;
        if e > 0 && e < n && chars[e] == ':' {
            let g = e + 1;
            if g < n && chars[g] == ' ' {
                let f = scan_colon_free(&chars, g + 1);
                if f > g + 1 && f < n {
                    proof {
                        assert(link_line_match(rows[i as int]));
                    }
                    r.push(String::from_str(line.as_str().substring_char(g + 1, f)));
                    matched = true;
                }
            }
        }
        proof {
            if !matched {
                assert(!link_line_match(rows[i as int]));
            }
        }
        proof {
            assert(views_of(r@) =~~= spec_link_rows(rows.take(i as int + 1)));
        }
        i = i + 1;
    }
    proof {
        assert(rows.take(rows.len() as int) =~= rows);
    }
    r
}

} // verus!
