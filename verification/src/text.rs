//! Line- and column-oriented text primitives.
//!
//! The external tools print human-readable tables; everything this library
//! extracts from them is a line of the output or a whitespace-delimited
//! column of such a line.  This module gives those two notions an exact
//! mathematical definition (`spec_lines`, `spec_tokens`) and verified
//! executable splitters, plus decimal rendering of an unsigned number.

use vstd::prelude::*;

verus! {

/// The six ASCII whitespace characters that delimit columns.
pub open spec fn is_space(c: char) -> bool {
    c == ' ' || c == '\t' || c == '\n' || c == '\r' || c == '\u{b}' || c == '\u{c}'
}

fn is_space_char(c: char) -> (r: bool)
    ensures
        r == is_space(c),
{
    c == ' ' || c == '\t' || c == '\n' || c == '\r' || c == '\u{b}' || c == '\u{c}'
}

/// The views of a sequence of owned strings.
pub open spec fn views_of(v: Seq<String>) -> Seq<Seq<char>> {
    v.map_values(|s: String| s@)
}

/// The maximal runs of non-whitespace characters of `s`, in order.
pub open spec fn spec_tokens(s: Seq<char>) -> Seq<Seq<char>>
    decreases s.len(),
{
    if s.len() == 0 {
        Seq::empty()
    } else {
        let rest = spec_tokens(s.drop_last());
        let c = s.last();
        if is_space(c) {
            rest
        } else if s.len() >= 2 && !is_space(s[s.len() - 2]) {
            rest.update(rest.len() - 1, rest.last().push(c))
        } else {
            rest.push(seq![c])
        }
    }
}

/// Every token is a nonempty run, and text ending in a non-space character
/// has at least one token.
pub proof fn lemma_tokens_shape(s: Seq<char>)
    ensures
        forall|k: int|
            0 <= k < spec_tokens(s).len() ==> #[trigger] spec_tokens(s)[k].len() > 0,
        s.len() > 0 && !is_space(s.last()) ==> spec_tokens(s).len() > 0,
    decreases s.len(),
{
    if s.len() > 0 {
        lemma_tokens_shape(s.drop_last());
        let rest = spec_tokens(s.drop_last());
        let c = s.last();
        if !is_space(c) && s.len() >= 2 && !is_space(s[s.len() - 2]) {
            assert(s.drop_last().last() == s[s.len() - 2]);
            assert(rest.len() > 0);
            let t = rest.update(rest.len() - 1, rest.last().push(c));
            assert forall|k: int| 0 <= k < t.len() implies #[trigger] t[k].len() > 0 by {
                if k != rest.len() - 1 {
                    assert(t[k] == rest[k]);
                }
            }
        }
    }
}

/// The subranges of `s` named by a sequence of index pairs.
pub open spec fn spans_seqs(s: Seq<char>, spans: Seq<(usize, usize)>) -> Seq<Seq<char>> {
    spans.map_values(|p: (usize, usize)| s.subrange(p.0 as int, p.1 as int))
}

/// The start/end index pairs of the tokens of `chars`.
#[verifier::rlimit(8)]
fn token_spans(chars: &Vec<char>) -> (r: Vec<(usize, usize)>)
    ensures
        spans_seqs(chars@, r@) == spec_tokens(chars@),
        forall|k: int|
            0 <= k < r@.len() ==> #[trigger] r@[k].0 < r@[k].1 && r@[k].1 <= chars@.len(),
{
    let n = chars.len();
    let mut spans: Vec<(usize, usize)> = Vec::new();
    let mut i: usize = 0;
    proof {
        assert(spans_seqs(chars@, spans@) =~~= spec_tokens(chars@.take(0)));
    }
    while i < n
        invariant
            i <= n,
            n == chars@.len(),
            spans_seqs(chars@, spans@) == spec_tokens(chars@.take(i as int)),
            forall|k: int|
                0 <= k < spans@.len() ==> (#[trigger] spans@[k]).0 < spans@[k].1
                    && spans@[k].1 <= i,
            i > 0 && !is_space(chars@[i as int - 1]) ==> spans@.len() > 0
                && spans@.last().1 == i,
        decreases n - i,
    {
        let c = chars[i];
        proof {
            assert(chars@.take(i as int + 1).drop_last() =~= chars@.take(i as int));
            assert(chars@.take(i as int + 1).last() == chars@[i as int]);
        }
        if !is_space_char(c) {
            if i > 0 && !is_space_char(chars[i - 1]) {
                // the current token grows by one character
                let ghost old_spans = spans@;
                let last = spans.pop().unwrap();
                spans.push((last.0, i + 1));
                proof {
                    let t = spec_tokens(chars@.take(i as int));
                    assert(chars@.subrange(last.0 as int, i as int + 1) =~= chars@.subrange(
                        last.0 as int,
                        last.1 as int,
                    ).push(chars@[i as int]));
                    assert(spans@ =~= old_spans.update(
                        old_spans.len() - 1,
                        (last.0, (i + 1) as usize),
                    ));
                    assert(spans_seqs(chars@, spans@) =~~= t.update(
                        t.len() - 1,
                        t.last().push(chars@[i as int]),
                    ));
                    assert(spans_seqs(chars@, spans@) =~~= spec_tokens(
                        chars@.take(i as int + 1),
                    ));
                    assert forall|k: int|
                        0 <= k < spans@.len() implies (#[trigger] spans@[k]).0 < spans@[k].1
                            && spans@[k].1 <= i + 1 by {
                        if k < old_spans.len() - 1 {
                            assert(spans@[k] == old_spans[k]);
                        }
                    }
                }
            } else {
                // a new token starts at i
                let ghost old_spans = spans@;
                spans.push((i, i + 1));
                proof {
                    let t = spec_tokens(chars@.take(i as int));
                    assert(chars@.subrange(i as int, i as int + 1) =~= seq![chars@[i as int]]);
                    assert(spans_seqs(chars@, spans@) =~~= t.push(seq![chars@[i as int]]));
                    assert(spans_seqs(chars@, spans@) =~~= spec_tokens(
                        chars@.take(i as int + 1),
                    ));
                    assert forall|k: int|
                        0 <= k < spans@.len() implies (#[trigger] spans@[k]).0 < spans@[k].1
                            && spans@[k].1 <= i + 1 by {
                        if k < old_spans.len() {
                            assert(spans@[k] == old_spans[k]);
                        }
                    }
                }
            }
        } else {
            proof {
                assert(spans_seqs(chars@, spans@) =~~= spec_tokens(chars@.take(i as int + 1)));
            }
        }
        i = i + 1;
    }
    proof {
        assert(chars@.take(n as int) =~= chars@);
    }
    spans
}

/// The characters of `s` as a vector.
pub fn to_chars(s: &str) -> (r: Vec<char>)
    ensures
        r@ == s@,
{
    let mut r: Vec<char> = Vec::new();
    for c in it: s.chars()
        invariant
            it.seq() == s@,
            r@ == it.seq().take(it.index() as int),
    {
        r.push(c);
    }
    proof {
        assert(r@ =~= s@);
    }
    r
}

/// Copies the named subranges of `s` out as owned strings.
fn spans_to_strings(s: &str, spans: &Vec<(usize, usize)>) -> (r: Vec<String>)
    requires
        forall|k: int|
            0 <= k < spans@.len() ==> #[trigger] spans@[k].0 <= spans@[k].1
                && spans@[k].1 <= s@.len(),
    ensures
        views_of(r@) == spans_seqs(s@, spans@),
{
    let mut r: Vec<String> = Vec::new();
    let mut k: usize = 0;
    while k < spans.len()
        invariant
            k <= spans@.len(),
            r@.len() == k,
            forall|j: int|
                0 <= j < spans@.len() ==> #[trigger] spans@[j].0 <= spans@[j].1
                    && spans@[j].1 <= s@.len(),
            forall|j: int|
                0 <= j < k ==> #[trigger] r@[j]@ == s@.subrange(
                    spans@[j].0 as int,
                    spans@[j].1 as int,
                ),
        decreases spans@.len() - k,
    {
        let (a, b) = spans[k];
        r.push(String::from_str(s.substring_char(a, b)));
        k = k + 1;
    }
    proof {
        assert(views_of(r@) =~~= spans_seqs(s@, spans@));
    }
    r
}

/// The whitespace-delimited columns of `s`, as owned strings.
pub fn split_tokens(s: &str) -> (r: Vec<String>)
    ensures
        views_of(r@) == spec_tokens(s@),
{
    let chars = to_chars(s);
    let spans = token_spans(&chars);
    spans_to_strings(s, &spans)
}

/// The lines of `s` split at every newline, keeping a final unterminated
/// segment; always at least one (possibly empty) segment.
pub open spec fn spec_raw_lines(s: Seq<char>) -> Seq<Seq<char>>
    decreases s.len(),
{
    if s.len() == 0 {
        seq![Seq::<char>::empty()]
    } else {
        let rest = spec_raw_lines(s.drop_last());
        if s.last() == '\n' {
            rest.push(Seq::empty())
        } else {
            rest.update(rest.len() - 1, rest.last().push(s.last()))
        }
    }
}

/// The lines of `s`: newline-separated segments, without a trailing empty
/// segment after a final newline.
pub open spec fn spec_lines(s: Seq<char>) -> Seq<Seq<char>> {
    let raw = spec_raw_lines(s);
    if raw.last().len() == 0 {
        raw.drop_last()
    } else {
        raw
    }
}

/// The start/end index pairs of the lines of `chars`.
#[verifier::rlimit(8)]
fn line_spans(chars: &Vec<char>) -> (r: Vec<(usize, usize)>)
    ensures
        spans_seqs(chars@, r@) == spec_lines(chars@),
        forall|k: int|
            0 <= k < r@.len() ==> #[trigger] r@[k].0 <= r@[k].1 && r@[k].1 <= chars@.len(),
{
    let n = chars.len();
    let mut spans: Vec<(usize, usize)> = Vec::new();
    let mut start: usize = 0;
    let mut i: usize = 0;
    proof {
        assert(spec_raw_lines(chars@.take(0)) =~~= spans_seqs(chars@, spans@).push(
            chars@.subrange(0, 0),
        ));
    }
    while i < n
        invariant
            start <= i <= n,
            n == chars@.len(),
            spec_raw_lines(chars@.take(i as int)) == spans_seqs(chars@, spans@).push(
                chars@.subrange(start as int, i as int),
            ),
            forall|k: int|
                0 <= k < spans@.len() ==> #[trigger] spans@[k].0 <= spans@[k].1
                    && spans@[k].1 <= i,
        decreases n - i,
    {
        proof {
            assert(chars@.take(i as int + 1).drop_last() =~= chars@.take(i as int));
            assert(chars@.take(i as int + 1).last() == chars@[i as int]);
        }
        let ghost prev = spans_seqs(chars@, spans@);
        if chars[i] == '\n' {
            let ghost old_spans = spans@;
            spans.push((start, i));
            proof {
                assert(spans_seqs(chars@, spans@) =~~= prev.push(
                    chars@.subrange(start as int, i as int),
                ));
                assert(spec_raw_lines(chars@.take(i as int + 1)) =~~= spans_seqs(
                    chars@,
                    spans@,
                ).push(chars@.subrange(i as int + 1, i as int + 1)));
                assert forall|k: int|
                    0 <= k < spans@.len() implies #[trigger] spans@[k].0 <= spans@[k].1
                        && spans@[k].1 <= i + 1 by {
                    if k < old_spans.len() {
                        assert(spans@[k] == old_spans[k]);
                    }
                }
            }
            start = i + 1;
        } else {
            proof {
                let raw = spec_raw_lines(chars@.take(i as int));
                assert(raw.last() == chars@.subrange(start as int, i as int));
                assert(chars@.subrange(start as int, i as int).push(chars@[i as int])
                    =~= chars@.subrange(start as int, i as int + 1));
                assert(raw.update(raw.len() - 1, raw.last().push(chars@[i as int]))
                    =~~= prev.push(chars@.subrange(start as int, i as int + 1)));
            }
        }
        i = i + 1;
    }
    proof {
        assert(chars@.take(n as int) =~= chars@);
    }
    if start < n {
        let ghost old_spans = spans@;
        spans.push((start, n));
        proof {
            assert(chars@.subrange(start as int, n as int).len() > 0);
            assert(spans_seqs(chars@, spans@) =~~= spans_seqs(chars@, old_spans).push(
                chars@.subrange(start as int, n as int),
            ));
            assert(spans_seqs(chars@, spans@) =~~= spec_lines(chars@));
        }
    } else {
        proof {
            let raw = spec_raw_lines(chars@);
            assert(raw.last() == chars@.subrange(start as int, n as int));
            assert(raw.last().len() == 0);
            assert(raw.drop_last() =~~= spans_seqs(chars@, spans@));
        }
    }
    spans
}

/// The lines of `s`, as owned strings.
pub fn split_lines(s: &str) -> (r: Vec<String>)
    ensures
        views_of(r@) == spec_lines(s@),
{
    let chars = to_chars(s);
    let spans = line_spans(&chars);
    spans_to_strings(s, &spans)
}

/// The decimal digit character for a value below ten.
pub open spec fn spec_digit_char(d: int) -> char {
    if d == 0 {
        '0'
    } else if d == 1 {
        '1'
    } else if d == 2 {
        '2'
    } else if d == 3 {
        '3'
    } else if d == 4 {
        '4'
    } else if d == 5 {
        '5'
    } else if d == 6 {
        '6'
    } else if d == 7 {
        '7'
    } else if d == 8 {
        '8'
    } else {
        '9'
    }
}

/// The decimal rendering of a nonnegative number, most significant digit
/// first, without leading zeros (a single `'0'` for zero).
pub open spec fn spec_decimal(n: int) -> Seq<char>
    decreases n,
{
    if n < 10 {
        seq![spec_digit_char(n)]
    } else {
        spec_decimal(n / 10).push(spec_digit_char(n % 10))
    }
}

fn digit_str(d: u32) -> (r: &'static str)
    requires
        d < 10,
    ensures
        r@ == seq![spec_digit_char(d as int)],
{
    let r = match d {
        0 => "0",
        1 => "1",
        2 => "2",
        3 => "3",
        4 => "4",
        5 => "5",
        6 => "6",
        7 => "7",
        8 => "8",
        _ => "9",
    };
    proof {
        reveal_strlit("0");
        reveal_strlit("1");
        reveal_strlit("2");
        reveal_strlit("3");
        reveal_strlit("4");
        reveal_strlit("5");
        reveal_strlit("6");
        reveal_strlit("7");
        reveal_strlit("8");
        reveal_strlit("9");
        assert(r@ =~= seq![spec_digit_char(d as int)]);
    }
    r
}

fn push_decimal(s: &mut String, n: u32)
    ensures
        final(s)@ == old(s)@ + spec_decimal(n as int),
    decreases n,
{
    if n >= 10 {
        push_decimal(s, n / 10);
    }
    s.append(digit_str(n % 10));
    proof {
        assert(final(s)@ =~= old(s)@ + spec_decimal(n as int));
    }
}

/// The decimal rendering of `n` as an owned string.
pub fn u32_to_string(n: u32) -> (r: String)
    ensures
        r@ == spec_decimal(n as int),
{
    let mut s = String::new();
    push_decimal(&mut s, n);
    proof {
        assert(s@ =~= spec_decimal(n as int));
    }
    s
}

} // verus!
