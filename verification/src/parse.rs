//! Splitting command output into lines and fields, and reading numbers.
use vstd::prelude::*;

use crate::text::{find_char, first_index_of, slice_chars};

verus! {

/// `line` without one trailing carriage return.
pub open spec fn strip_cr(line: Seq<char>) -> Seq<char> {
    if line.len() > 0 && line.last() == '\r' {
        line.drop_last()
    } else {
        line
    }
}

/// The lines of `s`, as `str::lines` yields them: split at each `\n`, a
/// trailing `\r` dropped from each, and no empty line after a final `\n`.
pub open spec fn spec_lines(s: Seq<char>) -> Seq<Seq<char>>
    decreases s.len(),
{
    if s.len() == 0 {
        seq![]
    } else {
        match first_index_of(s, '\n') {
            None => seq![strip_cr(s)],
            Some(i) => if 0 <= i < s.len() {
                seq![strip_cr(s.take(i))] + spec_lines(s.skip(i + 1))
            } else {
                seq![]
            },
        }
    }
}

/// The character sequences held by a vector of character vectors.
pub open spec fn nested_view(v: Seq<Vec<char>>) -> Seq<Seq<char>> {
    v.map_values(|x: Vec<char>| x@)
}

fn strip_cr_exec(v: Vec<char>) -> (r: Vec<char>)
    ensures
        r@ == strip_cr(v@),
{
    let mut v = v;
    if v.len() > 0 && v[v.len() - 1] == '\r' {
        v.pop();
    }
    v
}

/// Splits `s` into lines.
pub fn lines_of(s: &Vec<char>) -> (r: Vec<Vec<char>>)
    ensures
        nested_view(r@) == spec_lines(s@),
{
    let mut r: Vec<Vec<char>> = Vec::new();
    let mut rest: Vec<char> = slice_chars(s, 0, s.len());
    assert(rest@ =~= s@);
    while rest.len() > 0
        invariant
            nested_view(r@) + spec_lines(rest@) == spec_lines(s@),
        decreases rest.len(),
    {
        let ghost before = nested_view(r@);
        match find_char(&rest, '\n') {
            None => {
                let ghost whole = rest@;
                let line = strip_cr_exec(rest);
                r.push(line);
                rest = Vec::new();
                assert(nested_view(r@) =~= before + seq![strip_cr(whole)]);
                assert(spec_lines(rest@) =~= seq![]);
                assert(nested_view(r@) + spec_lines(rest@) =~= spec_lines(s@));
            },
            Some(i) => {
                let head = slice_chars(&rest, 0, i);
                let tail = slice_chars(&rest, i + 1, rest.len());
                assert(head@ =~= rest@.take(i as int));
                assert(tail@ =~= rest@.skip(i + 1));
                let ghost old_rest = rest@;
                let line = strip_cr_exec(head);
                r.push(line);
                rest = tail;
                assert(spec_lines(old_rest) == seq![strip_cr(old_rest.take(i as int))] + spec_lines(rest@));
                assert(nested_view(r@) =~= before + seq![strip_cr(old_rest.take(i as int))]);
                assert(nested_view(r@) + spec_lines(rest@) =~= before + spec_lines(old_rest));
            },
        }
    }
    assert(spec_lines(rest@) =~= seq![]);
    assert(nested_view(r@) =~= spec_lines(s@));
    r
}

/// Unicode white space, as `char::is_whitespace` defines it.
pub open spec fn is_ws(c: char) -> bool {
    c == '\t' || c == '\n' || c == '\u{0B}' || c == '\u{0C}' || c == '\r' || c == ' ' || c == '\u{85}'
        || c == '\u{A0}' || c == '\u{1680}' || ('\u{2000}' <= c && c <= '\u{200A}') || c == '\u{2028}'
        || c == '\u{2029}' || c == '\u{202F}' || c == '\u{205F}' || c == '\u{3000}'
}

pub fn is_ws_char(c: char) -> (r: bool)
    ensures
        r == is_ws(c),
{
    c == '\t' || c == '\n' || c == '\u{0B}' || c == '\u{0C}' || c == '\r' || c == ' ' || c == '\u{85}'
        || c == '\u{A0}' || c == '\u{1680}' || ('\u{2000}' <= c && c <= '\u{200A}') || c == '\u{2028}'
        || c == '\u{2029}' || c == '\u{202F}' || c == '\u{205F}' || c == '\u{3000}'
}

/// How many characters at the start of `s` are not white space.
pub open spec fn word_len(s: Seq<char>) -> nat
    decreases s.len(),
{
    if s.len() == 0 || is_ws(s[0]) {
        0
    } else {
        1 + word_len(s.drop_first())
    }
}

/// The white-space separated words of `s`, as `str::split_whitespace`
/// yields them.
pub open spec fn spec_words(s: Seq<char>) -> Seq<Seq<char>>
    decreases s.len(),
{
    if s.len() == 0 {
        seq![]
    } else if is_ws(s[0]) {
        spec_words(s.drop_first())
    } else {
        let k = word_len(s);
        if 0 < k <= s.len() {
            seq![s.take(k as int)] + spec_words(s.skip(k as int))
        } else {
            seq![]
        }
    }
}

proof fn lemma_word_len(s: Seq<char>, i: int)
    requires
        0 <= i <= s.len(),
        forall|j: int| 0 <= j < i ==> !is_ws(#[trigger] s[j]),
        i == s.len() || is_ws(s[i]),
    ensures
        word_len(s) == i,
    decreases i,
{
    if i > 0 {
        assert forall|j: int| 0 <= j < i - 1 implies !is_ws(#[trigger] s.drop_first()[j]) by {
            assert(s.drop_first()[j] == s[j + 1]);
        }
        if i < s.len() {
            assert(s.drop_first()[i - 1] == s[i]);
        }
        lemma_word_len(s.drop_first(), i - 1);
    }
}

/// Splits `s` into its white-space separated words.
pub fn words_of(s: &Vec<char>) -> (r: Vec<Vec<char>>)
    ensures
        nested_view(r@) == spec_words(s@),
{
    let mut r: Vec<Vec<char>> = Vec::new();
    let mut i: usize = 0;
    assert(s@.skip(0) =~= s@);
    while i < s.len()
        invariant
            i <= s@.len(),
            nested_view(r@) + spec_words(s@.skip(i as int)) == spec_words(s@),
        decreases s.len() - i,
    {
        let ghost rest = s@.skip(i as int);
        if is_ws_char(s[i]) {
            assert(rest.drop_first() =~= s@.skip(i + 1));
            i += 1;
        } else {
            let mut j = i;
            while j < s.len() && !is_ws_char(s[j])
                invariant
                    i <= j <= s@.len(),
                    forall|k: int| i <= k < j ==> !is_ws(#[trigger] s@[k]),
                decreases s.len() - j,
            {
                j += 1;
            }
            let word = slice_chars(s, i, j);
            proof {
                assert forall|k: int| 0 <= k < j - i implies !is_ws(#[trigger] rest[k]) by {
                    assert(rest[k] == s@[i + k]);
                }
                if j < s.len() {
                    assert(rest[j - i] == s@[j as int]);
                }
                lemma_word_len(rest, j - i);
                assert(rest.take(j - i) =~= word@);
                assert(rest.skip(j - i) =~= s@.skip(j as int));
            }
            let ghost before = nested_view(r@);
            r.push(word);
            assert(nested_view(r@) =~= before + seq![word@]);
            assert(nested_view(r@) + spec_words(s@.skip(j as int)) =~= before + spec_words(rest));
            i = j;
        }
    }
    assert(s@.skip(i as int) =~= seq![]);
    assert(nested_view(r@) =~= spec_words(s@));
    r
}

/// The value of a string of decimal digits.
pub open spec fn digits_value(s: Seq<char>) -> nat
    decreases s.len(),
{
    if s.len() == 0 {
        0
    } else {
        digits_value(s.drop_last()) * 10 + ((s.last() as u32) - ('0' as u32)) as nat
    }
}

pub open spec fn all_digits(s: Seq<char>) -> bool {
    forall|i: int| 0 <= i < s.len() ==> '0' <= #[trigger] s[i] && s[i] <= '9'
}

/// What `u32::from_str` accepts: an optional `+`, then at least one decimal
/// digit, with a value that fits.
pub open spec fn spec_parse_u32(s: Seq<char>) -> Option<u32> {
    let d = if s.len() > 0 && s[0] == '+' { s.drop_first() } else { s };
    if d.len() > 0 && all_digits(d) && digits_value(d) <= u32::MAX {
        Some(digits_value(d) as u32)
    } else {
        None
    }
}

proof fn lemma_digits_value_grows(s: Seq<char>, c: char)
    requires
        all_digits(s.push(c)),
    ensures
        digits_value(s.push(c)) >= digits_value(s),
        digits_value(s.push(c)) == digits_value(s) * 10 + ((c as u32) - ('0' as u32)),
{
    assert(s.push(c).drop_last() =~= s);
}

/// Reads a `u32` the way `str::parse::<u32>` does.
pub fn parse_u32(s: &Vec<char>) -> (r: Option<u32>)
    ensures
        r == spec_parse_u32(s@),
{
    let start: usize = if s.len() > 0 && s[0] == '+' { 1 } else { 0 };
    let ghost d = if s@.len() > 0 && s@[0] == '+' { s@.drop_first() } else { s@ };
    assert(d =~= s@.skip(start as int));
    if start >= s.len() {
        return None;
    }
    let mut value: u64 = 0;
    let mut i = start;
    while i < s.len()
        invariant
            start <= i <= s@.len(),
            start == (if s@.len() > 0 && s@[0] == '+' { 1int } else { 0int }),
            d == (if s@.len() > 0 && s@[0] == '+' { s@.drop_first() } else { s@ }),
            d =~= s@.skip(start as int),
            all_digits(s@.subrange(start as int, i as int)),
            value == digits_value(s@.subrange(start as int, i as int)),
            value <= u32::MAX,
        decreases s.len() - i,
    {
        let c = s[i];
        assert(s@.subrange(start as int, i + 1) =~= s@.subrange(start as int, i as int).push(c));
        if c < '0' || c > '9' {
            assert(!all_digits(d)) by {
                assert(d[i - start] == c);
            }
            return None;
        }
        proof {
            lemma_digits_value_grows(s@.subrange(start as int, i as int), c);
        }
        let digit = (c as u32 - '0' as u32) as u64;
        let next = value * 10 + digit;
        if next > u32::MAX as u64 {
            proof {
                lemma_prefix_bound(d, i - start + 1);
                assert(s@.subrange(start as int, i + 1) =~= d.take(i - start + 1));
            }
            return None;
        }
        value = next;
        i += 1;
    }
    assert(s@.subrange(start as int, i as int) =~= d);
    Some(value as u32)
}

/// The value of all of `d` is at least the value of any prefix.
proof fn lemma_prefix_bound(d: Seq<char>, k: int)
    requires
        0 <= k <= d.len(),
    ensures
        all_digits(d) ==> digits_value(d) >= digits_value(d.take(k)),
    decreases d.len() - k,
{
    if k < d.len() && all_digits(d) {
        lemma_prefix_bound(d, k + 1);
        assert(d.take(k + 1) =~= d.take(k).push(d[k]));
        assert(all_digits(d.take(k + 1)));
        lemma_digits_value_grows(d.take(k), d[k]);
    } else if k == d.len() {
        assert(d.take(k) =~= d);
    }
}

} // verus!
