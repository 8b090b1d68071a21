//! Low-level scanning over a block's concatenated text: character classes,
//! directional-marker search, whitespace and newline runs, line boundaries,
//! the `HH:MM` token shape, and space collapsing.

use vstd::prelude::*;
use vstd::string::StrSliceExecFns;
use vstd::string::StringExecFns;

verus! {

/// The characters the block pattern treats as whitespace separators.
pub open spec fn is_space_char(c: char) -> bool {
    c == ' ' || c == '\t' || c == '\n' || c == '\r' || c == '\u{b}' || c == '\u{c}'
}

/// A decimal digit character.
pub open spec fn is_digit_char(c: char) -> bool {
    48 <= c as u32 && c as u32 <= 57
}

fn ch_is_space(c: char) -> (r: bool)
    ensures
        r == is_space_char(c),
{
    c == ' ' || c == '\t' || c == '\n' || c == '\r' || c == '\u{b}' || c == '\u{c}'
}

fn ch_is_digit(c: char) -> (r: bool)
    ensures
        r == is_digit_char(c),
{
    let v = c as u32;
    48 <= v && v <= 57
}

/// Whether a directional marker (`">>"` or `"<<"`) stands at position `i`.
pub open spec fn is_marker_at(t: Seq<char>, i: int) -> bool {
    0 <= i && i + 2 <= t.len() && ((t[i] == '>' && t[i + 1] == '>') || (t[i] == '<' && t[i + 1]
        == '<'))
}

/// The position of the first directional marker at or after `i`, if any.
pub open spec fn find_marker_from(t: Seq<char>, i: int) -> Option<int>
    recommends
        0 <= i,
    decreases t.len() - i,
{
    if i + 2 > t.len() {
        None
    } else if is_marker_at(t, i) {
        Some(i)
    } else {
        find_marker_from(t, i + 1)
    }
}

/// The first position at or after `i` holding no whitespace (or the end).
pub open spec fn skip_ws_from(t: Seq<char>, i: int) -> int
    recommends
        0 <= i <= t.len(),
    decreases t.len() - i,
{
    if i < 0 || i >= t.len() {
        i
    } else if is_space_char(t[i]) {
        skip_ws_from(t, i + 1)
    } else {
        i
    }
}

/// The first position at or after `i` holding no newline (or the end).
pub open spec fn skip_nl_from(t: Seq<char>, i: int) -> int
    recommends
        0 <= i <= t.len(),
    decreases t.len() - i,
{
    if i < 0 || i >= t.len() {
        i
    } else if t[i] == '\n' {
        skip_nl_from(t, i + 1)
    } else {
        i
    }
}

/// The position of the first newline at or after `i`, or the end.
pub open spec fn find_nl_from(t: Seq<char>, i: int) -> int
    recommends
        0 <= i <= t.len(),
    decreases t.len() - i,
{
    if i < 0 || i >= t.len() {
        i
    } else if t[i] == '\n' {
        i
    } else {
        find_nl_from(t, i + 1)
    }
}

/// The start of the line that position `i` stands on: the position right
/// after the last newline before `i`, or the start of the text.
pub open spec fn line_start_before(t: Seq<char>, i: int) -> int
    recommends
        i <= t.len(),
    decreases i,
{
    if i <= 0 {
        0
    } else if t[i - 1] == '\n' {
        i
    } else {
        line_start_before(t, i - 1)
    }
}

/// The end of `t[..i]` once every trailing whitespace character is stripped.
pub open spec fn strip_ws_end(t: Seq<char>, i: int) -> int
    recommends
        i <= t.len(),
    decreases i,
{
    if i <= 0 {
        0
    } else if is_space_char(t[i - 1]) {
        strip_ws_end(t, i - 1)
    } else {
        i
    }
}

/// Whether an `HH:MM`-shaped token stands at position `i`.
pub open spec fn is_hhmm_at(t: Seq<char>, i: int) -> bool {
    &&& 0 <= i
    &&& i + 5 <= t.len()
    &&& is_digit_char(t[i])
    &&& is_digit_char(t[i + 1])
    &&& t[i + 2] == ':'
    &&& is_digit_char(t[i + 3])
    &&& is_digit_char(t[i + 4])
}

/// Finds the first directional marker in `t`.
pub fn find_marker(t: &str) -> (r: Option<usize>)
    ensures
        match r {
            Some(j) => find_marker_from(t@, 0) == Some(j as int) && j + 2 <= t@.len(),
            None => find_marker_from(t@, 0) is None,
        },
{
    let n = t.unicode_len();
    let mut i: usize = 0;
    while n >= 2 && i <= n - 2
        invariant
            n == t@.len(),
            i <= n,
            find_marker_from(t@, 0) == find_marker_from(t@, i as int),
        decreases n - i,
    {
        let c0 = t.get_char(i);
        let c1 = t.get_char(i + 1);
        if (c0 == '>' && c1 == '>') || (c0 == '<' && c1 == '<') {
            return Some(i);
        }
        i += 1;
    }
    None
}

/// Skips the whitespace run starting at `i`.
pub fn skip_ws(t: &str, i: usize) -> (r: usize)
    requires
        i <= t@.len(),
    ensures
        r == skip_ws_from(t@, i as int),
        i <= r <= t@.len(),
{
    let n = t.unicode_len();
    let mut j: usize = i;
    while j < n && ch_is_space(t.get_char(j))
        invariant
            n == t@.len(),
            i <= j <= n,
            skip_ws_from(t@, i as int) == skip_ws_from(t@, j as int),
        decreases n - j,
    {
        j += 1;
    }
    j
}

/// Skips the newline run starting at `i`.
pub fn skip_nl(t: &str, i: usize) -> (r: usize)
    requires
        i <= t@.len(),
    ensures
        r == skip_nl_from(t@, i as int),
        i <= r <= t@.len(),
{
    let n = t.unicode_len();
    let mut j: usize = i;
    while j < n && t.get_char(j) == '\n'
        invariant
            n == t@.len(),
            i <= j <= n,
            skip_nl_from(t@, i as int) == skip_nl_from(t@, j as int),
        decreases n - j,
    {
        j += 1;
    }
    j
}

/// Finds the first newline at or after `i`, or the end.
pub fn find_nl(t: &str, i: usize) -> (r: usize)
    requires
        i <= t@.len(),
    ensures
        r == find_nl_from(t@, i as int),
        i <= r <= t@.len(),
{
    let n = t.unicode_len();
    let mut j: usize = i;
    while j < n && t.get_char(j) != '\n'
        invariant
            n == t@.len(),
            i <= j <= n,
            find_nl_from(t@, i as int) == find_nl_from(t@, j as int),
        decreases n - j,
    {
        j += 1;
    }
    j
}

/// Finds the start of the line that position `i` stands on.
pub fn line_start_at(t: &str, i: usize) -> (r: usize)
    requires
        i <= t@.len(),
    ensures
        r == line_start_before(t@, i as int),
        r <= i,
{
    let mut j: usize = i;
    while j > 0 && t.get_char(j - 1) != '\n'
        invariant
            i <= t@.len(),
            j <= i,
            line_start_before(t@, i as int) == line_start_before(t@, j as int),
        decreases j,
    {
        j -= 1;
    }
    j
}

/// Strips trailing whitespace from `t[..i]`.
pub fn strip_ws_end_at(t: &str, i: usize) -> (r: usize)
    requires
        i <= t@.len(),
    ensures
        r == strip_ws_end(t@, i as int),
        r <= i,
{
    let mut j: usize = i;
    while j > 0 && ch_is_space(t.get_char(j - 1))
        invariant
            i <= t@.len(),
            j <= i,
            strip_ws_end(t@, i as int) == strip_ws_end(t@, j as int),
        decreases j,
    {
        j -= 1;
    }
    j
}

/// Whether an `HH:MM`-shaped token stands at position `i`.
pub fn hhmm_at(t: &str, i: usize) -> (r: bool)
    ensures
        r == is_hhmm_at(t@, i as int),
{
    let n = t.unicode_len();
    if n < 5 || i > n - 5 {
        return false;
    }
    ch_is_digit(t.get_char(i)) && ch_is_digit(t.get_char(i + 1)) && t.get_char(i + 2) == ':'
        && ch_is_digit(t.get_char(i + 3)) && ch_is_digit(t.get_char(i + 4))
}

/// Every run of consecutive spaces collapsed to a single space; all other
/// characters kept as they stand.
pub open spec fn spec_collapse_spaces(s: Seq<char>) -> Seq<char>
    decreases s.len(),
{
    if s.len() == 0 {
        Seq::empty()
    } else if s[0] == ' ' && s.len() >= 2 && s[1] == ' ' {
        spec_collapse_spaces(s.skip(1))
    } else {
        seq![s[0]] + spec_collapse_spaces(s.skip(1))
    }
}

/// Collapses every run of consecutive spaces in `s` to one space.
pub fn collapse_spaces(s: &str) -> (r: String)
    ensures
        r@ == spec_collapse_spaces(s@),
{
    let n = s.unicode_len();
    let mut out = String::new();
    proof {
        assert(s@.skip(0) =~= s@);
        assert(out@ + spec_collapse_spaces(s@) =~= spec_collapse_spaces(s@));
    }
    let mut i: usize = 0;
    while i < n
        invariant
            n == s@.len(),
            i <= n,
            out@ + spec_collapse_spaces(s@.skip(i as int)) =~= spec_collapse_spaces(s@),
        decreases n - i,
    {
        let c = s.get_char(i);
        let keep = if c == ' ' && i + 1 < n {
            s.get_char(i + 1) != ' '
        } else {
            true
        };
        if keep {
            out.append(s.substring_char(i, i + 1));
            proof {
                assert(s@.subrange(i as int, i + 1) =~= seq![s@[i as int]]);
            }
        }
        proof {
            assert(s@.skip(i as int).skip(1) =~= s@.skip(i + 1));
        }
        i += 1;
    }
    proof {
        assert(s@.skip(n as int) =~= Seq::<char>::empty());
        assert(out@ =~= out@ + spec_collapse_spaces(s@.skip(n as int)));
    }
    out
}

} // verus!
