//! The response parser: matching the concatenated text of each connection
//! block against the fixed text pattern, extracting the four field groups,
//! and producing structured connection entries in document order.

use vstd::prelude::*;
use vstd::string::StrSliceExecFns;
use vstd::string::StringExecFns;

use crate::error::{BahnError, BahnResult};
use crate::model::{Line, Station, TimeOfDay};
use crate::scan::{
    collapse_spaces, find_marker, find_marker_from, find_nl, find_nl_from, hhmm_at, is_digit_char,
    is_hhmm_at, is_marker_at, line_start_at, line_start_before, skip_nl, skip_nl_from, skip_ws,
    skip_ws_from, spec_collapse_spaces, strip_ws_end, strip_ws_end_at,
};

verus! {

/// The mathematical content of a [`ConnectionEntry`].
pub struct ConnectionEntryView {
    pub line: Seq<char>,
    pub end: Seq<char>,
    pub plan_arrival: TimeOfDay,
    pub exp_arrival: TimeOfDay,
    pub details_url: Seq<char>,
}

/// One structured connection record, derived from one self-contained block of
/// the timetable page.
#[derive(Clone, Debug)]
pub struct ConnectionEntry {
    /// The line, with runs of spaces collapsed to one.
    pub line: Line,
    /// The station this train terminates at.
    pub end: Station,
    /// Planned arrival time.
    pub plan_arrival: TimeOfDay,
    /// Expected arrival time after taking delay into account.
    pub exp_arrival: TimeOfDay,
    /// A url with detailed information about this connection, kept opaque.
    pub details_url: String,
}

impl View for ConnectionEntry {
    type V = ConnectionEntryView;

    open spec fn view(&self) -> ConnectionEntryView {
        ConnectionEntryView {
            line: self.line.0@,
            end: self.end.0@,
            plan_arrival: self.plan_arrival,
            exp_arrival: self.exp_arrival,
            details_url: self.details_url@,
        }
    }
}

/// The four raw text groups the fixed pattern extracts from a block's
/// concatenated text, in order: the line name (not yet space-collapsed),
/// everything on its line before the whitespace that precedes the first
/// directional marker; the destination, the text after the marker's trailing
/// whitespace up to the next line break; and the two `HH:MM` tokens, each
/// standing at the start of the next non-blank line. Any text that does not
/// carry all four groups in this shape is a pattern mismatch.
pub open spec fn spec_match_block(t: Seq<char>) -> Result<
    (Seq<char>, Seq<char>, Seq<char>, Seq<char>),
    BahnError,
> {
    match find_marker_from(t, 0) {
        None => Err(BahnError::PatternMismatch),
        Some(i0) => {
            let le = strip_ws_end(t, i0);
            let ls = line_start_before(t, le);
            if le == i0 || ls == le {
                // no whitespace between the line name and the marker, or an
                // empty line group
                Err(BahnError::PatternMismatch)
            } else {
                let ds = skip_ws_from(t, i0 + 2);
                if ds == i0 + 2 || ds >= t.len() {
                    // no whitespace after the marker, or nothing after it
                    Err(BahnError::PatternMismatch)
                } else {
                    let de = find_nl_from(t, ds);
                    if de >= t.len() {
                        // no line break after the destination
                        Err(BahnError::PatternMismatch)
                    } else {
                        let p1 = skip_nl_from(t, de);
                        if !is_hhmm_at(t, p1) {
                            Err(BahnError::PatternMismatch)
                        } else if p1 + 5 >= t.len() || t[p1 + 5] != '\n' {
                            // no line break after the planned time
                            Err(BahnError::PatternMismatch)
                        } else {
                            let p2 = skip_nl_from(t, p1 + 5);
                            if !is_hhmm_at(t, p2) {
                                Err(BahnError::PatternMismatch)
                            } else {
                                Ok(
                                    (
                                        t.subrange(ls, le),
                                        t.subrange(ds, de),
                                        t.subrange(p1, p1 + 5),
                                        t.subrange(p2, p2 + 5),
                                    ),
                                )
                            }
                        }
                    }
                }
            }
        },
    }
}

/// Matches a block's concatenated text against the fixed pattern and hands
/// back the four extracted groups.
pub fn match_block(t: &str) -> (r: Result<(String, String, String, String), BahnError>)
    ensures
        ({
            let s = spec_match_block(t@);
            match r {
                Ok(g) => s is Ok && g.0@ == s->Ok_0.0 && g.1@ == s->Ok_0.1 && g.2@ == s->Ok_0.2
                    && g.3@ == s->Ok_0.3,
                Err(e) => s == Err::<(Seq<char>, Seq<char>, Seq<char>, Seq<char>), BahnError>(e),
            }
        }),
{
    let n = t.unicode_len();
    let i0 = match find_marker(t) {
        Some(i0) => i0,
        None => {
            return Err(BahnError::PatternMismatch);
        },
    };
    let le = strip_ws_end_at(t, i0);
    let ls = line_start_at(t, le);
    if le == i0 || ls == le {
        return Err(BahnError::PatternMismatch);
    }
    let ds = skip_ws(t, i0 + 2);
    if ds == i0 + 2 || ds >= n {
        return Err(BahnError::PatternMismatch);
    }
    let de = find_nl(t, ds);
    if de >= n {
        return Err(BahnError::PatternMismatch);
    }
    let p1 = skip_nl(t, de);
    if !hhmm_at(t, p1) {
        return Err(BahnError::PatternMismatch);
    }
    if p1 + 5 >= n || t.get_char(p1 + 5) != '\n' {
        return Err(BahnError::PatternMismatch);
    }
    let p2 = skip_nl(t, p1 + 5);
    if !hhmm_at(t, p2) {
        return Err(BahnError::PatternMismatch);
    }
    let line = t.substring_char(ls, le).to_owned();
    let end = t.substring_char(ds, de).to_owned();
    let plan = t.substring_char(p1, p1 + 5).to_owned();
    let exp = t.substring_char(p2, p2 + 5).to_owned();
    Ok((line, end, plan, exp))
}

/// The numeric value of a digit character.
pub open spec fn spec_digit_val(c: char) -> int {
    c as u32 - 48
}

/// The time of day an `HH:MM` token denotes, or the invalid-time error when
/// the hour or minute field is out of range.
pub open spec fn spec_time_of(s: Seq<char>) -> Result<TimeOfDay, BahnError>
    recommends
        s.len() == 5,
{
    let h = spec_digit_val(s[0]) * 10 + spec_digit_val(s[1]);
    let m = spec_digit_val(s[3]) * 10 + spec_digit_val(s[4]);
    if 0 <= h <= 23 && 0 <= m <= 59 {
        Ok(TimeOfDay { hour: h as u8, minute: m as u8 })
    } else {
        Err(BahnError::InvalidTime)
    }
}

fn digit_val(c: char) -> (r: u8)
    requires
        is_digit_char(c),
    ensures
        r as int == spec_digit_val(c),
        r < 10,
{
    (c as u32 - 48) as u8
}

/// Parses one extracted `HH:MM` token.
pub fn parse_hhmm(s: &str) -> (r: Result<TimeOfDay, BahnError>)
    requires
        s@.len() == 5,
        is_hhmm_at(s@, 0),
    ensures
        r == spec_time_of(s@),
        r is Ok ==> r->Ok_0.wf(),
{
    let h = digit_val(s.get_char(0)) * 10 + digit_val(s.get_char(1));
    let m = digit_val(s.get_char(3)) * 10 + digit_val(s.get_char(4));
    if h <= 23 && m <= 59 {
        Ok(TimeOfDay { hour: h, minute: m })
    } else {
        Err(BahnError::InvalidTime)
    }
}

/// The link information extracted from a block: `None` when the block holds
/// no hyperlink element, `Some(None)` when the hyperlink has no target
/// attribute, and `Some(Some(url))` otherwise.
pub open spec fn link_view(l: Option<Option<String>>) -> Option<Option<Seq<char>>> {
    match l {
        None => None,
        Some(None) => Some(None),
        Some(Some(s)) => Some(Some(s@)),
    }
}

/// The entry one block parses to, or the error it fails with: the missing
/// link errors come first, then a pattern mismatch of the text, then an
/// out-of-range time; otherwise the entry, with the line group
/// space-collapsed and the destination and link kept verbatim.
pub open spec fn spec_parse_block(text: Seq<char>, link: Option<Option<Seq<char>>>) -> Result<
    ConnectionEntryView,
    BahnError,
> {
    match link {
        None => Err(BahnError::MissingLink),
        Some(None) => Err(BahnError::MissingLinkTarget),
        Some(Some(url)) => match spec_match_block(text) {
            Err(e) => Err(e),
            Ok(g) => {
                let pt = spec_time_of(g.2);
                let et = spec_time_of(g.3);
                if pt is Err || et is Err {
                    Err(BahnError::InvalidTime)
                } else {
                    Ok(
                        ConnectionEntryView {
                            line: spec_collapse_spaces(g.0),
                            end: g.1,
                            plan_arrival: pt->Ok_0,
                            exp_arrival: et->Ok_0,
                            details_url: url,
                        },
                    )
                }
            },
        },
    }
}

/// Parses one connection block from its concatenated text and its extracted
/// link information.
pub fn parse_block(text: &str, link: &Option<Option<String>>) -> (r: BahnResult<ConnectionEntry>)
    ensures
        ({
            let s = spec_parse_block(text@, link_view(*link));
            match r {
                Ok(e) => s is Ok && e@ == s->Ok_0,
                Err(err) => s == Err::<ConnectionEntryView, BahnError>(err),
            }
        }),
{
    let url: &String = match link {
        None => {
            return Err(BahnError::MissingLink);
        },
        Some(None) => {
            return Err(BahnError::MissingLinkTarget);
        },
        Some(Some(url)) => url,
    };
    let (line_raw, end, plan, exp) = match match_block(text) {
        Ok(g) => g,
        Err(e) => {
            return Err(e);
        },
    };
    let plan_arrival = match parse_hhmm(plan.as_str()) {
        Ok(p) => p,
        Err(_) => {
            return Err(BahnError::InvalidTime);
        },
    };
    let exp_arrival = match parse_hhmm(exp.as_str()) {
        Ok(p) => p,
        Err(_) => {
            return Err(BahnError::InvalidTime);
        },
    };
    Ok(
        ConnectionEntry {
            line: Line(collapse_spaces(line_raw.as_str())),
            end: Station(end),
            plan_arrival,
            exp_arrival,
            details_url: url.clone(),
        },
    )
}

/// The text content of a block: the text of its descendant text nodes joined
/// with one newline inserted before each node.
pub open spec fn spec_join_texts(ts: Seq<Seq<char>>) -> Seq<char>
    decreases ts.len(),
{
    if ts.len() == 0 {
        Seq::empty()
    } else {
        spec_join_texts(ts.drop_last()) + seq!['\n'] + ts.last()
    }
}

/// The views of a block's text nodes.
pub open spec fn texts_view(ts: Seq<String>) -> Seq<Seq<char>> {
    ts.map_values(|s: String| s@)
}

/// Joins a block's text nodes, inserting one newline before each.
pub fn join_texts(ts: &Vec<String>) -> (r: String)
    ensures
        r@ == spec_join_texts(texts_view(ts@)),
{
    let ghost tv = texts_view(ts@);
    let mut out = String::new();
    let mut i: usize = 0;
    while i < ts.len()
        invariant
            i <= ts@.len(),
            tv == texts_view(ts@),
            out@ =~= spec_join_texts(tv.take(i as int)),
        decreases ts@.len() - i,
    {
        proof {
            reveal_strlit("\n");
        }
        out.append("\n");
        out.append(ts[i].as_str());
        proof {
            assert(tv.take(i + 1).drop_last() =~= tv.take(i as int));
        }
        i += 1;
    }
    proof {
        assert(tv.take(ts@.len() as int) =~= tv);
    }
    out
}

/// One raw block as mathematics: the views of its text nodes, and its link
/// information.
pub open spec fn block_view(b: (Vec<String>, Option<Option<String>>)) -> (
    Seq<Seq<char>>,
    Option<Option<Seq<char>>>,
) {
    (texts_view(b.0@), link_view(b.1))
}

/// The raw connection blocks a timetable document holds: one entry per
/// element carrying the connection-block marker class, in document order;
/// for each, the text of its descendant text nodes in order, and the target
/// attribute of its first hyperlink.
pub uninterp spec fn html_blocks_of(html: Seq<char>) -> Seq<
    (Seq<Seq<char>>, Option<Option<Seq<char>>>),
>;

/// Relies on scraper (`Html::parse_document`, `Selector::parse`, `select`,
/// `text`, `attr`): tolerant HTML parsing of the document, then one entry
/// per element matching the fixed block selector `div.sqdetails`, in
/// document order; per element, its descendant text nodes in order and the
/// `href` attribute of its first descendant `a` element. The two selectors
/// are fixed and valid, so `Selector::parse` cannot fail, and the result is
/// a function of the document text alone.
#[verifier::external_body]
fn html_blocks(html: &str) -> (r: Vec<(Vec<String>, Option<Option<String>>)>)
    ensures
        r@.map_values(|b: (Vec<String>, Option<Option<String>>)| block_view(b)) == html_blocks_of(
            html@,
        ),
{
    let doc = scraper::Html::parse_document(html);
    let block_sel = scraper::Selector::parse("div.sqdetails").unwrap();
    let link_sel = scraper::Selector::parse("a").unwrap();
    doc.select(&block_sel)
        .map(
            |e|
                (
                    e.text().map(|t| t.to_owned()).collect(),
                    e.select(&link_sel).next().map(|l| l.value().attr("href").map(|h| h.to_owned())),
                ),
        )
        .collect()
}

/// The entry one raw block parses to: its text nodes joined, then matched
/// and extracted.
pub open spec fn spec_block_entry(b: (Seq<Seq<char>>, Option<Option<Seq<char>>>)) -> Result<
    ConnectionEntryView,
    BahnError,
> {
    spec_parse_block(spec_join_texts(b.0), b.1)
}

/// The views of a list of entries.
pub open spec fn entries_view(es: Seq<ConnectionEntry>) -> Seq<ConnectionEntryView> {
    es.map_values(|e: ConnectionEntry| e@)
}

/// What a parse of a block list owes: on success, one entry per block, in
/// the blocks' own order; on failure, the error of the first failing block,
/// with every block before it parsing cleanly. No partial result survives a
/// failure.
pub open spec fn spec_parse_outcome(
    bs: Seq<(Seq<Seq<char>>, Option<Option<Seq<char>>>)>,
    r: Result<Seq<ConnectionEntryView>, BahnError>,
) -> bool {
    match r {
        Ok(es) => {
            &&& es.len() == bs.len()
            &&& forall|i: int|
                0 <= i < bs.len() ==> #[trigger] spec_block_entry(bs[i]) is Ok && es[i]
                    == spec_block_entry(bs[i])->Ok_0
        },
        Err(e) => exists|i: int|
            {
                &&& 0 <= i < bs.len()
                &&& #[trigger] spec_block_entry(bs[i]) == Err::<ConnectionEntryView, BahnError>(e)
                &&& forall|j: int| 0 <= j < i ==> #[trigger] spec_block_entry(bs[j]) is Ok
            },
    }
}

/// Parses a list of raw connection blocks into entries, in order; the first
/// block that fails aborts the whole parse with its error.
pub fn parse_blocks(blocks: &Vec<(Vec<String>, Option<Option<String>>)>) -> (r: BahnResult<
    Vec<ConnectionEntry>,
>)
    ensures
        ({
            let bs = blocks@.map_values(|b: (Vec<String>, Option<Option<String>>)| block_view(b));
            match r {
                Ok(es) => spec_parse_outcome(bs, Ok(entries_view(es@))),
                Err(e) => spec_parse_outcome(bs, Err(e)),
            }
        }),
{
    let ghost bs = blocks@.map_values(|b: (Vec<String>, Option<Option<String>>)| block_view(b));
    let mut out: Vec<ConnectionEntry> = Vec::new();
    let mut i: usize = 0;
    while i < blocks.len()
        invariant
            i <= blocks@.len(),
            bs == blocks@.map_values(|b: (Vec<String>, Option<Option<String>>)| block_view(b)),
            out@.len() == i,
            forall|j: int|
                0 <= j < i ==> #[trigger] spec_block_entry(bs[j]) is Ok && entries_view(out@)[j]
                    == spec_block_entry(bs[j])->Ok_0,
        decreases blocks@.len() - i,
    {
        let b = &blocks[i];
        let text = join_texts(&b.0);
        match parse_block(text.as_str(), &b.1) {
            Ok(entry) => {
                out.push(entry);
            },
            Err(e) => {
                proof {
                    assert(spec_block_entry(bs[i as int]) == Err::<ConnectionEntryView, BahnError>(
                        e,
                    ));
                }
                return Err(e);
            },
        }
        i += 1;
    }
    Ok(out)
}

/// Parses the HTML document body of a timetable response into the ordered
/// list of connection entries it holds. A document with no matching block
/// yields the empty list, not an error; otherwise the entries follow the
/// blocks' document order, and the first block that fails aborts the parse
/// with its error.
pub fn parse_timetable(html: &str) -> (r: BahnResult<Vec<ConnectionEntry>>)
    ensures
        ({
            let bs = html_blocks_of(html@);
            match r {
                Ok(es) => spec_parse_outcome(bs, Ok(entries_view(es@))),
                Err(e) => spec_parse_outcome(bs, Err(e)),
            }
        }),
        html_blocks_of(html@).len() == 0 ==> r is Ok && r->Ok_0@.len() == 0,
{
    let blocks = html_blocks(html);
    parse_blocks(&blocks)
}

proof fn lemma_find_marker_none(t: Seq<char>, i: int)
    requires
        0 <= i,
        forall|j: int| !is_marker_at(t, j),
    ensures
        find_marker_from(t, i) is None,
    decreases t.len() - i,
{
    if i + 2 <= t.len() {
        lemma_find_marker_none(t, i + 1);
    }
}

/// A block whose concatenated text holds no directional marker at all parses
/// to the pattern-mismatch error — never to a partially populated entry —
/// whatever link it carries.
pub proof fn lemma_no_marker_is_pattern_mismatch(text: Seq<char>, url: Seq<char>)
    requires
        forall|i: int| !is_marker_at(text, i),
    ensures
        spec_parse_block(text, Some(Some(url))) == Err::<ConnectionEntryView, BahnError>(
            BahnError::PatternMismatch,
        ),
{
    lemma_find_marker_none(text, 0);
}

/// A block without a hyperlink element parses to the missing-link error,
/// whatever its text — an error distinct from a text-pattern failure.
pub proof fn lemma_missing_link_is_distinct_error(text: Seq<char>)
    ensures
        spec_parse_block(text, None) == Err::<ConnectionEntryView, BahnError>(
            BahnError::MissingLink,
        ),
        spec_parse_block(text, None) != Err::<ConnectionEntryView, BahnError>(
            BahnError::PatternMismatch,
        ),
{
}

} // verus!
