//! End-to-end tests of the HTML pipeline: real documents through the HTML
//! block extraction and the block parser.

use bahntafel::{parse_timetable, BahnError, Line, Station, TimeOfDay};

#[test]
fn empty_document_yields_an_empty_list() {
    let entries = parse_timetable("<html><body></body></html>").unwrap();
    assert!(entries.is_empty());
}

#[test]
fn document_without_matching_blocks_yields_an_empty_list() {
    let html = "<html><body><div class=\"other\">ICE 693 >> X\n08:15\n08:22</div></body></html>";
    let entries = parse_timetable(html).unwrap();
    assert!(entries.is_empty());
}

#[test]
fn single_block_is_extracted() {
    let html = "<html><body>\
        <div class=\"sqdetails\">ICE 693   <a href=\"/details/1\">&gt;&gt; Hamburg Hbf</a><br>08:15<br>08:22</div>\
        </body></html>";
    let entries = parse_timetable(html).unwrap();
    assert_eq!(entries.len(), 1);
    assert_eq!(entries[0].line.0, "ICE 693");
    assert_eq!(entries[0].end.0, "Hamburg Hbf");
    assert_eq!(entries[0].plan_arrival, TimeOfDay { hour: 8, minute: 15 });
    assert_eq!(entries[0].exp_arrival, TimeOfDay { hour: 8, minute: 22 });
    assert_eq!(entries[0].details_url, "/details/1");
}

#[test]
fn entries_keep_document_order() {
    let html = "<html><body>\
        <div class=\"sqdetails\">ICE 693   <a href=\"/a\">&gt;&gt; Hamburg Hbf</a><br>08:15<br>08:22</div>\
        <div class=\"sqdetails\">RE 7 <a href=\"/b\">&lt;&lt; Dessau Hbf</a><br>09:00<br>09:01</div>\
        <div class=\"sqdetails\">S   4  Nord <a href=\"/c\">&gt;&gt; Altona</a><br>10:00<br>10:05</div>\
        </body></html>";
    let entries = parse_timetable(html).unwrap();
    assert_eq!(entries.len(), 3);
    assert_eq!(entries[0].line.0, "ICE 693");
    assert_eq!(entries[0].details_url, "/a");
    assert_eq!(entries[1].line.0, "RE 7");
    assert_eq!(entries[1].end.0, "Dessau Hbf");
    assert_eq!(entries[1].details_url, "/b");
    assert_eq!(entries[2].line.0, "S 4 Nord");
    assert_eq!(entries[2].details_url, "/c");
}

#[test]
fn block_without_hyperlink_fails_with_missing_link() {
    let html = "<html><body>\
        <div class=\"sqdetails\">ICE 693   &gt;&gt; Hamburg Hbf<br>08:15<br>08:22</div>\
        </body></html>";
    let err = parse_timetable(html).unwrap_err();
    assert_eq!(err, BahnError::MissingLink);
}

#[test]
fn hyperlink_without_target_fails_with_missing_link_target() {
    let html = "<html><body>\
        <div class=\"sqdetails\">ICE 693   <a>&gt;&gt; Hamburg Hbf</a><br>08:15<br>08:22</div>\
        </body></html>";
    let err = parse_timetable(html).unwrap_err();
    assert_eq!(err, BahnError::MissingLinkTarget);
}

#[test]
fn one_bad_block_aborts_the_whole_parse() {
    let html = "<html><body>\
        <div class=\"sqdetails\">ICE 693   <a href=\"/a\">&gt;&gt; Hamburg Hbf</a><br>08:15<br>08:22</div>\
        <div class=\"sqdetails\">RE 7 <a href=\"/b\">&gt;&gt; Dessau Hbf</a><br>25:00<br>09:01</div>\
        </body></html>";
    let err = parse_timetable(html).unwrap_err();
    assert_eq!(err, BahnError::InvalidTime);
}

#[test]
fn malformed_markup_does_not_abort_parsing() {
    // Unclosed tags: the tolerant HTML parse still finds the block.
    let html = "<html><body><p><div class=\"sqdetails\">ICE 1 <a href=\"/x\">&gt;&gt; Kiel<br>07:00<br>07:03</div>";
    let entries = parse_timetable(html).unwrap();
    assert_eq!(entries.len(), 1);
    assert_eq!(entries[0].end.0, "Kiel");
}

#[test]
fn string_wrappers_hold_their_text() {
    assert_eq!(Station::from(String::from("Hackescher Markt (S), Berlin")).0,
        "Hackescher Markt (S), Berlin");
    assert_eq!(Line::from(String::from("ICE 693")).0, "ICE 693");
}
