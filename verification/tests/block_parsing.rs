//! Tests of the block-level text pattern: field extraction, space collapsing,
//! time validation, and each distinct parse error.

use bahntafel::parse::match_block;
use bahntafel::{parse_block, BahnError, TimeOfDay};

fn link(url: &str) -> Option<Option<String>> {
    Some(Some(String::from(url)))
}

#[test]
fn sample_block_extracts_all_four_fields() {
    let text = "ICE 693   >> Hamburg Hbf\n\n08:15\n\n08:22";
    let entry = parse_block(text, &link("/details/1")).unwrap();
    assert_eq!(entry.line.0, "ICE 693");
    assert_eq!(entry.end.0, "Hamburg Hbf");
    assert_eq!(entry.plan_arrival, TimeOfDay { hour: 8, minute: 15 });
    assert_eq!(entry.exp_arrival, TimeOfDay { hour: 8, minute: 22 });
    assert_eq!(entry.details_url, "/details/1");
}

#[test]
fn match_block_keeps_raw_groups() {
    let groups = match_block("ICE 693   >> Hamburg Hbf\n\n08:15\n\n08:22").unwrap();
    assert_eq!(groups.0, "ICE 693");
    assert_eq!(groups.1, "Hamburg Hbf");
    assert_eq!(groups.2, "08:15");
    assert_eq!(groups.3, "08:22");
}

#[test]
fn inner_space_runs_in_the_line_collapse_to_one() {
    let text = "S   4  Nord >> Altona\n\n10:00\n\n10:05";
    let entry = parse_block(text, &link("/d")).unwrap();
    assert_eq!(entry.line.0, "S 4 Nord");
    assert_eq!(entry.end.0, "Altona");
}

#[test]
fn inbound_marker_is_accepted_too() {
    let text = "RE 7 << Dessau Hbf\n09:00\n09:01";
    let entry = parse_block(text, &link("/d")).unwrap();
    assert_eq!(entry.line.0, "RE 7");
    assert_eq!(entry.end.0, "Dessau Hbf");
    assert_eq!(entry.plan_arrival, TimeOfDay { hour: 9, minute: 0 });
}

#[test]
fn fields_spread_over_text_nodes_still_match() {
    // The marker and the destination may sit on lines of their own.
    let text = "\nICE 693   \n>> Hamburg Hbf\n08:15\n08:22";
    let entry = parse_block(text, &link("/d")).unwrap();
    assert_eq!(entry.line.0, "ICE 693");
    assert_eq!(entry.end.0, "Hamburg Hbf");
}

#[test]
fn trailing_text_after_the_times_is_ignored() {
    let text = "IC 2 >> Koeln\n11:30\n11:45\nGleis 7";
    let entry = parse_block(text, &link("/d")).unwrap();
    assert_eq!(entry.exp_arrival, TimeOfDay { hour: 11, minute: 45 });
}

#[test]
fn missing_marker_is_a_pattern_mismatch() {
    let text = "ICE 693 Hamburg Hbf\n\n08:15\n\n08:22";
    let err = parse_block(text, &link("/d")).unwrap_err();
    assert_eq!(err, BahnError::PatternMismatch);
}

#[test]
fn times_on_the_same_line_are_a_pattern_mismatch() {
    let text = "ICE 693 >> Hamburg Hbf\n08:15 08:22";
    let err = parse_block(text, &link("/d")).unwrap_err();
    assert_eq!(err, BahnError::PatternMismatch);
}

#[test]
fn missing_link_is_its_own_error() {
    let text = "ICE 693   >> Hamburg Hbf\n\n08:15\n\n08:22";
    let err = parse_block(text, &None).unwrap_err();
    assert_eq!(err, BahnError::MissingLink);
    assert_ne!(err, BahnError::PatternMismatch);
}

#[test]
fn link_without_target_is_its_own_error() {
    let text = "ICE 693   >> Hamburg Hbf\n\n08:15\n\n08:22";
    let err = parse_block(text, &Some(None)).unwrap_err();
    assert_eq!(err, BahnError::MissingLinkTarget);
    assert_ne!(err, BahnError::MissingLink);
}

#[test]
fn out_of_range_hour_is_invalid_time() {
    let text = "ICE 693 >> Hamburg Hbf\n25:00\n08:00";
    let err = parse_block(text, &link("/d")).unwrap_err();
    assert_eq!(err, BahnError::InvalidTime);
}

#[test]
fn out_of_range_minute_is_invalid_time() {
    let text = "ICE 693 >> Hamburg Hbf\n08:15\n08:60";
    let err = parse_block(text, &link("/d")).unwrap_err();
    assert_eq!(err, BahnError::InvalidTime);
}

#[test]
fn boundary_time_values_are_accepted() {
    let text = "N 1 >> End\n23:59\n00:00";
    let entry = parse_block(text, &link("/d")).unwrap();
    assert_eq!(entry.plan_arrival, TimeOfDay { hour: 23, minute: 59 });
    assert_eq!(entry.exp_arrival, TimeOfDay { hour: 0, minute: 0 });
}
