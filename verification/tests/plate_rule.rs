use vehicle_filter::error::PipelineError;
use vehicle_filter::plate::check_plate;

#[test]
fn plate_with_a_then_zero_passes() {
    assert_eq!(check_plate("AT-001-B"), Ok(true));
}

#[test]
fn plate_without_zero_in_second_section_fails() {
    assert_eq!(check_plate("A-924-VW"), Ok(false));
}

#[test]
fn plate_without_a_in_first_section_fails() {
    assert_eq!(check_plate("BT-001-A"), Ok(false));
}

#[test]
fn plate_without_dash_is_malformed() {
    assert_eq!(check_plate("ABC"), Err(PipelineError::MalformedPlate));
}

#[test]
fn plate_without_dash_is_malformed_even_without_an_a() {
    assert_eq!(check_plate("XYZ"), Err(PipelineError::MalformedPlate));
}

#[test]
fn empty_plate_is_malformed() {
    assert_eq!(check_plate(""), Err(PipelineError::MalformedPlate));
}

#[test]
fn lower_case_a_does_not_count() {
    assert_eq!(check_plate("at-001-B"), Ok(false));
}

#[test]
fn letter_o_is_not_a_zero() {
    assert_eq!(check_plate("A-O-B"), Ok(false));
}

#[test]
fn two_sections_are_enough() {
    assert_eq!(check_plate("A-0"), Ok(true));
}

#[test]
fn empty_second_section_holds_no_zero() {
    assert_eq!(check_plate("A-"), Ok(false));
    assert_eq!(check_plate("A--0"), Ok(false));
}

#[test]
fn empty_first_section_holds_no_a() {
    assert_eq!(check_plate("-0"), Ok(false));
    assert_eq!(check_plate("-A-0"), Ok(false));
}

#[test]
fn zero_in_a_later_section_does_not_count() {
    assert_eq!(check_plate("A-B-0"), Ok(false));
}

#[test]
fn a_in_a_later_section_does_not_count() {
    assert_eq!(check_plate("B-0-A"), Ok(false));
}

#[test]
fn a_and_zero_may_stand_anywhere_in_their_sections() {
    assert_eq!(check_plate("XXA-990-Q"), Ok(true));
    assert_eq!(check_plate("AXX-099-Q"), Ok(true));
}

#[test]
fn plates_beyond_ascii_are_read_by_character() {
    assert_eq!(check_plate("ÄA-é0-ß"), Ok(true));
    assert_eq!(check_plate("Ä-0"), Ok(false));
}
