use tinymesh_cc_tool::mk_module_description::MkModuleDescription;
use tinymesh_cc_tool::mk_module_description::ParseError;
use tinymesh_cc_tool::module_description_parser::parse_module_description;

#[test]
fn test_parse_custom_string() {
    let custom_file_content = "\
// TinyMesh module description\n\
[DEVICE_MODEL]\n\
RF TM4070.3\n\
[TESTMODE NUMBER]\n\
2\n\
[M 0x00 NAME]\n\
RF Channel // factory channel\n";
    let result = parse_module_description(custom_file_content);
    assert_eq!(result.get("DEVICE_MODEL").unwrap(), "RF TM4070.3");
    assert_eq!(result.get("TESTMODE NUMBER").unwrap(), "2");
    assert_eq!(result.get("M 0x00 NAME").unwrap(), "RF Channel");
    assert!(result.get("NO SUCH KEY").is_none());
}

#[test]
fn test_parse_multiline_body_keeps_newlines() {
    let text = "[TESTMODE 1 HINT]\nfirst line\nsecond line\n\n[NEXT]\nx\n";
    let result = parse_module_description(text);
    assert_eq!(result.get("TESTMODE 1 HINT").unwrap(), "first line\nsecond line");
    assert_eq!(result.get("NEXT").unwrap(), "x");
}

#[test]
fn test_parse_comment_only_lines_are_skipped() {
    let text = "// leading comment\n[A]\n// a full comment line\nvalue // trailing\n";
    let result = parse_module_description(text);
    assert_eq!(result.get("A").unwrap(), "value");
}

#[test]
fn test_parse_crlf_line_endings() {
    let text = "[A]\r\none\r\ntwo\r\n";
    let result = parse_module_description(text);
    assert_eq!(result.get("A").unwrap(), "one\ntwo");
}

#[test]
fn test_parse_duplicate_section_last_wins() {
    let text = "[K]\nfirst\n[K]\nsecond\n";
    let result = parse_module_description(text);
    assert_eq!(result.get("K").unwrap(), "second");
    assert_eq!(result.len(), 1);
}

#[test]
fn test_parse_final_section_without_body_is_dropped() {
    let text = "[A]\nv\n[EMPTY]\n";
    let result = parse_module_description(text);
    assert_eq!(result.get("A").unwrap(), "v");
    assert!(result.get("EMPTY").is_none());
}

#[test]
fn test_cell_round_trip() {
    let text = "\
[M 0x05 NAME]\n\
Foo\n\
[M 0x05 MIN_MAX]\n\
0 200\n\
[M 0x05 DEF]\n\
10\n";
    let md = MkModuleDescription::new(text).unwrap();
    assert_eq!(md.cells.len(), 256);
    let cell = &md.cells[5];
    assert_eq!(cell.address, 5);
    assert_eq!(cell.name, "Foo");
    assert_eq!(cell.min_value, 0);
    assert_eq!(cell.max_value, 200);
    assert_eq!(cell.default_value, 10);
    assert_eq!(cell.current_value, 10);
    // Untouched slots keep their defaults and know their address.
    assert_eq!(md.cells[6].address, 6);
    assert_eq!(md.cells[6].name, "");
}

#[test]
fn test_testmodes_defaults() {
    let text = "\
[TESTMODE NUMBER]\n\
2\n\
[TESTMODE 1 NAME]\n\
Echo\n";
    let md = MkModuleDescription::new(text).unwrap();
    assert_eq!(md.number_of_testmodes, 2);
    assert_eq!(md.testmodes.len(), 2);
    assert_eq!(md.testmodes[0].testmode_id, 1);
    assert_eq!(md.testmodes[0].name, "Echo");
    assert_eq!(md.testmodes[1].testmode_id, 2);
    assert_eq!(md.testmodes[1].name, "");
    assert_eq!(md.testmodes[1].description, "");
    assert_eq!(md.testmodes[1].sequence_on, "");
    assert_eq!(md.testmodes[1].sequence_off, "");
}

#[test]
fn test_quickmode_sequences() {
    let text = "\
[QUICKMODE NUMBER]\n\
1\n\
[QUICKMODE 1 NAME]\n\
Fast\n\
[QUICKMODE 1 SEQUENCE_ON]\n\
aG #>\n\
[QUICKMODE 1 SEQUENCE_OFF]\n\
aH #>\n";
    let md = MkModuleDescription::new(text).unwrap();
    assert_eq!(md.number_of_quickmodes, 1);
    assert_eq!(md.quickmodes.len(), 1);
    assert_eq!(md.quickmodes[0].name, "Fast");
    assert_eq!(md.quickmodes[0].sequence_on, "aG #>");
    assert_eq!(md.quickmodes[0].sequence_off, "aH #>");
}

#[test]
fn test_editable_and_locked_cells() {
    let text = "\
[EDITABLE_CELLS]\n\
0x05 7 bad 0x10\n\
[LOCKED_CELLS]\n\
1 0x02\n";
    let md = MkModuleDescription::new(text).unwrap();
    assert_eq!(md.editable_cells, vec![5, 7, 16]);
    assert_eq!(md.locked_cells, vec![1, 2]);
}

#[test]
fn test_device_model_and_residual_keys() {
    let text = "[DEVICE_MODEL]\nRF TM4070\n[SOMETHING ELSE]\nleftover\n";
    let md = MkModuleDescription::new(text).unwrap();
    assert_eq!(md.device_model, "RF TM4070");
    assert_eq!(md.unknown_data.get("SOMETHING ELSE").unwrap(), "leftover");
    assert!(md.unknown_data.get("DEVICE_MODEL").is_none());
}

#[test]
fn test_bad_count_is_a_parse_error() {
    let text = "[TESTMODE NUMBER]\nabc\n";
    assert_eq!(MkModuleDescription::new(text).unwrap_err(), ParseError::BadInteger);
}

#[test]
fn test_bad_default_is_a_parse_error() {
    let text = "[M 0x05 DEF]\n300\n";
    assert_eq!(MkModuleDescription::new(text).unwrap_err(), ParseError::BadInteger);
}

#[test]
fn test_bad_min_max_is_a_parse_error() {
    let text = "[C 0x05 MIN_MAX]\nnospace\n";
    assert_eq!(MkModuleDescription::new(text).unwrap_err(), ParseError::BadInteger);
}

#[test]
fn test_allow_list_and_calibration_cells() {
    let text = "[C 0x03 ALLOW]\n1 2 250\n[C 0x03 NAME]\nCal\n";
    let md = MkModuleDescription::new(text).unwrap();
    assert_eq!(md.calibration_cells[3].allowed_values, vec![1, 2, 250]);
    assert_eq!(md.calibration_cells[3].name, "Cal");
    assert!(md.unknown_data.get("C 0x03 ALLOW").is_none());
}

#[test]
fn test_cell_table_grows_to_highest_declared_address() {
    let text = "[M 0x10A NAME]\nBeyond\n";
    let md = MkModuleDescription::new(text).unwrap();
    assert_eq!(md.cells.len(), 267);
    assert_eq!(md.cells[266].address, 266);
    assert_eq!(md.cells[266].name, "Beyond");
}
